//! GitHub remote recognition and API paging. Fetching is left to the caller.

use vstd::prelude::*;
use crate::text::{
    chars_of, contains, contains_exec, ends_with, ends_with_exec, find_from, find_from_exec,
    lemma_find_from, occurs_at, slice_chars, split_at_char, split_on, starts_with,
    starts_with_exec, string_of, views,
};

verus! {

/// Open issue and pull request counts of a GitHub repository.
#[derive(Debug, Clone, Copy, PartialEq, Eq, Structural)]
pub struct GitHubInfo {
    pub open_issues: usize,
    pub open_prs: usize,
}

/// `s` with every trailing copy of a non-empty `suffix` removed.
pub open spec fn trim_suffixes(s: Seq<char>, suffix: Seq<char>) -> Seq<char>
    decreases s.len(),
{
    if suffix.len() > 0 && ends_with(s, suffix) {
        trim_suffixes(s.subrange(0, s.len() - suffix.len()), suffix)
    } else {
        s
    }
}

/// Owner and repository from the part of a URL after the host.
pub open spec fn owner_and_repo(rest: Seq<char>) -> Option<(Seq<char>, Seq<char>)> {
    let parts = split_on(trim_suffixes(rest, ".git"@), '/');
    if parts.len() >= 2 { Some((parts[0], parts[1])) } else { None }
}

/// Owner and repository of an `https://github.com/` or `git@github.com:` URL.
pub open spec fn github_repo_of(url: Seq<char>) -> Option<(Seq<char>, Seq<char>)> {
    let https = "https://github.com/"@;
    let ssh = "git@github.com:"@;
    if starts_with(url, https) && owner_and_repo(url.subrange(https.len() as int, url.len() as int)) is Some {
        owner_and_repo(url.subrange(https.len() as int, url.len() as int))
    } else if starts_with(url, ssh) {
        owner_and_repo(url.subrange(ssh.len() as int, url.len() as int))
    } else {
        None
    }
}

fn trim_suffix_all(s: &Vec<char>, suffix: &Vec<char>) -> (r: Vec<char>)
    ensures
        r@ == trim_suffixes(s@, suffix@),
{
    let mut cur = slice_chars(s, 0, s.len());
    assert(cur@ =~= s@);
    while suffix.len() > 0 && ends_with_exec(&cur, suffix)
        invariant
            trim_suffixes(s@, suffix@) == trim_suffixes(cur@, suffix@),
        decreases cur@.len(),
    {
        cur = slice_chars(&cur, 0, cur.len() - suffix.len());
    }
    cur
}

fn owner_and_repo_exec(rest: &Vec<char>) -> (r: Option<(String, String)>)
    ensures
        match r {
            Some((o, n)) => owner_and_repo(rest@) == Some((o@, n@)),
            None => owner_and_repo(rest@) is None,
        },
{
    let git = chars_of(".git");
    let trimmed = trim_suffix_all(rest, &git);
    let parts = split_at_char(&trimmed, '/');
    if parts.len() >= 2 {
        assert(views(parts@)[0] == parts@[0]@);
        assert(views(parts@)[1] == parts@[1]@);
        Some((string_of(&parts[0]), string_of(&parts[1])))
    } else {
        None
    }
}

/// Owner and repository of a GitHub remote URL.
pub fn parse_github_url(url: &str) -> (r: Option<(String, String)>)
    ensures
        match r {
            Some((o, n)) => github_repo_of(url@) == Some((o@, n@)),
            None => github_repo_of(url@) is None,
        },
{
    let cs = chars_of(url);
    let https = chars_of("https://github.com/");
    let ssh = chars_of("git@github.com:");
    if starts_with_exec(&cs, &https) {
        let rest = slice_chars(&cs, https.len(), cs.len());
        let found = owner_and_repo_exec(&rest);
        if found.is_some() {
            return found;
        }
    }
    if starts_with_exec(&cs, &ssh) {
        let rest = slice_chars(&cs, ssh.len(), cs.len());
        return owner_and_repo_exec(&rest);
    }
    None
}

/// The digit value of a decimal digit character.
pub open spec fn digit_value(c: char) -> nat {
    (c as int - 48) as nat
}

pub open spec fn is_digit(c: char) -> bool {
    48 <= c as int <= 57
}

pub open spec fn all_digits(s: Seq<char>) -> bool {
    forall|i: int| 0 <= i < s.len() ==> is_digit(#[trigger] s[i])
}

/// The number a string of decimal digits denotes.
pub open spec fn digits_value(s: Seq<char>) -> nat
    decreases s.len(),
{
    if s.len() == 0 { 0 } else { digits_value(s.drop_last()) * 10 + digit_value(s.last()) }
}

/// What `str::parse::<usize>` accepts: an optional `+`, then at least one
/// decimal digit, denoting a value that fits in `usize`.
pub open spec fn parsed_usize(s: Seq<char>) -> Option<nat> {
    let d = if s.len() > 0 && s[0] == '+' { s.subrange(1, s.len() as int) } else { s };
    if d.len() > 0 && all_digits(d) && digits_value(d) <= usize::MAX {
        Some(digits_value(d))
    } else {
        None
    }
}

proof fn lemma_digits_value_grows(s: Seq<char>, i: int)
    requires
        0 <= i <= s.len(),
        all_digits(s),
    ensures
        digits_value(s.subrange(0, i)) <= digits_value(s),
    decreases s.len() - i,
{
    if i < s.len() {
        lemma_digits_value_grows(s, i + 1);
        assert(s.subrange(0, i + 1).drop_last() =~= s.subrange(0, i));
    } else {
        assert(s.subrange(0, i) =~= s);
    }
}

/// Parses a decimal `usize` as `str::parse` does.
pub fn parse_usize(s: &Vec<char>) -> (r: Option<usize>)
    ensures
        match r {
            Some(v) => parsed_usize(s@) == Some(v as nat),
            None => parsed_usize(s@) is None,
        },
{
    let d = if s.len() > 0 && s[0] == '+' { slice_chars(s, 1, s.len()) } else { slice_chars(s, 0, s.len()) };
    let ghost ds = if s@.len() > 0 && s@[0] == '+' { s@.subrange(1, s@.len() as int) } else { s@ };
    assert(d@ =~= ds);
    assert(parsed_usize(s@) == (if ds.len() > 0 && all_digits(ds) && digits_value(ds) <= usize::MAX {
        Some(digits_value(ds))
    } else {
        None
    }));
    if d.len() == 0 {
        return None;
    }
    let mut acc: u128 = 0;
    let mut i: usize = 0;
    while i < d.len()
        invariant
            d@ == ds,
            parsed_usize(s@) == (if ds.len() > 0 && all_digits(ds) && digits_value(ds) <= usize::MAX {
                Some(digits_value(ds))
            } else {
                None
            }),
            i <= d@.len(),
            acc == digits_value(d@.subrange(0, i as int)),
            acc <= usize::MAX,
            forall|j: int| 0 <= j < i ==> is_digit(#[trigger] d@[j]),
        decreases d@.len() - i,
    {
        let c = d[i];
        if !('0' <= c && c <= '9') {
            assert(!is_digit(d@[i as int]));
            assert(!all_digits(d@));
            return None;
        }
        let ghost next = d@.subrange(0, i + 1);
        assert(next.drop_last() =~= d@.subrange(0, i as int));
        let v = (c as u32 - 48) as u128;
        acc = acc * 10 + v;
        i = i + 1;
        if acc > usize::MAX as u128 {
            proof {
                if all_digits(d@) {
                    lemma_digits_value_grows(d@, i as int);
                }
            }
            return None;
        }
    }
    assert(d@.subrange(0, i as int) =~= d@);
    Some(acc as usize)
}

/// The text between the first and second `page=` of `part` (or to its end),
/// cut at the first `>`; absent without a `page=`.
pub open spec fn page_text(part: Seq<char>) -> Option<Seq<char>> {
    match find_from(part, 0, "page="@) {
        Some(k) => {
            let rest = part.subrange(k + 5, part.len() as int);
            let between = match find_from(rest, 0, "page="@) {
                Some(k2) => rest.subrange(0, k2),
                None => rest,
            };
            Some(split_on(between, '>')[0])
        },
        None => None,
    }
}

/// The page count of a part of a `Link` header, when it is the `last` link
/// and carries a number.
pub open spec fn last_page_of(part: Seq<char>) -> Option<nat> {
    if contains(part, "rel=\"last\""@) {
        match page_text(part) {
            Some(t) => parsed_usize(t),
            None => None,
        }
    } else {
        None
    }
}

/// The first part, from `i` on, that gives a last page.
pub open spec fn first_last_page(parts: Seq<Seq<char>>, i: int) -> nat
    decreases parts.len() - i,
{
    if i >= parts.len() {
        0
    } else {
        match last_page_of(parts[i]) {
            Some(n) => n,
            None => first_last_page(parts, i + 1),
        }
    }
}

/// The number of the last page named in a GitHub `Link` header, 0 when none.
pub open spec fn link_last_page(link: Seq<char>) -> nat {
    first_last_page(split_on(link, ','), 0)
}

fn last_page_exec(part: &Vec<char>) -> (r: Option<usize>)
    ensures
        match r {
            Some(n) => last_page_of(part@) == Some(n as nat),
            None => last_page_of(part@) is None,
        },
{
    let rel = chars_of("rel=\"last\"");
    if !contains_exec(part, &rel) {
        return None;
    }
    let page = chars_of("page=");
    proof {
        reveal_strlit("page=");
    }
    let f = find_from_exec(part, 0, &page);
    proof {
        lemma_find_from(part@, 0, page@);
    }
    match f {
        Some(k) => {
            assert(occurs_at(part@, k as int, page@));
            let plen = part.len();
            let rest = slice_chars(part, k + 5, plen);
            let f2 = find_from_exec(&rest, 0, &page);
            proof {
                lemma_find_from(rest@, 0, page@);
            }
            let between = match f2 {
                Some(k2) => {
                    assert(occurs_at(rest@, k2 as int, page@));
                    slice_chars(&rest, 0, k2)
                },
                None => rest,
            };
            let pieces = split_at_char(&between, '>');
            proof {
                crate::text::lemma_split_on_nonempty(between@, '>');
            }
            assert(views(pieces@)[0] == pieces@[0]@);
            parse_usize(&pieces[0])
        },
        None => None,
    }
}

/// The number of the last page named in a GitHub `Link` header, 0 when none.
pub fn parse_link_header(link: &str) -> (r: usize)
    ensures
        r == link_last_page(link@),
{
    let cs = chars_of(link);
    let parts = split_at_char(&cs, ',');
    let ghost ps = views(parts@);
    let mut i: usize = 0;
    while i < parts.len()
        invariant
            i <= parts@.len(),
            ps == views(parts@),
            ps == split_on(link@, ','),
            first_last_page(ps, 0) == first_last_page(ps, i as int),
        decreases parts@.len() - i,
    {
        assert(ps[i as int] == parts@[i as int]@);
        match last_page_exec(&parts[i]) {
            Some(n) => {
                return n;
            },
            None => {},
        }
        i = i + 1;
    }
    0
}

} // verus!
