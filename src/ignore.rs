//! Ignore rules: which paths a scan leaves out.
//!
//! Rules are evaluated in order and the last rule that selects a path decides;
//! a rule written with a leading `!` re-includes what it selects.

use vstd::prelude::*;
use crate::text::{
    chars_of, contains, contains_exec, ends_with, ends_with_exec, find_from, find_from_exec,
    lemma_find_from, lemma_split_on_nonempty, occurs_at, slice_chars, split_at_char, split_on,
    starts_with, starts_with_exec, string_of, views,
};

verus! {

/// Interior glob pieces `parts[i..end]` occur in `path` one after another,
/// without overlapping, the first at or after `pos`.
pub open spec fn pieces_placeable(path: Seq<char>, pos: int, parts: Seq<Seq<char>>, i: int, end: int) -> bool
    decreases end - i,
{
    if i >= end {
        true
    } else {
        exists|k: int| pos <= k && #[trigger] occurs_at(path, k, parts[i]) && pieces_placeable(
            path,
            k + parts[i].len(),
            parts,
            i + 1,
            end,
        )
    }
}

/// The search a matcher runs: each interior piece at its first occurrence at
/// or after where the previous one ended.
pub open spec fn pieces_in_order(path: Seq<char>, pos: int, parts: Seq<Seq<char>>, i: int, end: int) -> bool
    decreases end - i,
{
    if i >= end {
        true
    } else {
        match find_from(path, pos, parts[i]) {
            Some(k) => pieces_in_order(path, k + parts[i].len(), parts, i + 1, end),
            None => false,
        }
    }
}

proof fn lemma_placeable_from_earlier(path: Seq<char>, pos: int, later: int, parts: Seq<Seq<char>>, i: int, end: int)
    requires
        pos <= later,
        pieces_placeable(path, later, parts, i, end),
    ensures
        pieces_placeable(path, pos, parts, i, end),
{
    if i < end {
        let k = choose|k: int| later <= k && #[trigger] occurs_at(path, k, parts[i]) && pieces_placeable(
            path,
            k + parts[i].len(),
            parts,
            i + 1,
            end,
        );
        assert(pos <= k && occurs_at(path, k, parts[i]));
    }
}

/// Taking each piece at its first occurrence finds a placement exactly when
/// one exists.
pub proof fn lemma_first_occurrences_suffice(path: Seq<char>, pos: int, parts: Seq<Seq<char>>, i: int, end: int)
    requires
        0 <= pos,
    ensures
        pieces_in_order(path, pos, parts, i, end) == pieces_placeable(path, pos, parts, i, end),
    decreases end - i,
{
    if i < end {
        lemma_find_from(path, pos, parts[i]);
        match find_from(path, pos, parts[i]) {
            Some(k0) => {
                lemma_first_occurrences_suffice(path, k0 + parts[i].len(), parts, i + 1, end);
                if pieces_placeable(path, pos, parts, i, end) {
                    let k = choose|k: int| pos <= k && #[trigger] occurs_at(path, k, parts[i])
                        && pieces_placeable(path, k + parts[i].len(), parts, i + 1, end);
                    assert(k0 <= k);
                    lemma_placeable_from_earlier(path, k0 + parts[i].len(), k + parts[i].len(), parts, i + 1, end);
                }
                if pieces_in_order(path, pos, parts, i, end) {
                    assert(occurs_at(path, k0, parts[i]));
                }
            },
            None => {
                if pieces_placeable(path, pos, parts, i, end) {
                    let k = choose|k: int| pos <= k && #[trigger] occurs_at(path, k, parts[i])
                        && pieces_placeable(path, k + parts[i].len(), parts, i + 1, end);
                    assert(!occurs_at(path, k, parts[i]));
                }
            },
        }
    }
}

/// A `*` glob given by its pieces: the path starts with the first piece, the
/// interior pieces occur after it in order without overlapping, and the path
/// ends with the last piece.
pub open spec fn glob_pieces_match(path: Seq<char>, parts: Seq<Seq<char>>) -> bool {
    &&& starts_with(path, parts[0])
    &&& pieces_placeable(path, parts[0].len() as int, parts, 1, parts.len() - 1)
    &&& ends_with(path, parts.last())
}

/// The two sides of a pattern with exactly one `**` (counting non-overlapping
/// occurrences from the left).
pub open spec fn double_star_sides(p: Seq<char>) -> Option<(Seq<char>, Seq<char>)> {
    match find_from(p, 0, seq!['*', '*']) {
        Some(k) => {
            let rest = p.subrange(k + 2, p.len() as int);
            if find_from(rest, 0, seq!['*', '*']) is None {
                Some((p.subrange(0, k), rest))
            } else {
                None
            }
        },
        None => None,
    }
}

/// A pattern without a slash rule: `**`, `*` glob, or a path segment.
pub open spec fn simple_match_spec(path: Seq<char>, pat: Seq<char>) -> bool {
    match double_star_sides(pat) {
        Some((pre, suf)) => contains(path, pre) && ends_with(path, suf),
        None => if contains(pat, seq!['*']) {
            glob_pieces_match(path, split_on(pat, '*'))
        } else {
            path == pat || contains(path, seq!['/'] + pat) || ends_with(path, pat)
        },
    }
}

/// Whether a pattern (its `!` already removed) selects `path`.
pub open spec fn selects(path: Seq<char>, body: Seq<char>, is_dir: bool) -> bool {
    if ends_with(body, seq!['/']) {
        is_dir && simple_match_spec(path, body.drop_last())
    } else if starts_with(body, seq!['/']) {
        starts_with(path, body.subrange(1, body.len() as int))
    } else if contains(body, seq!['/']) {
        contains(path, body)
    } else {
        simple_match_spec(path, body)
    }
}

pub open spec fn is_negation(p: Seq<char>) -> bool {
    p.len() > 0 && p[0] == '!'
}

/// A pattern without its leading `!`.
pub open spec fn pattern_body(p: Seq<char>) -> Seq<char> {
    if is_negation(p) { p.subrange(1, p.len() as int) } else { p }
}

/// Last match wins: the latest pattern that selects the path decides, and a
/// negated one decides for keeping it. With no selecting pattern it is kept.
pub open spec fn ignored_by(path: Seq<char>, patterns: Seq<Seq<char>>, is_dir: bool) -> bool
    decreases patterns.len(),
{
    if patterns.len() == 0 {
        false
    } else if selects(path, pattern_body(patterns.last()), is_dir) {
        !is_negation(patterns.last())
    } else {
        ignored_by(path, patterns.drop_last(), is_dir)
    }
}

/// An ordered set of ignore patterns.
#[derive(Debug, Clone)]
pub struct IgnorePatterns {
    patterns: Vec<String>,
}

impl View for IgnorePatterns {
    type V = Seq<Seq<char>>;

    closed spec fn view(&self) -> Seq<Seq<char>> {
        self.patterns@.map_values(|p: String| p@)
    }
}

/// Whether the `*` glob given by its pieces matches `path`.
fn glob_match(path: &Vec<char>, parts: &Vec<Vec<char>>) -> (r: bool)
    requires
        parts@.len() >= 1,
    ensures
        r == glob_pieces_match(path@, views(parts@)),
{
    let ghost ps = views(parts@);
    let n = parts.len();
    assert(forall|j: int| 0 <= j < n ==> #[trigger] ps[j] == parts@[j]@);
    if !starts_with_exec(path, &parts[0]) {
        return false;
    }
    let mut pos: usize = parts[0].len();
    let mut i: usize = 1;
    while i < n - 1
        invariant
            n == parts@.len(),
            ps == views(parts@),
            1 <= i,
            i <= n || n == 1,
            forall|j: int| 0 <= j < n ==> #[trigger] ps[j] == parts@[j]@,
            pos <= path@.len(),
            pieces_in_order(path@, ps[0].len() as int, ps, 1, n - 1)
                == pieces_in_order(path@, pos as int, ps, i as int, n - 1),
        decreases n - i,
    {
        let found = find_from_exec(path, pos, &parts[i]);
        proof {
            assert(ps[i as int] == parts@[i as int]@);
            lemma_find_from(path@, pos as int, ps[i as int]);
        }
        match found {
            Some(k) => {
                assert(occurs_at(path@, k as int, ps[i as int]));
                let plen = path.len();
                assert(k + ps[i as int].len() <= plen);
                pos = k + parts[i].len();
            },
            None => {
                proof {
                    lemma_first_occurrences_suffice(path@, ps[0].len() as int, ps, 1, n - 1);
                }
                return false;
            },
        }
        i = i + 1;
    }
    proof {
        lemma_first_occurrences_suffice(path@, ps[0].len() as int, ps, 1, n - 1);
    }
    ends_with_exec(path, &parts[n - 1])
}

/// Whether `pat` (no slash rule) matches `path`.
fn simple_match(path: &Vec<char>, pat: &Vec<char>) -> (r: bool)
    ensures
        r == simple_match_spec(path@, pat@),
{
    let stars = vec!['*', '*'];
    let star = vec!['*'];
    let slash = vec!['/'];
    assert(stars@ =~= seq!['*', '*']);
    assert(star@ =~= seq!['*']);
    assert(slash@ =~= seq!['/']);
    let first = find_from_exec(pat, 0, &stars);
    proof {
        lemma_find_from(pat@, 0, stars@);
    }
    let mut double: Option<(Vec<char>, Vec<char>)> = None;
    if let Some(k) = first {
        assert(occurs_at(pat@, k as int, stars@));
        let plen = pat.len();
        let rest = slice_chars(pat, k + 2, plen);
        let again = find_from_exec(&rest, 0, &stars);
        if again.is_none() {
            let pre = slice_chars(pat, 0, k);
            double = Some((pre, rest));
        }
    }
    assert(match double {
        Some((pre, suf)) => double_star_sides(pat@) == Some((pre@, suf@)),
        None => double_star_sides(pat@) is None,
    });
    match double {
        Some((pre, suf)) => contains_exec(path, &pre) && ends_with_exec(path, &suf),
        None => {
            if contains_exec(pat, &star) {
                let parts = split_at_char(pat, '*');
                proof {
                    lemma_split_on_nonempty(pat@, '*');
                }
                glob_match(path, &parts)
            } else {
                let mut seg = slash.clone();
                let mut j: usize = 0;
                while j < pat.len()
                    invariant
                        j <= pat@.len(),
                        seg@ == seq!['/'] + pat@.subrange(0, j as int),
                    decreases pat@.len() - j,
                {
                    seg.push(pat[j]);
                    j = j + 1;
                    assert(seg@ =~= seq!['/'] + pat@.subrange(0, j as int));
                }
                assert(pat@.subrange(0, pat@.len() as int) =~= pat@);
                let same = path.len() == pat.len() && starts_with_exec(path, pat);
                assert(same == (path@ == pat@)) by {
                    if path@.len() == pat@.len() {
                        assert(path@.subrange(0, path@.len() as int) =~= path@);
                    }
                }
                same || contains_exec(path, &seg) || ends_with_exec(path, pat)
            }
        },
    }
}

/// Whether the pattern body (its `!` already removed) selects `path`.
fn matches_pattern(path: &Vec<char>, body: &Vec<char>, is_dir: bool) -> (r: bool)
    ensures
        r == selects(path@, body@, is_dir),
{
    let slash = vec!['/'];
    assert(slash@ =~= seq!['/']);
    if ends_with_exec(body, &slash) {
        if !is_dir {
            return false;
        }
        let stripped = slice_chars(body, 0, body.len() - 1);
        assert(stripped@ =~= body@.drop_last());
        simple_match(path, &stripped)
    } else if starts_with_exec(body, &slash) {
        let rest = slice_chars(body, 1, body.len());
        starts_with_exec(path, &rest)
    } else if contains_exec(body, &slash) {
        contains_exec(path, body)
    } else {
        simple_match(path, body)
    }
}

impl IgnorePatterns {
    /// An empty rule set.
    pub fn new() -> (r: Self)
        ensures
            r@ == Seq::<Seq<char>>::empty(),
    {
        let r = IgnorePatterns { patterns: Vec::new() };
        assert(r@ =~= Seq::<Seq<char>>::empty());
        r
    }

    /// Appends a pattern; it takes precedence over those before it.
    pub fn add_pattern(&mut self, pattern: String)
        ensures
            final(self)@ == old(self)@.push(pattern@),
    {
        self.patterns.push(pattern);
        assert(self@ =~= old(self)@.push(pattern@));
    }

    /// Whether `path` is excluded: the last pattern that selects it decides.
    pub fn should_ignore(&self, path: &str, is_dir: bool) -> (r: bool)
        ensures
            r == ignored_by(path@, self@, is_dir),
    {
        let chars = chars_of(path);
        let mut res = false;
        let mut i: usize = 0;
        assert(self@.subrange(0, 0) =~= Seq::<Seq<char>>::empty());
        while i < self.patterns.len()
            invariant
                i <= self@.len(),
                self@.len() == self.patterns@.len(),
                chars@ == path@,
                res == ignored_by(path@, self@.subrange(0, i as int), is_dir),
            decreases self@.len() - i,
        {
            let pat = chars_of(self.patterns[i].as_str());
            let ghost prefix = self@.subrange(0, i + 1);
            assert(prefix.drop_last() =~= self@.subrange(0, i as int));
            assert(prefix.last() == pat@);
            let negated = pat.len() > 0 && pat[0] == '!';
            let body = if negated { slice_chars(&pat, 1, pat.len()) } else { pat.clone() };
            assert(body@ =~= pattern_body(pat@));
            if matches_pattern(&chars, &body, is_dir) {
                res = !negated;
            }
            i = i + 1;
        }
        assert(self@.subrange(0, self@.len() as int) =~= self@);
        res
    }
}

/// Unicode White_Space, the characters that `str::trim` removes.
pub open spec fn is_white(c: char) -> bool {
    let n = c as u32;
    (0x9 <= n <= 0xD) || n == 0x20 || n == 0x85 || n == 0xA0 || n == 0x1680 || (0x2000 <= n
        <= 0x200A) || n == 0x2028 || n == 0x2029 || n == 0x202F || n == 0x205F || n == 0x3000
}

pub open spec fn trim_start(s: Seq<char>) -> Seq<char>
    decreases s.len(),
{
    if s.len() > 0 && is_white(s[0]) { trim_start(s.subrange(1, s.len() as int)) } else { s }
}

pub open spec fn trim_end(s: Seq<char>) -> Seq<char>
    decreases s.len(),
{
    if s.len() > 0 && is_white(s.last()) { trim_end(s.drop_last()) } else { s }
}

/// `s` without leading and trailing white space.
pub open spec fn trimmed(s: Seq<char>) -> Seq<char> {
    trim_end(trim_start(s))
}

/// A line of an ignore file that holds a pattern: not blank, not a comment.
pub open spec fn holds_pattern(line: Seq<char>) -> bool {
    line.len() > 0 && line[0] != '#'
}

pub open spec fn patterns_of_lines(lines: Seq<Seq<char>>) -> Seq<Seq<char>>
    decreases lines.len(),
{
    if lines.len() == 0 {
        Seq::<Seq<char>>::empty()
    } else if holds_pattern(trimmed(lines.last())) {
        patterns_of_lines(lines.drop_last()).push(trimmed(lines.last()))
    } else {
        patterns_of_lines(lines.drop_last())
    }
}

/// The patterns of an ignore file: each line trimmed, blank lines and
/// comments skipped.
pub open spec fn parse_ignore_file(text: Seq<char>) -> Seq<Seq<char>> {
    patterns_of_lines(split_on(text, '\n'))
}

fn is_white_char(c: char) -> (r: bool)
    ensures
        r == is_white(c),
{
    let n = c as u32;
    (0x9 <= n && n <= 0xD) || n == 0x20 || n == 0x85 || n == 0xA0 || n == 0x1680 || (0x2000 <= n
        && n <= 0x200A) || n == 0x2028 || n == 0x2029 || n == 0x202F || n == 0x205F || n == 0x3000
}

/// `s` without leading and trailing white space.
fn trim_chars(s: &Vec<char>) -> (r: Vec<char>)
    ensures
        r@ == trimmed(s@),
{
    let n = s.len();
    let mut a: usize = 0;
    assert(s@.subrange(0, n as int) =~= s@);
    while a < n && is_white_char(s[a])
        invariant
            a <= n,
            n == s@.len(),
            trim_start(s@) == trim_start(s@.subrange(a as int, n as int)),
        decreases n - a,
    {
        let ghost t = s@.subrange(a as int, n as int);
        assert(t.subrange(1, t.len() as int) =~= s@.subrange(a + 1, n as int));
        a = a + 1;
    }
    assert(trim_start(s@) == s@.subrange(a as int, n as int));
    let mut b: usize = n;
    while b > a && is_white_char(s[b - 1])
        invariant
            a <= b <= n,
            n == s@.len(),
            trimmed(s@) == trim_end(s@.subrange(a as int, b as int)),
        decreases b,
    {
        let ghost t = s@.subrange(a as int, b as int);
        assert(t.drop_last() =~= s@.subrange(a as int, b - 1));
        b = b - 1;
    }
    slice_chars(s, a, b)
}

/// The ignore patterns that a default scan uses.
pub open spec fn default_patterns() -> Seq<Seq<char>> {
    seq![
        "node_modules"@, "target"@, "venv"@, ".venv"@, "__pycache__"@, "build"@, "dist"@,
        ".build"@, ".next"@, "vendor"@, ".gradle"@, ".idea"@, ".vscode"@, "*.pyc"@, "*.class"@,
        "*.o"@, ".DS_Store"@,
    ]
}

/// Common build and dependency directories and generated files.
pub fn default_ignore_patterns() -> (r: Vec<String>)
    ensures
        r@.map_values(|p: String| p@) == default_patterns(),
{
    let mut v: Vec<String> = Vec::new();
    v.push("node_modules".to_owned());
    v.push("target".to_owned());
    v.push("venv".to_owned());
    v.push(".venv".to_owned());
    v.push("__pycache__".to_owned());
    v.push("build".to_owned());
    v.push("dist".to_owned());
    v.push(".build".to_owned());
    v.push(".next".to_owned());
    v.push("vendor".to_owned());
    v.push(".gradle".to_owned());
    v.push(".idea".to_owned());
    v.push(".vscode".to_owned());
    v.push("*.pyc".to_owned());
    v.push("*.class".to_owned());
    v.push("*.o".to_owned());
    v.push(".DS_Store".to_owned());
    assert(v@.map_values(|p: String| p@) =~= default_patterns());
    v
}

impl IgnorePatterns {
    /// The patterns of an ignore file's text.
    pub fn parse(text: &str) -> (r: Self)
        ensures
            r@ == parse_ignore_file(text@),
    {
        let cs = chars_of(text);
        let lines = split_at_char(&cs, '\n');
        let ghost ls = views(lines@);
        let mut patterns: Vec<String> = Vec::new();
        let mut i: usize = 0;
        assert(ls.subrange(0, 0) =~= Seq::<Seq<char>>::empty());
        assert(patterns@.map_values(|p: String| p@) =~= Seq::<Seq<char>>::empty());
        while i < lines.len()
            invariant
                i <= lines@.len(),
                ls == views(lines@),
                ls == split_on(text@, '\n'),
                patterns@.map_values(|p: String| p@) == patterns_of_lines(ls.subrange(0, i as int)),
            decreases lines@.len() - i,
        {
            let ghost next = ls.subrange(0, i + 1);
            assert(next.drop_last() =~= ls.subrange(0, i as int));
            assert(next.last() == lines@[i as int]@);
            let t = trim_chars(&lines[i]);
            if t.len() > 0 && t[0] != '#' {
                let ghost before = patterns@;
                patterns.push(string_of(&t));
                assert(patterns@.map_values(|p: String| p@) =~= before.map_values(|p: String| p@).push(t@));
            }
            i = i + 1;
        }
        assert(ls.subrange(0, ls.len() as int) =~= ls);
        IgnorePatterns { patterns }
    }

    /// The patterns of a repository's ignore file, given its text when it
    /// could be read; empty otherwise.
    pub fn from_repo(gitignore: Option<&str>) -> (r: Self)
        ensures
            r@ == match gitignore {
                Some(t) => parse_ignore_file(t@),
                None => Seq::<Seq<char>>::empty(),
            },
    {
        match gitignore {
            Some(t) => IgnorePatterns::parse(t),
            None => IgnorePatterns::new(),
        }
    }
}

impl Default for IgnorePatterns {
    fn default() -> (r: Self)
        ensures
            r@ == Seq::<Seq<char>>::empty(),
    {
        IgnorePatterns::new()
    }
}

/// Whether a directory entry is left out of a scan: `.git` directories always
/// are, anything else as the patterns decide.
pub fn should_ignore_entry(path: &str, file_name: &str, is_dir: bool, patterns: &IgnorePatterns) -> (r: bool)
    ensures
        r == ((is_dir && file_name@ == ".git"@) || ignored_by(path@, patterns@, is_dir)),
{
    if is_dir {
        let git = ".git".to_owned();
        let name = file_name.to_owned();
        if name == git {
            return true;
        }
    }
    patterns.should_ignore(path, is_dir)
}

} // verus!
