//! A cache of scan results keyed by repository path. Timestamps are seconds
//! since the Unix epoch; the caller supplies the current time and the
//! repository's current state fingerprint, and persists the cache.

use vstd::prelude::*;
use crate::text::{decimal, decimal_string, join, join3};

verus! {

/// One cached scan.
#[derive(Debug, Clone)]
pub struct CacheEntry {
    /// When the scan was stored.
    pub timestamp: u64,
    /// Repository path.
    pub path: String,
    /// The cached status data.
    pub data: Vec<u8>,
    /// Fingerprint of the repository state at that time.
    pub state_hash: String,
}

/// The cache.
#[derive(Debug)]
pub struct ScanCache {
    cache_dir: String,
    entries: Vec<CacheEntry>,
}

/// Entry count and total cached bytes.
#[derive(Debug, Clone, Copy, PartialEq, Eq, Structural)]
pub struct CacheStats {
    pub total_entries: usize,
    pub total_size_bytes: usize,
}

impl View for ScanCache {
    type V = Seq<CacheEntry>;

    closed spec fn view(&self) -> Seq<CacheEntry> {
        self.entries@
    }
}

/// The entries whose path is not `p`, in order.
pub open spec fn without(es: Seq<CacheEntry>, p: Seq<char>) -> Seq<CacheEntry>
    decreases es.len(),
{
    if es.len() == 0 {
        es
    } else if es.last().path@ == p {
        without(es.drop_last(), p)
    } else {
        without(es.drop_last(), p).push(es.last())
    }
}

/// An entry older than `max_age` seconds at time `now` (one from the future is not).
pub open spec fn is_stale(e: CacheEntry, max_age: u64, now: u64) -> bool {
    now >= e.timestamp && now - e.timestamp > max_age
}

pub open spec fn fresh_entries(es: Seq<CacheEntry>, max_age: u64, now: u64) -> Seq<CacheEntry>
    decreases es.len(),
{
    if es.len() == 0 {
        es
    } else if is_stale(es.last(), max_age, now) {
        fresh_entries(es.drop_last(), max_age, now)
    } else {
        fresh_entries(es.drop_last(), max_age, now).push(es.last())
    }
}

pub open spec fn total_bytes(es: Seq<CacheEntry>) -> nat
    decreases es.len(),
{
    if es.len() == 0 { 0 } else { total_bytes(es.drop_last()) + es.last().data@.len() }
}

/// The first entry for path `p`: the one a lookup finds.
pub open spec fn entry_for(es: Seq<CacheEntry>, p: Seq<char>) -> Option<CacheEntry>
    decreases es.len(),
{
    if es.len() == 0 {
        None
    } else {
        match entry_for(es.drop_last(), p) {
            Some(e) => Some(e),
            None => if es.last().path@ == p { Some(es.last()) } else { None },
        }
    }
}

proof fn lemma_fresh_len(es: Seq<CacheEntry>, max_age: u64, now: u64)
    ensures
        fresh_entries(es, max_age, now).len() <= es.len(),
    decreases es.len(),
{
    if es.len() > 0 {
        lemma_fresh_len(es.drop_last(), max_age, now);
    }
}

proof fn lemma_entry_for_found(es: Seq<CacheEntry>, i: int, p: Seq<char>)
    requires
        0 <= i <= es.len(),
        entry_for(es.subrange(0, i), p) is Some,
    ensures
        entry_for(es, p) == entry_for(es.subrange(0, i), p),
    decreases es.len() - i,
{
    if i < es.len() {
        assert(es.subrange(0, i + 1).drop_last() =~= es.subrange(0, i));
        lemma_entry_for_found(es, i + 1, p);
    } else {
        assert(es.subrange(0, i) =~= es);
    }
}

proof fn lemma_entry_for_without(es: Seq<CacheEntry>, p: Seq<char>)
    ensures
        entry_for(without(es, p), p) is None,
        forall|q: Seq<char>| q != p ==> entry_for(without(es, p), q) == entry_for(es, q),
    decreases es.len(),
{
    if es.len() > 0 {
        let rest = es.drop_last();
        lemma_entry_for_without(rest, p);
        let w = without(es, p);
        if es.last().path@ != p {
            assert(w.drop_last() =~= without(rest, p));
            assert(w.last() == es.last());
        } else {
            assert(w == without(rest, p));
        }
        assert forall|q: Seq<char>| q != p implies entry_for(w, q) == entry_for(es, q) by {
            assert(entry_for(rest, q) == entry_for(without(rest, p), q));
        }
    }
}

proof fn lemma_entry_for_push(es: Seq<CacheEntry>, e: CacheEntry)
    requires
        entry_for(es, e.path@) is None,
    ensures
        entry_for(es.push(e), e.path@) == Some(e),
        forall|q: Seq<char>| q != e.path@ ==> entry_for(es.push(e), q) == entry_for(es, q),
{
    assert(es.push(e).drop_last() =~= es);
}

fn same_text(a: &String, b: &str) -> (r: bool)
    ensures
        r == (a@ == b@),
{
    let bb = b.to_owned();
    *a == bb
}

fn remove_path(es: &mut Vec<CacheEntry>, p: &str)
    ensures
        final(es)@ == without(old(es)@, p@),
{
    let ghost orig = es@;
    let n = es.len();
    let mut kept: Vec<CacheEntry> = Vec::new();
    let mut i: usize = 0;
    assert(orig.subrange(0, 0) =~= Seq::<CacheEntry>::empty());
    while es.len() > 0
        invariant
            n == orig.len(),
            i + es@.len() == orig.len(),
            es@ == orig.subrange(i as int, orig.len() as int),
            kept@ == without(orig.subrange(0, i as int), p@),
        decreases es@.len(),
    {
        let ghost before = es@;
        let e = es.remove(0);
        assert(e == orig[i as int]);
        let ghost next = orig.subrange(0, i + 1);
        assert(next.drop_last() =~= orig.subrange(0, i as int));
        if !same_text(&e.path, p) {
            kept.push(e);
        }
        i = i + 1;
        assert(es@ =~= orig.subrange(i as int, orig.len() as int));
    }
    assert(orig.subrange(0, i as int) =~= orig);
    *es = kept;
}

impl ScanCache {
    /// An empty cache kept in `cache_dir`.
    pub fn new(cache_dir: String) -> (r: Self)
        ensures
            r@ == Seq::<CacheEntry>::empty(),
    {
        let r = ScanCache { cache_dir, entries: Vec::new() };
        assert(r@ =~= Seq::<CacheEntry>::empty());
        r
    }

    /// A cache holding previously persisted entries.
    pub fn with_entries(cache_dir: String, entries: Vec<CacheEntry>) -> (r: Self)
        ensures
            r@ == entries@,
    {
        ScanCache { cache_dir, entries }
    }

    /// The directory the cache is persisted in.
    pub fn cache_dir(&self) -> &String {
        &self.cache_dir
    }

    /// The cached entries.
    pub fn entries(&self) -> (r: &Vec<CacheEntry>)
        ensures
            r@ == self@,
    {
        &self.entries
    }

    /// The entry for a repository, if any (the first one stored for its path).
    pub fn get(&self, repo_path: &str) -> (r: Option<&CacheEntry>)
        ensures
            match r {
                Some(e) => entry_for(self@, repo_path@) == Some(*e),
                None => entry_for(self@, repo_path@) is None,
            },
    {
        let mut i: usize = 0;
        assert(self@.subrange(0, 0) =~= Seq::<CacheEntry>::empty());
        while i < self.entries.len()
            invariant
                i <= self@.len(),
                self@ == self.entries@,
                entry_for(self@.subrange(0, i as int), repo_path@) is None,
            decreases self@.len() - i,
        {
            let ghost next = self@.subrange(0, i + 1);
            assert(next.drop_last() =~= self@.subrange(0, i as int));
            if same_text(&self.entries[i].path, repo_path) {
                proof {
                    lemma_entry_for_found(self@, i + 1, repo_path@);
                }
                return Some(&self.entries[i]);
            }
            i = i + 1;
        }
        assert(self@.subrange(0, i as int) =~= self@);
        None
    }

    /// Stores (or replaces) the entry for a repository, stamped `now`.
    pub fn store(&mut self, repo_path: String, data: Vec<u8>, state_hash: String, now: u64)
        ensures
            final(self)@ == without(old(self)@, repo_path@).push(CacheEntry {
                timestamp: now,
                path: repo_path,
                data,
                state_hash,
            }),
            entry_for(final(self)@, repo_path@) == Some(CacheEntry {
                timestamp: now,
                path: repo_path,
                data,
                state_hash,
            }),
            forall|q: Seq<char>| q != repo_path@ ==> entry_for(final(self)@, q) == entry_for(old(self)@, q),
    {
        let ghost p = repo_path@;
        remove_path(&mut self.entries, repo_path.as_str());
        let e = CacheEntry { timestamp: now, path: repo_path, data, state_hash };
        proof {
            lemma_entry_for_without(old(self)@, p);
            lemma_entry_for_push(self@, e);
        }
        self.entries.push(e);
    }

    /// Whether the entry for a repository is at most `max_age_secs` old at
    /// `now` and was stored for the repository's current state fingerprint
    /// (`None` when it could not be computed).
    pub fn is_valid(&self, repo_path: &str, max_age_secs: u64, now: u64, current_hash: Option<&str>) -> (r: bool)
        ensures
            r <==> match entry_for(self@, repo_path@) {
                Some(e) => now >= e.timestamp && now - e.timestamp <= max_age_secs
                    && current_hash is Some && current_hash->0@ == e.state_hash@,
                None => false,
            },
    {
        match self.get(repo_path) {
            Some(e) => {
                if now < e.timestamp || now - e.timestamp > max_age_secs {
                    return false;
                }
                match current_hash {
                    Some(h) => same_text(&e.state_hash, h),
                    None => false,
                }
            },
            None => false,
        }
    }

    /// Drops the entry for a repository.
    pub fn invalidate(&mut self, repo_path: &str)
        ensures
            final(self)@ == without(old(self)@, repo_path@),
            entry_for(final(self)@, repo_path@) is None,
            forall|q: Seq<char>| q != repo_path@ ==> entry_for(final(self)@, q) == entry_for(old(self)@, q),
    {
        remove_path(&mut self.entries, repo_path);
        proof {
            lemma_entry_for_without(old(self)@, repo_path@);
        }
    }

    /// Drops every entry.
    pub fn clear(&mut self)
        ensures
            final(self)@ == Seq::<CacheEntry>::empty(),
    {
        self.entries.clear();
        assert(self@ =~= Seq::<CacheEntry>::empty());
    }

    /// Drops entries older than `max_age_secs` at `now`; returns how many.
    pub fn prune(&mut self, max_age_secs: u64, now: u64) -> (r: usize)
        ensures
            final(self)@ == fresh_entries(old(self)@, max_age_secs, now),
            r == old(self)@.len() - final(self)@.len(),
    {
        let ghost orig = self.entries@;
        let mut kept: Vec<CacheEntry> = Vec::new();
        let mut i: usize = 0;
        let n = self.entries.len();
        assert(orig.subrange(0, 0) =~= Seq::<CacheEntry>::empty());
        while self.entries.len() > 0
            invariant
                n == orig.len(),
                i + self.entries@.len() == orig.len(),
                self.entries@ == orig.subrange(i as int, orig.len() as int),
                kept@ == fresh_entries(orig.subrange(0, i as int), max_age_secs, now),
            decreases self.entries@.len(),
        {
            let e = self.entries.remove(0);
            assert(e == orig[i as int]);
            let ghost next = orig.subrange(0, i + 1);
            assert(next.drop_last() =~= orig.subrange(0, i as int));
            if !(now >= e.timestamp && now - e.timestamp > max_age_secs) {
                kept.push(e);
            }
            i = i + 1;
            assert(self.entries@ =~= orig.subrange(i as int, orig.len() as int));
        }
        assert(orig.subrange(0, i as int) =~= orig);
        proof {
            lemma_fresh_len(orig, max_age_secs, now);
        }
        let removed = n - kept.len();
        self.entries = kept;
        removed
    }

    /// Entry count and total cached bytes; the total must fit in `usize`.
    pub fn stats(&self) -> (r: CacheStats)
        requires
            total_bytes(self@) <= usize::MAX,
        ensures
            r.total_entries == self@.len(),
            r.total_size_bytes == total_bytes(self@),
    {
        let mut total: usize = 0;
        let mut i: usize = 0;
        while i < self.entries.len()
            invariant
                i <= self@.len(),
                self@ == self.entries@,
                total_bytes(self@) <= usize::MAX,
                total == total_bytes(self@.subrange(0, i as int)),
            decreases self@.len() - i,
        {
            let ghost next = self@.subrange(0, i + 1);
            assert(next.drop_last() =~= self@.subrange(0, i as int));
            proof {
                lemma_total_bytes_prefix(self@, i + 1);
            }
            total = total + self.entries[i].data.len();
            i = i + 1;
        }
        assert(self@.subrange(0, i as int) =~= self@);
        CacheStats { total_entries: self.entries.len(), total_size_bytes: total }
    }
}

proof fn lemma_total_bytes_prefix(es: Seq<CacheEntry>, i: int)
    requires
        0 <= i <= es.len(),
    ensures
        total_bytes(es.subrange(0, i)) <= total_bytes(es),
    decreases es.len() - i,
{
    if i < es.len() {
        lemma_total_bytes_prefix(es, i + 1);
        assert(es.subrange(0, i + 1).drop_last() =~= es.subrange(0, i));
    } else {
        assert(es.subrange(0, i) =~= es);
    }
}

impl Default for ScanCache {
    fn default() -> (r: Self)
        ensures
            r@ == Seq::<CacheEntry>::empty(),
    {
        ScanCache::new(".git-nexus-cache".to_owned())
    }
}

/// `x / d` rounded to the nearest integer, ties to even.
pub open spec fn round_half_even(x: nat, d: nat) -> nat
    recommends
        d > 0,
{
    let q = x / d;
    let r = x % d;
    if 2 * r > d || (2 * r == d && q % 2 == 1) { q + 1 } else { q }
}

/// `h` hundredths written with two decimals.
pub open spec fn two_decimals(h: nat) -> Seq<char> {
    decimal(h / 100) + "."@ + decimal((h % 100) / 10) + decimal(h % 10)
}

/// A byte count in B, KB, MB or GB (two decimals above bytes).
pub open spec fn human_size(size: nat) -> Seq<char> {
    if size < 1024 {
        decimal(size) + " B"@
    } else if size < 1024 * 1024 {
        two_decimals(round_half_even(size * 100, 1024)) + " KB"@
    } else if size < 1024 * 1024 * 1024 {
        two_decimals(round_half_even(size * 100, 1024 * 1024)) + " MB"@
    } else {
        two_decimals(round_half_even(size * 100, 1024 * 1024 * 1024)) + " GB"@
    }
}

fn hundredths_text(size: usize, unit: u128) -> (r: String)
    requires
        0 < unit <= 1024 * 1024 * 1024,
    ensures
        r@ == two_decimals(round_half_even(size as nat * 100, unit as nat)),
{
    let x: u128 = size as u128 * 100;
    let q = x / unit;
    let rem = x % unit;
    let h: u128 = if 2 * rem > unit || (2 * rem == unit && q % 2 == 1) { q + 1 } else { q };
    assert(h == round_half_even(size as nat * 100, unit as nat));
    let int_part = (h / 100) as usize;
    let tens = ((h % 100) / 10) as usize;
    let ones = (h % 10) as usize;
    let a = join(decimal_string(int_part).as_str(), ".");
    join3(a.as_str(), decimal_string(tens).as_str(), decimal_string(ones).as_str())
}

impl CacheStats {
    /// The total size in B, KB, MB or GB.
    pub fn size_human_readable(&self) -> (r: String)
        ensures
            r@ == human_size(self.total_size_bytes as nat),
    {
        let size = self.total_size_bytes;
        if size < 1024 {
            join(decimal_string(size).as_str(), " B")
        } else if size < 1024 * 1024 {
            join(hundredths_text(size, 1024).as_str(), " KB")
        } else if size < 1024 * 1024 * 1024 {
            join(hundredths_text(size, 1024 * 1024).as_str(), " MB")
        } else {
            join(hundredths_text(size, 1024 * 1024 * 1024).as_str(), " GB")
        }
    }
}

} // verus!
