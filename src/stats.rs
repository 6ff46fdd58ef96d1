//! Number formatting for the statistics dashboard.

use vstd::prelude::*;
use crate::text::{chars_of, decimal, decimal_string, slice_chars, string_of};

verus! {

/// Digits grouped by threes from the right, separated by commas.
pub open spec fn grouped(d: Seq<char>) -> Seq<char>
    decreases d.len(),
{
    if d.len() <= 3 {
        d
    } else {
        grouped(d.subrange(0, d.len() - 3)) + seq![','] + d.subrange(d.len() - 3, d.len() as int)
    }
}

fn grouped_exec(d: &Vec<char>) -> (r: Vec<char>)
    ensures
        r@ == grouped(d@),
    decreases d@.len(),
{
    let n = d.len();
    if n <= 3 {
        return slice_chars(d, 0, n);
    }
    let head = slice_chars(d, 0, n - 3);
    let mut r = grouped_exec(&head);
    r.push(',');
    let tail = slice_chars(d, n - 3, n);
    let mut t = tail;
    r.append(&mut t);
    assert(r@ =~= grouped(d@));
    r
}

/// `n` in decimal with thousands separated by commas.
pub fn format_number(n: usize) -> (r: String)
    ensures
        r@ == grouped(decimal(n as nat)),
{
    let d = chars_of(decimal_string(n).as_str());
    string_of(&grouped_exec(&d))
}

} // verus!
