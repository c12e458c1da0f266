//! Building argument lists for the command-line tools the daemon drives
//! (`ip`, `tc`, `wg`, `nft`).

use vstd::prelude::*;

use crate::text::{dec, dec_string};

verus! {

/// The views of a list of strings.
pub open spec fn views(v: Seq<String>) -> Seq<Seq<char>> {
    v.map_values(|s: String| s@)
}

/// An owned copy of a string slice.
pub fn lit(s: &str) -> (r: String)
    ensures
        r@ == s@,
{
    String::from_str(s)
}

/// Appends a copy of a string slice.
pub fn push_lit(v: &mut Vec<String>, s: &str)
    ensures
        views(final(v)@) == views(old(v)@).push(s@),
{
    v.push(lit(s));
    assert(views(v@) =~= views(old(v)@).push(s@));
}

/// Appends a copy of a string.
pub fn push_clone(v: &mut Vec<String>, s: &String)
    ensures
        views(final(v)@) == views(old(v)@).push(s@),
{
    v.push(s.clone());
    assert(views(v@) =~= views(old(v)@).push(s@));
}

/// Appends a string.
pub fn push_string(v: &mut Vec<String>, s: String)
    ensures
        views(final(v)@) == views(old(v)@).push(s@),
{
    let ghost sv = s@;
    v.push(s);
    assert(views(v@) =~= views(old(v)@).push(sv));
}

/// Appends the decimal rendering of a number.
pub fn push_num(v: &mut Vec<String>, n: u64)
    ensures
        views(final(v)@) == views(old(v)@).push(dec(n as nat)),
{
    push_string(v, dec_string(n));
}

} // verus!
