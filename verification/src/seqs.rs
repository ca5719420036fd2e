//! Joining sequences.

use vstd::prelude::*;

verus! {

/// Six sequences that are added one after the other to a seventh are added to it
/// as a whole.
pub proof fn join_six<T>(
    s: Seq<T>,
    a: Seq<T>,
    b: Seq<T>,
    c: Seq<T>,
    d: Seq<T>,
    e: Seq<T>,
    f: Seq<T>,
)
    ensures
        s + a + b + c + d + e + f == s + (a + b + c + d + e + f),
{
    assert(s + a + b =~= s + (a + b));
    assert(s + (a + b) + c =~= s + (a + b + c));
    assert(s + (a + b + c) + d =~= s + (a + b + c + d));
    assert(s + (a + b + c + d) + e =~= s + (a + b + c + d + e));
    assert(s + (a + b + c + d + e) + f =~= s + (a + b + c + d + e + f));
}

} // verus!
