//! Lists of evdev codes.

use vstd::prelude::*;
use vstd::relations::{sorted_by, total_ordering};

verus! {

/// Numeric order on codes.
pub open spec fn code_leq() -> spec_fn(u16, u16) -> bool {
    |a: u16, b: u16| a <= b
}

/// `codes` in ascending order.
pub open spec fn sorted_codes(codes: Seq<u16>) -> Seq<u16> {
    codes.sort_by(code_leq())
}

/// A list in ascending order with the same members is the sorted list.
pub proof fn lemma_sorted_codes(codes: Seq<u16>, out: Seq<u16>)
    requires
        sorted_by(out, code_leq()),
        out.to_multiset() == codes.to_multiset(),
    ensures
        out == sorted_codes(codes),
{
    let leq = code_leq();
    assert(total_ordering(leq));
    codes.lemma_sort_by_ensures(leq);
    vstd::seq_lib::lemma_sorted_unique(out, sorted_codes(codes), leq);
}

/// What sorting keeps and establishes.
pub proof fn lemma_sorted_codes_ensures(codes: Seq<u16>)
    ensures
        sorted_by(sorted_codes(codes), code_leq()),
        sorted_codes(codes).to_multiset() == codes.to_multiset(),
        sorted_codes(codes).len() == codes.len(),
        forall|c: u16| #[trigger] sorted_codes(codes).contains(c) == codes.contains(c),
{
    let leq = code_leq();
    assert(total_ordering(leq));
    codes.lemma_sort_by_ensures(leq);
    codes.to_multiset_ensures();
    sorted_codes(codes).to_multiset_ensures();
    assert forall|c: u16| #[trigger] sorted_codes(codes).contains(c) == codes.contains(c) by {
        assert(sorted_codes(codes).to_multiset().count(c) == codes.to_multiset().count(c));
    }
}

/// Whether `code` occurs in `codes`.
pub fn has_code(codes: &Vec<u16>, code: u16) -> (yes: bool)
    ensures
        yes == codes@.contains(code),
{
    let mut i: usize = 0;
    while i < codes.len()
        invariant
            i <= codes@.len(),
            forall|j: int| 0 <= j < i ==> codes@[j] != code,
        decreases codes@.len() - i,
    {
        if codes[i] == code {
            assert(codes@[i as int] == code);
            return true;
        }
        i += 1;
    }
    false
}

/// Puts `code` at its place in an ascending list.
fn insert_sorted(out: &mut Vec<u16>, code: u16)
    requires
        sorted_by(old(out)@, code_leq()),
    ensures
        sorted_by(final(out)@, code_leq()),
        final(out)@.to_multiset() == old(out)@.to_multiset().insert(code),
{
    let ghost before = out@;
    let mut at: usize = out.len();
    while at > 0 && out[at - 1] > code
        invariant
            out@ == before,
            at <= before.len(),
            forall|j: int| at <= j < before.len() ==> before[j] > code,
        decreases at,
    {
        at -= 1;
    }
    out.insert(at, code);
    proof {
        vstd::seq_lib::to_multiset_insert(before, at as int, code);
        let leq = code_leq();
        assert forall|i: int, j: int| 0 <= i < j < out@.len() implies #[trigger] leq(
            out@[i],
            out@[j],
        ) by {
            before.insert_ensures(at as int, code);
            assert(sorted_by(before, leq));
            if j < at {
                assert(leq(before[i], before[j]));
            } else if j == at {
                if i < at - 1 {
                    assert(leq(before[i], before[at - 1]));
                }
            } else if i > at {
                assert(leq(before[i - 1], before[j - 1]));
            } else if i < at {
                assert(leq(before[i], before[j - 1]));
            }
        }
    }
}

/// `codes` in ascending order.
pub fn sort_codes(codes: &Vec<u16>) -> (out: Vec<u16>)
    ensures
        out@ == sorted_codes(codes@),
{
    let mut out: Vec<u16> = Vec::new();
    let mut i: usize = 0;
    assert(codes@.take(0) =~= Seq::<u16>::empty());
    assert(out@ =~= codes@.take(0));
    while i < codes.len()
        invariant
            i <= codes@.len(),
            sorted_by(out@, code_leq()),
            out@.to_multiset() == codes@.take(i as int).to_multiset(),
        decreases codes@.len() - i,
    {
        insert_sorted(&mut out, codes[i]);
        proof {
            let seen = codes@.take(i as int);
            assert(codes@.take(i + 1) =~= seen.push(codes@[i as int]));
            seen.to_multiset_ensures();
        }
        i += 1;
    }
    proof {
        assert(codes@.take(codes@.len() as int) =~= codes@);
        lemma_sorted_codes(codes@, out@);
    }
    out
}

} // verus!
