//! Search in byte sequences.
use vstd::prelude::*;

verus! {

/// `needle` stands in `data` at place `at`.
pub open spec fn stands_at(data: Seq<u8>, needle: Seq<u8>, at: int) -> bool {
    0 <= at && at + needle.len() <= data.len() && data.subrange(at, at + needle.len()) == needle
}

/// `data` begins with `needle`.
pub open spec fn begins_with(data: Seq<u8>, needle: Seq<u8>) -> bool {
    stands_at(data, needle, 0)
}

/// `needle` stands somewhere in `data`.
pub open spec fn holds(data: Seq<u8>, needle: Seq<u8>) -> bool {
    exists|at: int| stands_at(data, needle, at)
}

/// A needle stands at a place exactly when all of it fits there and each of its
/// bytes is the one that `data` has at that distance.
pub proof fn law_stands_at_is_bytewise(data: Seq<u8>, needle: Seq<u8>, at: int)
    ensures
        stands_at(data, needle, at) <==> {
            &&& 0 <= at
            &&& at + needle.len() <= data.len()
            &&& forall|i: int| 0 <= i < needle.len() ==> data[at + i] == #[trigger] needle[i]
        },
        begins_with(data, needle) == stands_at(data, needle, 0),
        stands_at(data, needle, at) ==> holds(data, needle),
{
    if 0 <= at && at + needle.len() <= data.len() {
        let window = data.subrange(at, at + needle.len());
        if window == needle {
            assert forall|i: int| 0 <= i < needle.len() implies data[at + i] == #[trigger] needle[i] by {
                assert(window[i] == needle[i]);
            }
        }
        if forall|i: int| 0 <= i < needle.len() ==> data[at + i] == #[trigger] needle[i] {
            assert(window =~= needle);
        }
    }
}

pub(crate) fn is_at(data: &[u8], needle: &[u8], at: usize) -> (found: bool)
    requires
        at <= data@.len(),
    ensures
        found == stands_at(data@, needle@, at as int),
{
    let len: usize = data.len();
    if needle.len() > len - at {
        return false;
    }
    let mut i: usize = 0;
    while i < needle.len()
        invariant
            i <= needle@.len(),
            at + needle@.len() <= len,
            len == data@.len(),
            forall|j: int| 0 <= j < i ==> data@[at + j] == needle@[j],
        decreases needle@.len() - i,
    {
        if data[at + i] != needle[i] {
            assert(data@.subrange(at as int, at + needle@.len())[i as int] != needle@[i as int]);
            return false;
        }
        i = i + 1;
    }
    assert(data@.subrange(at as int, at + needle@.len()) =~= needle@);
    true
}

pub(crate) fn is_in(data: &[u8], needle: &[u8]) -> (found: bool)
    ensures
        found == holds(data@, needle@),
{
    let mut at: usize = 0;
    while at < data.len()
        invariant
            at <= data@.len(),
            forall|i: int| 0 <= i < at ==> !stands_at(data@, needle@, i),
        decreases data@.len() - at,
    {
        if is_at(data, needle, at) {
            return true;
        }
        at = at + 1;
    }
    is_at(data, needle, at)
}

} // verus!
