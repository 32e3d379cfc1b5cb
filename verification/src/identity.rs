//! Identifiers of players, teams and matches: random UUIDs, held as the
//! 128-bit number that a UUID is.

use vstd::prelude::*;

verus! {

/// Whether `id` has the shape of a random (version 4) UUID: the version
/// nibble is 4 and the variant bits are `10`.
pub open spec fn is_random_uuid(id: u128) -> bool {
    &&& (id >> 76) & 0xf == 4
    &&& (id >> 62) & 0x3 == 2
}

/// Calls `uuid::Uuid::new_v4` and hands the UUID out as a number, by
/// `Uuid::as_u128`. Believed of it: the version and variant bits are those
/// of a random UUID. Which of these numbers comes out is left to chance, and
/// nothing says that it differs from an earlier one.
#[verifier::external_body]
pub(crate) fn fresh_id() -> (id: u128)
    ensures
        is_random_uuid(id),
{
    uuid::Uuid::new_v4().as_u128()
}

/// The position of the first occurrence of `needle` in `ids`, and the
/// length of `ids` where it does not occur.
pub open spec fn first_index_of(ids: Seq<u128>, needle: u128) -> int
    decreases ids.len(),
{
    if ids.len() == 0 {
        0
    } else if ids[0] == needle {
        0
    } else {
        1 + first_index_of(ids.drop_first(), needle)
    }
}

/// `first_index_of` gives a position at which `needle` stands and before
/// which it does not, or the length where `needle` stands nowhere.
pub proof fn first_index_of_is_first(ids: Seq<u128>, needle: u128)
    ensures
        0 <= first_index_of(ids, needle) <= ids.len(),
        first_index_of(ids, needle) < ids.len() <==> ids.contains(needle),
        first_index_of(ids, needle) < ids.len() ==> ids[first_index_of(ids, needle)] == needle,
        forall|j: int| 0 <= j < first_index_of(ids, needle) ==> ids[j] != needle,
    decreases ids.len(),
{
    if ids.len() == 0 {
    } else if ids[0] == needle {
    } else {
        let rest = ids.drop_first();
        first_index_of_is_first(rest, needle);
        let found = first_index_of(rest, needle);
        assert forall|j: int| 0 <= j < 1 + found implies ids[j] != needle by {
            if j > 0 {
                assert(rest[j - 1] == ids[j]);
            }
        }
        if found < rest.len() {
            assert(rest[found] == ids[found + 1]);
        }
        if ids.contains(needle) {
            let k = choose|k: int| 0 <= k < ids.len() && ids[k] == needle;
            assert(rest[k - 1] == needle);
        }
    }
}

/// A position at which `needle` stands and before which it does not is the
/// one that `first_index_of` gives.
pub proof fn first_index_of_found(ids: Seq<u128>, needle: u128, index: int)
    requires
        0 <= index < ids.len(),
        ids[index] == needle,
        forall|j: int| 0 <= j < index ==> ids[j] != needle,
    ensures
        first_index_of(ids, needle) == index,
{
    first_index_of_is_first(ids, needle);
}

/// The test that holds of every id but `needle`.
pub open spec fn other_than(needle: u128) -> spec_fn(u128) -> bool {
    |id: u128| id != needle
}

/// The entries of `ids` other than `needle`, in their order.
pub open spec fn without(ids: Seq<u128>, needle: u128) -> Seq<u128> {
    ids.filter(other_than(needle))
}

/// Whether `needle` occurs in `ids`.
pub fn contains_id(ids: &Vec<u128>, needle: u128) -> (found: bool)
    ensures
        found == ids@.contains(needle),
{
    let mut index: usize = 0;
    while index < ids.len()
        invariant
            index <= ids@.len(),
            forall|j: int| 0 <= j < index ==> ids@[j] != needle,
        decreases ids@.len() - index,
    {
        if ids[index] == needle {
            return true;
        }
        index = index + 1;
    }
    false
}

/// The entries of `ids` other than `needle`, in their order.
pub fn without_id(ids: &Vec<u128>, needle: u128) -> (kept: Vec<u128>)
    ensures
        kept@ == without(ids@, needle),
{
    let mut kept: Vec<u128> = Vec::new();
    let mut index: usize = 0;
    assert(ids@.take(0) =~= Seq::<u128>::empty());
    while index < ids.len()
        invariant
            index <= ids@.len(),
            kept@ == without(ids@.take(index as int), needle),
        decreases ids@.len() - index,
    {
        proof {
            assert(ids@.take(index + 1) =~= ids@.take(index as int).push(ids@[index as int]));
            Seq::lemma_filter_push(
                ids@.take(index as int),
                ids@[index as int],
                other_than(needle),
            );
        }
        if ids[index] != needle {
            kept.push(ids[index]);
        }
        index = index + 1;
    }
    assert(ids@.take(index as int) =~= ids@);
    kept
}

} // verus!
