//! What holds of every cropped value.

use crate::crop::{
    crop_each, crop_each_entry, crop_tree, fill, is_cropped, is_row_like, lemma_crop_keeps_keys,
    lemma_sample_in_range, marker_key, marker_text, more_keys_text, place_priority, policy_for,
    priority_keys, sample_count, sampled_arrays, trim, MAX_DEPTH, MAX_OBJECT_KEYS,
    PRIORITY_KEY_COUNT,
};
use crate::json::{
    distinct_keys, has_key, key_index, lemma_key_index, lemma_put, Entries, JsonTree,
};
use crate::text::{decimal, lemma_decimal_injective};
use vstd::prelude::*;

verus! {

/// An array that its policy does not crop keeps every element, each one
/// cropped one level further down; nothing is put between them.
pub proof fn law_short_array_is_kept(items: Seq<JsonTree>, depth: nat)
    requires
        depth <= MAX_DEPTH,
        !is_cropped(items.len(), policy_for(depth, is_row_like(items))),
    ensures
        crop_tree(JsonTree::Array(items), depth) == JsonTree::Array(crop_each(items, depth + 1)),
        crop_tree(JsonTree::Array(items), depth)->Array_0.len() == items.len(),
        forall|i: int|
            0 <= i < items.len() ==> (#[trigger] crop_tree(JsonTree::Array(items), depth)->Array_0[i])
                == crop_tree(items[i], depth + 1),
{
}

/// An array that its policy crops comes out as its first `head` elements,
/// one text that gives the number of elements left out, and its last `tail`
/// elements; the elements kept are cropped one level further down.
pub proof fn law_long_array_is_windowed(items: Seq<JsonTree>, depth: nat)
    requires
        depth <= MAX_DEPTH,
        is_cropped(items.len(), policy_for(depth, is_row_like(items))),
    ensures
        ({
            let policy = policy_for(depth, is_row_like(items));
            let out = crop_tree(JsonTree::Array(items), depth)->Array_0;
            &&& crop_tree(JsonTree::Array(items), depth) is Array
            &&& out.len() == policy.head + 1 + policy.tail
            &&& forall|i: int|
                0 <= i < policy.head ==> (#[trigger] out[i]) == crop_tree(items[i], depth + 1)
            &&& out[policy.head as int] == JsonTree::Text(
                marker_text((items.len() - policy.head - policy.tail) as nat),
            )
            &&& forall|i: int|
                0 <= i < policy.tail ==> (#[trigger] out[policy.head + 1 + i]) == crop_tree(
                    items[items.len() - policy.tail + i],
                    depth + 1,
                )
        }),
{
}

/// The marker of an array names one number of elements left out: two markers
/// with the same text stand for the same number.
pub proof fn law_marker_gives_the_count(a: nat, b: nat)
    requires
        marker_text(a) == marker_text(b),
    ensures
        a == b,
{
    let front = "... ("@;
    let back = " more) ..."@;
    let x = decimal(a);
    let y = decimal(b);
    assert(marker_text(a).len() == front.len() + x.len() + back.len());
    assert(marker_text(b).len() == front.len() + y.len() + back.len());
    assert(x =~= y) by {
        assert forall|i: int| 0 <= i < x.len() implies x[i] == y[i] by {
            assert(marker_text(a)[front.len() + i] == x[i]);
            assert(marker_text(b)[front.len() + i] == y[i]);
        }
    }
    lemma_decimal_injective(a, b);
}

/// Among the first `k` samples of an array whose elements are all arrays,
/// all `k` are arrays.
proof fn lemma_all_sampled(items: Seq<JsonTree>, k: nat)
    requires
        k <= sample_count(items.len()),
        forall|i: int| 0 <= i < items.len() ==> (#[trigger] items[i]) is Array,
    ensures
        sampled_arrays(items, k) == k,
    decreases k,
{
    if k > 0 {
        lemma_all_sampled(items, (k - 1) as nat);
        lemma_sample_in_range(items.len(), (k - 1) as nat);
    }
}

/// Among the first `k` samples of an array without array elements, none is
/// an array.
proof fn lemma_none_sampled(items: Seq<JsonTree>, k: nat)
    requires
        k <= sample_count(items.len()),
        forall|i: int| 0 <= i < items.len() ==> !((#[trigger] items[i]) is Array),
    ensures
        sampled_arrays(items, k) == 0,
    decreases k,
{
    if k > 0 {
        lemma_none_sampled(items, (k - 1) as nat);
        lemma_sample_in_range(items.len(), (k - 1) as nat);
    }
}

/// An array whose every element is an array is row-like.
pub proof fn law_rows_are_row_like(items: Seq<JsonTree>)
    requires
        forall|i: int| 0 <= i < items.len() ==> (#[trigger] items[i]) is Array,
    ensures
        is_row_like(items),
{
    lemma_all_sampled(items, sample_count(items.len()));
}

/// An array that has elements, none of them an array, is not row-like.
pub proof fn law_scalars_are_not_row_like(items: Seq<JsonTree>)
    requires
        items.len() > 0,
        forall|i: int| 0 <= i < items.len() ==> !((#[trigger] items[i]) is Array),
    ensures
        !is_row_like(items),
{
    lemma_none_sampled(items, sample_count(items.len()));
}

/// A tree at `depth` that cropping has nothing to take from: no array in it
/// is long enough to be cropped, and, if it is the outermost value, it is
/// not an object with more keys than the budget.
pub open spec fn within_limits(tree: JsonTree, depth: nat) -> bool
    decreases tree,
{
    depth > MAX_DEPTH || match tree {
        JsonTree::Array(items) => {
            &&& !is_cropped(items.len(), policy_for(depth, is_row_like(items)))
            &&& forall|i: int|
                0 <= i < items.len() ==> within_limits(#[trigger] items[i], depth + 1)
        },
        JsonTree::Object(entries) => {
            &&& !(depth == 0 && entries.len() > MAX_OBJECT_KEYS)
            &&& forall|i: int|
                0 <= i < entries.len() ==> within_limits((#[trigger] entries[i]).1, depth + 1)
        },
        _ => true,
    }
}

/// Cropping leaves a tree within the limits as it is; so cropping it twice
/// gives what cropping it once gives.
pub proof fn law_crop_within_limits_is_identity(tree: JsonTree, depth: nat)
    requires
        within_limits(tree, depth),
    ensures
        crop_tree(tree, depth) == tree,
        crop_tree(crop_tree(tree, depth), depth) == crop_tree(tree, depth),
    decreases tree,
{
    if depth <= MAX_DEPTH {
        match tree {
            JsonTree::Array(items) => {
                assert forall|i: int| 0 <= i < items.len() implies crop_tree(
                    #[trigger] items[i],
                    depth + 1,
                ) == items[i] by {
                    law_crop_within_limits_is_identity(items[i], depth + 1);
                }
                assert(crop_each(items, depth + 1) =~= items);
            },
            JsonTree::Object(entries) => {
                assert forall|i: int| 0 <= i < entries.len() implies crop_tree(
                    (#[trigger] entries[i]).1,
                    depth + 1,
                ) == entries[i].1 by {
                    law_crop_within_limits_is_identity(entries[i].1, depth + 1);
                }
                assert(crop_each_entry(entries, depth + 1) =~= entries);
            },
            _ => {},
        }
    }
}

/// The place of a key in the list of well-known keys, counted from `from`;
/// the length of the list for a key that is not in it.
pub open spec fn rank_from(key: Seq<char>, from: nat) -> nat
    decreases priority_keys().len() - from,
{
    if from >= priority_keys().len() {
        priority_keys().len()
    } else if priority_keys()[from as int] == key {
        from
    } else {
        rank_from(key, from + 1)
    }
}

/// The place of a key in the list of well-known keys; the length of the
/// list for any other key.
pub open spec fn priority_rank(key: Seq<char>) -> nat {
    rank_from(key, 0)
}

/// The well-known keys differ from each other and from the marker key.
pub proof fn lemma_priority_keys()
    ensures
        priority_keys().len() == PRIORITY_KEY_COUNT,
        forall|p: int, q: int|
            0 <= p < q < PRIORITY_KEY_COUNT ==> priority_keys()[p] != priority_keys()[q],
        forall|p: int| 0 <= p < PRIORITY_KEY_COUNT ==> priority_keys()[p] != marker_key(),
{
    reveal_strlit("id");
    reveal_strlit("symbol");
    reveal_strlit("type");
    reveal_strlit("status");
    reveal_strlit("name");
    reveal_strlit("event");
    reveal_strlit("timestamp");
    reveal_strlit("error");
    reveal_strlit("...");
    let keys = priority_keys();
    assert(keys[0].len() == 2 && keys[1].len() == 6 && keys[2].len() == 4 && keys[3].len() == 6);
    assert(keys[4].len() == 4 && keys[5].len() == 5 && keys[6].len() == 9 && keys[7].len() == 5);
    assert(marker_key().len() == 3);
    assert(keys[1][1] != keys[3][1]);
    assert(keys[2][0] != keys[4][0]);
    assert(keys[5][1] != keys[7][1]);
}

proof fn lemma_rank_from(key: Seq<char>, from: nat)
    requires
        from <= priority_keys().len(),
    ensures
        from <= rank_from(key, from) <= priority_keys().len(),
        rank_from(key, from) < priority_keys().len() ==> priority_keys()[rank_from(key, from) as int]
            == key,
        forall|p: int| from <= p < rank_from(key, from) ==> priority_keys()[p] != key,
    decreases priority_keys().len() - from,
{
    if from < priority_keys().len() && priority_keys()[from as int] != key {
        lemma_rank_from(key, from + 1);
    }
}

/// A key has a rank below the number of well-known keys exactly when it is
/// one of them, and then the rank is its place in the list.
pub proof fn lemma_priority_rank(key: Seq<char>)
    ensures
        priority_rank(key) <= PRIORITY_KEY_COUNT,
        priority_rank(key) < PRIORITY_KEY_COUNT ==> priority_keys()[priority_rank(key) as int]
            == key,
        forall|p: int|
            0 <= p < PRIORITY_KEY_COUNT && priority_keys()[p] == key ==> priority_rank(key) == p,
{
    lemma_priority_keys();
    lemma_rank_from(key, 0);
}

/// `entry` is the entry that `entries` holds under its key.
spec fn taken_from(entry: (Seq<char>, JsonTree), entries: Entries) -> bool {
    key_index(entries, entry.0) matches Some(j) && entries[j] == entry
}

/// What holds of the entries placed for the first `count` well-known keys.
spec fn priority_placed(placed: Entries, entries: Entries, count: nat) -> bool {
    &&& placed.len() <= count
    &&& forall|i: int| 0 <= i < placed.len() ==> priority_rank((#[trigger] placed[i]).0) < count
    &&& forall|i: int, j: int|
        0 <= i < j < placed.len() ==> priority_rank((#[trigger] placed[i]).0) < priority_rank(
            (#[trigger] placed[j]).0,
        )
    &&& forall|i: int| 0 <= i < placed.len() ==> taken_from(#[trigger] placed[i], entries)
    &&& forall|p: int|
        0 <= p < count && has_key(entries, #[trigger] priority_keys()[p]) ==> has_key(
            placed,
            priority_keys()[p],
        )
}

proof fn lemma_place_priority(entries: Entries, count: nat)
    requires
        count <= PRIORITY_KEY_COUNT,
    ensures
        priority_placed(
            place_priority(entries, count, MAX_OBJECT_KEYS as nat),
            entries,
            count,
        ),
    decreases count,
{
    lemma_priority_keys();
    if count > 0 {
        let before = place_priority(entries, (count - 1) as nat, MAX_OBJECT_KEYS as nat);
        let after = place_priority(entries, count, MAX_OBJECT_KEYS as nat);
        let key = priority_keys()[count - 1];
        lemma_place_priority(entries, (count - 1) as nat);
        lemma_key_index(entries, key);
        lemma_key_index(before, key);
        lemma_priority_rank(key);
        match key_index(entries, key) {
            Some(at) => {
                assert(key_index(before, key) is None) by {
                    if key_index(before, key) is Some {
                        let i = key_index(before, key)->0;
                        assert(priority_rank(before[i].0) < count - 1);
                    }
                }
                assert(after == before.push((key, entries[at].1)));
                assert(after[before.len() as int] == entries[at]);
                assert forall|i: int| 0 <= i < after.len() implies taken_from(
                    #[trigger] after[i],
                    entries,
                ) by {
                    if i < before.len() {
                        assert(after[i] == before[i]);
                    }
                }
                assert forall|i: int| 0 <= i < after.len() implies priority_rank(
                    (#[trigger] after[i]).0,
                ) < count by {
                    if i < before.len() {
                        assert(after[i] == before[i]);
                    }
                }
                assert forall|i: int, j: int| 0 <= i < j < after.len() implies priority_rank(
                    (#[trigger] after[i]).0,
                ) < priority_rank((#[trigger] after[j]).0) by {
                    assert(after[i] == before[i]);
                    if j < before.len() {
                        assert(after[j] == before[j]);
                    }
                }
                assert forall|p: int|
                    0 <= p < count && has_key(entries, #[trigger] priority_keys()[p]) implies has_key(
                    after,
                    priority_keys()[p],
                ) by {
                    if p < count - 1 {
                        let i = choose|i: int|
                            0 <= i < before.len() && (#[trigger] before[i]).0 == priority_keys()[p];
                        assert(after[i] == before[i]);
                    } else {
                        assert(after[before.len() as int].0 == key);
                    }
                }
            },
            None => {
                assert(after == before);
            },
        }
    }
}

/// What holds of the entries placed once the first `count` entries of the
/// object have been offered.
spec fn filled(placed: Entries, entries: Entries, count: nat) -> bool {
    let first = place_priority(entries, PRIORITY_KEY_COUNT as nat, MAX_OBJECT_KEYS as nat);
    &&& first.len() <= placed.len() <= MAX_OBJECT_KEYS
    &&& forall|i: int| 0 <= i < first.len() ==> (#[trigger] placed[i]) == first[i]
    &&& forall|i: int|
        first.len() <= i < placed.len() ==> priority_rank((#[trigger] placed[i]).0)
            == PRIORITY_KEY_COUNT
    &&& forall|i: int| 0 <= i < placed.len() ==> taken_from(#[trigger] placed[i], entries)
    &&& forall|i: int|
        first.len() <= i < placed.len() ==> key_index(entries, (#[trigger] placed[i]).0)->0 < count
    &&& forall|i: int, j: int|
        first.len() <= i < j < placed.len() ==> key_index(entries, (#[trigger] placed[i]).0)->0
            < key_index(entries, (#[trigger] placed[j]).0)->0
    &&& distinct_keys(placed)
    &&& placed.len() < MAX_OBJECT_KEYS ==> forall|j: int|
        0 <= j < count ==> has_key(placed, (#[trigger] entries[j]).0)
}

proof fn lemma_fill(entries: Entries, count: nat)
    requires
        count <= entries.len(),
    ensures
        filled(fill(entries, count, MAX_OBJECT_KEYS as nat), entries, count),
    decreases count,
{
    let first = place_priority(entries, PRIORITY_KEY_COUNT as nat, MAX_OBJECT_KEYS as nat);
    lemma_priority_keys();
    lemma_place_priority(entries, PRIORITY_KEY_COUNT as nat);
    if count == 0 {
        assert forall|i: int, j: int| 0 <= i < j < first.len() implies (#[trigger] first[i]).0 != (
        #[trigger] first[j]).0 by {
            assert(priority_rank(first[i].0) < priority_rank(first[j].0));
        }
    } else {
        let before = fill(entries, (count - 1) as nat, MAX_OBJECT_KEYS as nat);
        let after = fill(entries, count, MAX_OBJECT_KEYS as nat);
        let entry = entries[count - 1];
        lemma_fill(entries, (count - 1) as nat);
        lemma_key_index(before, entry.0);
        lemma_key_index(entries, entry.0);
        lemma_priority_rank(entry.0);
        if before.len() < MAX_OBJECT_KEYS && key_index(before, entry.0) is None {
            assert(after == before.push(entry));
            assert(priority_rank(entry.0) == PRIORITY_KEY_COUNT) by {
                if priority_rank(entry.0) < PRIORITY_KEY_COUNT {
                    let p = priority_rank(entry.0) as int;
                    assert(entries[count - 1].0 == priority_keys()[p]);
                    assert(has_key(entries, priority_keys()[p]));
                    assert(has_key(first, priority_keys()[p]));
                    let i = choose|i: int|
                        0 <= i < first.len() && (#[trigger] first[i]).0 == priority_keys()[p];
                    assert(before[i] == first[i]);
                    assert(before[i].0 == entry.0);
                }
            }
            assert(taken_from(entry, entries)) by {
                // An earlier entry under the same key would have been offered
                // before, and its key would be placed already.
                let j = key_index(entries, entry.0)->0;
                assert(j < count - 1 ==> has_key(before, entries[j].0));
                assert(j == count - 1);
            }
            assert forall|i: int| 0 <= i < after.len() implies taken_from(
                #[trigger] after[i],
                entries,
            ) by {
                if i < before.len() {
                    assert(after[i] == before[i]);
                }
            }
            assert forall|i: int| 0 <= i < first.len() implies (#[trigger] after[i])
                == first[i] by {
                assert(after[i] == before[i]);
            }
            assert forall|i: int| first.len() <= i < after.len() implies key_index(
                entries,
                (#[trigger] after[i]).0,
            )->0 < count by {
                if i < before.len() {
                    assert(after[i] == before[i]);
                }
            }
            assert forall|i: int, j: int| first.len() <= i < j < after.len() implies key_index(
                entries,
                (#[trigger] after[i]).0,
            )->0 < key_index(entries, (#[trigger] after[j]).0)->0 by {
                assert(after[i] == before[i]);
                if j < before.len() {
                    assert(after[j] == before[j]);
                }
            }
            assert forall|i: int| first.len() <= i < after.len() implies priority_rank(
                (#[trigger] after[i]).0,
            ) == PRIORITY_KEY_COUNT by {
                if i < before.len() {
                    assert(after[i] == before[i]);
                }
            }
            assert forall|i: int, j: int| 0 <= i < j < after.len() implies (#[trigger] after[i]).0
                != (#[trigger] after[j]).0 by {
                assert(after[i] == before[i]);
                if j < before.len() {
                    assert(after[j] == before[j]);
                }
            }
            if after.len() < MAX_OBJECT_KEYS {
                assert forall|j: int| 0 <= j < count implies has_key(
                    after,
                    (#[trigger] entries[j]).0,
                ) by {
                    if j < count - 1 {
                        let i = choose|i: int|
                            0 <= i < before.len() && (#[trigger] before[i]).0 == entries[j].0;
                        assert(after[i] == before[i]);
                    } else {
                        assert(after[before.len() as int].0 == entries[j].0);
                    }
                }
            }
        } else {
            assert(after == before);
        }
    }
}

/// Entries with distinct keys, all of which occur among the keys of
/// `placed`, are no more than `placed` has.
proof fn lemma_keys_fit(entries: Entries, placed: Entries)
    requires
        distinct_keys(entries),
        forall|j: int| 0 <= j < entries.len() ==> has_key(placed, (#[trigger] entries[j]).0),
    ensures
        entries.len() <= placed.len(),
{
    let all = entries.map_values(|e: (Seq<char>, JsonTree)| e.0);
    let got = placed.map_values(|e: (Seq<char>, JsonTree)| e.0);
    assert(all.no_duplicates()) by {
        assert forall|i: int, j: int| 0 <= i < all.len() && 0 <= j < all.len() && i != j implies all[i]
            != all[j] by {
            if i < j {
                assert(entries[i].0 != entries[j].0);
            } else {
                assert(entries[j].0 != entries[i].0);
            }
        }
    }
    all.unique_seq_to_set();
    got.lemma_cardinality_of_set();
    assert(all.to_set().subset_of(got.to_set())) by {
        assert forall|key: Seq<char>| all.to_set().contains(key) implies got.to_set().contains(
            key,
        ) by {
            let j = choose|j: int| 0 <= j < all.len() && all[j] == key;
            assert(has_key(placed, entries[j].0));
            let i = choose|i: int| 0 <= i < placed.len() && (#[trigger] placed[i]).0 == key;
            assert(got[i] == key);
        }
    }
    vstd::seq_lib::seq_to_set_is_finite(got);
    vstd::set_lib::lemma_len_subset(all.to_set(), got.to_set());
}

/// What is kept of a large object before the marker is put: the entries
/// placed once every entry, its value cropped, has been offered.
spec fn kept_of(entries: Entries) -> Entries {
    fill(crop_each_entry(entries, 1), entries.len(), MAX_OBJECT_KEYS as nat)
}

/// What holds of the entries kept of an object with more keys than the
/// budget.
proof fn lemma_kept(entries: Entries)
    requires
        entries.len() > MAX_OBJECT_KEYS,
        distinct_keys(entries),
    ensures
        ({
            let kept = kept_of(entries);
            &&& kept.len() == MAX_OBJECT_KEYS
            &&& distinct_keys(kept)
            &&& forall|i: int|
                0 <= i < kept.len() ==> {
                    &&& key_index(entries, (#[trigger] kept[i]).0) matches Some(j)
                    &&& kept[i].1 == crop_tree(entries[j].1, 1)
                }
            &&& forall|p: int|
                0 <= p < PRIORITY_KEY_COUNT && has_key(entries, #[trigger] priority_keys()[p])
                    ==> has_key(kept, priority_keys()[p])
            &&& forall|i: int, j: int|
                0 <= i < j < kept.len() && priority_rank((#[trigger] kept[j]).0)
                    < PRIORITY_KEY_COUNT ==> priority_rank((#[trigger] kept[i]).0) < priority_rank(
                    kept[j].0,
                )
            &&& forall|i: int, j: int|
                0 <= i < j < kept.len() && priority_rank((#[trigger] kept[i]).0)
                    == PRIORITY_KEY_COUNT ==> key_index(entries, kept[i].0)->0 < key_index(
                    entries,
                    (#[trigger] kept[j]).0,
                )->0
        }),
{
    let inner = crop_each_entry(entries, 1);
    let first = place_priority(inner, PRIORITY_KEY_COUNT as nat, MAX_OBJECT_KEYS as nat);
    let kept = kept_of(entries);
    lemma_priority_keys();
    lemma_place_priority(inner, PRIORITY_KEY_COUNT as nat);
    lemma_fill(inner, inner.len());
    assert(distinct_keys(inner)) by {
        assert forall|i: int, j: int| 0 <= i < j < inner.len() implies (#[trigger] inner[i]).0 != (
        #[trigger] inner[j]).0 by {
            assert(entries[i].0 != entries[j].0);
        }
    }
    assert(kept.len() == MAX_OBJECT_KEYS) by {
        if kept.len() < MAX_OBJECT_KEYS {
            lemma_keys_fit(inner, kept);
        }
    }
    assert forall|i: int| 0 <= i < kept.len() implies {
        &&& key_index(entries, (#[trigger] kept[i]).0) matches Some(j)
        &&& kept[i].1 == crop_tree(entries[j].1, 1)
    } by {
        assert(taken_from(kept[i], inner));
        lemma_crop_keeps_keys(entries, 1, kept[i].0);
        lemma_key_index(entries, kept[i].0);
    }
    assert forall|p: int|
        0 <= p < PRIORITY_KEY_COUNT && has_key(entries, #[trigger] priority_keys()[p]) implies has_key(
        kept,
        priority_keys()[p],
    ) by {
        lemma_crop_keeps_keys(entries, 1, priority_keys()[p]);
        lemma_key_index(entries, priority_keys()[p]);
        lemma_key_index(inner, priority_keys()[p]);
        assert(has_key(inner, priority_keys()[p]));
        assert(has_key(first, priority_keys()[p]));
        let i = choose|i: int| 0 <= i < first.len() && (#[trigger] first[i]).0 == priority_keys()[p];
        assert(kept[i] == first[i]);
    }
    assert forall|i: int, j: int|
        0 <= i < j < kept.len() && priority_rank((#[trigger] kept[j]).0)
            < PRIORITY_KEY_COUNT implies priority_rank((#[trigger] kept[i]).0) < priority_rank(
        kept[j].0,
    ) by {
        assert(j < first.len());
        assert(kept[i] == first[i]);
        assert(kept[j] == first[j]);
    }
    assert forall|i: int, j: int|
        0 <= i < j < kept.len() && priority_rank((#[trigger] kept[i]).0)
            == PRIORITY_KEY_COUNT implies key_index(entries, kept[i].0)->0 < key_index(
        entries,
        (#[trigger] kept[j]).0,
    )->0 by {
        if i < first.len() {
            assert(kept[i] == first[i]);
        }
        lemma_crop_keeps_keys(entries, 1, kept[i].0);
        lemma_crop_keeps_keys(entries, 1, kept[j].0);
    }
}

/// The outermost object with more keys than the budget comes out with
/// the budget of its own keys in front. Every well-known key that the
/// object has is among them; the well-known keys stand first, in the order
/// of their list, before all other keys, which stand in the order that they
/// have in the object.
pub proof fn law_well_known_keys_stand_first(entries: Entries)
    requires
        entries.len() > MAX_OBJECT_KEYS,
        distinct_keys(entries),
    ensures
        ({
            let out = crop_tree(JsonTree::Object(entries), 0)->Object_0;
            let budget = MAX_OBJECT_KEYS as int;
            &&& crop_tree(JsonTree::Object(entries), 0) is Object
            &&& budget <= out.len() <= budget + 1
            &&& forall|i: int| 0 <= i < budget ==> has_key(entries, (#[trigger] out[i]).0)
            &&& forall|p: int|
                0 <= p < PRIORITY_KEY_COUNT && has_key(entries, #[trigger] priority_keys()[p])
                    ==> has_key(out.take(budget), priority_keys()[p])
            &&& forall|i: int, j: int|
                0 <= i < j < budget && priority_rank((#[trigger] out[j]).0) < PRIORITY_KEY_COUNT
                    ==> priority_rank((#[trigger] out[i]).0) < priority_rank(out[j].0)
            &&& forall|i: int, j: int|
                0 <= i < j < budget && priority_rank((#[trigger] out[i]).0) == PRIORITY_KEY_COUNT
                    ==> key_index(entries, out[i].0)->0 < key_index(
                    entries,
                    (#[trigger] out[j]).0,
                )->0
        }),
{
    let budget = MAX_OBJECT_KEYS as int;
    let inner = crop_each_entry(entries, 1);
    let kept = kept_of(entries);
    let out = trim(inner, MAX_OBJECT_KEYS as nat);
    assert(crop_tree(JsonTree::Object(entries), 0) == JsonTree::Object(out));
    lemma_kept(entries);
    lemma_key_index(kept, marker_key());
    // Putting the marker changes no key among those kept.
    assert forall|i: int| 0 <= i < budget implies (#[trigger] out[i]).0 == kept[i].0 by {}
    assert forall|i: int| 0 <= i < budget implies has_key(entries, (#[trigger] out[i]).0) by {
        lemma_key_index(entries, kept[i].0);
    }
    assert forall|p: int|
        0 <= p < PRIORITY_KEY_COUNT && has_key(entries, #[trigger] priority_keys()[p]) implies has_key(
        out.take(budget),
        priority_keys()[p],
    ) by {
        let i = choose|i: int| 0 <= i < kept.len() && (#[trigger] kept[i]).0 == priority_keys()[p];
        assert(out.take(budget)[i].0 == kept[i].0);
    }
    assert forall|i: int, j: int|
        0 <= i < j < budget && priority_rank((#[trigger] out[j]).0)
            < PRIORITY_KEY_COUNT implies priority_rank((#[trigger] out[i]).0) < priority_rank(
        out[j].0,
    ) by {
        assert(out[i].0 == kept[i].0);
        assert(out[j].0 == kept[j].0);
    }
    assert forall|i: int, j: int|
        0 <= i < j < budget && priority_rank((#[trigger] out[i]).0)
            == PRIORITY_KEY_COUNT implies key_index(entries, out[i].0)->0 < key_index(
        entries,
        (#[trigger] out[j]).0,
    )->0 by {
        assert(out[i].0 == kept[i].0);
        assert(out[j].0 == kept[j].0);
    }
}

/// The outermost object with more keys than the budget comes out with
/// exactly the budget of its own entries and, last, the marker entry with
/// the number of keys left out. Each entry kept has its value cropped one
/// level down.
///
/// This is stated of objects that do not use the marker key themselves: in
/// such an object the marker takes the place of the value under that key.
pub proof fn law_large_object_is_trimmed(entries: Entries)
    requires
        entries.len() > MAX_OBJECT_KEYS,
        distinct_keys(entries),
        !has_key(entries, marker_key()),
    ensures
        ({
            let out = crop_tree(JsonTree::Object(entries), 0)->Object_0;
            let budget = MAX_OBJECT_KEYS as int;
            &&& crop_tree(JsonTree::Object(entries), 0) is Object
            &&& out.len() == budget + 1
            &&& out[budget] == (
                marker_key(),
                JsonTree::Text(more_keys_text((entries.len() - budget) as nat)),
            )
            &&& distinct_keys(out)
            &&& forall|i: int|
                0 <= i < budget ==> {
                    &&& (#[trigger] out[i]).0 != marker_key()
                    &&& key_index(entries, out[i].0) matches Some(j) && out[i].1 == crop_tree(
                        entries[j].1,
                        1,
                    )
                }
        }),
{
    let budget = MAX_OBJECT_KEYS as int;
    let inner = crop_each_entry(entries, 1);
    let kept = kept_of(entries);
    let out = trim(inner, MAX_OBJECT_KEYS as nat);
    assert(crop_tree(JsonTree::Object(entries), 0) == JsonTree::Object(out));
    lemma_kept(entries);
    assert forall|i: int| 0 <= i < kept.len() implies (#[trigger] kept[i]).0 != marker_key() by {
        lemma_key_index(entries, kept[i].0);
    }
    lemma_key_index(kept, marker_key());
    lemma_put(kept, marker_key(), JsonTree::Text(more_keys_text((inner.len() - kept.len()) as nat)));
    assert(out == kept.push(
        (marker_key(), JsonTree::Text(more_keys_text((entries.len() - budget) as nat))),
    ));
    assert forall|i: int| 0 <= i < budget implies {
        &&& (#[trigger] out[i]).0 != marker_key()
        &&& key_index(entries, out[i].0) matches Some(j) && out[i].1 == crop_tree(entries[j].1, 1)
    } by {
        assert(out[i] == kept[i]);
    }
}

/// However long an array or however large the outermost object, what
/// cropping leaves of it is short: an array above the depth limit comes out
/// with fewer elements than the length from which its policy crops, and the
/// outermost object with at most the budget of keys and the marker.
pub proof fn law_width_is_bounded(tree: JsonTree, depth: nat)
    requires
        depth <= MAX_DEPTH,
    ensures
        tree is Array ==> crop_tree(tree, depth) is Array && crop_tree(tree, depth)->Array_0.len()
            < policy_for(depth, is_row_like(tree->Array_0)).min_len,
        tree is Object && depth == 0 ==> crop_tree(tree, depth) is Object && crop_tree(
            tree,
            depth,
        )->Object_0.len() <= MAX_OBJECT_KEYS + 1,
{
    match tree {
        JsonTree::Object(entries) => {
            if depth == 0 && entries.len() > MAX_OBJECT_KEYS {
                let inner = crop_each_entry(entries, 1);
                let kept = fill(inner, inner.len(), MAX_OBJECT_KEYS as nat);
                lemma_fill(inner, inner.len());
                lemma_key_index(kept, marker_key());
            }
        },
        _ => {},
    }
}

} // verus!
