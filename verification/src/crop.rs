//! Cropping: a bounded window onto a structured value.
//!
//! A long array keeps its first and last elements around a marker that
//! counts what was left out; the outermost object keeps a budget of keys,
//! the well-known ones first. Below a fixed depth nothing is touched.

use crate::json::{
    distinct_keys, key_index, lemma_array_view, lemma_key_index, put, trees_of, Entries, Json,
    JsonObject, JsonTree,
};
use crate::text::{decimal, push_decimal};
use vstd::prelude::*;
use vstd::string::StringExecFns;

verus! {

/// Values nested deeper than this are returned as they are.
pub const MAX_DEPTH: usize = 2;

/// Elements kept at the front of the outermost array.
pub const OUTER_HEAD: usize = 1;

/// Elements kept at the back of the outermost array.
pub const OUTER_TAIL: usize = 1;

/// The outermost array is cropped only from this length on.
pub const OUTER_MIN_CROP_LEN: usize = 5;

/// A nested array is cropped only from this length on.
pub const INNER_MIN_CROP_LEN: usize = 30;

/// Elements kept at the front of a nested array of rows.
pub const ROW_LIST_HEAD: usize = 1;

/// Elements kept at the back of a nested array of rows.
pub const ROW_LIST_TAIL: usize = 1;

/// Elements kept at the front of a nested array of scalars.
pub const SCALAR_LIST_HEAD: usize = 3;

/// Elements kept at the back of a nested array of scalars.
pub const SCALAR_LIST_TAIL: usize = 1;

/// At most this many elements are looked at to tell an array's shape.
pub const SHAPE_SAMPLE_CAP: usize = 32;

/// Of the elements looked at, this many in a hundred must be arrays for the
/// array to count as a list of rows.
pub const ROW_LIKE_PERCENT: usize = 80;

/// Keys shown of the outermost object.
pub const MAX_OBJECT_KEYS: usize = 10;

/// The number of well-known keys.
pub const PRIORITY_KEY_COUNT: usize = 8;

/// When an array is cropped, and what is kept of it.
#[derive(Clone, Copy, Debug, PartialEq, Eq, Structural)]
pub struct CropPolicy {
    pub min_len: usize,
    pub head: usize,
    pub tail: usize,
}

/// The well-known keys, which are shown first when an object is trimmed.
pub open spec fn priority_keys() -> Seq<Seq<char>> {
    seq![
        "id"@,
        "symbol"@,
        "type"@,
        "status"@,
        "name"@,
        "event"@,
        "timestamp"@,
        "error"@,
    ]
}

/// The key under which a trimmed object says how many keys it left out.
pub open spec fn marker_key() -> Seq<char> {
    "..."@
}

/// The text of the element that stands for `omitted` array elements.
pub open spec fn marker_text(omitted: nat) -> Seq<char> {
    "... ("@ + decimal(omitted) + " more) ..."@
}

/// The text under the marker key of an object that left out `omitted` keys.
pub open spec fn more_keys_text(omitted: nat) -> Seq<char> {
    decimal(omitted) + " more keys"@
}

/// How many elements are looked at to tell the shape of an array.
pub open spec fn sample_count(len: nat) -> nat {
    if len < SHAPE_SAMPLE_CAP {
        len
    } else {
        SHAPE_SAMPLE_CAP as nat
    }
}

/// The position of the `k`-th element looked at: the samples are spread
/// evenly over the array, the first one at its start.
pub open spec fn sample_index(len: nat, k: nat) -> int {
    ((k * len) as int) / (sample_count(len) as int)
}

/// How many of the first `k` samples are arrays.
pub open spec fn sampled_arrays(items: Seq<JsonTree>, k: nat) -> nat
    decreases k,
{
    if k == 0 {
        0
    } else {
        let rest = sampled_arrays(items, (k - 1) as nat);
        if items[sample_index(items.len(), (k - 1) as nat)] is Array {
            rest + 1
        } else {
            rest
        }
    }
}

/// An array is row-like when enough of its samples are arrays themselves.
pub open spec fn is_row_like(items: Seq<JsonTree>) -> bool {
    let n = sample_count(items.len());
    100 * sampled_arrays(items, n) >= ROW_LIKE_PERCENT * n
}

/// The policy for an array at `depth` of the given shape.
pub open spec fn policy_for(depth: nat, row_like: bool) -> CropPolicy {
    if depth == 0 {
        CropPolicy { min_len: OUTER_MIN_CROP_LEN, head: OUTER_HEAD, tail: OUTER_TAIL }
    } else if row_like {
        CropPolicy { min_len: INNER_MIN_CROP_LEN, head: ROW_LIST_HEAD, tail: ROW_LIST_TAIL }
    } else {
        CropPolicy { min_len: INNER_MIN_CROP_LEN, head: SCALAR_LIST_HEAD, tail: SCALAR_LIST_TAIL }
    }
}

/// Whether an array of this length is cropped under a policy.
pub open spec fn is_cropped(len: nat, policy: CropPolicy) -> bool {
    len >= policy.min_len && len > policy.head + policy.tail
}

/// The window that a policy leaves of a sequence: all of it, or its head,
/// a marker that counts what is left out, and its tail.
pub open spec fn window(items: Seq<JsonTree>, policy: CropPolicy) -> Seq<JsonTree> {
    if is_cropped(items.len(), policy) {
        items.take(policy.head as int).push(
            JsonTree::Text(marker_text((items.len() - policy.head - policy.tail) as nat)),
        ) + items.skip(items.len() - policy.tail)
    } else {
        items
    }
}

/// The entries placed for the first `count` well-known keys: each one that
/// the object has, while there is room.
pub open spec fn place_priority(entries: Entries, count: nat, budget: nat) -> Entries
    decreases count,
{
    if count == 0 {
        Entries::empty()
    } else {
        let placed = place_priority(entries, (count - 1) as nat, budget);
        let key = priority_keys()[count - 1];
        match key_index(entries, key) {
            Some(i) => if placed.len() < budget {
                put(placed, key, entries[i].1)
            } else {
                placed
            },
            None => placed,
        }
    }
}

/// The entries placed once the first `count` entries of the object have been
/// offered for the room that the well-known keys left.
pub open spec fn fill(entries: Entries, count: nat, budget: nat) -> Entries
    decreases count,
{
    if count == 0 {
        place_priority(entries, priority_keys().len(), budget)
    } else {
        let placed = fill(entries, (count - 1) as nat, budget);
        let entry = entries[count - 1];
        if placed.len() < budget && key_index(placed, entry.0) is None {
            put(placed, entry.0, entry.1)
        } else {
            placed
        }
    }
}

/// An object trimmed to a budget of keys: the well-known keys first, then
/// the others in their order, then a marker if anything is left out.
pub open spec fn trim(entries: Entries, budget: nat) -> Entries {
    let kept = fill(entries, entries.len(), budget);
    if kept.len() < entries.len() {
        put(
            kept,
            marker_key(),
            JsonTree::Text(more_keys_text((entries.len() - kept.len()) as nat)),
        )
    } else {
        kept
    }
}

/// Every element cropped at `depth`.
pub open spec fn crop_each(items: Seq<JsonTree>, depth: nat) -> Seq<JsonTree>
    decreases items, 0nat,
{
    Seq::new(
        items.len(),
        |i: int|
            if 0 <= i < items.len() {
                crop_tree(items[i], depth)
            } else {
                JsonTree::Null
            },
    )
}

/// Every entry's value cropped at `depth`, under its key.
pub open spec fn crop_each_entry(entries: Entries, depth: nat) -> Entries
    decreases entries, 0nat,
{
    Seq::new(
        entries.len(),
        |i: int|
            if 0 <= i < entries.len() {
                (entries[i].0, crop_tree(entries[i].1, depth))
            } else {
                (Seq::empty(), JsonTree::Null)
            },
    )
}

/// The cropped form of a tree that stands at `depth`.
pub open spec fn crop_tree(tree: JsonTree, depth: nat) -> JsonTree
    decreases tree, 1nat,
{
    if depth > MAX_DEPTH {
        tree
    } else {
        match tree {
            JsonTree::Array(items) => JsonTree::Array(
                window(crop_each(items, depth + 1), policy_for(depth, is_row_like(items))),
            ),
            JsonTree::Object(entries) => if depth == 0 && entries.len() > MAX_OBJECT_KEYS {
                JsonTree::Object(trim(crop_each_entry(entries, depth + 1), MAX_OBJECT_KEYS as nat))
            } else {
                JsonTree::Object(crop_each_entry(entries, depth + 1))
            },
            _ => tree,
        }
    }
}

/// The `index`-th well-known key.
fn priority_key(index: usize) -> (key: String)
    requires
        index < PRIORITY_KEY_COUNT,
    ensures
        key@ == priority_keys()[index as int],
{
    if index == 0 {
        String::from_str("id")
    } else if index == 1 {
        String::from_str("symbol")
    } else if index == 2 {
        String::from_str("type")
    } else if index == 3 {
        String::from_str("status")
    } else if index == 4 {
        String::from_str("name")
    } else if index == 5 {
        String::from_str("event")
    } else if index == 6 {
        String::from_str("timestamp")
    } else {
        String::from_str("error")
    }
}

/// The element that stands for `omitted` array elements.
pub fn array_marker(omitted: usize) -> (marker: Json)
    ensures
        marker@ == JsonTree::Text(marker_text(omitted as nat)),
{
    let mut text = String::from_str("... (");
    push_decimal(&mut text, omitted);
    text.append(" more) ...");
    Json::Text(text)
}

/// The value under the marker key of an object that left out `omitted`
/// keys.
pub fn object_marker(omitted: usize) -> (marker: Json)
    ensures
        marker@ == JsonTree::Text(more_keys_text(omitted as nat)),
{
    let mut text = String::new();
    push_decimal(&mut text, omitted);
    text.append(" more keys");
    Json::Text(text)
}

/// Each sample lies inside the array.
pub proof fn lemma_sample_in_range(len: nat, k: nat)
    requires
        k < sample_count(len),
    ensures
        0 <= sample_index(len, k) < len,
        len <= SHAPE_SAMPLE_CAP ==> sample_index(len, k) == k,
{
    let n = sample_count(len) as int;
    let product = (k * len) as int;
    assert(0 <= product < n * len) by (nonlinear_arith)
        requires
            0 <= k < n,
            0 < len,
            product == k * len,
    ;
    assert(0 <= product / n < len) by (nonlinear_arith)
        requires
            0 <= product < n * len,
            0 < n,
    ;
    if len <= SHAPE_SAMPLE_CAP {
        assert(product / n == k) by (nonlinear_arith)
            requires
                product == k * n,
                0 < n,
        ;
    }
}

/// Tells whether an array is a list of rows, from a sample of its elements.
pub fn is_list_of_rows(items: &Vec<Json>) -> (row_like: bool)
    ensures
        row_like == is_row_like(trees_of(items@)),
{
    let len = items.len();
    let n = if len < SHAPE_SAMPLE_CAP {
        len
    } else {
        SHAPE_SAMPLE_CAP
    };
    let mut arrays: usize = 0;
    let mut k: usize = 0;
    while k < n
        invariant
            len == items.len(),
            n == sample_count(len as nat),
            k <= n,
            arrays <= k,
            arrays == sampled_arrays(trees_of(items@), k as nat),
        decreases n - k,
    {
        proof {
            lemma_sample_in_range(len as nat, k as nat);
        }
        assert(k * len <= SHAPE_SAMPLE_CAP * usize::MAX) by (nonlinear_arith)
            requires
                k < SHAPE_SAMPLE_CAP,
                len <= usize::MAX,
        ;
        let at = ((k as u128) * (len as u128) / (n as u128)) as usize;
        assert(at == sample_index(len as nat, k as nat));
        match &items[at] {
            Json::Array(_) => {
                arrays += 1;
            },
            _ => {},
        }
        k += 1;
    }
    100 * arrays >= ROW_LIKE_PERCENT * n
}

/// Picks the policy for an array at `depth` of the given shape.
pub fn select_policy(depth: usize, row_like: bool) -> (policy: CropPolicy)
    ensures
        policy == policy_for(depth as nat, row_like),
{
    if depth == 0 {
        CropPolicy { min_len: OUTER_MIN_CROP_LEN, head: OUTER_HEAD, tail: OUTER_TAIL }
    } else if row_like {
        CropPolicy { min_len: INNER_MIN_CROP_LEN, head: ROW_LIST_HEAD, tail: ROW_LIST_TAIL }
    } else {
        CropPolicy { min_len: INNER_MIN_CROP_LEN, head: SCALAR_LIST_HEAD, tail: SCALAR_LIST_TAIL }
    }
}

/// Cropping the values leaves every key where it is.
pub proof fn lemma_crop_keeps_keys(entries: Entries, depth: nat, key: Seq<char>)
    ensures
        key_index(crop_each_entry(entries, depth), key) == key_index(entries, key),
    decreases entries.len(),
{
    if entries.len() > 0 {
        let cropped = crop_each_entry(entries, depth);
        assert(cropped.drop_last() =~= crop_each_entry(entries.drop_last(), depth));
        lemma_crop_keeps_keys(entries.drop_last(), depth, key);
    }
}

/// Appends the elements of `items` from `from` up to `to`, each cropped at
/// `depth`.
fn crop_span(items: &Vec<Json>, from: usize, to: usize, depth: usize, out: &mut Vec<Json>)
    requires
        from <= to <= items.len(),
        depth <= MAX_DEPTH + 1,
    ensures
        trees_of(final(out)@) == trees_of(old(out)@) + crop_each(
            trees_of(items@),
            depth as nat,
        ).subrange(from as int, to as int),
    decreases trees_of(items@), 0nat,
{
    let ghost start = trees_of(out@);
    let ghost cropped = crop_each(trees_of(items@), depth as nat);
    let mut i: usize = from;
    assert(trees_of(out@) =~= start + cropped.subrange(from as int, i as int));
    while i < to
        invariant
            from <= i <= to <= items.len(),
            depth <= MAX_DEPTH + 1,
            cropped == crop_each(trees_of(items@), depth as nat),
            trees_of(out@) == start + cropped.subrange(from as int, i as int),
        decreases to - i,
    {
        proof {
            assert(trees_of(items@)[i as int] == items@[i as int]@);
        }
        let ghost before = trees_of(out@);
        let item = crop_value(&items[i], depth);
        out.push(item);
        assert(trees_of(out@) =~= before.push(cropped[i as int]));
        assert(start + cropped.subrange(from as int, i + 1) =~= (start + cropped.subrange(
            from as int,
            i as int,
        )).push(cropped[i as int]));
        i += 1;
    }
}

/// An object with the same keys, each value cropped at `depth`.
fn crop_entries(obj: &JsonObject, depth: usize) -> (out: JsonObject)
    requires
        depth <= MAX_DEPTH + 1,
    ensures
        out@ == crop_each_entry(obj@, depth as nat),
    decreases obj@, 0nat,
{
    let n = obj.len();
    let ghost cropped = crop_each_entry(obj@, depth as nat);
    let mut out = JsonObject::new();
    let mut i: usize = 0;
    while i < n
        invariant
            n == obj@.len(),
            distinct_keys(obj@),
            i <= n,
            depth <= MAX_DEPTH + 1,
            cropped == crop_each_entry(obj@, depth as nat),
            out@ == cropped.take(i as int),
        decreases n - i,
    {
        let key = obj.key(i).clone();
        let value = crop_value(obj.value(i), depth);
        proof {
            let before = cropped.take(i as int);
            lemma_key_index(before, key@);
            assert forall|k: int| 0 <= k < before.len() implies (#[trigger] before[k]).0
                != key@ by {
                assert(before[k].0 == obj@[k].0);
            }
            assert(before.push((key@, value@)) =~= cropped.take(i + 1));
        }
        out.append(key, value);
        i += 1;
    }
    assert(cropped.take(n as int) =~= cropped);
    out
}

/// An object trimmed to the budget of keys, the values it keeps cropped at
/// `depth`.
fn trim_object(obj: &JsonObject, depth: usize) -> (out: JsonObject)
    requires
        depth <= MAX_DEPTH + 1,
    ensures
        out@ == trim(crop_each_entry(obj@, depth as nat), MAX_OBJECT_KEYS as nat),
    decreases obj@, 0nat,
{
    let n = obj.len();
    let ghost cropped = crop_each_entry(obj@, depth as nat);
    let mut out = JsonObject::new();
    let mut p: usize = 0;
    while p < PRIORITY_KEY_COUNT
        invariant
            n == obj@.len(),
            p <= PRIORITY_KEY_COUNT,
            depth <= MAX_DEPTH + 1,
            cropped == crop_each_entry(obj@, depth as nat),
            out@ == place_priority(cropped, p as nat, MAX_OBJECT_KEYS as nat),
        decreases PRIORITY_KEY_COUNT - p,
    {
        let key = priority_key(p);
        proof {
            lemma_crop_keeps_keys(obj@, depth as nat, key@);
            lemma_key_index(obj@, key@);
        }
        match obj.find(&key) {
            Some(i) => {
                if out.len() < MAX_OBJECT_KEYS {
                    let value = crop_value(obj.value(i), depth);
                    out.insert(key, value);
                }
            },
            None => {},
        }
        p += 1;
    }
    let mut i: usize = 0;
    while i < n
        invariant
            n == obj@.len(),
            i <= n,
            depth <= MAX_DEPTH + 1,
            cropped == crop_each_entry(obj@, depth as nat),
            out@ == fill(cropped, i as nat, MAX_OBJECT_KEYS as nat),
        decreases n - i,
    {
        if out.len() < MAX_OBJECT_KEYS {
            if out.find(obj.key(i)).is_none() {
                let key = obj.key(i).clone();
                let value = crop_value(obj.value(i), depth);
                out.insert(key, value);
            }
        }
        i += 1;
    }
    let kept = out.len();
    if kept < n {
        out.insert(String::from_str("..."), object_marker(n - kept));
    }
    out
}

/// Crops a value that stands at `depth`: long arrays are cut down to a
/// window, the outermost object to a budget of keys, and what lies deeper
/// than `MAX_DEPTH` is copied as it is.
pub fn crop_value(value: &Json, depth: usize) -> (out: Json)
    ensures
        out@ == crop_tree(value@, depth as nat),
    decreases value@, 1nat,
{
    if depth > MAX_DEPTH {
        return value.clone();
    }
    match value {
        Json::Array(items) => {
            proof {
                lemma_array_view(*items);
            }
            let policy = select_policy(depth, is_list_of_rows(items));
            let len = items.len();
            let mut out: Vec<Json> = Vec::new();
            let ghost cropped = crop_each(trees_of(items@), (depth + 1) as nat);
            assert(trees_of(out@) =~= Seq::<JsonTree>::empty());
            if len < policy.min_len || len <= policy.head + policy.tail {
                crop_span(items, 0, len, depth + 1, &mut out);
                assert(trees_of(out@) =~= cropped);
            } else {
                crop_span(items, 0, policy.head, depth + 1, &mut out);
                let ghost head = trees_of(out@);
                out.push(array_marker(len - policy.head - policy.tail));
                assert(trees_of(out@) =~= head.push(
                    JsonTree::Text(marker_text((len - policy.head - policy.tail) as nat)),
                ));
                crop_span(items, len - policy.tail, len, depth + 1, &mut out);
                assert(trees_of(out@) =~= window(cropped, policy));
            }
            proof {
                lemma_array_view(out);
            }
            Json::Array(out)
        },
        Json::Object(obj) => {
            if depth == 0 && obj.len() > MAX_OBJECT_KEYS {
                Json::Object(trim_object(obj, depth + 1))
            } else {
                Json::Object(crop_entries(obj, depth + 1))
            }
        },
        _ => value.clone(),
    }
}

} // verus!
