use corky_relay::crop::{
    array_marker, crop_value, is_list_of_rows, object_marker, select_policy, CropPolicy,
    INNER_MIN_CROP_LEN, MAX_DEPTH, MAX_OBJECT_KEYS, OUTER_MIN_CROP_LEN,
};
use corky_relay::interop::try_parse_json_str;
use corky_relay::json::{Json, JsonObject};

fn json(source: &str) -> Json {
    try_parse_json_str(source).unwrap()
}

fn number(n: u64) -> Json {
    Json::Number(serde_json::Number::from(n))
}

fn text(s: &str) -> Json {
    Json::Text(s.to_string())
}

fn numbers(count: u64) -> Vec<Json> {
    (0..count).map(number).collect()
}

fn object_with_keys(keys: &[&str]) -> JsonObject {
    let mut obj = JsonObject::new();
    for (i, key) in keys.iter().enumerate() {
        obj.insert(key.to_string(), number(i as u64));
    }
    obj
}

fn keys_of(value: &Json) -> Vec<String> {
    match value {
        Json::Object(obj) => (0..obj.len()).map(|i| obj.key(i).clone()).collect(),
        other => panic!("not an object: {:?}", other),
    }
}

#[test]
fn scalars_pass_through() {
    for source in ["null", "true", "12", "-3.5", "\"long ... (4 more) ... text\""] {
        let value = json(source);
        assert_eq!(crop_value(&value, 0), value);
        assert_eq!(crop_value(&value, 2), value);
    }
}

#[test]
fn markers_give_the_exact_count() {
    assert_eq!(array_marker(4), text("... (4 more) ..."));
    assert_eq!(array_marker(0), text("... (0 more) ..."));
    assert_eq!(array_marker(1234567890), text("... (1234567890 more) ..."));
    assert_eq!(object_marker(1), text("1 more keys"));
    assert_eq!(object_marker(205), text("205 more keys"));
    assert_eq!(
        array_marker(usize::MAX),
        text(&format!("... ({} more) ...", usize::MAX))
    );
}

#[test]
fn policy_depends_on_depth_and_shape() {
    assert_eq!(select_policy(0, true), CropPolicy { min_len: 5, head: 1, tail: 1 });
    assert_eq!(select_policy(0, false), CropPolicy { min_len: 5, head: 1, tail: 1 });
    assert_eq!(select_policy(1, true), CropPolicy { min_len: 30, head: 1, tail: 1 });
    assert_eq!(select_policy(1, false), CropPolicy { min_len: 30, head: 3, tail: 1 });
    assert_eq!(select_policy(2, false), CropPolicy { min_len: 30, head: 3, tail: 1 });
    assert_eq!(OUTER_MIN_CROP_LEN, 5);
    assert_eq!(INNER_MIN_CROP_LEN, 30);
}

#[test]
fn outer_array_below_threshold_is_kept() {
    for len in 0..5 {
        let value = Json::Array(numbers(len));
        assert_eq!(crop_value(&value, 0), value);
    }
}

#[test]
fn outer_array_at_threshold_is_cropped() {
    let value = Json::Array(numbers(5));
    let expected = Json::Array(vec![number(0), text("... (3 more) ..."), number(4)]);
    assert_eq!(crop_value(&value, 0), expected);
}

#[test]
fn outer_array_keeps_true_first_and_last() {
    let value = Json::Array(numbers(1000));
    let expected = Json::Array(vec![number(0), text("... (998 more) ..."), number(999)]);
    assert_eq!(crop_value(&value, 0), expected);
}

#[test]
fn short_array_still_crops_its_children() {
    let inner = Json::Array(numbers(40));
    let value = Json::Array(vec![inner, number(7)]);
    let cropped_inner = Json::Array(vec![
        number(0),
        number(1),
        number(2),
        text("... (36 more) ..."),
        number(39),
    ]);
    assert_eq!(crop_value(&value, 0), Json::Array(vec![cropped_inner, number(7)]));
}

#[test]
fn inner_scalar_array_below_threshold_is_kept() {
    let value = Json::Array(vec![Json::Array(numbers(29))]);
    assert_eq!(crop_value(&value, 0), value);
}

#[test]
fn inner_scalar_array_at_threshold_keeps_three_and_one() {
    let value = Json::Array(vec![Json::Array(numbers(30))]);
    let expected = Json::Array(vec![Json::Array(vec![
        number(0),
        number(1),
        number(2),
        text("... (26 more) ..."),
        number(29),
    ])]);
    assert_eq!(crop_value(&value, 0), expected);
}

#[test]
fn inner_row_array_keeps_one_and_one() {
    let rows: Vec<Json> = (0..30).map(|i| Json::Array(vec![number(i), number(i + 1)])).collect();
    let value = Json::Array(vec![Json::Array(rows)]);
    let expected = Json::Array(vec![Json::Array(vec![
        Json::Array(vec![number(0), number(1)]),
        text("... (28 more) ..."),
        Json::Array(vec![number(29), number(30)]),
    ])]);
    assert_eq!(crop_value(&value, 0), expected);
}

#[test]
fn rows_are_cropped_inside_a_kept_row() {
    let long_row = Json::Array(numbers(31));
    let rows: Vec<Json> = (0..30).map(|_| long_row.clone()).collect();
    let value = Json::Array(vec![Json::Array(rows)]);
    let cropped_row = Json::Array(vec![
        number(0),
        number(1),
        number(2),
        text("... (27 more) ..."),
        number(30),
    ]);
    let expected = Json::Array(vec![Json::Array(vec![
        cropped_row.clone(),
        text("... (28 more) ..."),
        cropped_row,
    ])]);
    assert_eq!(crop_value(&value, 0), expected);
}

#[test]
fn nothing_is_cropped_below_the_depth_limit() {
    let deep = Json::Array(numbers(100));
    assert_eq!(MAX_DEPTH, 2);
    assert_eq!(crop_value(&deep, 3), deep);
    assert_eq!(crop_value(&deep, usize::MAX), deep);
    let nested = Json::Array(vec![Json::Array(vec![Json::Array(vec![deep.clone()])])]);
    assert_eq!(crop_value(&nested, 0), nested);
    let at_limit = Json::Array(vec![Json::Array(vec![deep])]);
    let expected = Json::Array(vec![Json::Array(vec![Json::Array(vec![
        number(0),
        number(1),
        number(2),
        text("... (96 more) ..."),
        number(99),
    ])])]);
    assert_eq!(crop_value(&at_limit, 0), expected);
}

#[test]
fn empty_array_counts_as_rows() {
    assert!(is_list_of_rows(&vec![]));
}

#[test]
fn arrays_of_arrays_are_rows_and_arrays_of_scalars_are_not() {
    let rows: Vec<Json> = (0..50).map(|_| Json::Array(vec![])).collect();
    assert!(is_list_of_rows(&rows));
    assert!(!is_list_of_rows(&numbers(50)));
    assert!(!is_list_of_rows(&numbers(1)));
    assert!(is_list_of_rows(&vec![Json::Array(vec![])]));
}

#[test]
fn four_in_five_samples_make_rows() {
    let mut items: Vec<Json> = Vec::new();
    for i in 0..32 {
        if i < 26 {
            items.push(Json::Array(vec![]));
        } else {
            items.push(number(i));
        }
    }
    assert!(is_list_of_rows(&items));
    items[25] = number(25);
    assert!(!is_list_of_rows(&items));
    let five: Vec<Json> = vec![
        Json::Array(vec![]),
        Json::Array(vec![]),
        Json::Array(vec![]),
        Json::Array(vec![]),
        Json::Null,
    ];
    assert!(is_list_of_rows(&five));
    let four: Vec<Json> =
        vec![Json::Array(vec![]), Json::Array(vec![]), Json::Array(vec![]), Json::Null];
    assert!(!is_list_of_rows(&four));
}

#[test]
fn shape_is_told_from_evenly_spread_samples() {
    // Of 40 elements 32 are looked at: those at 0, 1, 2, 3, 5, 6, ...; every
    // fifth one, at 4, 9, 14, ..., is passed over.
    let mut items: Vec<Json> = Vec::new();
    for i in 0..40u64 {
        if i % 5 == 4 {
            items.push(number(i));
        } else {
            items.push(Json::Array(vec![number(i)]));
        }
    }
    assert!(is_list_of_rows(&items));
    let value = Json::Array(vec![Json::Array(items)]);
    let expected = Json::Array(vec![Json::Array(vec![
        Json::Array(vec![number(0)]),
        text("... (38 more) ..."),
        number(39),
    ])]);
    assert_eq!(crop_value(&value, 0), expected);

    let mut others: Vec<Json> = Vec::new();
    for i in 0..40u64 {
        if i % 5 == 4 {
            others.push(Json::Array(vec![number(i)]));
        } else {
            others.push(number(i));
        }
    }
    assert!(!is_list_of_rows(&others));
}

#[test]
fn object_within_budget_is_kept() {
    let keys = ["k0", "k1", "k2", "k3", "k4", "k5", "k6", "k7", "k8", "k9"];
    assert_eq!(keys.len(), MAX_OBJECT_KEYS);
    let value = Json::Object(object_with_keys(&keys));
    assert_eq!(crop_value(&value, 0), value);
}

#[test]
fn object_over_budget_keeps_budget_and_marker() {
    let keys = ["k0", "k1", "k2", "k3", "k4", "k5", "k6", "k7", "k8", "k9", "k10", "k11"];
    let value = Json::Object(object_with_keys(&keys));
    let cropped = crop_value(&value, 0);
    let mut expected = object_with_keys(&keys[..10]);
    expected.insert("...".to_string(), text("2 more keys"));
    assert_eq!(cropped, Json::Object(expected));
    assert_eq!(keys_of(&cropped).len(), 11);
}

#[test]
fn well_known_keys_come_first_in_their_order() {
    let keys = [
        "a", "status", "b", "c", "d", "e", "f", "g", "h", "i", "j", "id", "k", "error", "type",
    ];
    let value = Json::Object(object_with_keys(&keys));
    let cropped = crop_value(&value, 0);
    assert_eq!(
        keys_of(&cropped),
        vec!["id", "type", "status", "error", "a", "b", "c", "d", "e", "f", "..."]
    );
    match &cropped {
        Json::Object(obj) => {
            assert_eq!(obj.value(0), &number(11));
            assert_eq!(obj.value(1), &number(14));
            assert_eq!(obj.value(2), &number(1));
            assert_eq!(obj.value(3), &number(13));
            assert_eq!(obj.value(4), &number(0));
            assert_eq!(obj.value(9), &number(6));
            assert_eq!(obj.value(10), &text("5 more keys"));
        }
        other => panic!("not an object: {:?}", other),
    }
}

#[test]
fn all_well_known_keys_are_kept() {
    let keys = [
        "z0", "z1", "z2", "z3", "z4", "z5", "error", "timestamp", "event", "name", "status",
        "type", "symbol", "id",
    ];
    let value = Json::Object(object_with_keys(&keys));
    assert_eq!(
        keys_of(&crop_value(&value, 0)),
        vec![
            "id", "symbol", "type", "status", "name", "event", "timestamp", "error", "z0", "z1",
            "..."
        ]
    );
}

#[test]
fn kept_values_are_cropped_one_level_down() {
    let mut obj = object_with_keys(&["a", "b", "c", "d", "e", "f", "g", "h", "i", "j", "k"]);
    obj.insert("id".to_string(), Json::Array(numbers(30)));
    let cropped = crop_value(&Json::Object(obj), 0);
    match &cropped {
        Json::Object(out) => {
            assert_eq!(out.key(0), "id");
            assert_eq!(
                out.value(0),
                &Json::Array(vec![
                    number(0),
                    number(1),
                    number(2),
                    text("... (26 more) ..."),
                    number(29)
                ])
            );
        }
        other => panic!("not an object: {:?}", other),
    }
}

#[test]
fn nested_objects_are_never_trimmed() {
    let keys = ["k0", "k1", "k2", "k3", "k4", "k5", "k6", "k7", "k8", "k9", "k10", "k11"];
    let inner = Json::Object(object_with_keys(&keys));
    let in_array = Json::Array(vec![inner.clone()]);
    assert_eq!(crop_value(&in_array, 0), in_array);
    let mut outer = JsonObject::new();
    outer.insert("inner".to_string(), inner.clone());
    let in_object = Json::Object(outer);
    assert_eq!(crop_value(&in_object, 0), in_object);
    assert_eq!(crop_value(&inner, 1), inner);
}

#[test]
fn nested_object_values_are_cropped() {
    let value = json("{\"rows\": {\"data\": [0,1,2,3,4,5,6,7,8,9,10,11,12,13,14,15,16,17,18,19,20,21,22,23,24,25,26,27,28,29]}}");
    let expected = json("{\"rows\": {\"data\": [0,1,2,\"... (26 more) ...\",29]}}");
    assert_eq!(crop_value(&value, 0), expected);
}

#[test]
fn marker_key_of_the_object_itself_is_overwritten() {
    let keys = ["a", "...", "c", "d", "e", "f", "g", "h", "i", "j", "k"];
    let value = Json::Object(object_with_keys(&keys));
    let cropped = crop_value(&value, 0);
    let mut expected = JsonObject::new();
    expected.insert("a".to_string(), number(0));
    expected.insert("...".to_string(), text("1 more keys"));
    for (i, key) in keys.iter().enumerate().skip(2).take(8) {
        expected.insert(key.to_string(), number(i as u64));
    }
    assert_eq!(cropped, Json::Object(expected));
    assert_eq!(keys_of(&cropped).len(), 10);
}

#[test]
fn well_known_keys_come_first_beside_the_marker_key() {
    let keys = ["a", "...", "b", "status", "c", "d", "e", "f", "g", "h", "id", "i"];
    let value = Json::Object(object_with_keys(&keys));
    let cropped = crop_value(&value, 0);
    assert_eq!(
        keys_of(&cropped),
        vec!["id", "status", "a", "...", "b", "c", "d", "e", "f", "g"]
    );
    match &cropped {
        Json::Object(obj) => {
            assert_eq!(obj.value(0), &number(10));
            assert_eq!(obj.value(1), &number(3));
            assert_eq!(obj.value(3), &text("2 more keys"));
        }
        other => panic!("not an object: {:?}", other),
    }
}

#[test]
fn cropping_twice_changes_nothing_for_small_values() {
    let value = json("{\"id\": 1, \"rows\": [[1, 2], [3, 4]], \"tags\": [\"a\", \"b\", \"c\"], \"nested\": {\"deep\": [[[1]]]}}");
    let once = crop_value(&value, 0);
    assert_eq!(once, value);
    assert_eq!(crop_value(&once, 0), once);
}

#[test]
fn cropping_does_not_change_its_input() {
    let value = Json::Array(numbers(8));
    let copy = value.clone();
    let _ = crop_value(&value, 0);
    assert_eq!(value, copy);
}
