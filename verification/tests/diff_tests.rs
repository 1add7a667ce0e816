use transitops_backend::json::Json;
use transitops_backend::ops::diff::diff_versions;

fn obj(entries: Vec<(&str, Json)>) -> Json {
    Json::Object(entries.into_iter().map(|(k, v)| (k.to_string(), v)).collect())
}

fn num(x: f64) -> Json {
    Json::Float(x.to_bits())
}

#[test]
fn detects_modified_field() {
    let v1 = obj(vec![("base_fare", num(2.5))]);
    let v2 = obj(vec![("base_fare", num(3.0))]);
    let d = diff_versions(&v1, &v2, "1", "2");
    assert_eq!(d.modified.len(), 1);
    assert_eq!(d.modified[0].path, "base_fare");
    assert_eq!(d.added.len(), 0);
    assert_eq!(d.removed.len(), 0);
}

#[test]
fn detects_added_and_removed() {
    let v1 = obj(vec![("a", Json::PosInt(1)), ("b", Json::PosInt(2))]);
    let v2 = obj(vec![("a", Json::PosInt(1)), ("c", Json::PosInt(3))]);
    let d = diff_versions(&v1, &v2, "1", "2");
    assert_eq!(d.removed.len(), 1);
    assert_eq!(d.removed[0].path, "b");
    assert_eq!(d.added.len(), 1);
    assert_eq!(d.added[0].path, "c");
}

#[test]
fn recurses_into_nested_objects() {
    let v1 = obj(vec![("policy", obj(vec![("buffer_mins", Json::PosInt(2)), ("max_stops", Json::PosInt(5))]))]);
    let v2 = obj(vec![("policy", obj(vec![("buffer_mins", Json::PosInt(2)), ("max_stops", Json::PosInt(8))]))]);
    let d = diff_versions(&v1, &v2, "1", "2");
    assert_eq!(d.modified.len(), 1);
    assert_eq!(d.modified[0].path, "policy.max_stops");
}

#[test]
fn no_changes_is_empty() {
    let v = obj(vec![("a", Json::PosInt(1)), ("b", obj(vec![("c", Json::Bool(true))]))]);
    let d = diff_versions(&v, &v, "1", "1");
    assert_eq!(d.total_changes, 0);
}

#[test]
fn diff_keeps_labels_and_values() {
    let v1 = obj(vec![("a", Json::PosInt(1)), ("gone", Json::Str("x".to_string()))]);
    let v2 = obj(vec![("a", Json::NegInt(-1)), ("new", Json::Null)]);
    let d = diff_versions(&v1, &v2, "v7", "v8");
    assert_eq!(d.v1_version, "v7");
    assert_eq!(d.v2_version, "v8");
    assert_eq!(d.total_changes, 3);
    assert!(matches!(d.modified[0].old_value, Some(Json::PosInt(1))));
    assert!(matches!(d.modified[0].new_value, Some(Json::NegInt(-1))));
    match &d.removed[0].old_value {
        Some(Json::Str(s)) => assert_eq!(s, "x"),
        _ => panic!("removed value kept"),
    }
    assert!(d.removed[0].new_value.is_none());
    assert!(matches!(d.added[0].new_value, Some(Json::Null)));
    assert!(d.added[0].old_value.is_none());
}

#[test]
fn signed_zeros_are_equal_and_type_change_is_modification() {
    let v1 = obj(vec![("z", num(0.0)), ("t", Json::PosInt(1))]);
    let v2 = obj(vec![("z", num(-0.0)), ("t", num(1.0))]);
    let d = diff_versions(&v1, &v2, "1", "2");
    assert_eq!(d.modified.len(), 1);
    assert_eq!(d.modified[0].path, "t");
}

#[test]
fn top_level_leaf_change_has_empty_path() {
    let d = diff_versions(&Json::PosInt(1), &Json::PosInt(2), "1", "2");
    assert_eq!(d.modified.len(), 1);
    assert_eq!(d.modified[0].path, "");
    let arr1 = Json::Array(vec![Json::PosInt(1)]);
    let arr2 = Json::Array(vec![Json::PosInt(1)]);
    assert_eq!(diff_versions(&arr1, &arr2, "1", "2").total_changes, 0);
}

#[test]
fn swapping_versions_swaps_added_and_removed() {
    let v1 = obj(vec![("a", Json::PosInt(1)), ("b", obj(vec![("c", Json::PosInt(2))]))]);
    let v2 = obj(vec![("b", obj(vec![("c", Json::PosInt(3)), ("d", Json::PosInt(4))])), ("e", Json::PosInt(5))]);
    let paths = |cs: &Vec<transitops_backend::ops::diff::FieldChange>| {
        let mut p: Vec<String> = cs.iter().map(|c| c.path.clone()).collect();
        p.sort();
        p
    };
    let d = diff_versions(&v1, &v2, "1", "2");
    let r = diff_versions(&v2, &v1, "2", "1");
    assert_eq!(paths(&d.added), vec!["b.d".to_string(), "e".to_string()]);
    assert_eq!(paths(&d.removed), vec!["a".to_string()]);
    assert_eq!(paths(&d.modified), vec!["b.c".to_string()]);
    assert_eq!(paths(&r.added), paths(&d.removed));
    assert_eq!(paths(&r.removed), paths(&d.added));
    assert_eq!(paths(&r.modified), paths(&d.modified));
    assert_eq!(d.total_changes, 4);
}

#[test]
fn no_changes_only_for_equal_versions() {
    let v1 = obj(vec![("a", Json::PosInt(1)), ("b", obj(vec![("c", Json::PosInt(2))]))]);
    let v2 = obj(vec![("b", obj(vec![("c", Json::PosInt(2))])), ("a", Json::PosInt(1))]);
    assert_eq!(diff_versions(&v1, &v2, "1", "2").total_changes, 0);
    let v3 = obj(vec![("a", Json::PosInt(1)), ("b", obj(vec![("c", Json::PosInt(3))]))]);
    assert_eq!(diff_versions(&v1, &v3, "1", "3").total_changes, 1);
}
