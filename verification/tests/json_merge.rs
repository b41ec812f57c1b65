use cc2_webcontrol::json::{clone_json, recursive_merge, Json, JsonNumber};

fn num(x: &str) -> Json {
    Json::Number(JsonNumber::Float(x.to_string()))
}

fn uint(n: u64) -> Json {
    Json::Number(JsonNumber::PosInt(n))
}

fn obj(entries: Vec<(&str, Json)>) -> Json {
    Json::Object(entries.into_iter().map(|(k, v)| (k.to_string(), v)).collect())
}

fn at<'a>(j: &'a Json, path: &[&str]) -> &'a Json {
    let mut cur = j;
    for k in path {
        cur = cur.get(k).expect("missing key");
    }
    cur
}

#[test]
fn test_recursive_merge_preserves_nested_fields() {
    let base = obj(vec![
        (
            "fans",
            obj(vec![
                ("aux_fan", obj(vec![("speed", num("100.0"))])),
                ("fan", obj(vec![("speed", num("50.0"))])),
                ("box_fan", obj(vec![("speed", num("0.0"))])),
            ]),
        ),
        ("extruder", obj(vec![("temperature", num("200.0")), ("target", uint(210))])),
    ]);
    let delta = obj(vec![("fans", obj(vec![("fan", obj(vec![("speed", num("255.0"))]))]))]);
    let merged = recursive_merge(&base, &delta);
    assert_eq!(at(&merged, &["fans", "fan", "speed"]), &num("255.0"));
    assert_eq!(at(&merged, &["fans", "aux_fan", "speed"]), &num("100.0"));
    assert_eq!(at(&merged, &["fans", "box_fan", "speed"]), &num("0.0"));
    assert_eq!(at(&merged, &["extruder", "temperature"]), &num("200.0"));
}

#[test]
fn test_recursive_merge_adds_new_keys() {
    let base = obj(vec![("fans", obj(vec![("fan", obj(vec![("speed", num("50.0"))]))]))]);
    let delta = obj(vec![
        ("fans", obj(vec![("aux_fan", obj(vec![("speed", num("100.0"))]))])),
        ("led", obj(vec![("status", uint(1))])),
    ]);
    let merged = recursive_merge(&base, &delta);
    assert_eq!(at(&merged, &["fans", "fan", "speed"]), &num("50.0"));
    assert_eq!(at(&merged, &["fans", "aux_fan", "speed"]), &num("100.0"));
    assert_eq!(at(&merged, &["led", "status"]), &uint(1));
}

#[test]
fn test_recursive_merge_overwrites_scalars() {
    let base = obj(vec![("machine_status", obj(vec![("status", uint(1)), ("progress", uint(50))]))]);
    let delta = obj(vec![("machine_status", obj(vec![("status", uint(2)), ("progress", uint(75))]))]);
    let merged = recursive_merge(&base, &delta);
    assert_eq!(at(&merged, &["machine_status", "status"]), &uint(2));
    assert_eq!(at(&merged, &["machine_status", "progress"]), &uint(75));
}

#[test]
fn non_object_delta_replaces_base() {
    let base = obj(vec![("a", uint(1))]);
    let merged = recursive_merge(&base, &uint(7));
    assert_eq!(merged, uint(7));
    let merged2 = recursive_merge(&uint(3), &obj(vec![("a", uint(1))]));
    assert_eq!(merged2, obj(vec![("a", uint(1))]));
}

#[test]
fn merge_keeps_base_order_and_appends_new_keys() {
    let base = obj(vec![("b", uint(1)), ("a", uint(2))]);
    let delta = obj(vec![("c", uint(3)), ("a", uint(4))]);
    let merged = recursive_merge(&base, &delta);
    assert_eq!(merged, obj(vec![("b", uint(1)), ("a", uint(4)), ("c", uint(3))]));
}

#[test]
fn merging_twice_is_merging_once() {
    let base = obj(vec![("x", obj(vec![("y", uint(1)), ("z", uint(2))]))]);
    let delta = obj(vec![("x", obj(vec![("y", uint(5)), ("w", uint(9))]))]);
    let once = recursive_merge(&base, &delta);
    let twice = recursive_merge(&once, &delta);
    assert_eq!(once, twice);
}

#[test]
fn clone_is_equal_and_get_reads_objects_only() {
    let j = obj(vec![("k", Json::Array(vec![Json::Null, Json::Bool(true), Json::Text("t".into())]))]);
    assert_eq!(clone_json(&j), j);
    assert!(j.get("missing").is_none());
    assert!(uint(1).get("k").is_none());
}

#[test]
fn merging_a_delta_twice_is_merging_it_once() {
    let base = obj(vec![
        ("machine_status", obj(vec![("status", uint(1)), ("progress", uint(10))])),
        ("led", obj(vec![("status", uint(0))])),
    ]);
    let delta = obj(vec![
        ("machine_status", obj(vec![("progress", uint(50)), ("sub_status", uint(1045))])),
        ("fans", obj(vec![("fan", obj(vec![("speed", num("12.5"))]))])),
    ]);
    let once = recursive_merge(&base, &delta);
    let twice = recursive_merge(&once, &delta);
    assert_eq!(twice, once);
    assert_eq!(recursive_merge(&base, &obj(vec![])), base);
}
