use weather::import::is_json_name;

#[test]
fn json_file_names() {
    assert!(is_json_name("2019-11-22.json"));
    assert!(is_json_name(".json"));
    assert!(!is_json_name("json"));
    assert!(!is_json_name("notes.txt"));
    assert!(!is_json_name("data.json.bak"));
}
