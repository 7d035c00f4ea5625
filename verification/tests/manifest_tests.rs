use nightwatch_updater::manifest::{parse_addons_config, ManifestError};

fn manifest_ok(text: &str) -> Vec<nightwatch_updater::addon::Addon> {
    match parse_addons_config(text) {
        Ok(v) => v,
        Err(e) => panic!("expected a successful parse, got {:?}", e),
    }
}

#[test]
fn parses_canonical_manifest() {
    let text = r#"{ "addons": { "Foo": { "link": "https://example.com/foo.zip", "description": "a foo", "target_path": "AddOns" } } }"#;
    let v = manifest_ok(text);
    assert_eq!(v.len(), 1);
    assert_eq!(v[0].name, "Foo");
    assert_eq!(v[0].link, "https://example.com/foo.zip");
    assert_eq!(v[0].description, "a foo");
    assert_eq!(v[0].target_path, "AddOns");
    assert!(v[0].is_zip);
}

#[test]
fn parses_several_addons_in_order() {
    let text = r#"{"addons":{
        "Alpha":{"link":"http://x/a.zip","description":"A","target_path":"AddOns"},
        "Beta":{"link":"http://x/b.dat","description":"B","target_path":"Data"}
    }}"#;
    let v = manifest_ok(text);
    assert_eq!(v.len(), 2);
    assert_eq!(v[0].name, "Alpha");
    assert_eq!(v[1].name, "Beta");
    assert!(v[0].is_zip);
    assert!(!v[1].is_zip);
}

#[test]
fn zip_extension_is_case_insensitive() {
    let text = r#"{"addons":{"U":{"link":"http://x/A.ZIP","description":"","target_path":"AddOns"}}}"#;
    let v = manifest_ok(text);
    assert!(v[0].is_zip);
}

#[test]
fn empty_link_is_a_validation_error() {
    let text = r#"{"addons":{"Foo":{"link":"","description":"d","target_path":"AddOns"}}}"#;
    assert_eq!(parse_addons_config(text), Err(ManifestError::ValidationError));
}

#[test]
fn malformed_json_is_a_parse_error() {
    assert_eq!(parse_addons_config("{"), Err(ManifestError::ParseError));
    assert_eq!(parse_addons_config(""), Err(ManifestError::ParseError));
    assert_eq!(parse_addons_config("[]"), Err(ManifestError::ParseError));
    assert_eq!(
        parse_addons_config(r#"{"addons":{"Foo":{"link":"x","description":"d","target_path":"p"}}} trailing"#),
        Err(ManifestError::ParseError)
    );
}

#[test]
fn missing_addons_member_is_a_parse_error() {
    assert_eq!(parse_addons_config(r#"{"other": 1}"#), Err(ManifestError::ParseError));
    assert_eq!(parse_addons_config(r#"{}"#), Err(ManifestError::ParseError));
}

#[test]
fn missing_required_member_is_a_parse_error() {
    let text = r#"{"addons":{"Foo":{"link":"http://x/a.zip","description":"d"}}}"#;
    assert_eq!(parse_addons_config(text), Err(ManifestError::ParseError));
}

#[test]
fn duplicate_addon_name_is_a_parse_error() {
    let text = r#"{"addons":{
        "Foo":{"link":"http://x/a.zip","description":"d","target_path":"AddOns"},
        "Foo":{"link":"http://x/b.zip","description":"d","target_path":"AddOns"}
    }}"#;
    assert_eq!(parse_addons_config(text), Err(ManifestError::ParseError));
}

#[test]
fn unknown_members_of_any_shape_are_skipped() {
    let text = r#"{
        "version": 3,
        "addons": {
            "Foo": {
                "link": "http://x/a.zip",
                "description": "d",
                "priority": [1, 2, {"deep": [true, false, null]}],
                "target_path": "AddOns",
                "extra": {"a": -1.5e3, "b": "s"}
            }
        },
        "trailer": null
    }"#;
    let v = manifest_ok(text);
    assert_eq!(v.len(), 1);
    assert_eq!(v[0].target_path, "AddOns");
}

#[test]
fn string_escapes_are_decoded() {
    let text = r#"{"addons":{"Foo":{"link":"http://x/a.zip","description":"line\nquote\"uA","target_path":"AddOns"}}}"#;
    let v = manifest_ok(text);
    assert_eq!(v[0].description, "line\nquote\"uA");
}

#[test]
fn surrogate_pair_escapes_are_decoded() {
    let text = r#"{"addons":{"Foo":{"link":"http://x/a.zip","description":"😀","target_path":"AddOns"}}}"#;
    let v = manifest_ok(text);
    assert_eq!(v[0].description, "\u{1F600}");
}

#[test]
fn lone_surrogate_escape_is_a_parse_error() {
    let text = r#"{"addons":{"Foo":{"link":"http://x/a.zip","description":"\uD83D","target_path":"AddOns"}}}"#;
    assert_eq!(parse_addons_config(text), Err(ManifestError::ParseError));
}

#[test]
fn target_path_is_trimmed_and_normalized() {
    let text = r#"{"addons":{"Foo":{"link":"http://x/a.zip","description":"d","target_path":"  Interface\\AddOns// "}}}"#;
    let v = manifest_ok(text);
    assert_eq!(v[0].target_path, "Interface/AddOns");
}

#[test]
fn parent_segments_in_target_path_are_rejected() {
    let text = r#"{"addons":{"Foo":{"link":"http://x/a.zip","description":"d","target_path":"../outside"}}}"#;
    assert_eq!(parse_addons_config(text), Err(ManifestError::ValidationError));
}

#[test]
fn empty_target_path_is_rejected() {
    let text = r#"{"addons":{"Foo":{"link":"http://x/a.zip","description":"d","target_path":"   "}}}"#;
    assert_eq!(parse_addons_config(text), Err(ManifestError::ValidationError));
}

#[test]
fn unsafe_addon_name_is_rejected() {
    let text = r#"{"addons":{"a/b":{"link":"http://x/a.zip","description":"d","target_path":"AddOns"}}}"#;
    assert_eq!(parse_addons_config(text), Err(ManifestError::ValidationError));
    let text2 = r#"{"addons":{"..":{"link":"http://x/a.zip","description":"d","target_path":"AddOns"}}}"#;
    assert_eq!(parse_addons_config(text2), Err(ManifestError::ValidationError));
}

#[test]
fn duplicate_required_member_is_a_parse_error() {
    let text = r#"{"addons":{"Foo":{"link":"http://x/a.zip","link":"http://x/b.zip","description":"d","target_path":"AddOns"}}}"#;
    assert_eq!(parse_addons_config(text), Err(ManifestError::ParseError));
}

#[test]
fn non_string_required_member_is_a_parse_error() {
    let text = r#"{"addons":{"Foo":{"link":42,"description":"d","target_path":"AddOns"}}}"#;
    assert_eq!(parse_addons_config(text), Err(ManifestError::ParseError));
}

#[test]
fn empty_addons_object_yields_no_addons() {
    let v = manifest_ok(r#"{"addons":{}}"#);
    assert_eq!(v.len(), 0);
}
