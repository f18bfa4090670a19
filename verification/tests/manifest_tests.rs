use mber::manifest::build_manifest;
use mber::manifest::manifest_to_json;
use mber::manifest::strip_leading_slash;

#[test]
fn build_manifest_strips_sorts_and_closes_with_the_self_entry() {
    let pairs = vec![
        ("/assets/vendor.js".to_string(), "/assets/vendor-bbb.js".to_string()),
        ("/assets/application.js".to_string(), "/assets/application-aaa.js".to_string()),
    ];
    let manifest = build_manifest(&pairs);
    assert_eq!(
        manifest.entries,
        vec![
            ("assets/application.js".to_string(), "assets/application-aaa.js".to_string()),
            ("assets/assetMap.json".to_string(), "assets/assetMap.json".to_string()),
            ("assets/vendor.js".to_string(), "assets/vendor-bbb.js".to_string()),
        ]
    );
    assert_eq!(manifest.get("assets/vendor.js"), Some(&"assets/vendor-bbb.js".to_string()));
    assert_eq!(manifest.get("assets/absent.js"), None);
}

#[test]
fn build_manifest_of_nothing_still_names_itself() {
    let manifest = build_manifest(&Vec::new());
    assert_eq!(
        manifest.entries,
        vec![("assets/assetMap.json".to_string(), "assets/assetMap.json".to_string())]
    );
}

#[test]
fn manifest_to_json_is_the_pretty_printed_document() {
    let pairs = vec![
        (
            "/assets/application.js".to_string(),
            "/assets/application-02129bb861061d1a052c592e2dc6b383.js".to_string(),
        ),
    ];
    let manifest = build_manifest(&pairs);
    let expected = "{\n  \"assets\": {\n    \"assets/application.js\": \"assets/application-02129bb861061d1a052c592e2dc6b383.js\",\n    \"assets/assetMap.json\": \"assets/assetMap.json\"\n  },\n  \"prepend\": \"\"\n}";
    assert_eq!(manifest_to_json(&manifest), expected);
}

#[test]
fn strip_leading_slash_takes_one_slash_only() {
    assert_eq!(strip_leading_slash("/assets/a.js"), "assets/a.js");
    assert_eq!(strip_leading_slash("assets/a.js"), "assets/a.js");
    assert_eq!(strip_leading_slash("//x"), "/x");
    assert_eq!(strip_leading_slash(""), "");
}
