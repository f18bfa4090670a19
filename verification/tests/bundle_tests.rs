use mber::bundle::collect_entry_points;
use mber::bundle::plan_bundle;
use mber::bundle::HTMLEntryPoint;
use mber::errors::BundleError;

fn example_entry() -> HTMLEntryPoint {
    HTMLEntryPoint {
        source_path: "index.html".to_string(),
        target_path: "dist/index.html".to_string(),
        content: "<html><body><script src=\"/assets/application.js\"></script><script src=\"/assets/vendor.js\"></script></body></html>"
            .to_string(),
    }
}

fn example_staged() -> Vec<(String, String)> {
    vec![
        ("/assets/application.js".to_string(), "X".to_string()),
        ("/assets/vendor.js".to_string(), "Y".to_string()),
    ]
}

#[test]
fn plan_bundle_publishes_the_example_scenario() {
    let entries = vec![example_entry()];
    let staged = example_staged();
    let plan = plan_bundle(&entries, &staged).unwrap();

    assert_eq!(
        plan.build_files,
        vec!["/assets/application.js".to_string(), "/assets/vendor.js".to_string()]
    );
    assert_eq!(
        plan.asset_writes,
        vec![
            (
                "/assets/application-02129bb861061d1a052c592e2dc6b383.js".to_string(),
                "X".to_string(),
            ),
            (
                "/assets/vendor-57cec4137b614c87cb4e24a3d003a3e0.js".to_string(),
                "Y".to_string(),
            ),
        ]
    );
    assert_eq!(plan.html_writes.len(), 1);
    assert_eq!(plan.html_writes[0].0, "dist/index.html");
    let rewritten = &plan.html_writes[0].1;
    assert!(rewritten.contains("/assets/application-02129bb861061d1a052c592e2dc6b383.js"));
    assert!(rewritten.contains("/assets/vendor-57cec4137b614c87cb4e24a3d003a3e0.js"));
    assert!(!rewritten.contains("src=\"/assets/application.js\""));

    assert_eq!(
        plan.manifest.entries,
        vec![
            (
                "assets/application.js".to_string(),
                "assets/application-02129bb861061d1a052c592e2dc6b383.js".to_string(),
            ),
            ("assets/assetMap.json".to_string(), "assets/assetMap.json".to_string()),
            (
                "assets/vendor.js".to_string(),
                "assets/vendor-57cec4137b614c87cb4e24a3d003a3e0.js".to_string(),
            ),
        ]
    );
}

#[test]
fn plan_bundle_rewrites_every_entry_point_with_the_same_map() {
    let tests_entry = HTMLEntryPoint {
        source_path: "tests/index.html".to_string(),
        target_path: "dist/tests.html".to_string(),
        content: "<html><script src=\"/assets/application.js\"></script></html>".to_string(),
    };
    let entries = vec![example_entry(), tests_entry];
    let staged = example_staged();
    let plan = plan_bundle(&entries, &staged).unwrap();

    // the test page resolves to the identical published file
    assert!(plan.html_writes[0].1.contains("/assets/application-02129bb861061d1a052c592e2dc6b383.js"));
    assert!(plan.html_writes[1].1.contains("/assets/application-02129bb861061d1a052c592e2dc6b383.js"));
}

#[test]
fn plan_bundle_is_idempotent_on_identical_inputs() {
    let entries = vec![example_entry()];
    let staged = example_staged();
    let first = plan_bundle(&entries, &staged).unwrap();
    let second = plan_bundle(&entries, &staged).unwrap();

    assert_eq!(first.build_files, second.build_files);
    assert_eq!(first.html_writes, second.html_writes);
    assert_eq!(first.asset_writes, second.asset_writes);
    assert_eq!(first.manifest.entries, second.manifest.entries);
    assert_eq!(first.manifest_json, second.manifest_json);
}

#[test]
fn plan_bundle_keeps_every_manifest_target_among_the_written_files() {
    let entries = vec![example_entry()];
    let staged = example_staged();
    let plan = plan_bundle(&entries, &staged).unwrap();

    let written: Vec<String> = plan.asset_writes.iter().map(|w| w.0.clone()).collect();
    for (key, value) in plan.manifest.entries.iter() {
        if key != "assets/assetMap.json" {
            let slashed = format!("/{}", value);
            assert!(written.contains(&slashed));
        }
    }
}

#[test]
fn plan_bundle_reports_the_first_unstaged_reference() {
    let entries = vec![example_entry()];
    let staged = vec![("/assets/vendor.js".to_string(), "Y".to_string())];
    match plan_bundle(&entries, &staged) {
        Err(BundleError::StagingRead(p)) => assert_eq!(p, "/assets/application.js"),
        other => panic!("expected a staging-read error, got {:?}", other),
    }
}

#[test]
fn plan_bundle_reports_an_extensionless_reference() {
    let entry = HTMLEntryPoint {
        source_path: "index.html".to_string(),
        target_path: "dist/index.html".to_string(),
        content: "<html><script src=\"/assets/noext\"></script></html>".to_string(),
    };
    let staged = vec![("/assets/noext".to_string(), "X".to_string())];
    match plan_bundle(&vec![entry], &staged) {
        Err(BundleError::MissingExtension(p)) => assert_eq!(p, "/assets/noext"),
        other => panic!("expected a missing-extension error, got {:?}", other),
    }
}

#[test]
fn plan_bundle_drops_duplicate_references_and_unreferenced_assets() {
    let entry = HTMLEntryPoint {
        source_path: "index.html".to_string(),
        target_path: "dist/index.html".to_string(),
        content: "<html><script src=\"/assets/application.js\"></script><script src=\"/assets/application.js\"></script></html>"
            .to_string(),
    };
    let staged = vec![
        ("/assets/application.js".to_string(), "X".to_string()),
        ("/assets/never-referenced.js".to_string(), "Z".to_string()),
    ];
    let plan = plan_bundle(&vec![entry], &staged).unwrap();
    assert_eq!(plan.build_files, vec!["/assets/application.js".to_string()]);
    assert_eq!(plan.asset_writes.len(), 1);
}

fn entry_named(name: &str) -> HTMLEntryPoint {
    HTMLEntryPoint {
        source_path: name.to_string(),
        target_path: format!("dist/{}", name),
        content: "<html></html>".to_string(),
    }
}

#[test]
fn collect_entry_points_follows_the_feature_flags() {
    let all = collect_entry_points(
        entry_named("index.html"),
        entry_named("tests.html"),
        entry_named("docs.html"),
        "development",
        true,
        true,
    );
    assert_eq!(all.len(), 3);
    assert_eq!(all[1].source_path, "tests.html");

    let production = collect_entry_points(
        entry_named("index.html"),
        entry_named("tests.html"),
        entry_named("docs.html"),
        "production",
        true,
        false,
    );
    assert_eq!(production.len(), 1);
    assert_eq!(production[0].source_path, "index.html");

    let docs_only = collect_entry_points(
        entry_named("index.html"),
        entry_named("tests.html"),
        entry_named("docs.html"),
        "development",
        false,
        true,
    );
    assert_eq!(docs_only.len(), 2);
    assert_eq!(docs_only[1].source_path, "docs.html");
}
