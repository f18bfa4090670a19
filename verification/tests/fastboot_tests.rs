use mber::descriptor::ConfigValue;
use mber::errors::BundleError;
use mber::fastboot_package_json::build;
use mber::manifest::build_manifest;

fn example_env() -> ConfigValue {
    ConfigValue::Obj(vec![
        ("modulePrefix".to_string(), ConfigValue::Str("dummyapp".to_string())),
        (
            "APP".to_string(),
            ConfigValue::Obj(vec![
                ("API_HOST".to_string(), ConfigValue::Str("http://localhost:3000".to_string())),
            ]),
        ),
    ])
}

fn example_manifest() -> mber::manifest::AssetManifest {
    build_manifest(&vec![
        ("assets/application.js".to_string(), "assets/application-aaa.js".to_string()),
        ("assets/vendor.js".to_string(), "assets/vendor-bbb.js".to_string()),
        ("assets/memserver.js".to_string(), "assets/memserver-ccc.js".to_string()),
    ])
}

#[test]
fn fastboot_descriptor_embeds_the_augmented_config_and_bundle_paths() {
    let env = example_env();
    let hosts = vec!["^localhost:\\d+$".to_string()];
    let json = build(&example_manifest(), "dummyapp", &env, false, &hosts).unwrap();
    let expected = "{\"dependencies\":{},\"fastboot\":{\"appName\":\"dummyapp\",\"config\":{\"dummyapp\":{\"modulePrefix\":\"dummyapp\",\"APP\":{\"API_HOST\":\"http://localhost:3000\",\"autoboot\":false,\"name\":\"dummyapp\",\"version\":\"0.0.0+b5f80b0d\"},\"exportApplicationGlobal\":true,\"isModuleUnification\":true}},\"hostWhitelist\":[\"^localhost:\\\\d+$\"],\"manifest\":{\"appFiles\":[\"assets/application-aaa.js\"],\"htmlFile\":\"index.html\",\"vendorFiles\":[\"assets/vendor-bbb.js\"]},\"moduleWhitelist\":[\"node-fetch\",\"abortcontroller-polyfill\"],\"schemaVersion\":3}}";
    assert_eq!(json, expected);
}

#[test]
fn fastboot_descriptor_appends_the_memserver_bundle_only_when_enabled() {
    let env = example_env();
    let hosts: Vec<String> = Vec::new();
    let with_memserver = build(&example_manifest(), "dummyapp", &env, true, &hosts).unwrap();
    assert!(with_memserver
        .contains("\"appFiles\":[\"assets/application-aaa.js\",\"assets/memserver-ccc.js\"]"));
    assert!(with_memserver.contains("\"hostWhitelist\":[]"));

    let without_memserver = build(&example_manifest(), "dummyapp", &env, false, &hosts).unwrap();
    assert!(without_memserver.contains("\"appFiles\":[\"assets/application-aaa.js\"]"));
}

#[test]
fn fastboot_descriptor_requires_the_application_and_vendor_bundles() {
    let env = example_env();
    let hosts: Vec<String> = Vec::new();
    let empty = build_manifest(&Vec::new());
    match build(&empty, "dummyapp", &env, false, &hosts) {
        Err(BundleError::ManifestIncomplete(p)) => assert_eq!(p, "assets/application.js"),
        other => panic!("expected a manifest-incomplete error, got {:?}", other),
    }

    let app_only = build_manifest(&vec![
        ("assets/application.js".to_string(), "assets/application-aaa.js".to_string()),
    ]);
    match build(&app_only, "dummyapp", &env, false, &hosts) {
        Err(BundleError::ManifestIncomplete(p)) => assert_eq!(p, "assets/vendor.js"),
        other => panic!("expected a manifest-incomplete error, got {:?}", other),
    }

    let no_memserver = build_manifest(&vec![
        ("assets/application.js".to_string(), "assets/application-aaa.js".to_string()),
        ("assets/vendor.js".to_string(), "assets/vendor-bbb.js".to_string()),
    ]);
    match build(&no_memserver, "dummyapp", &env, true, &hosts) {
        Err(BundleError::ManifestIncomplete(p)) => assert_eq!(p, "assets/memserver.js"),
        other => panic!("expected a manifest-incomplete error, got {:?}", other),
    }
}
