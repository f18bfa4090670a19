use mber::content_hash::derive_published_path;
use mber::errors::BundleError;
use mber::paths::splice_hash;

#[test]
fn derive_published_path_is_deterministic_for_fixed_inputs() {
    let first = derive_published_path("/assets/application.js", "X").unwrap();
    let second = derive_published_path("/assets/application.js", "X").unwrap();
    assert_eq!(first, second);
    assert_eq!(first, "/assets/application-02129bb861061d1a052c592e2dc6b383.js");
}

#[test]
fn derive_published_path_differs_for_different_content() {
    let with_x = derive_published_path("/assets/application.js", "X").unwrap();
    let with_y = derive_published_path("/assets/application.js", "Y").unwrap();
    assert_ne!(with_x, with_y);
    assert_eq!(with_y, "/assets/application-57cec4137b614c87cb4e24a3d003a3e0.js");
}

#[test]
fn derive_published_path_preserves_extension_and_directories() {
    let published = derive_published_path("/deep/nested/dir/styles.css", "body { margin: 0; }")
        .unwrap();
    assert_eq!(published, "/deep/nested/dir/styles-46e14f5303811dc3015fc06636538b33.css");
    assert!(published.ends_with(".css"));
    assert!(published.starts_with("/deep/nested/dir/"));
}

#[test]
fn derive_published_path_rejects_extensionless_paths() {
    match derive_published_path("/assets/no_extension", "X") {
        Err(BundleError::MissingExtension(p)) => assert_eq!(p, "/assets/no_extension"),
        other => panic!("expected a missing-extension error, got {:?}", other),
    }
    match derive_published_path("/assets/.dotfile", "X") {
        Err(BundleError::MissingExtension(p)) => assert_eq!(p, "/assets/.dotfile"),
        other => panic!("expected a missing-extension error, got {:?}", other),
    }
    match derive_published_path("/assets/trailing.", "X") {
        Err(BundleError::MissingExtension(p)) => assert_eq!(p, "/assets/trailing."),
        other => panic!("expected a missing-extension error, got {:?}", other),
    }
}

#[test]
fn splice_hash_places_the_digest_before_the_last_extension() {
    assert_eq!(splice_hash("a/b/c.tar.gz", "ffff").unwrap(), "a/b/c.tar-ffff.gz");
    assert_eq!(splice_hash("index.html", "0a0a").unwrap(), "index-0a0a.html");
    assert!(splice_hash("noext", "0a0a").is_err());
}
