use mber::walk_injection::flatten_fs_hashmap;
use mber::walk_injection::lookup_for_extensions;
use mber::walk_injection::lookup_for_extensions_and_predicate;
use mber::walk_injection::KeyValue;

fn example_tree() -> Vec<(String, KeyValue)> {
    vec![
        (
            "root".to_string(),
            KeyValue::Directory(vec![
                ("a.js".to_string(), KeyValue::Content(b"alpha".to_vec())),
                (
                    "sub".to_string(),
                    KeyValue::Directory(vec![
                        ("b.hbs".to_string(), KeyValue::Content(b"beta".to_vec())),
                    ]),
                ),
                ("c.txt".to_string(), KeyValue::Content(b"gamma".to_vec())),
            ]),
        ),
    ]
}

#[test]
fn flatten_fs_hashmap_joins_nested_paths_depth_first() {
    let flat = flatten_fs_hashmap(example_tree(), Vec::new());
    assert_eq!(
        flat,
        vec![
            ("root/a.js".to_string(), "alpha".to_string()),
            ("root/sub/b.hbs".to_string(), "beta".to_string()),
            ("root/c.txt".to_string(), "gamma".to_string()),
        ]
    );
}

#[test]
fn flatten_fs_hashmap_prefixes_given_parent_folders() {
    let flat = flatten_fs_hashmap(
        vec![("x.js".to_string(), KeyValue::Content(b"alpha".to_vec()))],
        vec!["top".to_string(), "mid".to_string()],
    );
    assert_eq!(flat, vec![("top/mid/x.js".to_string(), "alpha".to_string())]);
}

#[test]
fn lookup_for_extensions_keeps_matching_keys_in_order() {
    let flat = flatten_fs_hashmap(example_tree(), Vec::new());
    let kept = lookup_for_extensions(flat.clone(), vec!["js", "hbs"]);
    assert_eq!(
        kept,
        vec![
            ("root/a.js".to_string(), "alpha".to_string()),
            ("root/sub/b.hbs".to_string(), "beta".to_string()),
        ]
    );
    let none = lookup_for_extensions(flat, vec!["css"]);
    assert_eq!(none, Vec::new());
}

#[test]
fn lookup_for_extensions_and_predicate_narrows_further() {
    let flat = flatten_fs_hashmap(example_tree(), Vec::new());
    let kept = lookup_for_extensions_and_predicate(flat, vec!["js", "hbs"], |filename| {
        filename.starts_with("root/sub")
    });
    assert_eq!(kept, vec![("root/sub/b.hbs".to_string(), "beta".to_string())]);
}
