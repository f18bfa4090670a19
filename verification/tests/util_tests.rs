use mber::application;
use mber::descriptor::value_to_json;
use mber::descriptor::ConfigValue;
use mber::build_cache::BuildCache;
use mber::cli_arguments::CLIArguments;
use mber::json::json_quote;
use mber::project;
use mber::strutil::replace_all;
use mber::strutil::str_ends_with;
use mber::strutil::str_lex_le;
use mber::strutil::str_starts_with_ci;

#[test]
fn replace_all_substitutes_every_occurrence_from_the_left() {
    assert_eq!(replace_all("a b a b", "a", "x"), "x b x b");
    assert_eq!(replace_all("aaa", "aa", "b"), "ba");
    assert_eq!(replace_all("nothing here", "zzz", "x"), "nothing here");
    assert_eq!(replace_all("abc", "", "x"), "abc");
    assert_eq!(
        replace_all(
            "<script src=\"/assets/app.js\"></script>",
            "/assets/app.js",
            "/assets/app-ffff.js"
        ),
        "<script src=\"/assets/app-ffff.js\"></script>"
    );
}

#[test]
fn replace_all_can_overreach_on_substring_paths() {
    // the documented sharp edge of textual rewriting: a logical path that
    // prefixes another is rewritten inside it as well
    assert_eq!(
        replace_all("/assets/app.js.map", "/assets/app.js", "/assets/app-ffff.js"),
        "/assets/app-ffff.js.map"
    );
}

#[test]
fn string_helpers_compare_as_documented() {
    assert!(str_starts_with_ci("HTTP://x", "http://"));
    assert!(!str_starts_with_ci("htt", "http://"));
    assert!(str_ends_with("application.css", ".css"));
    assert!(!str_ends_with("application.css", ".js"));
    assert!(str_lex_le("assets/a.js", "assets/b.js"));
    assert!(str_lex_le("abc", "abc"));
    assert!(!str_lex_le("b", "a"));
    assert!(str_lex_le("ab", "abc"));
}

#[test]
fn json_quote_escapes_the_json_string_grammar() {
    assert_eq!(json_quote("plain"), "\"plain\"");
    assert_eq!(json_quote("a\"b"), "\"a\\\"b\"");
    assert_eq!(json_quote("a\\b"), "\"a\\\\b\"");
    assert_eq!(json_quote("line\nbreak"), "\"line\\nbreak\"");
    assert_eq!(json_quote("tab\there"), "\"tab\\there\"");
    assert_eq!(json_quote("\u{1}"), "\"\\u0001\"");
    assert_eq!(json_quote("\u{1f}"), "\"\\u001f\"");
}

#[test]
fn value_to_json_serializes_every_variant_compactly() {
    let value = ConfigValue::Arr(vec![
        ConfigValue::Int(-5),
        ConfigValue::Int(0),
        ConfigValue::Null,
        ConfigValue::Bool(true),
        ConfigValue::Str("a\"b".to_string()),
        ConfigValue::Obj(Vec::new()),
        ConfigValue::Obj(vec![("k".to_string(), ConfigValue::Int(12))]),
    ]);
    assert_eq!(value_to_json(&value), "[-5,0,null,true,\"a\\\"b\",{},{\"k\":12}]");
    assert_eq!(value_to_json(&ConfigValue::Arr(Vec::new())), "[]");
}

#[test]
fn build_cache_insert_fills_only_the_named_slot() {
    let cache = BuildCache::new();
    assert_eq!(cache.vendor_appends, "");
    let cache = cache.insert("vendor_appends", "window.x = 1;");
    assert_eq!(cache.vendor_appends, "window.x = 1;");
    assert_eq!(cache.vendor_prepends, "");
    let cache = cache.insert("unknown_slot", "ignored");
    assert_eq!(cache.vendor_appends, "window.x = 1;");
    assert_eq!(cache.test_prepends, "");
}

#[test]
fn cli_arguments_parse_gives_the_development_defaults() {
    let arguments = CLIArguments::parse();
    assert_eq!(arguments.env, "development");
    assert_eq!(arguments.port, 1234);
    assert!(arguments.server);
    assert!(arguments.fastboot);
    assert!(arguments.watch);
    assert!(!arguments.debug);
    assert!(arguments.talk);
    assert!(arguments.testing);
}

#[test]
fn parent_directory_search_misses_absent_files() {
    assert_eq!(
        application::in_parent_directories("/surely/not/a/real/dir", "no_such_file_zzz.xyz"),
        None
    );
    assert_eq!(
        project::in_parent_directories("/surely/not/a/real/dir", "no_such_file_zzz.xyz"),
        None
    );
    assert_eq!(
        project::search_in_directory("/also/not/real".to_string(), "missing_zzz.json"),
        None
    );
}
