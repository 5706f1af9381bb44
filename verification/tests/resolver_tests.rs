use css_variables::resolver::{default_config_value, resolve};
use css_variables::value::ConfigValue;

fn s(x: &str) -> String {
    x.to_string()
}

fn sv(x: &str) -> ConfigValue {
    ConfigValue::Str(s(x))
}

fn arr(items: Vec<ConfigValue>) -> ConfigValue {
    ConfigValue::Arr(items)
}

fn obj(entries: Vec<(&str, ConfigValue)>) -> ConfigValue {
    ConfigValue::Obj(entries.into_iter().map(|(k, v)| (s(k), v)).collect())
}

fn default_lookup_files() -> ConfigValue {
    arr(vec![
        sv("**/*.less"),
        sv("**/*.scss"),
        sv("**/*.sass"),
        sv("**/*.css"),
        sv("**/*.html"),
        sv("**/*.vue"),
        sv("**/*.svelte"),
        sv("**/*.astro"),
        sv("**/*.ripple"),
    ])
}

fn default_blacklist_folders() -> ConfigValue {
    arr(vec![
        sv("**/.cache"),
        sv("**/.DS_Store"),
        sv("**/.git"),
        sv("**/.hg"),
        sv("**/.next"),
        sv("**/.svn"),
        sv("**/bower_components"),
        sv("**/CVS"),
        sv("**/dist"),
        sv("**/node_modules"),
        sv("**/tests"),
        sv("**/tmp"),
    ])
}

fn wrapped_defaults() -> ConfigValue {
    obj(vec![(
        "cssVariables",
        obj(vec![
            ("lookupFiles", default_lookup_files()),
            ("blacklistFolders", default_blacklist_folders()),
        ]),
    )])
}

#[test]
fn default_config_value_is_wrapped_default_literal() {
    assert_eq!(default_config_value(), wrapped_defaults());
}

#[test]
fn resolve_none_equals_resolve_empty_object_equals_defaults() {
    let from_none = resolve(None);
    let empty = obj(vec![]);
    let from_empty = resolve(Some(&empty));
    assert_eq!(from_none, wrapped_defaults());
    assert_eq!(from_empty, wrapped_defaults());
    assert_eq!(from_none, from_empty);
}

#[test]
fn resolve_overlay_with_both_fields_fully_wins() {
    let overlay = obj(vec![(
        "cssVariables",
        obj(vec![
            ("lookupFiles", arr(vec![sv("a.css"), sv("b.css")])),
            ("blacklistFolders", arr(vec![sv("**/dist/**")])),
        ]),
    )]);
    let resolved = resolve(Some(&overlay));
    assert_eq!(resolved, overlay);
}

#[test]
fn resolve_overlay_with_only_lookup_files_keeps_default_blacklist() {
    let overlay = obj(vec![(
        "cssVariables",
        obj(vec![("lookupFiles", arr(vec![sv("a.css")]))]),
    )]);
    let resolved = resolve(Some(&overlay));
    let expected = obj(vec![(
        "cssVariables",
        obj(vec![
            ("lookupFiles", arr(vec![sv("a.css")])),
            ("blacklistFolders", default_blacklist_folders()),
        ]),
    )]);
    assert_eq!(resolved, expected);
}

#[test]
fn resolve_overlay_with_only_blacklist_keeps_default_lookup_files() {
    let overlay = obj(vec![(
        "cssVariables",
        obj(vec![("blacklistFolders", arr(vec![sv("**/out")]))]),
    )]);
    let resolved = resolve(Some(&overlay));
    let expected = obj(vec![(
        "cssVariables",
        obj(vec![
            ("lookupFiles", default_lookup_files()),
            ("blacklistFolders", arr(vec![sv("**/out")])),
        ]),
    )]);
    assert_eq!(resolved, expected);
}

#[test]
fn resolve_is_idempotent() {
    let overlay = obj(vec![(
        "cssVariables",
        obj(vec![
            ("lookupFiles", arr(vec![sv("x.scss")])),
            ("custom", obj(vec![("deep", ConfigValue::Int(3))])),
        ]),
    )]);
    let once = resolve(Some(&overlay));
    let twice = resolve(Some(&once));
    assert_eq!(twice, once);
}

#[test]
fn resolve_ignores_unwrapped_overlay() {
    let overlay = obj(vec![
        ("lookupFiles", arr(vec![sv("a.css")])),
        ("blacklistFolders", arr(vec![sv("**/dist")])),
    ]);
    assert_eq!(resolve(Some(&overlay)), wrapped_defaults());
}

#[test]
fn resolve_ignores_non_object_overlay() {
    let overlay = sv("not a configuration");
    assert_eq!(resolve(Some(&overlay)), wrapped_defaults());
}

#[test]
fn resolve_keeps_extraneous_section_keys_after_known_fields() {
    let overlay = obj(vec![(
        "cssVariables",
        obj(vec![("extra", ConfigValue::Bool(true))]),
    )]);
    let resolved = resolve(Some(&overlay));
    let expected = obj(vec![(
        "cssVariables",
        obj(vec![
            ("lookupFiles", default_lookup_files()),
            ("blacklistFolders", default_blacklist_folders()),
            ("extra", ConfigValue::Bool(true)),
        ]),
    )]);
    assert_eq!(resolved, expected);
}

#[test]
fn resolve_scalar_replaces_default_array_wholesale() {
    let overlay = obj(vec![(
        "cssVariables",
        obj(vec![("lookupFiles", ConfigValue::Int(42))]),
    )]);
    let resolved = resolve(Some(&overlay));
    let expected = obj(vec![(
        "cssVariables",
        obj(vec![
            ("lookupFiles", ConfigValue::Int(42)),
            ("blacklistFolders", default_blacklist_folders()),
        ]),
    )]);
    assert_eq!(resolved, expected);
}

#[test]
fn resolve_section_scalar_replaces_whole_default_section() {
    let overlay = obj(vec![("cssVariables", ConfigValue::Null)]);
    let resolved = resolve(Some(&overlay));
    let expected = obj(vec![("cssVariables", ConfigValue::Null)]);
    assert_eq!(resolved, expected);
}

#[test]
fn resolve_merges_nested_objects_key_by_key() {
    let overlay = obj(vec![(
        "cssVariables",
        obj(vec![(
            "nested",
            obj(vec![("a", ConfigValue::Int(1))]),
        )]),
    )]);
    let once = resolve(Some(&overlay));
    // Re-resolving with a sibling key under the same nested object merges
    // key by key instead of replacing the object.
    let second = obj(vec![(
        "cssVariables",
        obj(vec![(
            "nested",
            obj(vec![("b", ConfigValue::Int(2))]),
        )]),
    )]);
    let merged = css_variables::resolver::merge(&once, &second);
    let expected = obj(vec![(
        "cssVariables",
        obj(vec![
            ("lookupFiles", default_lookup_files()),
            ("blacklistFolders", default_blacklist_folders()),
            (
                "nested",
                obj(vec![("a", ConfigValue::Int(1)), ("b", ConfigValue::Int(2))]),
            ),
        ]),
    )]);
    assert_eq!(merged, expected);
}
