use css_variables::args::build_args;
use css_variables::value::ConfigValue;

fn s(x: &str) -> String {
    x.to_string()
}

fn sv(x: &str) -> ConfigValue {
    ConfigValue::Str(s(x))
}

fn arr(items: Vec<ConfigValue>) -> ConfigValue {
    ConfigValue::Arr(items)
}

fn obj(entries: Vec<(&str, ConfigValue)>) -> ConfigValue {
    ConfigValue::Obj(entries.into_iter().map(|(k, v)| (s(k), v)).collect())
}

#[test]
fn build_args_none_is_static_prefix() {
    assert_eq!(
        build_args(None),
        vec![s("--color-only-variables"), s("--stdio")]
    );
}

#[test]
fn build_args_emits_one_pair_per_entry_in_order() {
    let overlay = obj(vec![(
        "cssVariables",
        obj(vec![
            ("lookupFiles", arr(vec![sv("a.css"), sv("b.css")])),
            ("blacklistFolders", arr(vec![sv("**/dist/**")])),
        ]),
    )]);
    assert_eq!(
        build_args(Some(&overlay)),
        vec![
            s("--color-only-variables"),
            s("--stdio"),
            s("--lookup-file"),
            s("a.css"),
            s("--lookup-file"),
            s("b.css"),
            s("--ignore-glob"),
            s("**/dist/**"),
        ]
    );
}

#[test]
fn build_args_ignores_non_array_field_values() {
    let overlay = obj(vec![(
        "cssVariables",
        obj(vec![
            ("lookupFiles", sv("a.css")),
            ("blacklistFolders", ConfigValue::Int(42)),
        ]),
    )]);
    assert_eq!(
        build_args(Some(&overlay)),
        vec![s("--color-only-variables"), s("--stdio")]
    );
}

#[test]
fn build_args_drops_non_string_elements_keeps_order() {
    let overlay = obj(vec![(
        "cssVariables",
        obj(vec![(
            "lookupFiles",
            arr(vec![
                sv("first.css"),
                ConfigValue::Int(7),
                ConfigValue::Null,
                sv("second.css"),
            ]),
        )]),
    )]);
    assert_eq!(
        build_args(Some(&overlay)),
        vec![
            s("--color-only-variables"),
            s("--stdio"),
            s("--lookup-file"),
            s("first.css"),
            s("--lookup-file"),
            s("second.css"),
        ]
    );
}

#[test]
fn build_args_has_no_fallback_to_defaults() {
    let empty_section = obj(vec![("cssVariables", obj(vec![]))]);
    assert_eq!(
        build_args(Some(&empty_section)),
        vec![s("--color-only-variables"), s("--stdio")]
    );
    let unwrapped = obj(vec![("lookupFiles", arr(vec![sv("a.css")]))]);
    assert_eq!(
        build_args(Some(&unwrapped)),
        vec![s("--color-only-variables"), s("--stdio")]
    );
}

#[test]
fn build_args_lookup_files_pairs_precede_blacklist_pairs() {
    let overlay = obj(vec![(
        "cssVariables",
        obj(vec![
            ("blacklistFolders", arr(vec![sv("**/dist")])),
            ("lookupFiles", arr(vec![sv("a.css")])),
        ]),
    )]);
    assert_eq!(
        build_args(Some(&overlay)),
        vec![
            s("--color-only-variables"),
            s("--stdio"),
            s("--lookup-file"),
            s("a.css"),
            s("--ignore-glob"),
            s("**/dist"),
        ]
    );
}
