use css_variables::server::{
    needs_install, server_launch_args, server_package_name, server_package_version,
    server_script_path, validate_server_id,
};
use css_variables::value::ConfigValue;

fn s(x: &str) -> String {
    x.to_string()
}

#[test]
fn validate_server_id_accepts_the_supported_id() {
    assert_eq!(validate_server_id("css_variables"), Ok(()));
}

#[test]
fn validate_server_id_rejects_other_ids_with_message() {
    assert_eq!(
        validate_server_id("some_other_server"),
        Err(s("Unknown language server id: some_other_server"))
    );
}

#[test]
fn needs_install_only_when_pinned_version_not_installed() {
    assert!(!needs_install(&Some(s("2.7.0")), "2.7.0"));
    assert!(needs_install(&Some(s("2.6.0")), "2.7.0"));
    assert!(needs_install(&None, "2.7.0"));
}

#[test]
fn pinned_package_constants() {
    assert_eq!(server_package_name(), s("css-variables-language-server"));
    assert_eq!(server_package_version(), s("2.7.0"));
    assert_eq!(
        server_script_path(),
        s("node_modules/css-variables-language-server/bin/index.js")
    );
}

#[test]
fn server_launch_args_is_script_then_flags() {
    assert_eq!(
        server_launch_args(None),
        vec![
            s("node_modules/css-variables-language-server/bin/index.js"),
            s("--color-only-variables"),
            s("--stdio"),
        ]
    );
    let overlay = ConfigValue::Obj(vec![(
        s("cssVariables"),
        ConfigValue::Obj(vec![(
            s("lookupFiles"),
            ConfigValue::Arr(vec![ConfigValue::Str(s("a.css"))]),
        )]),
    )]);
    assert_eq!(
        server_launch_args(Some(&overlay)),
        vec![
            s("node_modules/css-variables-language-server/bin/index.js"),
            s("--color-only-variables"),
            s("--stdio"),
            s("--lookup-file"),
            s("a.css"),
        ]
    );
}
