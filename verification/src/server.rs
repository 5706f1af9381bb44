//! Decisions around launching the pinned language-server package: which
//! server identifier is answered, whether the pinned package version must be
//! installed, and the argument list handed to the process launcher.

use vstd::prelude::*;
use vstd::string::StringExecFns;

use crate::args::{build_args, spec_build_args};
use crate::resolver::opt_view;
use crate::value::ConfigValue;

verus! {

/// The only language-server identifier this extension answers for.
pub open spec fn server_id() -> Seq<char> {
    "css_variables"@
}

/// Check a requested language-server identifier.
///
/// Succeeds exactly on the supported identifier; any other identifier is a
/// caller bug and yields an error message naming it.
pub fn validate_server_id(id: &str) -> (r: Result<(), String>)
    ensures
        r is Ok <==> id@ == server_id(),
        r matches Err(m) ==> m@ == "Unknown language server id: "@ + id@,
{
    let expected = String::from_str("css_variables");
    let given = String::from_str(id);
    if given == expected {
        Ok(())
    } else {
        Err(String::from_str("Unknown language server id: ").concat(id))
    }
}

/// The npm package that provides the language server.
pub fn server_package_name() -> (r: String)
    ensures
        r@ == "css-variables-language-server"@,
{
    String::from_str("css-variables-language-server")
}

/// The package version this extension pins.
pub fn server_package_version() -> (r: String)
    ensures
        r@ == "2.7.0"@,
{
    String::from_str("2.7.0")
}

/// The server's entry script, relative to the extension's work directory.
pub fn server_script_path() -> (r: String)
    ensures
        r@ == "node_modules/css-variables-language-server/bin/index.js"@,
{
    String::from_str("node_modules/css-variables-language-server/bin/index.js")
}

/// Decide whether the pinned package must be installed: it must unless the
/// reported installed version matches the pinned one.  Installation is
/// idempotent, so installing again when the versions already match would be
/// harmless but wasteful.
pub fn needs_install(installed: &Option<String>, pinned: &str) -> (r: bool)
    ensures
        r == !(installed matches Some(v) && v@ == pinned@),
{
    match installed {
        Some(v) => {
            let p = String::from_str(pinned);
            !(*v == p)
        },
        None => true,
    }
}

/// The argument list the process launcher receives: the server's entry
/// script followed by the configuration flags for the overlay.
pub fn server_launch_args(overlay: Option<&ConfigValue>) -> (r: Vec<String>)
    ensures
        r.deep_view() == seq!["node_modules/css-variables-language-server/bin/index.js"@]
            + spec_build_args(opt_view(overlay)),
{
    let mut out: Vec<String> = Vec::new();
    out.push(server_script_path());
    let mut flags = build_args(overlay);
    let ghost fv = flags.deep_view();
    out.append(&mut flags);
    proof {
        assert(out.deep_view() =~= seq![
            "node_modules/css-variables-language-server/bin/index.js"@,
        ] + fv);
    }
    out
}

} // verus!
