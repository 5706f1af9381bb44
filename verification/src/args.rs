//! Deriving command-line flags from an optional user overlay.
//!
//! The flag list always begins with the fixed prefix `--color-only-variables
//! --stdio`.  After that, the two glob-list fields under the overlay's
//! `cssVariables` key each contribute one flag/value pair per string element,
//! in element order — `lookupFiles` first, then `blacklistFolders`.  There is
//! no fallback to the defaults: an absent overlay, an absent field, a
//! non-array field value, or a non-string element simply contributes nothing.

use vstd::prelude::*;
use vstd::string::StringExecFns;

use crate::resolver::{
    blacklist_folders_key, lookup_files_key, opt_view, spec_section,
};
use crate::value::{lemma_obj_view, lookup, obj_get, ConfigValue, SpecValue};

verus! {

/// The string elements of an array, in order; non-string elements drop out.
pub open spec fn string_items(items: Seq<SpecValue>) -> Seq<Seq<char>>
    decreases items.len(),
{
    if items.len() == 0 {
        Seq::empty()
    } else {
        let rest = string_items(items.skip(1));
        match items[0] {
            SpecValue::Str(s) => seq![s] + rest,
            _ => rest,
        }
    }
}

/// One `flag value` pair per value, in order.
pub open spec fn flag_pairs(flag: Seq<char>, vals: Seq<Seq<char>>) -> Seq<Seq<char>>
    decreases vals.len(),
{
    if vals.len() == 0 {
        Seq::empty()
    } else {
        seq![flag, vals[0]] + flag_pairs(flag, vals.skip(1))
    }
}

/// The strings a named field of the section contributes: the string elements
/// of its value if that value is an array, nothing otherwise.
pub open spec fn section_field_strings(section: Option<SpecValue>, field: Seq<char>) -> Seq<
    Seq<char>,
> {
    match section {
        Some(SpecValue::Obj(sec)) => match lookup(sec, field) {
            Some(SpecValue::Arr(items)) => string_items(items),
            _ => Seq::empty(),
        },
        _ => Seq::empty(),
    }
}

/// The strings a named field contributes, read through the overlay's
/// `cssVariables` wrapper.
pub open spec fn spec_field_strings(overlay: Option<SpecValue>, field: Seq<char>) -> Seq<
    Seq<char>,
> {
    section_field_strings(spec_section(overlay), field)
}

/// The full argument list for an optional overlay: the fixed prefix, then
/// the `lookupFiles` pairs, then the `blacklistFolders` pairs.
pub open spec fn spec_build_args(overlay: Option<SpecValue>) -> Seq<Seq<char>> {
    seq!["--color-only-variables"@, "--stdio"@] + flag_pairs(
        "--lookup-file"@,
        spec_field_strings(overlay, lookup_files_key()),
    ) + flag_pairs("--ignore-glob"@, spec_field_strings(overlay, blacklist_folders_key()))
}

/// The overlay content under the `cssVariables` key, if any; see
/// [`spec_section`].
pub fn section_of<'a>(overlay: Option<&'a ConfigValue>) -> (r: Option<&'a ConfigValue>)
    ensures
        match r {
            Some(v) => spec_section(opt_view(overlay)) == Some(v@),
            None => spec_section(opt_view(overlay)) is None,
        },
{
    let key = String::from_str("cssVariables");
    match overlay {
        Some(ConfigValue::Obj(es)) => {
            proof {
                lemma_obj_view(*es);
            }
            obj_get(es, &key)
        },
        _ => None,
    }
}

/// Append the flag/value pairs one section field contributes.
#[verifier::loop_isolation(false)]
fn push_field_flags(out: &mut Vec<String>, section: Option<&ConfigValue>, field: &str, flag: &str)
    ensures
        final(out).deep_view() == old(out).deep_view() + flag_pairs(
            flag@,
            section_field_strings(opt_view(section), field@),
        ),
{
    let ghost target = flag_pairs(flag@, section_field_strings(opt_view(section), field@));
    match section {
        Some(ConfigValue::Obj(sec)) => {
            proof {
                lemma_obj_view(*sec);
            }
            let field_key = String::from_str(field);
            match obj_get(sec, &field_key) {
                Some(ConfigValue::Arr(items)) => {
                    let ghost iv = crate::value::items_view(items@);
                    proof {
                        lemma_obj_view(*sec);
                        crate::value::lemma_arr_view(*items);
                        assert(iv.skip(0) =~= iv);
                    }
                    let mut i: usize = 0;
                    while i < items.len()
                        invariant
                            i <= items.len(),
                            out.deep_view() + flag_pairs(flag@, string_items(iv.skip(i as int)))
                                =~= old(out).deep_view() + target,
                        decreases items.len() - i,
                    {
                        proof {
                            assert(iv.skip(i as int)[0] == iv[i as int]);
                            assert(iv.skip(i as int).skip(1) =~= iv.skip(i as int + 1));
                        }
                        match &items[i] {
                            ConfigValue::Str(s) => {
                                let ghost before = out.deep_view();
                                let ghost strs = string_items(iv.skip(i as int));
                                out.push(String::from_str(flag));
                                out.push(s.clone());
                                proof {
                                    assert(out.deep_view() =~= before + seq![flag@, s@]);
                                    assert(strs.skip(1) =~= string_items(iv.skip(i as int + 1)));
                                    assert(flag_pairs(flag@, strs) == seq![flag@, s@] + flag_pairs(
                                        flag@,
                                        strs.skip(1),
                                    ));
                                }
                            },
                            _ => {
                            },
                        }
                        i = i + 1;
                    }
                    proof {
                        assert(string_items(iv.skip(items.len() as int)) =~= Seq::empty());
                        assert(out.deep_view() + Seq::<Seq<char>>::empty() =~= out.deep_view());
                    }
                },
                _ => {
                    proof {
                        assert(out.deep_view() =~= old(out).deep_view() + target);
                    }
                },
            }
        },
        _ => {
            proof {
                assert(out.deep_view() =~= old(out).deep_view() + target);
            }
        },
    }
    proof {
        assert(out.deep_view() =~= old(out).deep_view() + target);
    }
}

/// Derive the command-line flags for an optional user overlay; see
/// [`spec_build_args`].
///
/// Unlike [`crate::resolver::resolve`] this never falls back to the default
/// glob lists: absent or ill-shaped overlay content contributes no flags.
pub fn build_args(overlay: Option<&ConfigValue>) -> (r: Vec<String>)
    ensures
        r.deep_view() == spec_build_args(opt_view(overlay)),
{
    let mut out: Vec<String> = Vec::new();
    out.push(String::from_str("--color-only-variables"));
    out.push(String::from_str("--stdio"));
    proof {
        assert(out.deep_view() =~= seq!["--color-only-variables"@, "--stdio"@]);
    }
    let section = section_of(overlay);
    proof {
        assert(opt_view(section) == spec_section(opt_view(overlay)));
    }
    push_field_flags(&mut out, section, "lookupFiles", "--lookup-file");
    push_field_flags(&mut out, section, "blacklistFolders", "--ignore-glob");
    proof {
        assert(out.deep_view() =~= spec_build_args(opt_view(overlay)));
    }
    out
}

} // verus!
