//! Merging a default configuration tree with a user-supplied overlay.
//!
//! The merge walks objects key by key: where both sides hold an object the
//! walk recurses, everywhere else the overlay value replaces the base value.
//! Arrays are never concatenated or merged element-wise — an overlay array
//! replaces a base array wholesale.

use vstd::prelude::*;
use vstd::string::StringExecFns;

use crate::value::{
    entries_view, items_view, lemma_arr_view, lemma_obj_view, lookup, obj_get, ConfigValue,
    SpecValue,
};

verus! {

/// The namespace key every resolved configuration is rooted at.
pub open spec fn css_variables_key() -> Seq<char> {
    "cssVariables"@
}

/// The key of the glob list naming the files scanned for declarations.
pub open spec fn lookup_files_key() -> Seq<char> {
    "lookupFiles"@
}

/// The key of the glob list naming the folders excluded from scanning.
pub open spec fn blacklist_folders_key() -> Seq<char> {
    "blacklistFolders"@
}

/// The default glob patterns for files to scan.
pub open spec fn spec_default_lookup_files() -> Seq<SpecValue> {
    seq![
        SpecValue::Str("**/*.less"@),
        SpecValue::Str("**/*.scss"@),
        SpecValue::Str("**/*.sass"@),
        SpecValue::Str("**/*.css"@),
        SpecValue::Str("**/*.html"@),
        SpecValue::Str("**/*.vue"@),
        SpecValue::Str("**/*.svelte"@),
        SpecValue::Str("**/*.astro"@),
        SpecValue::Str("**/*.ripple"@),
    ]
}

/// The default glob patterns for folders to exclude.
pub open spec fn spec_default_blacklist_folders() -> Seq<SpecValue> {
    seq![
        SpecValue::Str("**/.cache"@),
        SpecValue::Str("**/.DS_Store"@),
        SpecValue::Str("**/.git"@),
        SpecValue::Str("**/.hg"@),
        SpecValue::Str("**/.next"@),
        SpecValue::Str("**/.svn"@),
        SpecValue::Str("**/bower_components"@),
        SpecValue::Str("**/CVS"@),
        SpecValue::Str("**/dist"@),
        SpecValue::Str("**/node_modules"@),
        SpecValue::Str("**/tests"@),
        SpecValue::Str("**/tmp"@),
    ]
}

/// The entries of the default configuration section under `cssVariables`.
pub open spec fn spec_default_section() -> Seq<(Seq<char>, SpecValue)> {
    seq![
        (lookup_files_key(), SpecValue::Arr(spec_default_lookup_files())),
        (blacklist_folders_key(), SpecValue::Arr(spec_default_blacklist_folders())),
    ]
}

/// The whole default configuration: the default section wrapped under
/// `cssVariables`.
pub open spec fn spec_default_config() -> SpecValue {
    SpecValue::Obj(seq![(css_variables_key(), SpecValue::Obj(spec_default_section()))])
}

/// The overlay content found under the `cssVariables` wrapper key, if any.
pub open spec fn spec_section(overlay: Option<SpecValue>) -> Option<SpecValue> {
    match overlay {
        Some(SpecValue::Obj(es)) => lookup(es, css_variables_key()),
        _ => None,
    }
}

/// The resolved configuration for an optional overlay: the default section
/// deep-merged with the overlay content under `cssVariables`, wrapped back
/// under `cssVariables`.  Overlay content outside that key is ignored.
pub open spec fn spec_resolve(overlay: Option<SpecValue>) -> SpecValue {
    let inner = match spec_section(overlay) {
        Some(section) => spec_merge(SpecValue::Obj(spec_default_section()), section),
        None => SpecValue::Obj(spec_default_section()),
    };
    SpecValue::Obj(seq![(css_variables_key(), inner)])
}

/// The view of an optional borrowed configuration tree.
pub open spec fn opt_view(overlay: Option<&ConfigValue>) -> Option<SpecValue> {
    match overlay {
        Some(v) => Some(v@),
        None => None,
    }
}

/// The entries of `o` whose keys appear nowhere in `b`, in their order in `o`.
pub open spec fn novel_entries(
    o: Seq<(Seq<char>, SpecValue)>,
    b: Seq<(Seq<char>, SpecValue)>,
) -> Seq<(Seq<char>, SpecValue)>
    decreases o.len(),
{
    if o.len() == 0 {
        Seq::empty()
    } else {
        let rest = novel_entries(o.skip(1), b);
        if lookup(b, o[0].0) is None {
            seq![o[0]] + rest
        } else {
            rest
        }
    }
}

/// Deep merge of two configuration trees.
///
/// If both are objects, each base entry keeps its key and holds the merge of
/// its value with the overlay value of the same key (the base value where the
/// overlay has none); entries whose keys occur only in the overlay follow, in
/// overlay order.  In every other case the overlay value replaces the base
/// value, whatever its shape — in particular an overlay array replaces a base
/// array as a whole.
pub open spec fn spec_merge(base: SpecValue, overlay: SpecValue) -> SpecValue
    decreases base,
{
    match (base, overlay) {
        (SpecValue::Obj(b), SpecValue::Obj(o)) => SpecValue::Obj(
            Seq::new(
                b.len(),
                |i: int|
                    if 0 <= i < b.len() {
                        match lookup(o, b[i].0) {
                            Some(ov) => (b[i].0, spec_merge(b[i].1, ov)),
                            None => b[i],
                        }
                    } else {
                        b[i]
                    },
            ) + novel_entries(o, b),
        ),
        (_, ov) => ov,
    }
}

/// Deep merge of two configuration trees; see [`spec_merge`].
#[verifier::loop_isolation(false)]
pub fn merge(base: &ConfigValue, overlay: &ConfigValue) -> (r: ConfigValue)
    ensures
        r@ == spec_merge(base@, overlay@),
    decreases base,
{
    match (base, overlay) {
        (ConfigValue::Obj(b), ConfigValue::Obj(o)) => {
            let ghost bs = entries_view(b@);
            let ghost os = entries_view(o@);
            proof {
                lemma_obj_view(*b);
                lemma_obj_view(*o);
                assert(*base == ConfigValue::Obj(*b));
                assert(*overlay == ConfigValue::Obj(*o));
            }
            let ghost first = Seq::new(
                bs.len(),
                |i: int|
                    if 0 <= i < bs.len() {
                        match lookup(os, bs[i].0) {
                            Some(ov) => (bs[i].0, spec_merge(bs[i].1, ov)),
                            None => bs[i],
                        }
                    } else {
                        bs[i]
                    },
            );
            let mut out: Vec<(String, ConfigValue)> = Vec::new();
            let mut i: usize = 0;
            while i < b.len()
                invariant
                    i <= b.len(),
                    out@.len() == i as int,
                    forall|j: int| 0 <= j < i ==> entries_view(out@)[j] == first[j],
                decreases b.len() - i,
            {
                let e = &b[i];
                match obj_get(o, &e.0) {
                    Some(ov) => {
                        let m = merge(&e.1, ov);
                        out.push((e.0.clone(), m));
                    },
                    None => {
                        let d = e.1.duplicate();
                        out.push((e.0.clone(), d));
                    },
                }
                i = i + 1;
            }
            proof {
                assert(entries_view(out@) =~= first);
            }
            proof {
                assert(os.skip(0) =~= os);
            }
            let mut j: usize = 0;
            while j < o.len()
                invariant
                    j <= o.len(),
                    entries_view(out@) + novel_entries(os.skip(j as int), bs) =~= first
                        + novel_entries(os, bs),
                decreases o.len() - j,
            {
                let e = &o[j];
                proof {
                    assert(os.skip(j as int)[0] == os[j as int]);
                    assert(os.skip(j as int).skip(1) =~= os.skip(j as int + 1));
                }
                if !crate::value::obj_has(b, &e.0) {
                    let d = e.1.duplicate();
                    out.push((e.0.clone(), d));
                    proof {
                        assert(entries_view(out@) =~= entries_view(out@.drop_last()).push(
                            os[j as int],
                        ));
                    }
                }
                j = j + 1;
            }
            proof {
                assert(novel_entries(os.skip(o.len() as int), bs) =~= Seq::empty());
            }
            let r = ConfigValue::Obj(out);
            proof {
                lemma_obj_view(r->Obj_0);
                assert(entries_view(out@) =~= first + novel_entries(os, bs));
                assert(base@->Obj_0 == bs);
                assert(overlay@->Obj_0 == os);
                assert(spec_merge(base@, overlay@)->Obj_0 =~= first + novel_entries(os, bs));
                assert(spec_merge(base@, overlay@) =~~= SpecValue::Obj(
                    first + novel_entries(os, bs),
                ));
            }
            r
        },
        _ => {
            proof {
                assert(!(base@ is Obj && overlay@ is Obj));
            }
            overlay.duplicate()
        },
    }
}

/// Build the default configuration section, an object holding the two
/// default glob lists.
pub fn default_section_value() -> (r: ConfigValue)
    ensures
        r@ == SpecValue::Obj(spec_default_section()),
{
    let mut lf: Vec<ConfigValue> = Vec::new();
    lf.push(ConfigValue::Str(String::from_str("**/*.less")));
    lf.push(ConfigValue::Str(String::from_str("**/*.scss")));
    lf.push(ConfigValue::Str(String::from_str("**/*.sass")));
    lf.push(ConfigValue::Str(String::from_str("**/*.css")));
    lf.push(ConfigValue::Str(String::from_str("**/*.html")));
    lf.push(ConfigValue::Str(String::from_str("**/*.vue")));
    lf.push(ConfigValue::Str(String::from_str("**/*.svelte")));
    lf.push(ConfigValue::Str(String::from_str("**/*.astro")));
    lf.push(ConfigValue::Str(String::from_str("**/*.ripple")));
    let mut bl: Vec<ConfigValue> = Vec::new();
    bl.push(ConfigValue::Str(String::from_str("**/.cache")));
    bl.push(ConfigValue::Str(String::from_str("**/.DS_Store")));
    bl.push(ConfigValue::Str(String::from_str("**/.git")));
    bl.push(ConfigValue::Str(String::from_str("**/.hg")));
    bl.push(ConfigValue::Str(String::from_str("**/.next")));
    bl.push(ConfigValue::Str(String::from_str("**/.svn")));
    bl.push(ConfigValue::Str(String::from_str("**/bower_components")));
    bl.push(ConfigValue::Str(String::from_str("**/CVS")));
    bl.push(ConfigValue::Str(String::from_str("**/dist")));
    bl.push(ConfigValue::Str(String::from_str("**/node_modules")));
    bl.push(ConfigValue::Str(String::from_str("**/tests")));
    bl.push(ConfigValue::Str(String::from_str("**/tmp")));
    let lf_val = ConfigValue::Arr(lf);
    let bl_val = ConfigValue::Arr(bl);
    proof {
        lemma_arr_view(lf_val->Arr_0);
        lemma_arr_view(bl_val->Arr_0);
        assert(lf_val == ConfigValue::Arr(lf_val->Arr_0));
        assert(bl_val == ConfigValue::Arr(bl_val->Arr_0));
        assert(items_view(lf_val->Arr_0@) =~= spec_default_lookup_files());
        assert(items_view(bl_val->Arr_0@) =~= spec_default_blacklist_folders());
    }
    let mut es: Vec<(String, ConfigValue)> = Vec::new();
    es.push((String::from_str("lookupFiles"), lf_val));
    es.push((String::from_str("blacklistFolders"), bl_val));
    let r = ConfigValue::Obj(es);
    proof {
        lemma_obj_view(r->Obj_0);
        assert(r == ConfigValue::Obj(r->Obj_0));
        assert(entries_view(r->Obj_0@) =~= spec_default_section());
    }
    r
}

/// Build the whole default configuration, the default section wrapped under
/// `cssVariables`.
pub fn default_config_value() -> (r: ConfigValue)
    ensures
        r@ == spec_default_config(),
{
    let section = default_section_value();
    let ghost sv = section@;
    let mut top: Vec<(String, ConfigValue)> = Vec::new();
    top.push((String::from_str("cssVariables"), section));
    let r = ConfigValue::Obj(top);
    proof {
        lemma_obj_view(r->Obj_0);
        assert(r == ConfigValue::Obj(r->Obj_0));
        assert(entries_view(r->Obj_0@) =~= seq![(css_variables_key(), sv)]);
        assert(r@ =~~= spec_default_config());
    }
    r
}

/// Resolve an optional user overlay against the default configuration.
///
/// Wrapping mode: strict.  Only overlay content found under the exact
/// top-level key `cssVariables` is merged; an overlay without that key —
/// including one that carries `lookupFiles` or `blacklistFolders` directly
/// at its root — is ignored entirely and the defaults pass through
/// unchanged.  The result is always rooted at `cssVariables`.
pub fn resolve(overlay: Option<&ConfigValue>) -> (r: ConfigValue)
    ensures
        r@ == spec_resolve(opt_view(overlay)),
{
    let key = String::from_str("cssVariables");
    let defaults = default_section_value();
    let inner = match overlay {
        Some(ConfigValue::Obj(es)) => {
            proof {
                lemma_obj_view(*es);
            }
            match obj_get(es, &key) {
                Some(section) => merge(&defaults, section),
                None => defaults,
            }
        },
        _ => defaults,
    };
    let ghost iv = inner@;
    proof {
        assert(iv == match spec_section(opt_view(overlay)) {
            Some(section) => spec_merge(SpecValue::Obj(spec_default_section()), section),
            None => SpecValue::Obj(spec_default_section()),
        });
    }
    let mut top: Vec<(String, ConfigValue)> = Vec::new();
    top.push((String::from_str("cssVariables"), inner));
    let r = ConfigValue::Obj(top);
    proof {
        lemma_obj_view(r->Obj_0);
        assert(r == ConfigValue::Obj(r->Obj_0));
        assert(entries_view(r->Obj_0@) =~= seq![(css_variables_key(), iv)]);
        assert(r@ =~~= spec_resolve(opt_view(overlay)));
    }
    r
}

} // verus!
