//! Properties of the merge: idempotence of resolution, and how the resolved
//! section relates to the overlay's section and to the defaults.

use vstd::prelude::*;

use crate::resolver::{
    blacklist_folders_key, css_variables_key, lookup_files_key, novel_entries,
    spec_default_blacklist_folders, spec_default_config, spec_default_lookup_files,
    spec_default_section, spec_merge, spec_resolve, spec_section,
};
use crate::value::{has_key, lookup, wf, SpecValue};

verus! {

/// A found value is the value of some entry that carries the key.
proof fn lemma_lookup_witness(es: Seq<(Seq<char>, SpecValue)>, k: Seq<char>)
    requires
        lookup(es, k) is Some,
    ensures
        exists|i: int|
            0 <= i < es.len() && (#[trigger] es[i]).0 == k && es[i].1 == lookup(es, k)->Some_0,
    decreases es.len(),
{
    if es.len() > 0 && es[0].0 != k {
        lemma_lookup_witness(es.skip(1), k);
        let i = choose|i: int|
            0 <= i < es.skip(1).len() && (#[trigger] es.skip(1)[i]).0 == k && es.skip(1)[i].1
                == lookup(es.skip(1), k)->Some_0;
        assert(es[i + 1] == es.skip(1)[i]);
    }
}

/// With pairwise distinct keys, the lookup of an entry's key finds exactly
/// that entry's value.
proof fn lemma_lookup_at(es: Seq<(Seq<char>, SpecValue)>, i: int)
    requires
        0 <= i < es.len(),
        forall|p: int, q: int| 0 <= p < q < es.len() ==> (#[trigger] es[p]).0 != (#[trigger] es[q]).0,
    ensures
        lookup(es, es[i].0) == Some(es[i].1),
    decreases i,
{
    if i > 0 {
        assert(es.skip(1)[i - 1] == es[i]);
        assert(forall|p: int, q: int|
            0 <= p < q < es.skip(1).len() ==> (#[trigger] es.skip(1)[p]).0 != (
            #[trigger] es.skip(1)[q]).0) by {
            assert(forall|p: int| 0 <= p < es.skip(1).len() ==> es.skip(1)[p] == es[p + 1]);
        }
        lemma_lookup_at(es.skip(1), i - 1);
    }
}

/// Looking a key up in an appended list searches the front part first.
proof fn lemma_lookup_append(
    a: Seq<(Seq<char>, SpecValue)>,
    b: Seq<(Seq<char>, SpecValue)>,
    k: Seq<char>,
)
    ensures
        lookup(a + b, k) == if has_key(a, k) {
            lookup(a, k)
        } else {
            lookup(b, k)
        },
    decreases a.len(),
{
    if a.len() == 0 {
        assert(a + b =~= b);
    } else {
        assert((a + b)[0] == a[0]);
        assert((a + b).skip(1) =~= a.skip(1) + b);
        lemma_lookup_append(a.skip(1), b, k);
    }
}

/// Entries that survive the novelty filter are entries of the overlay whose
/// keys appear nowhere in the base.
proof fn lemma_novel_elems(o: Seq<(Seq<char>, SpecValue)>, b: Seq<(Seq<char>, SpecValue)>)
    ensures
        forall|i: int|
            0 <= i < novel_entries(o, b).len() ==> !has_key(
                b,
                (#[trigger] novel_entries(o, b)[i]).0,
            ) && exists|j: int| 0 <= j < o.len() && o[j] == novel_entries(o, b)[i],
    decreases o.len(),
{
    if o.len() > 0 {
        lemma_novel_elems(o.skip(1), b);
        let rest = novel_entries(o.skip(1), b);
        assert(forall|j: int| 0 <= j < o.skip(1).len() ==> o.skip(1)[j] == o[j + 1]);
        if lookup(b, o[0].0) is None {
            assert(novel_entries(o, b) == seq![o[0]] + rest);
            assert(forall|i: int| 1 <= i < novel_entries(o, b).len() ==> novel_entries(o, b)[i]
                == rest[i - 1]);
        }
    }
}

/// When every overlay key already occurs in the base, nothing is novel.
proof fn lemma_novel_none(o: Seq<(Seq<char>, SpecValue)>, b: Seq<(Seq<char>, SpecValue)>)
    requires
        forall|i: int| 0 <= i < o.len() ==> has_key(b, (#[trigger] o[i]).0),
    ensures
        novel_entries(o, b) == Seq::<(Seq<char>, SpecValue)>::empty(),
    decreases o.len(),
{
    if o.len() > 0 {
        assert(forall|i: int| 0 <= i < o.skip(1).len() ==> o.skip(1)[i] == o[i + 1]);
        lemma_novel_none(o.skip(1), b);
    }
}

/// When no overlay key occurs in the base, everything is novel.
proof fn lemma_novel_all(o: Seq<(Seq<char>, SpecValue)>, b: Seq<(Seq<char>, SpecValue)>)
    requires
        forall|i: int| 0 <= i < o.len() ==> !has_key(b, (#[trigger] o[i]).0),
    ensures
        novel_entries(o, b) == o,
    decreases o.len(),
{
    if o.len() > 0 {
        assert(forall|i: int| 0 <= i < o.skip(1).len() ==> o.skip(1)[i] == o[i + 1]);
        lemma_novel_all(o.skip(1), b);
        assert(novel_entries(o, b) =~= o);
    } else {
        assert(novel_entries(o, b) =~= o);
    }
}

/// The novelty filter splits over appending.
proof fn lemma_novel_append(
    o1: Seq<(Seq<char>, SpecValue)>,
    o2: Seq<(Seq<char>, SpecValue)>,
    b: Seq<(Seq<char>, SpecValue)>,
)
    ensures
        novel_entries(o1 + o2, b) == novel_entries(o1, b) + novel_entries(o2, b),
    decreases o1.len(),
{
    if o1.len() == 0 {
        assert(o1 + o2 =~= o2);
        assert(novel_entries(o1, b) + novel_entries(o2, b) =~= novel_entries(o2, b));
    } else {
        assert((o1 + o2)[0] == o1[0]);
        assert((o1 + o2).skip(1) =~= o1.skip(1) + o2);
        lemma_novel_append(o1.skip(1), o2, b);
        if lookup(b, o1[0].0) is None {
            assert(seq![o1[0]] + (novel_entries(o1.skip(1), b) + novel_entries(o2, b)) =~= (seq![
                o1[0],
            ] + novel_entries(o1.skip(1), b)) + novel_entries(o2, b));
        }
    }
}

/// For a key absent from the base, the novelty filter does not change what a
/// lookup finds in the overlay.
proof fn lemma_lookup_novel(
    o: Seq<(Seq<char>, SpecValue)>,
    b: Seq<(Seq<char>, SpecValue)>,
    k: Seq<char>,
)
    requires
        !has_key(b, k),
    ensures
        lookup(novel_entries(o, b), k) == lookup(o, k),
    decreases o.len(),
{
    if o.len() > 0 {
        lemma_lookup_novel(o.skip(1), b, k);
        let rest = novel_entries(o.skip(1), b);
        if lookup(b, o[0].0) is None {
            assert((seq![o[0]] + rest)[0] == o[0]);
            assert((seq![o[0]] + rest).skip(1) =~= rest);
        } else {
            assert(o[0].0 != k);
        }
    }
}

/// Merging a well-formed tree with itself changes nothing.
proof fn lemma_merge_self(v: SpecValue)
    requires
        wf(v),
    ensures
        spec_merge(v, v) == v,
    decreases v,
{
    if v is Obj {
        let es = v->Obj_0;
        assert forall|i: int| 0 <= i < es.len() implies lookup(es, (#[trigger] es[i]).0) == Some(
            es[i].1,
        ) && spec_merge(es[i].1, es[i].1) == es[i].1 by {
            lemma_lookup_at(es, i);
            lemma_merge_self(es[i].1);
        }
        lemma_novel_none(es, es);
        assert(spec_merge(v, v)->Obj_0 =~= es);
        assert(spec_merge(v, v) =~~= v);
    }
}

/// A value found among well-formed entry values is itself well-formed.
proof fn lemma_lookup_wf(es: Seq<(Seq<char>, SpecValue)>, k: Seq<char>)
    requires
        lookup(es, k) is Some,
        forall|i: int| 0 <= i < es.len() ==> wf((#[trigger] es[i]).1),
    ensures
        wf(lookup(es, k)->Some_0),
{
    lemma_lookup_witness(es, k);
}

/// Merging a well-formed base twice absorbs: re-merging the merge result
/// over the same base changes nothing.
proof fn lemma_merge_absorb(b: SpecValue, o: SpecValue)
    requires
        wf(b),
        wf(o),
    ensures
        spec_merge(b, spec_merge(b, o)) == spec_merge(b, o),
    decreases b,
{
    let m = spec_merge(b, o);
    if b is Obj && o is Obj {
        let bs = b->Obj_0;
        let os = o->Obj_0;
        let first = Seq::new(
            bs.len(),
            |i: int|
                if 0 <= i < bs.len() {
                    match lookup(os, bs[i].0) {
                        Some(ov) => (bs[i].0, spec_merge(bs[i].1, ov)),
                        None => bs[i],
                    }
                } else {
                    bs[i]
                },
        );
        let nov = novel_entries(os, bs);
        let ms = first + nov;
        assert(m->Obj_0 =~= ms);
        assert(m =~~= SpecValue::Obj(ms));
        assert(forall|i: int| 0 <= i < first.len() ==> (#[trigger] first[i]).0 == bs[i].0);
        assert forall|i: int| 0 <= i < bs.len() implies lookup(ms, (#[trigger] bs[i]).0) == Some(
            first[i].1,
        ) by {
            lemma_lookup_at(first, i);
            lemma_lookup_append(first, nov, bs[i].0);
        }
        assert forall|i: int| 0 <= i < bs.len() implies (match lookup(ms, (#[trigger] bs[i]).0) {
            Some(mv) => (bs[i].0, spec_merge(bs[i].1, mv)),
            None => bs[i],
        }) == first[i] by {
            match lookup(os, bs[i].0) {
                Some(ov) => {
                    lemma_lookup_wf(os, bs[i].0);
                    lemma_merge_absorb(bs[i].1, ov);
                },
                None => {
                    lemma_merge_self(bs[i].1);
                },
            }
        }
        assert forall|i: int| 0 <= i < first.len() implies has_key(
            bs,
            (#[trigger] first[i]).0,
        ) by {
            lemma_lookup_at(bs, i);
        }
        lemma_novel_append(first, nov, bs);
        lemma_novel_none(first, bs);
        lemma_novel_elems(os, bs);
        lemma_novel_all(nov, bs);
        assert(novel_entries(ms, bs) =~= nov);
        assert(spec_merge(b, m)->Obj_0 =~= ms);
        assert(spec_merge(b, m) =~~= m);
    }
}

/// The default configuration section is a well-formed object.
proof fn lemma_default_section_wf()
    ensures
        wf(SpecValue::Obj(spec_default_section())),
{
    reveal_strlit("lookupFiles");
    reveal_strlit("blacklistFolders");
    let es = spec_default_section();
    assert("lookupFiles"@.len() == 11);
    assert("blacklistFolders"@.len() == 16);
    assert(es[0].0 == "lookupFiles"@);
    assert(es[1].0 == "blacklistFolders"@);
    assert(es[0].0 != es[1].0);
    let lf = spec_default_lookup_files();
    let bl = spec_default_blacklist_folders();
    assert(forall|i: int| 0 <= i < lf.len() ==> wf(#[trigger] lf[i]));
    assert(forall|i: int| 0 <= i < bl.len() ==> wf(#[trigger] bl[i]));
    assert(wf(es[0].1));
    assert(wf(es[1].1));
}

/// LAW — resolution is idempotent.  Feeding a resolved configuration back
/// through the resolver as a new overlay returns it unchanged, for every
/// well-formed overlay.
pub proof fn lemma_resolve_idempotent(overlay: SpecValue)
    requires
        wf(overlay),
    ensures
        spec_resolve(Some(spec_resolve(Some(overlay)))) == spec_resolve(Some(overlay)),
{
    let d = SpecValue::Obj(spec_default_section());
    lemma_default_section_wf();
    let r1 = spec_resolve(Some(overlay));
    let inner = match spec_section(Some(overlay)) {
        Some(section) => spec_merge(d, section),
        None => d,
    };
    assert(r1->Obj_0 == seq![(css_variables_key(), inner)]);
    assert(spec_section(Some(r1)) == Some(inner));
    match spec_section(Some(overlay)) {
        Some(section) => {
            lemma_lookup_wf(overlay->Obj_0, css_variables_key());
            lemma_merge_absorb(d, section);
        },
        None => {
            lemma_merge_self(d);
        },
    }
}

/// LAW — the overlay's section fully wins.  When the overlay carries both
/// glob fields under `cssVariables`, the resolved section maps every key
/// exactly as the overlay's section does: no default mixes in at any key.
/// (Entry order may differ: the two known fields come first in the resolved
/// section, whatever their position in the overlay.)
pub proof fn lemma_overlay_section_wins(overlay: SpecValue)
    requires
        spec_section(Some(overlay)) matches Some(s) && s is Obj,
        has_key(spec_section(Some(overlay))->Some_0->Obj_0, lookup_files_key()),
        has_key(spec_section(Some(overlay))->Some_0->Obj_0, blacklist_folders_key()),
    ensures
        spec_section(Some(spec_resolve(Some(overlay)))) matches Some(m) && m is Obj && (forall|
            k: Seq<char>,
        |
            lookup(m->Obj_0, k) == lookup(spec_section(Some(overlay))->Some_0->Obj_0, k)),
{
    reveal_strlit("lookupFiles");
    reveal_strlit("blacklistFolders");
    let d = spec_default_section();
    let c = spec_section(Some(overlay))->Some_0->Obj_0;
    let inner = spec_merge(SpecValue::Obj(d), SpecValue::Obj(c));
    let r1 = spec_resolve(Some(overlay));
    assert(r1->Obj_0 == seq![(css_variables_key(), inner)]);
    assert(spec_section(Some(r1)) == Some(inner));
    let nov = novel_entries(c, d);
    let ms = inner->Obj_0;
    assert(d[0].0 == lookup_files_key() && d[1].0 == blacklist_folders_key());
    assert(lookup_files_key() != blacklist_folders_key());
    let lfv = lookup(c, lookup_files_key())->Some_0;
    let bfv = lookup(c, blacklist_folders_key())->Some_0;
    assert(spec_merge(d[0].1, lfv) == lfv);
    assert(spec_merge(d[1].1, bfv) == bfv);
    assert(ms.len() == 2 + nov.len());
    assert(ms[0] == (lookup_files_key(), lfv));
    assert(ms[1] == (blacklist_folders_key(), bfv));
    assert(ms.skip(2) =~= nov);
    assert forall|k: Seq<char>| lookup(ms, k) == lookup(c, k) by {
        reveal_with_fuel(lookup, 3);
        assert(ms.skip(1)[0] == ms[1]);
        assert(ms.skip(1).skip(1) =~= ms.skip(2));
        if k == lookup_files_key() {
            assert(lookup(ms, k) == Some(lfv));
        } else if k == blacklist_folders_key() {
            assert(lookup(ms, k) == Some(bfv));
        } else {
            assert(lookup(ms, k) == lookup(nov, k));
            assert(!has_key(d, k)) by {
                if has_key(d, k) {
                    lemma_lookup_witness(d, k);
                }
            }
            lemma_lookup_novel(c, d, k);
        }
    }
}

/// LAW — the overlay's section wins verbatim.  When the overlay's section
/// has pairwise distinct keys and lists `lookupFiles` first and
/// `blacklistFolders` second, the resolved section is that section, entry
/// for entry.  (In any other entry order the resolved section still maps
/// every key the same way — see [`lemma_overlay_section_wins`] — but lists
/// the two known fields first.)
pub proof fn lemma_canonical_section_preserved(overlay: SpecValue)
    requires
        spec_section(Some(overlay)) matches Some(s) && s matches SpecValue::Obj(c) && c.len() >= 2
            && c[0].0 == lookup_files_key() && c[1].0 == blacklist_folders_key() && (forall|
            p: int,
            q: int,
        | 0 <= p < q < c.len() ==> (#[trigger] c[p]).0 != (#[trigger] c[q]).0),
    ensures
        spec_section(Some(spec_resolve(Some(overlay)))) == spec_section(Some(overlay)),
{
    reveal_strlit("lookupFiles");
    reveal_strlit("blacklistFolders");
    let d = spec_default_section();
    let c = spec_section(Some(overlay))->Some_0->Obj_0;
    let inner = spec_merge(SpecValue::Obj(d), SpecValue::Obj(c));
    let r1 = spec_resolve(Some(overlay));
    assert(r1->Obj_0 == seq![(css_variables_key(), inner)]);
    assert(spec_section(Some(r1)) == Some(inner));
    assert(d[0].0 == lookup_files_key() && d[1].0 == blacklist_folders_key());
    assert(lookup_files_key() != blacklist_folders_key());
    assert(lookup(c, lookup_files_key()) == Some(c[0].1));
    assert(lookup(c, blacklist_folders_key()) == Some(c[1].1)) by {
        reveal_with_fuel(lookup, 3);
        assert(c.skip(1)[0] == c[1]);
    }
    assert forall|i: int| 0 <= i < c.skip(2).len() implies !has_key(
        d,
        (#[trigger] c.skip(2)[i]).0,
    ) by {
        assert(c.skip(2)[i] == c[i + 2]);
        if has_key(d, c[i + 2].0) {
            lemma_lookup_witness(d, c[i + 2].0);
        }
    }
    lemma_novel_all(c.skip(2), d);
    let nov = novel_entries(c, d);
    assert(nov == novel_entries(c.skip(2), d)) by {
        reveal_with_fuel(novel_entries, 3);
        reveal_with_fuel(lookup, 3);
        assert(lookup(d, c[0].0) == Some(d[0].1));
        assert(d.skip(1)[0] == d[1]);
        assert(lookup(d, c[1].0) == Some(d[1].1));
        assert(c.skip(1)[0] == c[1]);
        assert(c.skip(1).skip(1) =~= c.skip(2));
    }
    let ms = inner->Obj_0;
    assert(spec_merge(d[0].1, c[0].1) == c[0].1);
    assert(spec_merge(d[1].1, c[1].1) == c[1].1);
    assert(ms[0] == c[0]);
    assert(ms[1] == c[1]);
    assert(ms =~= c);
    assert(inner =~~= SpecValue::Obj(c));
}

/// LAW — a field missing under `cssVariables` falls back to its default:
/// without `blacklistFolders` in the overlay's section, the resolved
/// section carries exactly the default blacklist literal at that key.
pub proof fn lemma_absent_blacklist_defaults(overlay: SpecValue)
    requires
        spec_section(Some(overlay)) matches Some(s) && s is Obj,
        !has_key(spec_section(Some(overlay))->Some_0->Obj_0, blacklist_folders_key()),
    ensures
        spec_section(Some(spec_resolve(Some(overlay)))) matches Some(m) && m is Obj && lookup(
            m->Obj_0,
            blacklist_folders_key(),
        ) == Some(SpecValue::Arr(spec_default_blacklist_folders())),
{
    reveal_strlit("lookupFiles");
    reveal_strlit("blacklistFolders");
    let d = spec_default_section();
    let c = spec_section(Some(overlay))->Some_0->Obj_0;
    let inner = spec_merge(SpecValue::Obj(d), SpecValue::Obj(c));
    let r1 = spec_resolve(Some(overlay));
    assert(r1->Obj_0 == seq![(css_variables_key(), inner)]);
    assert(spec_section(Some(r1)) == Some(inner));
    let ms = inner->Obj_0;
    assert(ms[0].0 == lookup_files_key());
    assert(ms[1] == (blacklist_folders_key(), d[1].1));
    assert(lookup_files_key() != blacklist_folders_key());
    assert(ms.skip(1)[0] == ms[1]);
    assert(lookup(ms, blacklist_folders_key()) == Some(d[1].1)) by {
        reveal_with_fuel(lookup, 3);
    }
}

/// LAW — a field missing under `cssVariables` falls back to its default:
/// without `lookupFiles` in the overlay's section, the resolved section
/// carries exactly the default lookup-glob literal at that key.
pub proof fn lemma_absent_lookup_files_defaults(overlay: SpecValue)
    requires
        spec_section(Some(overlay)) matches Some(s) && s is Obj,
        !has_key(spec_section(Some(overlay))->Some_0->Obj_0, lookup_files_key()),
    ensures
        spec_section(Some(spec_resolve(Some(overlay)))) matches Some(m) && m is Obj && lookup(
            m->Obj_0,
            lookup_files_key(),
        ) == Some(SpecValue::Arr(spec_default_lookup_files())),
{
    let d = spec_default_section();
    let c = spec_section(Some(overlay))->Some_0->Obj_0;
    let inner = spec_merge(SpecValue::Obj(d), SpecValue::Obj(c));
    let r1 = spec_resolve(Some(overlay));
    assert(r1->Obj_0 == seq![(css_variables_key(), inner)]);
    assert(spec_section(Some(r1)) == Some(inner));
    let ms = inner->Obj_0;
    assert(ms[0] == (lookup_files_key(), d[0].1));
    assert(lookup(ms, lookup_files_key()) == Some(d[0].1));
}

/// LAW — strict wrapping.  An overlay without the top-level `cssVariables`
/// key — in particular one carrying `lookupFiles` or `blacklistFolders`
/// directly at its root — is ignored entirely: resolution returns exactly
/// the wrapped default configuration.
pub proof fn lemma_unwrapped_overlay_ignored(es: Seq<(Seq<char>, SpecValue)>)
    requires
        !has_key(es, css_variables_key()),
    ensures
        spec_resolve(Some(SpecValue::Obj(es))) == spec_default_config(),
{
}

} // verus!
