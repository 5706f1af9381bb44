//! The configuration value model: a JSON-like tree of scalars, arrays and
//! objects, together with its mathematical view.

use vstd::prelude::*;

verus! {

/// Mathematical model of a configuration tree: a scalar, an ordered sequence
/// of values, or an ordered list of key/value entries.
///
/// Objects are ordered mappings; well-formed objects have pairwise distinct
/// keys (see [`wf`]).  Numeric scalars are modeled as unbounded integers.
#[verifier::ext_equal]
pub enum SpecValue {
    Null,
    Bool(bool),
    Int(int),
    Str(Seq<char>),
    Arr(Seq<SpecValue>),
    Obj(Seq<(Seq<char>, SpecValue)>),
}

/// First-match lookup of a key among object entries.
pub open spec fn lookup(entries: Seq<(Seq<char>, SpecValue)>, key: Seq<char>) -> Option<SpecValue>
    decreases entries.len(),
{
    if entries.len() == 0 {
        None
    } else if entries[0].0 == key {
        Some(entries[0].1)
    } else {
        lookup(entries.skip(1), key)
    }
}

/// Whether some entry carries the key.
pub open spec fn has_key(entries: Seq<(Seq<char>, SpecValue)>, key: Seq<char>) -> bool {
    lookup(entries, key) is Some
}

/// Well-formedness: every object in the tree has pairwise distinct keys.
pub open spec fn wf(v: SpecValue) -> bool
    decreases v,
{
    match v {
        SpecValue::Arr(items) => forall|i: int|
            0 <= i < items.len() ==> wf(#[trigger] items[i]),
        SpecValue::Obj(entries) => {
            &&& forall|i: int, j: int|
                0 <= i < j < entries.len() ==> (#[trigger] entries[i].0) != (#[trigger] entries[j].0)
            &&& forall|i: int| 0 <= i < entries.len() ==> wf((#[trigger] entries[i]).1)
        },
        _ => true,
    }
}

/// Executable configuration tree, the runtime counterpart of [`SpecValue`].
///
/// Objects are ordered key/value lists; arrays keep their element order.
#[derive(Debug, PartialEq)]
pub enum ConfigValue {
    Null,
    Bool(bool),
    Int(i64),
    Str(String),
    Arr(Vec<ConfigValue>),
    Obj(Vec<(String, ConfigValue)>),
}

impl View for ConfigValue {
    type V = SpecValue;

    open spec fn view(&self) -> SpecValue
        decreases self,
    {
        match self {
            ConfigValue::Null => SpecValue::Null,
            ConfigValue::Bool(b) => SpecValue::Bool(*b),
            ConfigValue::Int(n) => SpecValue::Int(*n as int),
            ConfigValue::Str(s) => SpecValue::Str(s@),
            ConfigValue::Arr(items) => SpecValue::Arr(
                Seq::new(items@.len(), |i: int|
                    if 0 <= i < items@.len() {
                        items@[i].view()
                    } else {
                        SpecValue::Null
                    }
                ),
            ),
            ConfigValue::Obj(entries) => SpecValue::Obj(
                Seq::new(entries@.len(), |i: int|
                    (entries@[i].0@, if 0 <= i < entries@.len() {
                        entries@[i].1.view()
                    } else {
                        SpecValue::Null
                    })
                ),
            ),
        }
    }
}

/// View of a list of executable object entries as spec-level entries.
pub open spec fn entries_view(es: Seq<(String, ConfigValue)>) -> Seq<(Seq<char>, SpecValue)> {
    Seq::new(es.len(), |i: int| (es[i].0@, es[i].1@))
}

/// View of a list of executable array items as spec-level values.
pub open spec fn items_view(items: Seq<ConfigValue>) -> Seq<SpecValue> {
    Seq::new(items.len(), |i: int| items[i]@)
}

/// An object's view is the object of its entries' views.
pub proof fn lemma_obj_view(entries: Vec<(String, ConfigValue)>)
    ensures
        (ConfigValue::Obj(entries))@ == SpecValue::Obj(entries_view(entries@)),
{
    assert((ConfigValue::Obj(entries))@->Obj_0 =~= entries_view(entries@));
    assert((ConfigValue::Obj(entries))@ =~~= SpecValue::Obj(entries_view(entries@)));
}

/// An array's view is the array of its items' views.
pub proof fn lemma_arr_view(items: Vec<ConfigValue>)
    ensures
        (ConfigValue::Arr(items))@ == SpecValue::Arr(items_view(items@)),
{
    assert((ConfigValue::Arr(items))@->Arr_0 =~= items_view(items@));
    assert((ConfigValue::Arr(items))@ =~~= SpecValue::Arr(items_view(items@)));
}

impl ConfigValue {
    /// Structural deep copy.
    #[verifier::loop_isolation(false)]
    pub fn duplicate(&self) -> (r: ConfigValue)
        ensures
            r@ == self@,
        decreases self,
    {
        match self {
            ConfigValue::Null => ConfigValue::Null,
            ConfigValue::Bool(b) => ConfigValue::Bool(*b),
            ConfigValue::Int(n) => ConfigValue::Int(*n),
            ConfigValue::Str(s) => ConfigValue::Str(s.clone()),
            ConfigValue::Arr(items) => {
                let mut out: Vec<ConfigValue> = Vec::new();
                let mut i: usize = 0;
                while i < items.len()
                    invariant
                        i <= items.len(),
                        out@.len() == i as int,
                        forall|j: int| 0 <= j < i ==> out@[j]@ == items@[j]@,
                    decreases items.len() - i,
                {
                    let d = items[i].duplicate();
                    out.push(d);
                    i = i + 1;
                }
                let r = ConfigValue::Arr(out);
                proof {
                    assert(r@->Arr_0 =~= self@->Arr_0);
                    assert(r@ =~~= self@);
                }
                r
            },
            ConfigValue::Obj(entries) => {
                let mut out: Vec<(String, ConfigValue)> = Vec::new();
                let mut i: usize = 0;
                while i < entries.len()
                    invariant
                        i <= entries.len(),
                        out@.len() == i as int,
                        forall|j: int| 0 <= j < i ==> (#[trigger] out@[j]).0@ == entries@[j].0@
                            && out@[j].1@ == entries@[j].1@,
                    decreases entries.len() - i,
                {
                    let e = &entries[i];
                    let d = e.1.duplicate();
                    out.push((e.0.clone(), d));
                    i = i + 1;
                }
                let r = ConfigValue::Obj(out);
                proof {
                    assert(r@->Obj_0 =~= self@->Obj_0);
                    assert(r@ =~~= self@);
                }
                r
            },
        }
    }
}

/// First-match lookup of a key in an executable entry list.
///
/// Returns a reference to the value of the first entry whose key equals
/// `key`, as [`lookup`] describes.
#[verifier::loop_isolation(false)]
pub fn obj_get<'a>(entries: &'a Vec<(String, ConfigValue)>, key: &String) -> (r: Option<
    &'a ConfigValue,
>)
    ensures
        match r {
            Some(v) => lookup(entries_view(entries@), key@) == Some(v@),
            None => lookup(entries_view(entries@), key@) is None,
        },
{
    let ghost es = entries_view(entries@);
    proof {
        assert(es.skip(0) =~= es);
    }
    let mut i: usize = 0;
    while i < entries.len()
        invariant
            i <= entries.len(),
            lookup(es, key@) == lookup(es.skip(i as int), key@),
        decreases entries.len() - i,
    {
        let e = &entries[i];
        if e.0 == *key {
            proof {
                assert(es.skip(i as int)[0] == es[i as int]);
            }
            return Some(&e.1);
        }
        proof {
            assert(es.skip(i as int)[0] == es[i as int]);
            assert(es.skip(i as int).skip(1) =~= es.skip(i as int + 1));
        }
        i = i + 1;
    }
    proof {
        assert(es.skip(i as int).len() == 0);
    }
    None
}

/// Whether an executable entry list carries a key.
pub fn obj_has(entries: &Vec<(String, ConfigValue)>, key: &String) -> (r: bool)
    ensures
        r == has_key(entries_view(entries@), key@),
{
    obj_get(entries, key).is_some()
}

} // verus!
