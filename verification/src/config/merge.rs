//! Layering configuration files: a later file's tables merge into the
//! earlier ones key by key; any other value replaces what was there.

use vstd::prelude::*;

use crate::chars::{chars_eq, str_to_chars};

verus! {

#[verifier::external_type_specification]
#[verifier::external_body]
pub struct ExTomlValue(toml::Value);

/// A configuration value: a table of named values, or any other TOML
/// value (carried as it is).
#[derive(Debug)]
pub enum ConfigValue {
    Table(Vec<(String, ConfigValue)>),
    Leaf(toml::Value),
}

/// A configuration value as plain values.
pub enum ConfigModel {
    Table(Seq<(Seq<char>, ConfigModel)>),
    Leaf(toml::Value),
}

pub open spec fn model(v: ConfigValue) -> ConfigModel
    decreases v,
{
    match v {
        ConfigValue::Table(entries) => ConfigModel::Table(entries_model(entries@)),
        ConfigValue::Leaf(x) => ConfigModel::Leaf(x),
    }
}

pub open spec fn entries_model(es: Seq<(String, ConfigValue)>) -> Seq<(Seq<char>, ConfigModel)>
    decreases es,
{
    if es.len() == 0 {
        Seq::empty()
    } else {
        entries_model(es.drop_last()).push((es.last().0@, model(es.last().1)))
    }
}

/// Index of the first entry named `key`.
pub open spec fn key_index(es: Seq<(Seq<char>, ConfigModel)>, key: Seq<char>) -> Option<int>
    decreases es.len(),
{
    if es.len() == 0 {
        None
    } else {
        match key_index(es.drop_last(), key) {
            Some(i) => Some(i),
            None => if es.last().0 == key { Some(es.len() - 1) } else { None },
        }
    }
}

/// `overlay` merged into `base`: two tables merge entry by entry; any other
/// overlay replaces the base.
pub open spec fn merged(base: ConfigModel, overlay: ConfigModel) -> ConfigModel
    decreases overlay,
{
    match overlay {
        ConfigModel::Table(o) => match base {
            ConfigModel::Table(b) => ConfigModel::Table(merge_entries(b, o)),
            ConfigModel::Leaf(_) => overlay,
        },
        ConfigModel::Leaf(_) => overlay,
    }
}

/// The entries of `o`, in order, merged into `b`: an entry whose key `b`
/// has merges into that entry; a new key is appended.
pub open spec fn merge_entries(b: Seq<(Seq<char>, ConfigModel)>, o: Seq<(Seq<char>, ConfigModel)>) -> Seq<
    (Seq<char>, ConfigModel),
>
    decreases o,
{
    if o.len() == 0 {
        b
    } else {
        let acc = merge_entries(b, o.drop_last());
        let (k, v) = o.last();
        match key_index(acc, k) {
            Some(i) => acc.update(i, (k, merged(acc[i].1, v))),
            None => acc.push((k, v)),
        }
    }
}


pub proof fn lemma_entries_model(es: Seq<(String, ConfigValue)>)
    ensures
        entries_model(es).len() == es.len(),
        forall|j: int| 0 <= j < es.len() ==> #[trigger] entries_model(es)[j] == (es[j].0@, model(es[j].1)),
    decreases es.len(),
{
    if es.len() > 0 {
        lemma_entries_model(es.drop_last());
        assert forall|j: int| 0 <= j < es.len() implies #[trigger] entries_model(es)[j] == (es[j].0@, model(es[j].1)) by {
            if j < es.len() - 1 {
                assert(es.drop_last()[j] == es[j]);
            }
        }
    }
}

proof fn lemma_key_index_first(es: Seq<(Seq<char>, ConfigModel)>, key: Seq<char>, i: int)
    requires
        0 <= i < es.len(),
        es[i].0 == key,
        forall|j: int| 0 <= j < i ==> #[trigger] es[j].0 != key,
    ensures
        key_index(es, key) == Some(i),
    decreases es.len(),
{
    if i < es.len() - 1 {
        lemma_key_index_first(es.drop_last(), key, i);
    } else {
        lemma_key_index_none(es.drop_last(), key);
    }
}

proof fn lemma_key_index_found(es: Seq<(Seq<char>, ConfigModel)>, key: Seq<char>)
    ensures
        key_index(es, key) matches Some(i) ==> 0 <= i < es.len() && es[i].0 == key,
    decreases es.len(),
{
    if es.len() > 0 {
        lemma_key_index_found(es.drop_last(), key);
    }
}

proof fn lemma_key_index_none(es: Seq<(Seq<char>, ConfigModel)>, key: Seq<char>)
    requires
        forall|j: int| 0 <= j < es.len() ==> #[trigger] es[j].0 != key,
    ensures
        key_index(es, key) is None,
    decreases es.len(),
{
    if es.len() > 0 {
        lemma_key_index_none(es.drop_last(), key);
    }
}

fn key_position(entries: &Vec<(String, ConfigValue)>, key: &String) -> (r: Option<usize>)
    ensures
        match r {
            Some(i) => i < entries@.len() && key_index(entries_model(entries@), key@) == Some(i as int),
            None => key_index(entries_model(entries@), key@) is None,
        },
{
    proof {
        lemma_entries_model(entries@);
    }
    let k = str_to_chars(key.as_str());
    let mut i: usize = 0;
    while i < entries.len()
        invariant
            i <= entries@.len(),
            k@ == key@,
            entries_model(entries@).len() == entries@.len(),
            forall|j: int| 0 <= j < entries@.len() ==> #[trigger] entries_model(entries@)[j] == (
                entries@[j].0@,
                model(entries@[j].1),
            ),
            forall|j: int| 0 <= j < i ==> #[trigger] entries_model(entries@)[j].0 != key@,
        decreases entries.len() - i,
    {
        let name = str_to_chars(entries[i].0.as_str());
        if chars_eq(&name, &k) {
            proof {
                lemma_key_index_first(entries_model(entries@), key@, i as int);
            }
            return Some(i);
        }
        assert(entries_model(entries@)[i as int].0 != key@);
        i = i + 1;
    }
    proof {
        lemma_key_index_none(entries_model(entries@), key@);
    }
    None
}

/// Merges `overlay` into `base`: where both are tables, each entry of the
/// overlay merges into the base's entry of that key, or is added; any
/// other overlay replaces the base.
pub fn merge_value(base: &mut ConfigValue, overlay: ConfigValue)
    ensures
        model(*final(base)) == merged(model(*old(base)), model(overlay)),
    decreases overlay,
{
    let ghost overlay_model = model(overlay);
    match overlay {
        ConfigValue::Leaf(x) => {
            *base = ConfigValue::Leaf(x);
        },
        ConfigValue::Table(o) => {
            let is_table = match base {
                ConfigValue::Table(_) => true,
                ConfigValue::Leaf(_) => false,
            };
            if !is_table {
                *base = ConfigValue::Table(o);
                return;
            }
            let ghost base_model = model(*base);
            let mut taken = ConfigValue::Table(Vec::new());
            std::mem::swap(base, &mut taken);
            let mut entries = match taken {
                ConfigValue::Table(b) => b,
                ConfigValue::Leaf(_) => Vec::new(),
            };
            let ghost b_model = entries_model(entries@);
            assert(base_model == ConfigModel::Table(b_model));
            let ghost orig = o@;
            let ghost om = entries_model(orig);
            proof {
                lemma_entries_model(orig);
                assert(overlay_model == ConfigModel::Table(om));
                assert(om.take(0) =~= Seq::<(Seq<char>, ConfigModel)>::empty());
            }
            let n = o.len();
            let mut rest = o;
            let mut i: usize = 0;
            while rest.len() > 0
                invariant
                    i <= orig.len(),
                    orig.len() == n,
                    rest@ == orig.skip(i as int),
                    om == entries_model(orig),
                    om.len() == orig.len(),
                    forall|j: int| 0 <= j < orig.len() ==> #[trigger] om[j] == (orig[j].0@, model(orig[j].1)),
                    entries_model(entries@) == merge_entries(b_model, om.take(i as int)),
                    decreases_to!(overlay => orig),
                decreases rest.len(),
            {
                let (k, v) = rest.remove(0);
                assert(orig[i as int] == (k, v));
                assert(rest@ =~= orig.skip(i + 1));
                proof {
                    lemma_entries_model(entries@);
                    assert(om.take(i + 1).drop_last() =~= om.take(i as int));
                    assert(om.take(i + 1).last() == (k@, model(v)));
                }
                match key_position(&entries, &k) {
                    Some(p) => {
                        let ghost before = entries_model(entries@);
                        proof {
                            lemma_key_index_found(before, k@);
                        }
                        let (ek, mut ev) = entries.remove(p);
                        assert(before[p as int] == (ek@, model(ev)));
                        assert(decreases_to!(overlay => v)) by {
                            assert(decreases_to!(orig => orig[i as int]));
                            assert(decreases_to!(orig[i as int] => orig[i as int].1));
                        }
                        merge_value(&mut ev, v);
                        entries.insert(p, (ek, ev));
                        proof {
                            lemma_entries_model(entries@);
                        }
                        assert(entries_model(entries@) =~= before.update(p as int, (k@, merged(before[p as int].1, model(v)))));
                    },
                    None => {
                        let ghost before = entries_model(entries@);
                        entries.push((k, v));
                        proof {
                            lemma_entries_model(entries@);
                        }
                        assert(entries_model(entries@) =~= before.push((k@, model(v))));
                    },
                }
                i = i + 1;
            }
            assert(om.take(i as int) =~= om);
            *base = ConfigValue::Table(entries);
        },
    }
}


/// No two entries share a key, as in a TOML table.
pub open spec fn unique_keys(es: Seq<(Seq<char>, ConfigModel)>) -> bool {
    forall|i: int, j: int| 0 <= i < j < es.len() ==> #[trigger] es[i].0 != #[trigger] es[j].0
}

proof fn lemma_key_index_same_keys(s: Seq<(Seq<char>, ConfigModel)>, t: Seq<(Seq<char>, ConfigModel)>, key: Seq<char>)
    requires
        s.len() == t.len(),
        forall|j: int| 0 <= j < s.len() ==> #[trigger] s[j].0 == t[j].0,
    ensures
        key_index(s, key) == key_index(t, key),
    decreases s.len(),
{
    if s.len() > 0 {
        lemma_key_index_same_keys(s.drop_last(), t.drop_last(), key);
    }
}

proof fn lemma_key_index_push(s: Seq<(Seq<char>, ConfigModel)>, e: (Seq<char>, ConfigModel), key: Seq<char>)
    ensures
        key_index(s.push(e), key) == match key_index(s, key) {
            Some(i) => Some(i),
            None => if e.0 == key { Some(s.len() as int) } else { None },
        },
{
    assert(s.push(e).drop_last() =~= s);
}

/// Merging keeps every base value whose key the overlay lacks, adds every
/// overlay value whose key the base lacks, and merges the two values of a
/// key both have (an overlay value that is no table replaces the base's).
pub proof fn lemma_merge_entries_lookup(b: Seq<(Seq<char>, ConfigModel)>, o: Seq<(Seq<char>, ConfigModel)>, key: Seq<char>)
    requires
        unique_keys(o),
    ensures
        ({
            let r = merge_entries(b, o);
            match key_index(o, key) {
                None => key_index(r, key) == key_index(b, key) && (key_index(b, key) matches Some(i) ==> r[i]
                    == b[i]),
                Some(j) => match key_index(b, key) {
                    Some(i) => key_index(r, key) == Some(i) && r[i] == (key, merged(b[i].1, o[j].1)),
                    None => key_index(r, key) matches Some(p) && r[p] == o[j],
                },
            }
        }),
    decreases o.len(),
{
    if o.len() > 0 {
        let o2 = o.drop_last();
        assert(unique_keys(o2)) by {
            assert forall|i: int, j: int| 0 <= i < j < o2.len() implies #[trigger] o2[i].0 != #[trigger] o2[j].0 by {
                assert(o2[i] == o[i] && o2[j] == o[j]);
            }
        }
        lemma_merge_entries_lookup(b, o2, key);
        lemma_key_index_found(b, key);
        lemma_key_index_found(o, key);
        lemma_key_index_found(o2, key);
        let acc = merge_entries(b, o2);
        lemma_key_index_found(acc, key);
        let (k2, v2) = o.last();
        lemma_key_index_found(acc, k2);
        let r = merge_entries(b, o);
        assert(o.drop_last() == o2);
        match key_index(acc, k2) {
            Some(p) => {
                assert(r == acc.update(p, (k2, merged(acc[p].1, v2))));
                lemma_key_index_same_keys(r, acc, key);
            },
            None => {
                assert(r == acc.push((k2, v2)));
                lemma_key_index_push(acc, (k2, v2), key);
            },
        }
        if k2 == key {
            assert(key_index(o2, key) is None) by {
                if key_index(o2, key) is Some {
                    let j = key_index(o2, key)->0;
                    assert(o[j].0 == o[o.len() - 1].0);
                }
            }
            assert(key_index(o, key) == Some(o.len() - 1));
        } else {
            assert(key_index(o, key) == key_index(o2, key));
            lemma_key_index_found(o2, key);
            if key_index(o2, key) is Some {
                let j = key_index(o2, key)->0;
                assert(o[j] == o2[j]);
            }
        }
    }
}

} // verus!
