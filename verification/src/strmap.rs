use vstd::prelude::*;

use crate::convert::Converter;
use crate::error::StructMapError;
use crate::value::{FieldValue, VModel, entry_models_of, lemma_entry_models_of};

verus! {

/// The value in force for a key in an association list: the earliest binding
/// wins.
pub open spec fn assoc_lookup<T>(es: Seq<(Seq<char>, T)>, key: Seq<char>) -> Option<T>
    decreases es.len(),
{
    if es.len() == 0 {
        None
    } else if es[0].0 == key {
        Some(es[0].1)
    } else {
        assoc_lookup(es.drop_first(), key)
    }
}

/// The association list with the earliest binding for a key taken out.
pub open spec fn assoc_remove<T>(es: Seq<(Seq<char>, T)>, key: Seq<char>) -> Seq<(Seq<char>, T)>
    decreases es.len(),
{
    if es.len() == 0 {
        Seq::empty()
    } else if es[0].0 == key {
        es.drop_first()
    } else {
        seq![es[0]] + assoc_remove(es.drop_first(), key)
    }
}

/// A scan that finds the first binding of `key` at position `i` agrees with
/// `assoc_lookup`.
pub proof fn lemma_assoc_lookup_at<T>(es: Seq<(Seq<char>, T)>, key: Seq<char>, i: int)
    requires
        0 <= i < es.len(),
        es[i].0 == key,
        forall|j: int| 0 <= j < i ==> es[j].0 != key,
    ensures
        assoc_lookup(es, key) == Some(es[i].1),
    decreases i,
{
    if i > 0 {
        lemma_assoc_lookup_at(es.drop_first(), key, i - 1);
    }
}

/// A scan that finds no binding of `key` agrees with `assoc_lookup`.
pub proof fn lemma_assoc_lookup_none<T>(es: Seq<(Seq<char>, T)>, key: Seq<char>)
    requires
        forall|j: int| 0 <= j < es.len() ==> es[j].0 != key,
    ensures
        assoc_lookup(es, key) is None,
    decreases es.len(),
{
    if es.len() > 0 {
        lemma_assoc_lookup_none(es.drop_first(), key);
    }
}

/// Taking out the first binding of `key`, found at position `i`, removes
/// exactly that entry.
pub proof fn lemma_assoc_remove_at<T>(es: Seq<(Seq<char>, T)>, key: Seq<char>, i: int)
    requires
        0 <= i < es.len(),
        es[i].0 == key,
        forall|j: int| 0 <= j < i ==> es[j].0 != key,
    ensures
        assoc_remove(es, key) == es.subrange(0, i) + es.subrange(i + 1, es.len() as int),
    decreases i,
{
    if i == 0 {
        assert(assoc_remove(es, key) =~= es.subrange(0, 0) + es.subrange(1, es.len() as int));
    } else {
        lemma_assoc_remove_at(es.drop_first(), key, i - 1);
        assert(seq![es[0]] + (es.drop_first().subrange(0, i - 1) + es.drop_first().subrange(
            i,
            es.len() - 1,
        )) =~= es.subrange(0, i) + es.subrange(i + 1, es.len() as int));
    }
}

/// Removing a key that has no binding changes nothing.
pub proof fn lemma_assoc_remove_none<T>(es: Seq<(Seq<char>, T)>, key: Seq<char>)
    requires
        forall|j: int| 0 <= j < es.len() ==> es[j].0 != key,
    ensures
        assoc_remove(es, key) == es,
    decreases es.len(),
{
    if es.len() > 0 {
        lemma_assoc_remove_none(es.drop_first(), key);
        assert(seq![es[0]] + es.drop_first() =~= es);
    }
}

/// Looking up one key is unaffected by removing another.
pub proof fn lemma_assoc_lookup_remove_other<T>(
    es: Seq<(Seq<char>, T)>,
    key: Seq<char>,
    k: Seq<char>,
)
    requires
        k != key,
    ensures
        assoc_lookup(assoc_remove(es, key), k) == assoc_lookup(es, k),
    decreases es.len(),
{
    if es.len() > 0 {
        if es[0].0 == key {
        } else {
            lemma_assoc_lookup_remove_other(es.drop_first(), key, k);
            if es[0].0 == k {
            } else {
                assert((seq![es[0]] + assoc_remove(es.drop_first(), key)).drop_first()
                    =~= assoc_remove(es.drop_first(), key));
            }
        }
    }
}

/// Appending an entry for a different key does not change a lookup.
pub proof fn lemma_assoc_lookup_push<T>(es: Seq<(Seq<char>, T)>, e: (Seq<char>, T), k: Seq<char>)
    requires
        k != e.0,
    ensures
        assoc_lookup(es.push(e), k) == assoc_lookup(es, k),
    decreases es.len(),
{
    if es.len() == 0 {
        assert(es.push(e)[0] == e);
        assert(es.push(e).drop_first() =~= Seq::<(Seq<char>, T)>::empty());
        assert(assoc_lookup(es.push(e), k) is None);
    } else {
        assert(es.push(e)[0] == es[0]);
        assert(es.push(e).drop_first() =~= es.drop_first().push(e));
        lemma_assoc_lookup_push(es.drop_first(), e, k);
    }
}

/// A mapping from string key to values of `T`, held as entries in insertion
/// order. The view is the ordered association list of the entries; the
/// earliest binding for a key is the one in force, and the operations keep
/// keys unique.
#[derive(Debug, PartialEq)]
pub struct StrMap<T> {
    entries: Vec<(String, T)>,
}

impl<T> View for StrMap<T> {
    type V = Seq<(Seq<char>, T)>;

    closed spec fn view(&self) -> Seq<(Seq<char>, T)> {
        Seq::new(self.entries@.len(), |i: int| (self.entries@[i].0@, self.entries@[i].1))
    }
}

impl<T> StrMap<T> {
    /// An empty mapping.
    pub fn new() -> (r: Self)
        ensures
            r@ == Seq::<(Seq<char>, T)>::empty(),
    {
        let r = StrMap { entries: Vec::new() };
        proof {
            assert(r@ =~= Seq::<(Seq<char>, T)>::empty());
        }
        r
    }

    /// The number of entries.
    pub fn len(&self) -> (r: usize)
        ensures
            r == self@.len(),
    {
        self.entries.len()
    }

    /// The position of the first entry for `key`, if any.
    fn index_of(&self, key: &String) -> (r: Option<usize>)
        ensures
            match r {
                Some(i) => i < self@.len() && self@[i as int].0 == key@ && forall|j: int|
                    0 <= j < i ==> self@[j].0 != key@,
                None => forall|j: int| 0 <= j < self@.len() ==> self@[j].0 != key@,
            },
    {
        let mut i: usize = 0;
        while i < self.entries.len()
            invariant
                i <= self@.len(),
                self@.len() == self.entries@.len(),
                forall|j: int| 0 <= j < i ==> self@[j].0 != key@,
                forall|j: int| 0 <= j < self@.len() ==> self@[j].0 == self.entries@[j].0@,
            decreases self.entries@.len() - i,
        {
            if self.entries[i].0 == *key {
                return Some(i);
            }
            i += 1;
        }
        None
    }

    /// Binds `key` to `value`: any earlier binding of `key` is taken out and
    /// the new entry appended.
    pub fn insert(&mut self, key: String, value: T)
        ensures
            final(self)@ == assoc_remove(old(self)@, key@).push((key@, value)),
    {
        let ghost pre = self@;
        match self.index_of(&key) {
            Some(i) => {
                proof {
                    lemma_assoc_remove_at(pre, key@, i as int);
                }
                self.entries.remove(i);
                proof {
                    assert(self@ =~= pre.subrange(0, i as int) + pre.subrange(
                        i as int + 1,
                        pre.len() as int,
                    ));
                }
            },
            None => {
                proof {
                    lemma_assoc_remove_none(pre, key@);
                }
            },
        }
        let ghost mid = self@;
        self.entries.push((key, value));
        proof {
            assert(self@ =~= mid.push((key@, value)));
        }
    }

    /// Takes out and returns the value bound to `key`, if any.
    pub fn remove(&mut self, key: &String) -> (r: Option<T>)
        ensures
            final(self)@ == assoc_remove(old(self)@, key@),
            r == assoc_lookup(old(self)@, key@),
    {
        let ghost pre = self@;
        match self.index_of(key) {
            Some(i) => {
                proof {
                    lemma_assoc_lookup_at(pre, key@, i as int);
                    lemma_assoc_remove_at(pre, key@, i as int);
                }
                let (_, v) = self.entries.remove(i);
                proof {
                    assert(self@ =~= pre.subrange(0, i as int) + pre.subrange(
                        i as int + 1,
                        pre.len() as int,
                    ));
                }
                Some(v)
            },
            None => {
                proof {
                    lemma_assoc_lookup_none(pre, key@);
                    lemma_assoc_remove_none(pre, key@);
                }
                None
            },
        }
    }

    /// The value bound to `key`, if any, without taking it out.
    pub fn get(&self, key: &String) -> (r: Option<&T>)
        ensures
            match r {
                Some(v) => assoc_lookup(self@, key@) == Some(*v),
                None => assoc_lookup(self@, key@) is None,
            },
    {
        match self.index_of(key) {
            Some(i) => {
                proof {
                    lemma_assoc_lookup_at(self@, key@, i as int);
                }
                Some(&self.entries[i].1)
            },
            None => {
                proof {
                    lemma_assoc_lookup_none(self@, key@);
                }
                None
            },
        }
    }

    /// Whether `key` has a binding.
    pub fn contains_key(&self, key: &String) -> (r: bool)
        ensures
            r == (assoc_lookup(self@, key@) is Some),
    {
        match self.get(key) {
            Some(_) => true,
            None => false,
        }
    }

    /// Appends an entry without disturbing earlier bindings.
    fn push_entry(&mut self, key: String, value: T)
        ensures
            final(self)@ == old(self)@.push((key@, value)),
    {
        let ghost pre = self@;
        self.entries.push((key, value));
        proof {
            assert(self@ =~= pre.push((key@, value)));
        }
    }

    /// Hands the entries out in order.
    pub fn into_entries(self) -> (r: Vec<(String, T)>)
        ensures
            r@.len() == self@.len(),
            forall|i: int| 0 <= i < self@.len() ==> (#[trigger] r@[i].0@, r@[i].1) == self@[i],
    {
        self.entries
    }

    /// Wraps a vector of entries as a mapping, keeping their order.
    pub fn from_entries(entries: Vec<(String, T)>) -> (r: Self)
        ensures
            r@.len() == entries@.len(),
            forall|i: int| 0 <= i < entries@.len() ==> (#[trigger] entries@[i].0@, entries@[i].1)
                == r@[i],
    {
        StrMap { entries }
    }
}

} // verus!

verus! {

/// What building every entry's value of a mapping yields: the entries with
/// converted values in order, or the first value failure.
pub open spec fn entries_from_value<V: Converter>(es: Seq<(Seq<char>, VModel)>) -> Result<
    Seq<(Seq<char>, V::Model)>,
    Seq<char>,
>
    decreases es.len(),
{
    if es.len() == 0 {
        Ok(Seq::empty())
    } else {
        match V::spec_from_value(es[0].1) {
            Err(e) => Err(e),
            Ok(x) => match entries_from_value::<V>(es.drop_first()) {
                Err(e) => Err(e),
                Ok(rest) => Ok(seq![(es[0].0, x)] + rest),
            },
        }
    }
}

/// When every entry's value converts, the mapping conversion succeeds with
/// the pointwise results.
proof fn lemma_entries_from_value_ok<V: Converter>(
    es: Seq<(Seq<char>, VModel)>,
    ms: Seq<(Seq<char>, V::Model)>,
)
    requires
        es.len() == ms.len(),
        forall|j: int| 0 <= j < es.len() ==> (#[trigger] es[j]).0 == ms[j].0
            && V::spec_from_value(es[j].1) == Ok::<V::Model, Seq<char>>(ms[j].1),
    ensures
        entries_from_value::<V>(es) == Ok::<Seq<(Seq<char>, V::Model)>, Seq<char>>(ms),
    decreases es.len(),
{
    if es.len() == 0 {
        assert(ms =~= Seq::<(Seq<char>, V::Model)>::empty());
    } else {
        lemma_entries_from_value_ok::<V>(es.drop_first(), ms.drop_first());
        assert(ms =~= seq![ms[0]] + ms.drop_first());
    }
}

/// The mapping conversion fails with the first failing entry's error.
proof fn lemma_entries_from_value_err<V: Converter>(es: Seq<(Seq<char>, VModel)>, i: int, e: Seq<char>)
    requires
        0 <= i < es.len(),
        forall|j: int| 0 <= j < i ==> V::spec_from_value((#[trigger] es[j]).1) is Ok,
        V::spec_from_value(es[i].1) == Err::<V::Model, Seq<char>>(e),
    ensures
        entries_from_value::<V>(es) == Err::<Seq<(Seq<char>, V::Model)>, Seq<char>>(e),
    decreases i,
{
    if i > 0 {
        lemma_entries_from_value_err::<V>(es.drop_first(), i - 1, e);
    }
}

impl<V: Converter> Converter for StrMap<V> {
    type Model = Seq<(Seq<char>, V::Model)>;

    open spec fn model(&self) -> Seq<(Seq<char>, V::Model)> {
        Seq::new(self@.len(), |i: int| (self@[i].0, self@[i].1.model()))
    }

    open spec fn spec_to_value(m: Seq<(Seq<char>, V::Model)>) -> VModel {
        VModel::Mapping(Seq::new(m.len(), |i: int| (m[i].0, V::spec_to_value(m[i].1))))
    }

    open spec fn spec_from_value(v: VModel) -> Result<Seq<(Seq<char>, V::Model)>, Seq<char>> {
        match v {
            VModel::Mapping(es) => entries_from_value::<V>(es),
            _ => Err("invalid type: HashMap<K, V>"@),
        }
    }

    open spec fn faithful(m: Seq<(Seq<char>, V::Model)>) -> bool {
        forall|i: int| 0 <= i < m.len() ==> V::faithful((#[trigger] m[i]).1)
    }

    fn to_field_value(&self) -> (r: FieldValue) {
        let mut out: Vec<(String, FieldValue)> = Vec::new();
        let mut i: usize = 0;
        while i < self.entries.len()
            invariant
                i <= self@.len(),
                self@.len() == self.entries@.len(),
                out@.len() == i,
                forall|j: int| 0 <= j < self@.len() ==> self@[j] == (
                    (#[trigger] self.entries@[j]).0@,
                    self.entries@[j].1,
                ),
                forall|j: int| 0 <= j < i ==> (#[trigger] out@[j]).0@ == self@[j].0
                    && out@[j].1.model() == V::spec_to_value(self@[j].1.model()),
            decreases self.entries@.len() - i,
        {
            let k = self.entries[i].0.clone();
            let fv = self.entries[i].1.to_field_value();
            out.push((k, fv));
            i += 1;
        }
        proof {
            lemma_entry_models_of(out@);
            assert(entry_models_of(out@) =~= Seq::new(self.model().len(), |i: int| (
                self.model()[i].0,
                V::spec_to_value(self.model()[i].1),
            )));
        }
        FieldValue::Mapping(out)
    }

    fn to_primitive(fv: FieldValue) -> (r: Result<Self, StructMapError>) {
        match fv {
            FieldValue::Mapping(entries) => {
                let ghost orig = entries@;
                let mut entries = entries;
                let mut out: StrMap<V> = StrMap::new();
                while entries.len() > 0
                    invariant
                        fv.model() == VModel::Mapping(entry_models_of(orig)),
                        out@.len() + entries@.len() == orig.len(),
                        entries@ == orig.subrange(out@.len() as int, orig.len() as int),
                        forall|j: int| 0 <= j < out@.len() ==> (#[trigger] out@[j]).0 == orig[j].0@
                            && V::spec_from_value(orig[j].1.model()) == Ok::<V::Model, Seq<char>>(
                            out@[j].1.model(),
                        ),
                    decreases entries@.len(),
                {
                    let (k, v) = entries.remove(0);
                    proof {
                        assert((k, v) == orig[out@.len() as int]);
                        assert(entries@ =~= orig.subrange(
                            out@.len() as int + 1,
                            orig.len() as int,
                        ));
                    }
                    match V::to_primitive(v) {
                        Ok(x) => out.push_entry(k, x),
                        Err(err) => {
                            proof {
                                lemma_entry_models_of(orig);
                                let i = out@.len() as int;
                                assert forall|j: int| 0 <= j < i implies V::spec_from_value(
                                    (#[trigger] entry_models_of(orig)[j]).1,
                                ) is Ok by {
                                    assert(V::spec_from_value(orig[j].1.model()) == Ok::<
                                        V::Model,
                                        Seq<char>,
                                    >(out@[j].1.model()));
                                }
                                lemma_entries_from_value_err::<V>(entry_models_of(orig), i, err@);
                            }
                            return Err(err);
                        },
                    }
                }
                proof {
                    lemma_entry_models_of(orig);
                    let ms = out.model();
                    assert(forall|j: int| 0 <= j < orig.len() ==> (#[trigger] entry_models_of(
                        orig,
                    )[j]).0 == ms[j].0 && V::spec_from_value(entry_models_of(orig)[j].1) == Ok::<
                        V::Model,
                        Seq<char>,
                    >(ms[j].1));
                    lemma_entries_from_value_ok::<V>(entry_models_of(orig), ms);
                }
                Ok(out)
            },
            _ => Err(StructMapError::new("invalid type: HashMap<K, V>")),
        }
    }

    proof fn lemma_round_trip(m: Seq<(Seq<char>, V::Model)>) {
        let ws = Seq::new(m.len(), |i: int| (m[i].0, V::spec_to_value(m[i].1)));
        assert forall|j: int| 0 <= j < ws.len() implies (#[trigger] ws[j]).0 == m[j].0
            && V::spec_from_value(ws[j].1) == Ok::<V::Model, Seq<char>>(m[j].1) by {
            V::lemma_round_trip(m[j].1);
        }
        lemma_entries_from_value_ok::<V>(ws, m);
    }
}

} // verus!
