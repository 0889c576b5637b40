use vstd::prelude::*;

use crate::error::StructMapError;
use crate::strmap::{StrMap, assoc_lookup};
use crate::value::{FieldValue, VModel, entry_models_of, lemma_entry_models_of};

verus! {

/// The models of a mapping's entries, in order: the association list the
/// record contracts speak of.
pub open spec fn deep_entries(es: Seq<(Seq<char>, FieldValue)>) -> Seq<(Seq<char>, VModel)> {
    Seq::new(es.len(), |i: int| (es[i].0, es[i].1.model()))
}

/// Looking a key up in the deep entries finds the model of the value the
/// shallow lookup finds.
pub proof fn lemma_deep_lookup(es: Seq<(Seq<char>, FieldValue)>, k: Seq<char>)
    ensures
        assoc_lookup(deep_entries(es), k) == match assoc_lookup(es, k) {
            Some(v) => Some(v.model()),
            None => None::<VModel>,
        },
    decreases es.len(),
{
    if es.len() > 0 {
        assert(deep_entries(es).drop_first() =~= deep_entries(es.drop_first()));
        lemma_deep_lookup(es.drop_first(), k);
    }
}

/// The record mapping capability: a record type that can be flattened to a
/// mapping from field name to dynamic value and rebuilt from one, failing if
/// any declared field is missing or type-incompatible. Extra keys in the
/// input are ignored, and lookups are by name, so entry order never matters.
pub trait ToHashMap: Sized {
    /// Mathematical model of a record value.
    type Model;

    /// The model of this record.
    spec fn model(&self) -> Self::Model;

    /// The declared field names, in declaration order.
    spec fn field_names() -> Seq<Seq<char>>;

    /// Whether flattening this model loses no information.
    spec fn faithful(m: Self::Model) -> bool;

    /// What flattening yields: one entry per declared field, in declaration
    /// order.
    spec fn spec_to_map(m: Self::Model) -> Seq<(Seq<char>, VModel)>;

    /// What building from a mapping yields: the rebuilt model, or the
    /// description carried by the error of the first field that is missing
    /// or fails to convert, in declaration order.
    spec fn spec_from_map(m: Seq<(Seq<char>, VModel)>) -> Result<Self::Model, Seq<char>>;

    /// Flattens the record: one entry per declared field. Total.
    fn to_map(&self) -> (r: StrMap<FieldValue>)
        ensures
            deep_entries(r@) == Self::spec_to_map(self.model()),
    ;

    /// Rebuilds a record from a mapping, failing if a declared field is
    /// missing from it or its value does not convert.
    fn from_map(map: StrMap<FieldValue>) -> (r: Result<Self, StructMapError>)
        ensures
            match r {
                Ok(x) => Self::spec_from_map(deep_entries(map@)) == Ok::<Self::Model, Seq<char>>(
                    x.model(),
                ),
                Err(e) => Self::spec_from_map(deep_entries(map@)) == Err::<Self::Model, Seq<char>>(
                    e@,
                ),
            },
    ;

    /// Round-trip law: building from a flattened record reproduces the
    /// model, provided no field loses information when flattened.
    proof fn lemma_round_trip(m: Self::Model)
        requires
            Self::faithful(m),
        ensures
            Self::spec_from_map(Self::spec_to_map(m)) == Ok::<Self::Model, Seq<char>>(m),
    ;

    /// Missing-field law: building fails whenever any declared field has no
    /// binding in the input, whatever the other entries hold.
    proof fn lemma_missing_field(m: Seq<(Seq<char>, VModel)>, i: int)
        requires
            0 <= i < Self::field_names().len(),
            assoc_lookup(m, Self::field_names()[i]) is None,
        ensures
            Self::spec_from_map(m) is Err,
    ;

    /// Lookup law: what building yields depends only on the value in force
    /// for each declared field name, so the order of the input's entries is
    /// irrelevant.
    proof fn lemma_lookup_only(m1: Seq<(Seq<char>, VModel)>, m2: Seq<(Seq<char>, VModel)>)
        requires
            forall|i: int|
                0 <= i < Self::field_names().len() ==> assoc_lookup(
                    m1,
                    #[trigger] Self::field_names()[i],
                ) == assoc_lookup(m2, Self::field_names()[i]),
        ensures
            Self::spec_from_map(m1) == Self::spec_from_map(m2),
    ;

    /// Extra-key law: an appended entry whose key is not a declared field
    /// name never changes what building yields.
    proof fn lemma_extra_key(m: Seq<(Seq<char>, VModel)>, key: Seq<char>, v: VModel)
        requires
            !Self::field_names().contains(key),
        ensures
            Self::spec_from_map(m.push((key, v))) == Self::spec_from_map(m),
    ;
}

/// Flattens a record to a dynamic value, as nesting a record inside another
/// convertible type requires: a record flattens to a mapping value.
pub fn record_to_field_value<R: ToHashMap>(r: &R) -> (fv: FieldValue)
    ensures
        fv.model() == VModel::Mapping(R::spec_to_map(r.model())),
{
    let map = r.to_map();
    let ghost v = map@;
    let entries = map.into_entries();
    proof {
        lemma_entry_models_of(entries@);
        assert(entry_models_of(entries@) =~= deep_entries(v));
    }
    FieldValue::Mapping(entries)
}

/// Rebuilds a record from a dynamic value, requiring a mapping value and
/// delegating to the record's own building operation.
pub fn record_to_primitive<R: ToHashMap>(fv: FieldValue) -> (r: Result<R, StructMapError>)
    ensures
        match r {
            Ok(x) => fv.model() matches VModel::Mapping(es) && R::spec_from_map(es) == Ok::<
                R::Model,
                Seq<char>,
            >(x.model()),
            Err(e) => match fv.model() {
                VModel::Mapping(es) => R::spec_from_map(es) == Err::<R::Model, Seq<char>>(e@),
                _ => e@ == "invalid type: Mapper"@,
            },
        },
{
    match fv {
        FieldValue::Mapping(entries) => {
            let ghost es = entries@;
            let map = StrMap::from_entries(entries);
            proof {
                lemma_entry_models_of(es);
                assert(deep_entries(map@) =~= entry_models_of(es));
            }
            R::from_map(map)
        },
        _ => Err(StructMapError::new("invalid type: Mapper")),
    }
}

} // verus!
