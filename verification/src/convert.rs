use vstd::prelude::*;

use crate::error::StructMapError;
use crate::value::{FieldValue, VModel, models_of, lemma_models_of};

verus! {

use vstd::string::StrSliceExecFns;

/// The conversion protocol: a type that can be flattened to a dynamic
/// [`FieldValue`] and rebuilt from one, with per-type validation on the way
/// back.
///
/// Every implementation carries a mathematical `Model` of its values, and the
/// two executable operations are pinned to two spec-level functions over that
/// model, so that composite implementations and record conversions can be
/// reasoned about uniformly.
pub trait Converter: Sized {
    /// Mathematical model of a value of this type.
    type Model;

    /// The model of this value.
    spec fn model(&self) -> Self::Model;

    /// What flattening yields, as a function of the model. Total.
    spec fn spec_to_value(m: Self::Model) -> VModel;

    /// What building from a dynamic value yields: the reconstructed model,
    /// or the description carried by the conversion error.
    spec fn spec_from_value(v: VModel) -> Result<Self::Model, Seq<char>>;

    /// Whether flattening this model loses no information: it stays within
    /// the representable range and never collapses a present value to Null.
    spec fn faithful(m: Self::Model) -> bool;

    /// Converts the typed value to its dynamic representation; never fails.
    fn to_field_value(&self) -> (r: FieldValue)
        ensures
            r.model() == Self::spec_to_value(self.model()),
    ;

    /// Attempts to rebuild a typed value from a dynamic one, failing with an
    /// error that names the incompatible target type.
    fn to_primitive(fv: FieldValue) -> (r: Result<Self, StructMapError>)
        ensures
            match r {
                Ok(x) => Self::spec_from_value(fv.model()) == Ok::<Self::Model, Seq<char>>(
                    x.model(),
                ),
                Err(e) => Self::spec_from_value(fv.model()) == Err::<Self::Model, Seq<char>>(e@),
            },
    ;

    /// Round-trip law: building back from a flattened value reproduces the
    /// model, provided flattening it loses no information.
    proof fn lemma_round_trip(m: Self::Model)
        requires
            Self::faithful(m),
        ensures
            Self::spec_from_value(Self::spec_to_value(m)) == Ok::<Self::Model, Seq<char>>(m),
    ;
}

impl Converter for bool {
    type Model = bool;

    open spec fn model(&self) -> bool {
        *self
    }

    open spec fn spec_to_value(m: bool) -> VModel {
        VModel::Bool(m)
    }

    open spec fn spec_from_value(v: VModel) -> Result<bool, Seq<char>> {
        match v {
            VModel::Bool(b) => Ok(b),
            _ => Err("invalid type: bool"@),
        }
    }

    open spec fn faithful(m: bool) -> bool {
        true
    }

    fn to_field_value(&self) -> (r: FieldValue) {
        FieldValue::Bool(*self)
    }

    fn to_primitive(fv: FieldValue) -> (r: Result<Self, StructMapError>) {
        match fv {
            FieldValue::Bool(value) => Ok(value),
            _ => Err(StructMapError::new("invalid type: bool")),
        }
    }

    proof fn lemma_round_trip(m: bool) {
    }
}

impl Converter for String {
    type Model = Seq<char>;

    open spec fn model(&self) -> Seq<char> {
        self@
    }

    open spec fn spec_to_value(m: Seq<char>) -> VModel {
        VModel::String(m)
    }

    open spec fn spec_from_value(v: VModel) -> Result<Seq<char>, Seq<char>> {
        match v {
            VModel::String(s) => Ok(s),
            _ => Err("invalid type: String"@),
        }
    }

    open spec fn faithful(m: Seq<char>) -> bool {
        true
    }

    fn to_field_value(&self) -> (r: FieldValue) {
        FieldValue::String(self.clone())
    }

    fn to_primitive(fv: FieldValue) -> (r: Result<Self, StructMapError>) {
        match fv {
            FieldValue::String(value) => Ok(value),
            _ => Err(StructMapError::new("invalid type: String")),
        }
    }

    proof fn lemma_round_trip(m: Seq<char>) {
    }
}

/// Relies on char's ToString implementation: the text is exactly the one
/// character.
#[verifier::external_body]
fn char_to_string(c: char) -> (r: String)
    ensures
        r@ == seq![c],
{
    c.to_string()
}

impl Converter for char {
    type Model = char;

    open spec fn model(&self) -> char {
        *self
    }

    open spec fn spec_to_value(m: char) -> VModel {
        VModel::String(seq![m])
    }

    open spec fn spec_from_value(v: VModel) -> Result<char, Seq<char>> {
        match v {
            VModel::String(s) => if s.len() == 1 {
                Ok(s[0])
            } else {
                Err("invalid type: char"@)
            },
            _ => Err("invalid type: char"@),
        }
    }

    open spec fn faithful(m: char) -> bool {
        true
    }

    fn to_field_value(&self) -> (r: FieldValue) {
        FieldValue::String(char_to_string(*self))
    }

    fn to_primitive(fv: FieldValue) -> (r: Result<Self, StructMapError>) {
        match fv {
            FieldValue::String(value) => {
                if value.as_str().unicode_len() != 1 {
                    return Err(StructMapError::new("invalid type: char"));
                }
                Ok(value.as_str().get_char(0))
            },
            _ => Err(StructMapError::new("invalid type: char")),
        }
    }

    proof fn lemma_round_trip(m: char) {
    }
}

impl Converter for i8 {
    type Model = int;

    open spec fn model(&self) -> int {
        *self as int
    }

    open spec fn spec_to_value(m: int) -> VModel {
        VModel::Int(m)
    }

    open spec fn spec_from_value(v: VModel) -> Result<int, Seq<char>> {
        match v {
            VModel::Int(x) => if i8::MIN as int <= x && x <= i8::MAX as int {
                Ok(x)
            } else {
                Err("invalid type: i8"@)
            },
            _ => Err("invalid type: i8"@),
        }
    }

    open spec fn faithful(m: int) -> bool {
        i8::MIN as int <= m && m <= i8::MAX as int
    }

    fn to_field_value(&self) -> (r: FieldValue) {
        FieldValue::Int(*self as i64)
    }

    fn to_primitive(fv: FieldValue) -> (r: Result<Self, StructMapError>) {
        match fv {
            FieldValue::Int(value) => {
                if value >= i8::MIN as i64 && value <= i8::MAX as i64 {
                    Ok(value as i8)
                } else {
                    Err(StructMapError::new("invalid type: i8"))
                }
            },
            _ => Err(StructMapError::new("invalid type: i8")),
        }
    }

    proof fn lemma_round_trip(m: int) {
    }
}

impl Converter for i16 {
    type Model = int;

    open spec fn model(&self) -> int {
        *self as int
    }

    open spec fn spec_to_value(m: int) -> VModel {
        VModel::Int(m)
    }

    open spec fn spec_from_value(v: VModel) -> Result<int, Seq<char>> {
        match v {
            VModel::Int(x) => if i16::MIN as int <= x && x <= i16::MAX as int {
                Ok(x)
            } else {
                Err("invalid type: i16"@)
            },
            _ => Err("invalid type: i16"@),
        }
    }

    open spec fn faithful(m: int) -> bool {
        i16::MIN as int <= m && m <= i16::MAX as int
    }

    fn to_field_value(&self) -> (r: FieldValue) {
        FieldValue::Int(*self as i64)
    }

    fn to_primitive(fv: FieldValue) -> (r: Result<Self, StructMapError>) {
        match fv {
            FieldValue::Int(value) => {
                if value >= i16::MIN as i64 && value <= i16::MAX as i64 {
                    Ok(value as i16)
                } else {
                    Err(StructMapError::new("invalid type: i16"))
                }
            },
            _ => Err(StructMapError::new("invalid type: i16")),
        }
    }

    proof fn lemma_round_trip(m: int) {
    }
}

impl Converter for i32 {
    type Model = int;

    open spec fn model(&self) -> int {
        *self as int
    }

    open spec fn spec_to_value(m: int) -> VModel {
        VModel::Int(m)
    }

    open spec fn spec_from_value(v: VModel) -> Result<int, Seq<char>> {
        match v {
            VModel::Int(x) => if i32::MIN as int <= x && x <= i32::MAX as int {
                Ok(x)
            } else {
                Err("invalid type: i32"@)
            },
            _ => Err("invalid type: i32"@),
        }
    }

    open spec fn faithful(m: int) -> bool {
        i32::MIN as int <= m && m <= i32::MAX as int
    }

    fn to_field_value(&self) -> (r: FieldValue) {
        FieldValue::Int(*self as i64)
    }

    fn to_primitive(fv: FieldValue) -> (r: Result<Self, StructMapError>) {
        match fv {
            FieldValue::Int(value) => {
                if value >= i32::MIN as i64 && value <= i32::MAX as i64 {
                    Ok(value as i32)
                } else {
                    Err(StructMapError::new("invalid type: i32"))
                }
            },
            _ => Err(StructMapError::new("invalid type: i32")),
        }
    }

    proof fn lemma_round_trip(m: int) {
    }
}

impl Converter for i64 {
    type Model = int;

    open spec fn model(&self) -> int {
        *self as int
    }

    open spec fn spec_to_value(m: int) -> VModel {
        VModel::Int(m)
    }

    open spec fn spec_from_value(v: VModel) -> Result<int, Seq<char>> {
        match v {
            VModel::Int(x) => if i64::MIN as int <= x && x <= i64::MAX as int {
                Ok(x)
            } else {
                Err("invalid type: i64"@)
            },
            _ => Err("invalid type: i64"@),
        }
    }

    open spec fn faithful(m: int) -> bool {
        i64::MIN as int <= m && m <= i64::MAX as int
    }

    fn to_field_value(&self) -> (r: FieldValue) {
        FieldValue::Int(*self)
    }

    fn to_primitive(fv: FieldValue) -> (r: Result<Self, StructMapError>) {
        match fv {
            FieldValue::Int(value) => Ok(value),
            _ => Err(StructMapError::new("invalid type: i64")),
        }
    }

    proof fn lemma_round_trip(m: int) {
    }
}

impl Converter for isize {
    type Model = int;

    open spec fn model(&self) -> int {
        *self as int
    }

    open spec fn spec_to_value(m: int) -> VModel {
        VModel::Int(m)
    }

    open spec fn spec_from_value(v: VModel) -> Result<int, Seq<char>> {
        match v {
            VModel::Int(x) => if isize::MIN as int <= x && x <= isize::MAX as int {
                Ok(x)
            } else {
                Err("invalid type: isize"@)
            },
            _ => Err("invalid type: isize"@),
        }
    }

    open spec fn faithful(m: int) -> bool {
        isize::MIN as int <= m && m <= isize::MAX as int
    }

    fn to_field_value(&self) -> (r: FieldValue) {
        FieldValue::Int(*self as i64)
    }

    fn to_primitive(fv: FieldValue) -> (r: Result<Self, StructMapError>) {
        match fv {
            FieldValue::Int(value) => {
                if value >= isize::MIN as i64 && value <= isize::MAX as i64 {
                    Ok(value as isize)
                } else {
                    Err(StructMapError::new("invalid type: isize"))
                }
            },
            _ => Err(StructMapError::new("invalid type: isize")),
        }
    }

    proof fn lemma_round_trip(m: int) {
    }
}

impl Converter for u8 {
    type Model = int;

    open spec fn model(&self) -> int {
        *self as int
    }

    open spec fn spec_to_value(m: int) -> VModel {
        VModel::Int(m)
    }

    open spec fn spec_from_value(v: VModel) -> Result<int, Seq<char>> {
        match v {
            VModel::Int(x) => if 0 <= x && x <= u8::MAX as int {
                Ok(x)
            } else {
                Err("invalid type: u8"@)
            },
            _ => Err("invalid type: u8"@),
        }
    }

    open spec fn faithful(m: int) -> bool {
        0 <= m && m <= u8::MAX as int
    }

    fn to_field_value(&self) -> (r: FieldValue) {
        FieldValue::Int(*self as i64)
    }

    fn to_primitive(fv: FieldValue) -> (r: Result<Self, StructMapError>) {
        match fv {
            FieldValue::Int(value) => {
                if value >= 0 && value <= u8::MAX as i64 {
                    Ok(value as u8)
                } else {
                    Err(StructMapError::new("invalid type: u8"))
                }
            },
            _ => Err(StructMapError::new("invalid type: u8")),
        }
    }

    proof fn lemma_round_trip(m: int) {
    }
}

impl Converter for u16 {
    type Model = int;

    open spec fn model(&self) -> int {
        *self as int
    }

    open spec fn spec_to_value(m: int) -> VModel {
        VModel::Int(m)
    }

    open spec fn spec_from_value(v: VModel) -> Result<int, Seq<char>> {
        match v {
            VModel::Int(x) => if 0 <= x && x <= u16::MAX as int {
                Ok(x)
            } else {
                Err("invalid type: u16"@)
            },
            _ => Err("invalid type: u16"@),
        }
    }

    open spec fn faithful(m: int) -> bool {
        0 <= m && m <= u16::MAX as int
    }

    fn to_field_value(&self) -> (r: FieldValue) {
        FieldValue::Int(*self as i64)
    }

    fn to_primitive(fv: FieldValue) -> (r: Result<Self, StructMapError>) {
        match fv {
            FieldValue::Int(value) => {
                if value >= 0 && value <= u16::MAX as i64 {
                    Ok(value as u16)
                } else {
                    Err(StructMapError::new("invalid type: u16"))
                }
            },
            _ => Err(StructMapError::new("invalid type: u16")),
        }
    }

    proof fn lemma_round_trip(m: int) {
    }
}

impl Converter for u32 {
    type Model = int;

    open spec fn model(&self) -> int {
        *self as int
    }

    open spec fn spec_to_value(m: int) -> VModel {
        VModel::Int(m)
    }

    open spec fn spec_from_value(v: VModel) -> Result<int, Seq<char>> {
        match v {
            VModel::Int(x) => if 0 <= x && x <= u32::MAX as int {
                Ok(x)
            } else {
                Err("invalid type: u32"@)
            },
            _ => Err("invalid type: u32"@),
        }
    }

    open spec fn faithful(m: int) -> bool {
        0 <= m && m <= u32::MAX as int
    }

    fn to_field_value(&self) -> (r: FieldValue) {
        FieldValue::Int(*self as i64)
    }

    fn to_primitive(fv: FieldValue) -> (r: Result<Self, StructMapError>) {
        match fv {
            FieldValue::Int(value) => {
                if value >= 0 && value <= u32::MAX as i64 {
                    Ok(value as u32)
                } else {
                    Err(StructMapError::new("invalid type: u32"))
                }
            },
            _ => Err(StructMapError::new("invalid type: u32")),
        }
    }

    proof fn lemma_round_trip(m: int) {
    }
}

impl<T: Converter> Converter for Option<T> {
    type Model = Option<T::Model>;

    open spec fn model(&self) -> Option<T::Model> {
        match self {
            Some(x) => Some(x.model()),
            None => None,
        }
    }

    open spec fn spec_to_value(m: Option<T::Model>) -> VModel {
        match m {
            Some(x) => T::spec_to_value(x),
            None => VModel::Null,
        }
    }

    open spec fn spec_from_value(v: VModel) -> Result<Option<T::Model>, Seq<char>> {
        match v {
            VModel::Null => Ok(None),
            _ => match T::spec_from_value(v) {
                Ok(x) => Ok(Some(x)),
                Err(e) => Err(e),
            },
        }
    }

    open spec fn faithful(m: Option<T::Model>) -> bool {
        match m {
            Some(x) => T::faithful(x) && T::spec_to_value(x) != VModel::Null,
            None => true,
        }
    }

    fn to_field_value(&self) -> (r: FieldValue) {
        match self {
            Some(some) => some.to_field_value(),
            None => FieldValue::Null,
        }
    }

    fn to_primitive(fv: FieldValue) -> (r: Result<Self, StructMapError>) {
        match fv {
            FieldValue::Null => Ok(None),
            _ => match T::to_primitive(fv) {
                Ok(x) => Ok(Some(x)),
                Err(e) => Err(e),
            },
        }
    }

    proof fn lemma_round_trip(m: Option<T::Model>) {
        match m {
            Some(x) => {
                T::lemma_round_trip(x);
            },
            None => {
            },
        }
    }
}

/// What building every element of a sequence yields: the models in order, or
/// the first element failure.
pub open spec fn seq_from_value<T: Converter>(s: Seq<VModel>) -> Result<Seq<T::Model>, Seq<char>>
    decreases s.len(),
{
    if s.len() == 0 {
        Ok(Seq::empty())
    } else {
        match T::spec_from_value(s[0]) {
            Err(e) => Err(e),
            Ok(x) => match seq_from_value::<T>(s.drop_first()) {
                Err(e) => Err(e),
                Ok(rest) => Ok(seq![x] + rest),
            },
        }
    }
}

/// When every element converts, the sequence conversion succeeds with the
/// pointwise results.
proof fn lemma_seq_from_value_ok<T: Converter>(s: Seq<VModel>, ms: Seq<T::Model>)
    requires
        s.len() == ms.len(),
        forall|j: int| 0 <= j < s.len() ==> T::spec_from_value(s[j]) == Ok::<T::Model, Seq<char>>(
            ms[j],
        ),
    ensures
        seq_from_value::<T>(s) == Ok::<Seq<T::Model>, Seq<char>>(ms),
    decreases s.len(),
{
    if s.len() == 0 {
        assert(ms =~= Seq::<T::Model>::empty());
    } else {
        lemma_seq_from_value_ok::<T>(s.drop_first(), ms.drop_first());
        assert(ms =~= seq![ms[0]] + ms.drop_first());
    }
}

/// The sequence conversion fails with the first failing element's error.
proof fn lemma_seq_from_value_err<T: Converter>(s: Seq<VModel>, i: int, e: Seq<char>)
    requires
        0 <= i < s.len(),
        forall|j: int| 0 <= j < i ==> T::spec_from_value(s[j]) is Ok,
        T::spec_from_value(s[i]) == Err::<T::Model, Seq<char>>(e),
    ensures
        seq_from_value::<T>(s) == Err::<Seq<T::Model>, Seq<char>>(e),
    decreases i,
{
    if i > 0 {
        lemma_seq_from_value_err::<T>(s.drop_first(), i - 1, e);
    }
}

impl<T: Converter> Converter for Vec<T> {
    type Model = Seq<T::Model>;

    open spec fn model(&self) -> Seq<T::Model> {
        Seq::new(self@.len(), |i: int| self@[i].model())
    }

    open spec fn spec_to_value(m: Seq<T::Model>) -> VModel {
        VModel::Array(Seq::new(m.len(), |i: int| T::spec_to_value(m[i])))
    }

    open spec fn spec_from_value(v: VModel) -> Result<Seq<T::Model>, Seq<char>> {
        match v {
            VModel::Array(s) => seq_from_value::<T>(s),
            _ => Err("invalid type: Vec<T>"@),
        }
    }

    open spec fn faithful(m: Seq<T::Model>) -> bool {
        forall|i: int| 0 <= i < m.len() ==> T::faithful(#[trigger] m[i])
    }

    fn to_field_value(&self) -> (r: FieldValue) {
        let mut out: Vec<FieldValue> = Vec::new();
        let mut i: usize = 0;
        while i < self.len()
            invariant
                i <= self@.len(),
                out@.len() == i,
                forall|j: int| 0 <= j < i ==> out@[j].model() == T::spec_to_value(
                    #[trigger] self@[j].model(),
                ),
            decreases self@.len() - i,
        {
            let fv = self[i].to_field_value();
            out.push(fv);
            i += 1;
        }
        proof {
            lemma_models_of(out@);
            assert(models_of(out@) =~= Seq::new(self.model().len(), |i: int| T::spec_to_value(
                self.model()[i],
            )));
        }
        FieldValue::Array(out)
    }

    fn to_primitive(fv: FieldValue) -> (r: Result<Self, StructMapError>) {
        match fv {
            FieldValue::Array(elems) => {
                let ghost orig = elems@;
                let mut elems = elems;
                let mut out: Vec<T> = Vec::new();
                proof {
                    lemma_models_of(orig);
                }
                while elems.len() > 0
                    invariant
                        fv.model() == VModel::Array(models_of(orig)),
                        out@.len() + elems@.len() == orig.len(),
                        elems@ == orig.subrange(out@.len() as int, orig.len() as int),
                        forall|j: int| 0 <= j < out@.len() ==> T::spec_from_value(
                            #[trigger] orig[j].model(),
                        ) == Ok::<T::Model, Seq<char>>(out@[j].model()),
                    decreases elems@.len(),
                {
                    let e = elems.remove(0);
                    proof {
                        assert(e == orig[out@.len() as int]);
                        assert(elems@ =~= orig.subrange(out@.len() as int + 1, orig.len() as int));
                    }
                    match T::to_primitive(e) {
                        Ok(x) => out.push(x),
                        Err(err) => {
                            proof {
                                lemma_models_of(orig);
                                let i = out@.len() as int;
                                assert(forall|j: int| 0 <= j < i ==> T::spec_from_value(
                                    models_of(orig)[j],
                                ) is Ok);
                                lemma_seq_from_value_err::<T>(models_of(orig), i, err@);
                            }
                            return Err(err);
                        },
                    }
                }
                proof {
                    lemma_models_of(orig);
                    let ms = Seq::new(out@.len() as nat, |i: int| out@[i].model());
                    assert(forall|j: int| 0 <= j < orig.len() ==> T::spec_from_value(
                        models_of(orig)[j],
                    ) == Ok::<T::Model, Seq<char>>(ms[j]));
                    lemma_seq_from_value_ok::<T>(models_of(orig), ms);
                }
                Ok(out)
            },
            _ => Err(StructMapError::new("invalid type: Vec<T>")),
        }
    }

    proof fn lemma_round_trip(m: Seq<T::Model>) {
        let ws = Seq::new(m.len(), |i: int| T::spec_to_value(m[i]));
        assert forall|j: int| 0 <= j < ws.len() implies T::spec_from_value(ws[j]) == Ok::<
            T::Model,
            Seq<char>,
        >(m[j]) by {
            T::lemma_round_trip(m[j]);
        }
        lemma_seq_from_value_ok::<T>(ws, m);
    }
}

/// Primitive range law: for every integer width narrower than 64 bits,
/// building from an Int value succeeds exactly when it lies within the
/// width's representable range, and on success reproduces it unchanged.
pub proof fn lemma_primitive_int_range(x: i64)
    ensures
        <i8 as Converter>::spec_from_value(VModel::Int(x as int)) == (if i8::MIN <= x <= i8::MAX as
            i64 {
            Ok::<int, Seq<char>>(x as int)
        } else {
            Err::<int, Seq<char>>("invalid type: i8"@)
        }),
        <i16 as Converter>::spec_from_value(VModel::Int(x as int)) == (if i16::MIN <= x <= i16::MAX
            as i64 {
            Ok::<int, Seq<char>>(x as int)
        } else {
            Err::<int, Seq<char>>("invalid type: i16"@)
        }),
        <i32 as Converter>::spec_from_value(VModel::Int(x as int)) == (if i32::MIN <= x <= i32::MAX
            as i64 {
            Ok::<int, Seq<char>>(x as int)
        } else {
            Err::<int, Seq<char>>("invalid type: i32"@)
        }),
        <isize as Converter>::spec_from_value(VModel::Int(x as int)) == (if isize::MIN as int <= x
            as int <= isize::MAX as int {
            Ok::<int, Seq<char>>(x as int)
        } else {
            Err::<int, Seq<char>>("invalid type: isize"@)
        }),
        <u8 as Converter>::spec_from_value(VModel::Int(x as int)) == (if 0 <= x <= u8::MAX as i64 {
            Ok::<int, Seq<char>>(x as int)
        } else {
            Err::<int, Seq<char>>("invalid type: u8"@)
        }),
        <u16 as Converter>::spec_from_value(VModel::Int(x as int)) == (if 0 <= x <= u16::MAX as i64
             {
            Ok::<int, Seq<char>>(x as int)
        } else {
            Err::<int, Seq<char>>("invalid type: u16"@)
        }),
        <u32 as Converter>::spec_from_value(VModel::Int(x as int)) == (if 0 <= x <= u32::MAX as i64
             {
            Ok::<int, Seq<char>>(x as int)
        } else {
            Err::<int, Seq<char>>("invalid type: u32"@)
        }),
{
}

/// Optional law: building an optional from Null yields the absent value,
/// whatever the element type; building from any other value delegates to
/// the element type, wrapping its success as present and failing exactly
/// with its error.
pub proof fn lemma_optional_from_value<T: Converter>(v: VModel)
    ensures
        <Option<T> as Converter>::spec_from_value(VModel::Null) == Ok::<
            Option<T::Model>,
            Seq<char>,
        >(None::<T::Model>),
        v != VModel::Null ==> <Option<T> as Converter>::spec_from_value(v) == (
        match T::spec_from_value(v) {
            Ok(x) => Ok::<Option<T::Model>, Seq<char>>(Some(x)),
            Err(e) => Err::<Option<T::Model>, Seq<char>>(e),
        }),
{
}

} // verus!
