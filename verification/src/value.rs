use vstd::prelude::*;

verus! {

use vstd::string::StringExecFns;

/// Mathematical model of a dynamic value, used by every contract in the
/// crate. A sequence keeps element order; a mapping is modelled as an ordered
/// association list in which the earliest binding for a key is the one in
/// force, so lookups do not depend on entry order while rendering stays
/// deterministic.
pub ghost enum VModel {
    Null,
    Bool(bool),
    Int(int),
    /// Bit pattern of a 64-bit IEEE-754 value; the library treats the
    /// payload as opaque bits.
    Float(u64),
    String(Seq<char>),
    Array(Seq<VModel>),
    Mapping(Seq<(Seq<char>, VModel)>),
}

/// Dynamic tagged-union value: the target of flattening a typed value and
/// the source for building one back.
#[derive(Debug, PartialEq)]
pub enum FieldValue {
    /// Absence; the encoding of an empty optional.
    Null,
    Bool(bool),
    /// All integer widths widen to a signed 64-bit payload.
    Int(i64),
    /// Bit pattern of a 64-bit IEEE-754 double. A caller holding a floating
    /// point number stores its bits here; the library treats the payload as
    /// opaque bits and renders it as their decimal value.
    Float(u64),
    String(String),
    /// Ordered sequence; element order is significant and preserved.
    Array(Vec<FieldValue>),
    /// Mapping from string key to value, kept as an association list; the
    /// earliest entry for a key is the one in force.
    Mapping(Vec<(String, FieldValue)>),
}

impl FieldValue {
    /// The mathematical value this dynamic value stands for.
    pub open spec fn model(self) -> VModel
        decreases self,
    {
        match self {
            FieldValue::Null => VModel::Null,
            FieldValue::Bool(b) => VModel::Bool(b),
            FieldValue::Int(i) => VModel::Int(i as int),
            FieldValue::Float(bits) => VModel::Float(bits),
            FieldValue::String(s) => VModel::String(s@),
            FieldValue::Array(elems) => VModel::Array(models_of(elems@)),
            FieldValue::Mapping(entries) => VModel::Mapping(entry_models_of(entries@)),
        }
    }
}

/// Models of a sequence of dynamic values, in order.
pub open spec fn models_of(s: Seq<FieldValue>) -> Seq<VModel>
    decreases s,
{
    if s.len() == 0 {
        Seq::empty()
    } else {
        models_of(s.drop_last()).push(s.last().model())
    }
}

/// Models of a sequence of mapping entries, in order.
pub open spec fn entry_models_of(s: Seq<(String, FieldValue)>) -> Seq<(Seq<char>, VModel)>
    decreases s,
{
    if s.len() == 0 {
        Seq::empty()
    } else {
        entry_models_of(s.drop_last()).push((s.last().0@, s.last().1.model()))
    }
}

/// `models_of` maps the sequence pointwise.
pub proof fn lemma_models_of(s: Seq<FieldValue>)
    ensures
        models_of(s).len() == s.len(),
        forall|i: int| 0 <= i < s.len() ==> models_of(s)[i] == s[i].model(),
    decreases s.len(),
{
    if s.len() > 0 {
        lemma_models_of(s.drop_last());
    }
}

/// `entry_models_of` maps the sequence pointwise.
pub proof fn lemma_entry_models_of(s: Seq<(String, FieldValue)>)
    ensures
        entry_models_of(s).len() == s.len(),
        forall|i: int| 0 <= i < s.len() ==> entry_models_of(s)[i] == (s[i].0@, s[i].1.model()),
    decreases s.len(),
{
    if s.len() > 0 {
        lemma_entry_models_of(s.drop_last());
    }
}

/// The decimal digit character for `d` (0 through 9).
pub open spec fn digit_char(d: int) -> char {
    ((48 + d) as u8) as char
}

/// The decimal digits of a non-negative number, most significant first.
pub open spec fn nat_text(n: int) -> Seq<char>
    decreases n,
{
    if n < 10 {
        seq![digit_char(n)]
    } else {
        nat_text(n / 10).push(digit_char(n % 10))
    }
}

/// The usual decimal rendering of an integer: a leading '-' for negative
/// values, then the digits without leading zeroes.
pub open spec fn int_text(i: int) -> Seq<char> {
    if i < 0 {
        seq!['-'] + nat_text(-i)
    } else {
        nat_text(i)
    }
}

/// The usual textual form of a boolean.
pub open spec fn bool_text(b: bool) -> Seq<char> {
    if b {
        "true"@
    } else {
        "false"@
    }
}

/// The textual rendering of a value: empty for Null, the natural form for
/// the scalar variants, the concatenation of the element renderings for a
/// sequence, and the concatenation of each key followed by its value's
/// rendering for a mapping, in entry order. Lossy, for display only.
pub open spec fn render(v: VModel) -> Seq<char>
    decreases v,
{
    match v {
        VModel::Null => Seq::empty(),
        VModel::Bool(b) => bool_text(b),
        VModel::Int(i) => int_text(i),
        VModel::Float(bits) => nat_text(bits as int),
        VModel::String(s) => s,
        VModel::Array(elems) => render_all(elems),
        VModel::Mapping(entries) => render_entries(entries),
    }
}

/// The concatenation of the renderings of a sequence of values, in order.
pub open spec fn render_all(elems: Seq<VModel>) -> Seq<char>
    decreases elems,
{
    if elems.len() == 0 {
        Seq::empty()
    } else {
        render(elems[0]) + render_all(elems.drop_first())
    }
}

/// The concatenation of each key followed by its value's rendering, in
/// entry order.
pub open spec fn render_entries(es: Seq<(Seq<char>, VModel)>) -> Seq<char>
    decreases es,
{
    if es.len() == 0 {
        Seq::empty()
    } else {
        es[0].0 + render(es[0].1) + render_entries(es.drop_first())
    }
}

/// Appending a value extends the rendering of a sequence at its end.
proof fn lemma_render_all_push(s: Seq<VModel>, x: VModel)
    ensures
        render_all(s.push(x)) == render_all(s) + render(x),
    decreases s.len(),
{
    if s.len() == 0 {
        assert(s.push(x).drop_first() =~= Seq::<VModel>::empty());
        assert(s.push(x)[0] == x);
        assert(render_all(Seq::<VModel>::empty()) == Seq::<char>::empty());
        assert(render_all(s.push(x)) == render(x) + Seq::<char>::empty());
        assert(render_all(s.push(x)) =~= render(x));
        assert(render_all(s) + render(x) =~= render(x));
    } else {
        assert(s.push(x).drop_first() =~= s.drop_first().push(x));
        assert(s.push(x)[0] == s[0]);
        lemma_render_all_push(s.drop_first(), x);
        assert(render_all(s.push(x)) == render(s[0]) + (render_all(s.drop_first()) + render(x)));
        assert(render(s[0]) + (render_all(s.drop_first()) + render(x)) =~= (render(s[0])
            + render_all(s.drop_first())) + render(x));
        assert(render_all(s) == render(s[0]) + render_all(s.drop_first()));
    }
}

/// Appending an entry extends the rendering of a mapping at its end.
proof fn lemma_render_entries_push(s: Seq<(Seq<char>, VModel)>, e: (Seq<char>, VModel))
    ensures
        render_entries(s.push(e)) == render_entries(s) + (e.0 + render(e.1)),
    decreases s.len(),
{
    if s.len() == 0 {
        assert(s.push(e).drop_first() =~= Seq::<(Seq<char>, VModel)>::empty());
        assert(s.push(e)[0] == e);
        assert(render_entries(Seq::<(Seq<char>, VModel)>::empty()) == Seq::<char>::empty());
        assert(render_entries(s.push(e)) == e.0 + render(e.1) + Seq::<char>::empty());
        assert(e.0 + render(e.1) + Seq::<char>::empty() =~= e.0 + render(e.1));
        assert(render_entries(s) + (e.0 + render(e.1)) =~= e.0 + render(e.1));
    } else {
        assert(s.push(e).drop_first() =~= s.drop_first().push(e));
        assert(s.push(e)[0] == s[0]);
        lemma_render_entries_push(s.drop_first(), e);
        assert(render_entries(s.push(e)) == s[0].0 + render(s[0].1) + (render_entries(
            s.drop_first(),
        ) + (e.0 + render(e.1))));
        assert(s[0].0 + render(s[0].1) + (render_entries(s.drop_first()) + (e.0 + render(e.1)))
            =~= (s[0].0 + render(s[0].1) + render_entries(s.drop_first())) + (e.0 + render(e.1)));
        assert(render_entries(s) == s[0].0 + render(s[0].1) + render_entries(s.drop_first()));
    }
}

/// Relies on i64's Display implementation: decimal digits with a leading
/// '-' for negative values.
#[verifier::external_body]
fn int_to_string(value: i64) -> (r: String)
    ensures
        r@ == int_text(value as int),
{
    value.to_string()
}

/// Relies on u64's Display implementation: decimal digits without leading
/// zeroes.
#[verifier::external_body]
fn uint_to_string(value: u64) -> (r: String)
    ensures
        r@ == nat_text(value as int),
{
    value.to_string()
}

impl FieldValue {
    /// Renders the value as text, for display only: the result is lossy and
    /// recovers no structure.
    #[verifier::loop_isolation(false)]
    pub fn to_string(&self) -> (r: String)
        ensures
            r@ == render(self.model()),
        decreases self,
    {
        match self {
            FieldValue::Null => String::new(),
            FieldValue::Bool(value) => if *value {
                "true".to_owned()
            } else {
                "false".to_owned()
            },
            FieldValue::Int(value) => int_to_string(*value),
            FieldValue::Float(bits) => uint_to_string(*bits),
            FieldValue::String(value) => value.clone(),
            FieldValue::Array(value) => {
                let ghost ms = models_of(value@);
                let mut res = String::new();
                let mut i: usize = 0;
                while i < value.len()
                    invariant
                        i <= value@.len(),
                        ms == models_of(value@),
                        res@ == render_all(ms.take(i as int)),
                    decreases value@.len() - i,
                {
                    let v = value[i].to_string();
                    proof {
                        lemma_models_of(value@);
                        lemma_render_all_push(ms.take(i as int), ms[i as int]);
                        assert(ms.take(i as int).push(ms[i as int]) =~= ms.take(i as int + 1));
                    }
                    res.append(v.as_str());
                    i += 1;
                }
                proof {
                    lemma_models_of(value@);
                    assert(ms.take(value@.len() as int) =~= ms);
                }
                res
            },
            FieldValue::Mapping(value) => {
                let ghost ems = entry_models_of(value@);
                let mut res = String::new();
                let mut i: usize = 0;
                while i < value.len()
                    invariant
                        i <= value@.len(),
                        ems == entry_models_of(value@),
                        res@ == render_entries(ems.take(i as int)),
                    decreases value@.len() - i,
                {
                    let v = value[i].1.to_string();
                    proof {
                        lemma_entry_models_of(value@);
                        lemma_render_entries_push(ems.take(i as int), ems[i as int]);
                        assert(ems.take(i as int).push(ems[i as int]) =~= ems.take(i as int + 1));
                    }
                    res.append(value[i].0.as_str());
                    res.append(v.as_str());
                    i += 1;
                }
                proof {
                    lemma_entry_models_of(value@);
                    assert(ems.take(value@.len() as int) =~= ems);
                }
                res
            },
        }
    }
}

} // verus!
