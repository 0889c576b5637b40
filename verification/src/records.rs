use vstd::prelude::*;

use crate::convert::Converter;
use crate::error::StructMapError;
use crate::record::{ToHashMap, deep_entries, lemma_deep_lookup, record_to_field_value,
    record_to_primitive};
use crate::strmap::{StrMap, assoc_lookup, assoc_remove, lemma_assoc_lookup_push,
    lemma_assoc_lookup_remove_other};
use crate::value::{FieldValue, VModel};

verus! {

/// The two field names of [`Foo`] are distinct strings.
proof fn lemma_foo_names_distinct()
    ensures
        "a"@ != "b"@,
{
    reveal_strlit("a");
    reveal_strlit("b");
    assert(("a"@)[0] == 'a');
    assert(("b"@)[0] == 'b');
}

/// A sample record with two 32-bit integer fields; its conversion bodies are
/// the ones a generation plan for this shape yields.
#[derive(Debug, PartialEq, Eq, Structural)]
pub struct Foo {
    pub a: i32,
    pub b: i32,
}

impl ToHashMap for Foo {
    type Model = (int, int);

    open spec fn model(&self) -> (int, int) {
        (self.a as int, self.b as int)
    }

    open spec fn field_names() -> Seq<Seq<char>> {
        seq!["a"@, "b"@]
    }

    open spec fn faithful(m: (int, int)) -> bool {
        <i32 as Converter>::faithful(m.0) && <i32 as Converter>::faithful(m.1)
    }

    open spec fn spec_to_map(m: (int, int)) -> Seq<(Seq<char>, VModel)> {
        seq![
            ("a"@, <i32 as Converter>::spec_to_value(m.0)),
            ("b"@, <i32 as Converter>::spec_to_value(m.1)),
        ]
    }

    open spec fn spec_from_map(m: Seq<(Seq<char>, VModel)>) -> Result<(int, int), Seq<char>> {
        match assoc_lookup(m, "a"@) {
            None => Err("invalid type: i32"@),
            Some(va) => match <i32 as Converter>::spec_from_value(va) {
                Err(e) => Err(e),
                Ok(a) => match assoc_lookup(m, "b"@) {
                    None => Err("invalid type: i32"@),
                    Some(vb) => match <i32 as Converter>::spec_from_value(vb) {
                        Err(e) => Err(e),
                        Ok(b) => Ok((a, b)),
                    },
                },
            },
        }
    }

    fn to_map(&self) -> (r: StrMap<FieldValue>) {
        let mut result: StrMap<FieldValue> = StrMap::new();
        let fva = self.a.to_field_value();
        let fvb = self.b.to_field_value();
        result.insert("a".to_owned(), fva);
        let ghost v1 = result@;
        result.insert("b".to_owned(), fvb);
        proof {
            lemma_foo_names_distinct();
            assert(v1 =~= seq![("a"@, fva)]);
            assert(v1.drop_first() =~= Seq::<(Seq<char>, FieldValue)>::empty());
            assert(assoc_remove(v1.drop_first(), "b"@) =~= Seq::<(Seq<char>, FieldValue)>::empty());
            assert(assoc_remove(v1, "b"@) =~= v1);
            assert(result@ =~= seq![("a"@, fva), ("b"@, fvb)]);
            assert(deep_entries(result@) =~= Foo::spec_to_map(
                <Foo as ToHashMap>::model(self),
            ));
        }
        result
    }

    fn from_map(map: StrMap<FieldValue>) -> (r: Result<Self, StructMapError>) {
        let key_a = "a".to_owned();
        let key_b = "b".to_owned();
        proof {
            lemma_foo_names_distinct();
            lemma_deep_lookup(map@, "a"@);
            lemma_deep_lookup(map@, "b"@);
            lemma_assoc_lookup_remove_other(map@, "a"@, "b"@);
        }
        let mut m = map;
        let a: i32 = match m.remove(&key_a) {
            None => {
                return Err(StructMapError::new("invalid type: i32"));
            },
            Some(fv) => match <i32 as Converter>::to_primitive(fv) {
                Ok(v) => v,
                Err(e) => {
                    return Err(e);
                },
            },
        };
        let b: i32 = match m.remove(&key_b) {
            None => {
                return Err(StructMapError::new("invalid type: i32"));
            },
            Some(fv) => match <i32 as Converter>::to_primitive(fv) {
                Ok(v) => v,
                Err(e) => {
                    return Err(e);
                },
            },
        };
        Ok(Foo { a, b })
    }

    proof fn lemma_round_trip(m: (int, int)) {
        lemma_foo_names_distinct();
        let s = Foo::spec_to_map(m);
        assert(assoc_lookup(s, "a"@) == Some(<i32 as Converter>::spec_to_value(m.0)));
        assert(s.drop_first() =~= seq![("b"@, <i32 as Converter>::spec_to_value(m.1))]);
        assert(assoc_lookup(s.drop_first(), "b"@) == Some(<i32 as Converter>::spec_to_value(m.1)));
        assert(assoc_lookup(s, "b"@) == Some(<i32 as Converter>::spec_to_value(m.1)));
    }

    proof fn lemma_missing_field(m: Seq<(Seq<char>, VModel)>, i: int) {
        lemma_foo_names_distinct();
    }

    proof fn lemma_lookup_only(m1: Seq<(Seq<char>, VModel)>, m2: Seq<(Seq<char>, VModel)>) {
        assert(Foo::field_names()[0] == "a"@);
        assert(Foo::field_names()[1] == "b"@);
        assert(assoc_lookup(m1, "a"@) == assoc_lookup(m2, "a"@));
        assert(assoc_lookup(m1, "b"@) == assoc_lookup(m2, "b"@));
    }

    proof fn lemma_extra_key(m: Seq<(Seq<char>, VModel)>, key: Seq<char>, v: VModel) {
        assert(Foo::field_names()[0] == "a"@);
        assert(Foo::field_names()[1] == "b"@);
        lemma_assoc_lookup_push(m, (key, v), "a"@);
        lemma_assoc_lookup_push(m, (key, v), "b"@);
    }
}

impl Converter for Foo {
    type Model = (int, int);

    open spec fn model(&self) -> (int, int) {
        (self.a as int, self.b as int)
    }

    open spec fn spec_to_value(m: (int, int)) -> VModel {
        VModel::Mapping(<Foo as ToHashMap>::spec_to_map(m))
    }

    open spec fn spec_from_value(v: VModel) -> Result<(int, int), Seq<char>> {
        match v {
            VModel::Mapping(es) => <Foo as ToHashMap>::spec_from_map(es),
            _ => Err("invalid type: Mapper"@),
        }
    }

    open spec fn faithful(m: (int, int)) -> bool {
        <Foo as ToHashMap>::faithful(m)
    }

    fn to_field_value(&self) -> (r: FieldValue) {
        record_to_field_value(self)
    }

    fn to_primitive(fv: FieldValue) -> (r: Result<Self, StructMapError>) {
        record_to_primitive(fv)
    }

    proof fn lemma_round_trip(m: (int, int)) {
        <Foo as ToHashMap>::lemma_round_trip(m);
    }
}

/// The three field names of [`Profile`] are pairwise distinct strings.
proof fn lemma_profile_names_distinct()
    ensures
        "name"@ != "tags"@,
        "name"@ != "nickname"@,
        "tags"@ != "nickname"@,
{
    reveal_strlit("name");
    reveal_strlit("tags");
    reveal_strlit("nickname");
    assert(("name"@)[0] == 'n');
    assert(("tags"@)[0] == 't');
    assert(("nickname"@)[0] == 'n');
    assert(("name"@).len() == 4);
    assert(("nickname"@).len() == 8);
}

/// A sample record mixing a string field, a sequence field and an optional
/// field; its conversion bodies are the ones a generation plan for this
/// shape yields.
#[derive(Debug, PartialEq)]
pub struct Profile {
    pub name: String,
    pub tags: Vec<u32>,
    pub nickname: Option<String>,
}

impl ToHashMap for Profile {
    type Model = (Seq<char>, Seq<int>, Option<Seq<char>>);

    open spec fn model(&self) -> (Seq<char>, Seq<int>, Option<Seq<char>>) {
        (
            <String as Converter>::model(&self.name),
            <Vec<u32> as Converter>::model(&self.tags),
            <Option<String> as Converter>::model(&self.nickname),
        )
    }

    open spec fn field_names() -> Seq<Seq<char>> {
        seq!["name"@, "tags"@, "nickname"@]
    }

    open spec fn faithful(m: (Seq<char>, Seq<int>, Option<Seq<char>>)) -> bool {
        <String as Converter>::faithful(m.0) && <Vec<u32> as Converter>::faithful(m.1)
            && <Option<String> as Converter>::faithful(m.2)
    }

    open spec fn spec_to_map(m: (Seq<char>, Seq<int>, Option<Seq<char>>)) -> Seq<
        (Seq<char>, VModel),
    > {
        seq![
            ("name"@, <String as Converter>::spec_to_value(m.0)),
            ("tags"@, <Vec<u32> as Converter>::spec_to_value(m.1)),
            ("nickname"@, <Option<String> as Converter>::spec_to_value(m.2)),
        ]
    }

    open spec fn spec_from_map(m: Seq<(Seq<char>, VModel)>) -> Result<
        (Seq<char>, Seq<int>, Option<Seq<char>>),
        Seq<char>,
    > {
        match assoc_lookup(m, "name"@) {
            None => Err("invalid type: String"@),
            Some(v0) => match <String as Converter>::spec_from_value(v0) {
                Err(e) => Err(e),
                Ok(name) => match assoc_lookup(m, "tags"@) {
                    None => Err("invalid type: Vec<u32>"@),
                    Some(v1) => match <Vec<u32> as Converter>::spec_from_value(v1) {
                        Err(e) => Err(e),
                        Ok(tags) => match assoc_lookup(m, "nickname"@) {
                            None => Err("invalid type: Option<String>"@),
                            Some(v2) => match <Option<String> as Converter>::spec_from_value(v2) {
                                Err(e) => Err(e),
                                Ok(nickname) => Ok((name, tags, nickname)),
                            },
                        },
                    },
                },
            },
        }
    }

    fn to_map(&self) -> (r: StrMap<FieldValue>) {
        let mut result: StrMap<FieldValue> = StrMap::new();
        let f0 = self.name.to_field_value();
        let f1 = self.tags.to_field_value();
        let f2 = self.nickname.to_field_value();
        result.insert("name".to_owned(), f0);
        let ghost v1 = result@;
        result.insert("tags".to_owned(), f1);
        let ghost v2 = result@;
        result.insert("nickname".to_owned(), f2);
        proof {
            lemma_profile_names_distinct();
            assert(v1 =~= seq![("name"@, f0)]);
            assert(v1.drop_first() =~= Seq::<(Seq<char>, FieldValue)>::empty());
            assert(assoc_remove(v1.drop_first(), "tags"@) =~= Seq::<
                (Seq<char>, FieldValue),
            >::empty());
            assert(assoc_remove(v1, "tags"@) =~= v1);
            assert(v2 =~= seq![("name"@, f0), ("tags"@, f1)]);
            assert(v2.drop_first() =~= seq![("tags"@, f1)]);
            assert(v2.drop_first().drop_first() =~= Seq::<(Seq<char>, FieldValue)>::empty());
            assert(assoc_remove(v2.drop_first().drop_first(), "nickname"@) =~= Seq::<
                (Seq<char>, FieldValue),
            >::empty());
            assert(assoc_remove(v2.drop_first(), "nickname"@) =~= v2.drop_first());
            assert(assoc_remove(v2, "nickname"@) =~= v2);
            assert(result@ =~= seq![("name"@, f0), ("tags"@, f1), ("nickname"@, f2)]);
            assert(deep_entries(result@) =~= Profile::spec_to_map(
                <Profile as ToHashMap>::model(self),
            ));
        }
        result
    }

    fn from_map(map: StrMap<FieldValue>) -> (r: Result<Self, StructMapError>) {
        let key_name = "name".to_owned();
        let key_tags = "tags".to_owned();
        let key_nickname = "nickname".to_owned();
        proof {
            lemma_profile_names_distinct();
            lemma_deep_lookup(map@, "name"@);
            lemma_deep_lookup(map@, "tags"@);
            lemma_deep_lookup(map@, "nickname"@);
            lemma_assoc_lookup_remove_other(map@, "name"@, "tags"@);
            lemma_assoc_lookup_remove_other(map@, "name"@, "nickname"@);
            lemma_assoc_lookup_remove_other(assoc_remove(map@, "name"@), "tags"@, "nickname"@);
        }
        let mut m = map;
        let name: String = match m.remove(&key_name) {
            None => {
                return Err(StructMapError::new("invalid type: String"));
            },
            Some(fv) => match <String as Converter>::to_primitive(fv) {
                Ok(v) => v,
                Err(e) => {
                    return Err(e);
                },
            },
        };
        let tags: Vec<u32> = match m.remove(&key_tags) {
            None => {
                return Err(StructMapError::new("invalid type: Vec<u32>"));
            },
            Some(fv) => match <Vec<u32> as Converter>::to_primitive(fv) {
                Ok(v) => v,
                Err(e) => {
                    return Err(e);
                },
            },
        };
        let nickname: Option<String> = match m.remove(&key_nickname) {
            None => {
                return Err(StructMapError::new("invalid type: Option<String>"));
            },
            Some(fv) => match <Option<String> as Converter>::to_primitive(fv) {
                Ok(v) => v,
                Err(e) => {
                    return Err(e);
                },
            },
        };
        Ok(Profile { name, tags, nickname })
    }

    proof fn lemma_round_trip(m: (Seq<char>, Seq<int>, Option<Seq<char>>)) {
        lemma_profile_names_distinct();
        let s = Profile::spec_to_map(m);
        <Vec<u32> as Converter>::lemma_round_trip(m.1);
        <Option<String> as Converter>::lemma_round_trip(m.2);
        assert(assoc_lookup(s, "name"@) == Some(<String as Converter>::spec_to_value(m.0)));
        assert(s.drop_first() =~= seq![
            ("tags"@, <Vec<u32> as Converter>::spec_to_value(m.1)),
            ("nickname"@, <Option<String> as Converter>::spec_to_value(m.2)),
        ]);
        assert(assoc_lookup(s.drop_first(), "tags"@) == Some(
            <Vec<u32> as Converter>::spec_to_value(m.1),
        ));
        assert(assoc_lookup(s, "tags"@) == Some(<Vec<u32> as Converter>::spec_to_value(m.1)));
        assert(s.drop_first().drop_first() =~= seq![
            ("nickname"@, <Option<String> as Converter>::spec_to_value(m.2)),
        ]);
        assert(assoc_lookup(s.drop_first().drop_first(), "nickname"@) == Some(
            <Option<String> as Converter>::spec_to_value(m.2),
        ));
        assert(assoc_lookup(s.drop_first(), "nickname"@) == Some(
            <Option<String> as Converter>::spec_to_value(m.2),
        ));
        assert(assoc_lookup(s, "nickname"@) == Some(
            <Option<String> as Converter>::spec_to_value(m.2),
        ));
    }

    proof fn lemma_missing_field(m: Seq<(Seq<char>, VModel)>, i: int) {
        lemma_profile_names_distinct();
    }

    proof fn lemma_lookup_only(m1: Seq<(Seq<char>, VModel)>, m2: Seq<(Seq<char>, VModel)>) {
        assert(Profile::field_names()[0] == "name"@);
        assert(Profile::field_names()[1] == "tags"@);
        assert(Profile::field_names()[2] == "nickname"@);
        assert(assoc_lookup(m1, "name"@) == assoc_lookup(m2, "name"@));
        assert(assoc_lookup(m1, "tags"@) == assoc_lookup(m2, "tags"@));
        assert(assoc_lookup(m1, "nickname"@) == assoc_lookup(m2, "nickname"@));
    }

    proof fn lemma_extra_key(m: Seq<(Seq<char>, VModel)>, key: Seq<char>, v: VModel) {
        assert(Profile::field_names()[0] == "name"@);
        assert(Profile::field_names()[1] == "tags"@);
        assert(Profile::field_names()[2] == "nickname"@);
        lemma_assoc_lookup_push(m, (key, v), "name"@);
        lemma_assoc_lookup_push(m, (key, v), "tags"@);
        lemma_assoc_lookup_push(m, (key, v), "nickname"@);
    }
}

impl Converter for Profile {
    type Model = (Seq<char>, Seq<int>, Option<Seq<char>>);

    open spec fn model(&self) -> (Seq<char>, Seq<int>, Option<Seq<char>>) {
        <Profile as ToHashMap>::model(self)
    }

    open spec fn spec_to_value(m: (Seq<char>, Seq<int>, Option<Seq<char>>)) -> VModel {
        VModel::Mapping(<Profile as ToHashMap>::spec_to_map(m))
    }

    open spec fn spec_from_value(v: VModel) -> Result<
        (Seq<char>, Seq<int>, Option<Seq<char>>),
        Seq<char>,
    > {
        match v {
            VModel::Mapping(es) => <Profile as ToHashMap>::spec_from_map(es),
            _ => Err("invalid type: Mapper"@),
        }
    }

    open spec fn faithful(m: (Seq<char>, Seq<int>, Option<Seq<char>>)) -> bool {
        <Profile as ToHashMap>::faithful(m)
    }

    fn to_field_value(&self) -> (r: FieldValue) {
        record_to_field_value(self)
    }

    fn to_primitive(fv: FieldValue) -> (r: Result<Self, StructMapError>) {
        record_to_primitive(fv)
    }

    proof fn lemma_round_trip(m: (Seq<char>, Seq<int>, Option<Seq<char>>)) {
        <Profile as ToHashMap>::lemma_round_trip(m);
    }
}

} // verus!
