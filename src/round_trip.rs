//! Writing a schema as JSON and reading it back gives the schema again, for
//! every schema that reading JSON can produce.

use crate::export::{
    named_schemas_json, object_json, opt_member, opt_text, opt_texts, schema_json, schemas_json,
    str_jsons, Members,
};
use crate::json::{lookup, Json};
use crate::schema::{
    apply_slot, empty_object, field_kind, fold_slots, list_conv, named_conv, object_conv,
    schema_of, slot_of, slots, str_conv, FieldValue, ObjectModel, SchemaModel, Slot,
};
use vstd::prelude::*;

verus! {

/// No member of `o`'s typed fields can be read otherwise than it was
/// written: the typed values are in the shape their fields take, every
/// additional member is one that reading keeps as additional, and the last
/// additional `$ref` member, if any, is no string.
pub open spec fn canonical(m: SchemaModel) -> bool
    decreases m, 1nat,
{
    match m {
        SchemaModel::Reference(_) => true,
        SchemaModel::Object(o) => canonical_object(*o),
    }
}

pub open spec fn canonical_object(o: ObjectModel) -> bool
    decreases o, 1nat,
{
    &&& canonical_fields(o)
    &&& !(lookup(o.additional, "$ref"@) matches Some(Json::Str(_)))
}

pub open spec fn canonical_fields(o: ObjectModel) -> bool
    decreases o, 0nat,
{
    &&& !(o.schema_type matches Some(Json::Null))
    &&& !(o.const_value matches Some(Json::Null))
    &&& (o.properties matches Some(p) ==> canonical_named(p))
    &&& (o.items matches Some(b) ==> canonical(*b))
    &&& (o.additional_properties matches Some(b) ==> canonical(*b))
    &&& (o.one_of matches Some(l) ==> canonical_list(l))
    &&& (o.any_of matches Some(l) ==> canonical_list(l))
    &&& (o.all_of matches Some(l) ==> canonical_list(l))
    &&& forall|i: int|
        0 <= i < o.additional.len() ==> slot_of(o.additional[i].0, o.additional[i].1)
            == Slot::Extra(o.additional[i].0, o.additional[i].1)
}

pub open spec fn canonical_named(p: Seq<(Seq<char>, SchemaModel)>) -> bool
    decreases p, 0nat,
{
    if p.len() == 0 {
        true
    } else {
        canonical_named(p.drop_last()) && canonical(p.last().1)
    }
}

pub open spec fn canonical_list(l: Seq<SchemaModel>) -> bool
    decreases l, 0nat,
{
    if l.len() == 0 {
        true
    } else {
        canonical_list(l.drop_last()) && canonical(l.last())
    }
}

proof fn lemma_keys()
    ensures
        field_kind("type"@) == 1,
        field_kind("properties"@) == 2,
        field_kind("required"@) == 3,
        field_kind("description"@) == 4,
        field_kind("title"@) == 5,
        field_kind("enum"@) == 6,
        field_kind("const"@) == 7,
        field_kind("items"@) == 8,
        field_kind("additionalProperties"@) == 9,
        field_kind("oneOf"@) == 10,
        field_kind("anyOf"@) == 11,
        field_kind("allOf"@) == 12,
        field_kind("$ref"@) == 0,
{
    reveal_strlit("type");
    reveal_strlit("properties");
    reveal_strlit("required");
    reveal_strlit("description");
    reveal_strlit("title");
    reveal_strlit("enum");
    reveal_strlit("const");
    reveal_strlit("items");
    reveal_strlit("additionalProperties");
    reveal_strlit("oneOf");
    reveal_strlit("anyOf");
    reveal_strlit("allOf");
    reveal_strlit("$ref");
    let four = seq!["type"@, "enum"@, "$ref"@];
    let five = seq!["title"@, "const"@, "items"@, "oneOf"@, "anyOf"@, "allOf"@];
    assert(forall|i: int| 0 <= i < 3 ==> four[i].len() == 4);
    assert(forall|i: int| 0 <= i < 6 ==> five[i].len() == 5);
    assert("properties"@.len() == 10);
    assert("required"@.len() == 8);
    assert("description"@.len() == 11);
    assert("additionalProperties"@.len() == 20);
    assert(forall|i: int, j: int| 0 <= i < j < 3 ==> four[i][0] != four[j][0]);
    assert(forall|i: int, j: int| 0 <= i < j < 6 ==> five[i][0] != five[j][0] || five[i][1]
        != five[j][1]);
    assert(forall|i: int, j: int| 0 <= i < j < 3 ==> four[i] != four[j]);
    assert(forall|i: int, j: int| 0 <= i < j < 6 ==> five[i] != five[j]);
}

proof fn lemma_step(x: Members, p: Members)
    requires
        p.len() <= 1,
        p.len() == 1 ==> p[0].0 != "$ref"@,
    ensures
        fold_slots(slots(x + p)) == if p.len() == 0 {
            fold_slots(slots(x))
        } else {
            apply_slot(fold_slots(slots(x)), slot_of(p[0].0, p[0].1))
        },
        lookup(x + p, "$ref"@) == lookup(x, "$ref"@),
{
    if p.len() == 0 {
        assert(x + p =~= x);
    } else {
        assert(x + p =~= x.push(p[0]));
        assert(x.push(p[0]).drop_last() =~= x);
        let sl = slots(x);
        assert(sl.push(slot_of(p[0].0, p[0].1)).drop_last() =~= sl);
    }
}

proof fn lemma_extras(acc: ObjectModel, x: Members, add: Members)
    requires
        forall|i: int| 0 <= i < add.len() ==> slot_of(add[i].0, add[i].1) == Slot::Extra(
            add[i].0,
            add[i].1,
        ),
        fold_slots(slots(x)) == acc,
    ensures
        fold_slots(slots(x + add)) == (ObjectModel { additional: acc.additional + add, ..acc }),
        lookup(x + add, "$ref"@) == if lookup(add, "$ref"@) is Some {
            lookup(add, "$ref"@)
        } else {
            lookup(x, "$ref"@)
        },
    decreases add.len(),
{
    if add.len() == 0 {
        assert(x + add =~= x);
        assert(acc.additional + add =~= acc.additional);
    } else {
        let front = add.drop_last();
        assert forall|i: int| 0 <= i < front.len() implies slot_of(front[i].0, front[i].1)
            == Slot::Extra(front[i].0, front[i].1) by {
            assert(front[i] == add[i]);
        }
        lemma_extras(acc, x, front);
        let y = add.last();
        assert(x + add =~= (x + front).push(y));
        assert((x + front).push(y).drop_last() =~= x + front);
        let sl = slots(x + front);
        assert(sl.push(slot_of(y.0, y.1)).drop_last() =~= sl);
        assert(add.drop_last() =~= front);
        assert(acc.additional + add =~= (acc.additional + front).push(y));
    }
}

proof fn lemma_str_conv(r: Seq<Seq<char>>)
    ensures
        str_conv(str_jsons(r)) == Some(r),
    decreases r.len(),
{
    if r.len() > 0 {
        lemma_str_conv(r.drop_last());
        assert(str_jsons(r).drop_last() =~= str_jsons(r.drop_last()));
        assert(r.drop_last().push(r.last()) =~= r);
    } else {
        assert(str_jsons(r) =~= Seq::<Json>::empty());
        assert(r =~= Seq::<Seq<char>>::empty());
    }
}

proof fn lemma_schema_round_trip(m: SchemaModel)
    requires
        canonical(m),
    ensures
        schema_json(m) is Object,
        object_conv(schema_json(m)->Object_0) == m,
    decreases m, 1nat,
{
    match m {
        SchemaModel::Reference(r) => {
            let j = seq![("$ref"@, Json::Str(r))];
            assert(j.drop_last() =~= Seq::<(Seq<char>, Json)>::empty());
        },
        SchemaModel::Object(o) => {
            lemma_object_round_trip(*o);
        },
    }
}

#[verifier::spinoff_prover]
#[verifier::rlimit(100)]
proof fn lemma_object_round_trip(o: ObjectModel)
    requires
        canonical_object(o),
    ensures
        object_conv(object_json(o)) == SchemaModel::Object(Box::new(o)),
    decreases o, 0nat,
{
    lemma_keys();
    let e = Seq::<(Seq<char>, Json)>::empty();
    let p1 = opt_member("type"@, o.schema_type);
    let p2 = match o.properties {
        Some(p) => seq![("properties"@, Json::Object(named_schemas_json(p)))],
        None => e,
    };
    let p3 = opt_texts("required"@, o.required);
    let p4 = opt_text("description"@, o.description);
    let p5 = opt_text("title"@, o.title);
    let p6 = match o.enum_values {
        Some(v) => seq![("enum"@, Json::Array(v))],
        None => e,
    };
    let p7 = opt_member("const"@, o.const_value);
    let p8 = match o.items {
        Some(b) => seq![("items"@, schema_json(*b))],
        None => e,
    };
    let p9 = match o.additional_properties {
        Some(b) => seq![("additionalProperties"@, schema_json(*b))],
        None => e,
    };
    let p10 = match o.one_of {
        Some(l) => seq![("oneOf"@, Json::Array(schemas_json(l)))],
        None => e,
    };
    let p11 = match o.any_of {
        Some(l) => seq![("anyOf"@, Json::Array(schemas_json(l)))],
        None => e,
    };
    let p12 = match o.all_of {
        Some(l) => seq![("allOf"@, Json::Array(schemas_json(l)))],
        None => e,
    };
    assert(slots(e) =~= Seq::<Slot>::empty());
    let a1 = ObjectModel { schema_type: o.schema_type, ..empty_object() };
    let t1 = e + p1;
    assert(fold_slots(slots(t1)) == a1 && lookup(t1, "$ref"@) is None) by {
        lemma_step(e, p1);
    }
    let a2 = ObjectModel { properties: o.properties, ..a1 };
    let t2 = t1 + p2;
    assert(fold_slots(slots(t2)) == a2 && lookup(t2, "$ref"@) is None) by {
        lemma_step(t1, p2);
        if let Some(p) = o.properties {
            lemma_named_round_trip(p);
        }
    }
    let a3 = ObjectModel { required: o.required, ..a2 };
    let t3 = t2 + p3;
    assert(fold_slots(slots(t3)) == a3 && lookup(t3, "$ref"@) is None) by {
        lemma_step(t2, p3);
        if let Some(r) = o.required {
            lemma_str_conv(r);
        }
    }
    let a4 = ObjectModel { description: o.description, ..a3 };
    let t4 = t3 + p4;
    assert(fold_slots(slots(t4)) == a4 && lookup(t4, "$ref"@) is None) by {
        lemma_step(t3, p4);
    }
    let a5 = ObjectModel { title: o.title, ..a4 };
    let t5 = t4 + p5;
    assert(fold_slots(slots(t5)) == a5 && lookup(t5, "$ref"@) is None) by {
        lemma_step(t4, p5);
    }
    let a6 = ObjectModel { enum_values: o.enum_values, ..a5 };
    let t6 = t5 + p6;
    assert(fold_slots(slots(t6)) == a6 && lookup(t6, "$ref"@) is None) by {
        lemma_step(t5, p6);
    }
    let a7 = ObjectModel { const_value: o.const_value, ..a6 };
    let t7 = t6 + p7;
    assert(fold_slots(slots(t7)) == a7 && lookup(t7, "$ref"@) is None) by {
        lemma_step(t6, p7);
    }
    let a8 = ObjectModel { items: o.items, ..a7 };
    let t8 = t7 + p8;
    assert(fold_slots(slots(t8)) == a8 && lookup(t8, "$ref"@) is None) by {
        lemma_step(t7, p8);
        if let Some(b) = o.items {
            lemma_schema_round_trip(*b);
        }
    }
    let a9 = ObjectModel { additional_properties: o.additional_properties, ..a8 };
    let t9 = t8 + p9;
    assert(fold_slots(slots(t9)) == a9 && lookup(t9, "$ref"@) is None) by {
        lemma_step(t8, p9);
        if let Some(b) = o.additional_properties {
            lemma_schema_round_trip(*b);
        }
    }
    let a10 = ObjectModel { one_of: o.one_of, ..a9 };
    let t10 = t9 + p10;
    assert(fold_slots(slots(t10)) == a10 && lookup(t10, "$ref"@) is None) by {
        lemma_step(t9, p10);
        if let Some(l) = o.one_of {
            lemma_list_round_trip(l);
        }
    }
    let a11 = ObjectModel { any_of: o.any_of, ..a10 };
    let t11 = t10 + p11;
    assert(fold_slots(slots(t11)) == a11 && lookup(t11, "$ref"@) is None) by {
        lemma_step(t10, p11);
        if let Some(l) = o.any_of {
            lemma_list_round_trip(l);
        }
    }
    let a12 = ObjectModel { all_of: o.all_of, ..a11 };
    let t12 = t11 + p12;
    assert(fold_slots(slots(t12)) == a12 && lookup(t12, "$ref"@) is None) by {
        lemma_step(t11, p12);
        if let Some(l) = o.all_of {
            lemma_list_round_trip(l);
        }
    }
    lemma_extras(a12, t12, o.additional);
    assert(Seq::<(Seq<char>, Json)>::empty() + o.additional =~= o.additional);
    assert(object_json(o) == t12 + o.additional);
}

proof fn lemma_named_round_trip(p: Seq<(Seq<char>, SchemaModel)>)
    requires
        canonical_named(p),
    ensures
        named_conv(named_schemas_json(p)) == Some(p),
    decreases p, 0nat,
{
    if p.len() == 0 {
        assert(named_schemas_json(p) =~= Seq::<(Seq<char>, Json)>::empty());
        assert(p =~= Seq::<(Seq<char>, SchemaModel)>::empty());
    } else {
        let front = p.drop_last();
        lemma_named_round_trip(front);
        lemma_schema_round_trip(p.last().1);
        let w = named_schemas_json(p);
        assert(w.drop_last() =~= named_schemas_json(front));
        assert(front.push(p.last()) =~= p);
    }
}

proof fn lemma_list_round_trip(l: Seq<SchemaModel>)
    requires
        canonical_list(l),
    ensures
        list_conv(schemas_json(l)) == Some(l),
    decreases l, 0nat,
{
    if l.len() == 0 {
        assert(schemas_json(l) =~= Seq::<Json>::empty());
        assert(l =~= Seq::<SchemaModel>::empty());
    } else {
        let front = l.drop_last();
        lemma_list_round_trip(front);
        lemma_schema_round_trip(l.last());
        assert(schemas_json(l).drop_last() =~= schemas_json(front));
        assert(front.push(l.last()) =~= l);
    }
}

proof fn lemma_read_canonical(m: Members)
    ensures
        canonical(object_conv(m)),
    decreases m, 2nat,
{
    lemma_fold_canonical(m);
}

proof fn lemma_fold_canonical(m: Members)
    ensures
        canonical_fields(fold_slots(slots(m))),
        lookup(fold_slots(slots(m)).additional, "$ref"@) == lookup(m, "$ref"@),
    decreases m, 1nat,
{
    if m.len() == 0 {
        assert(slots(m) =~= Seq::<Slot>::empty());
    } else {
        let front = m.drop_last();
        let y = m.last();
        lemma_fold_canonical(front);
        lemma_slot_canonical(y.0, y.1);
        lemma_keys();
        let sl = slots(front);
        assert(sl.push(slot_of(y.0, y.1)).drop_last() =~= sl);
        let acc = fold_slots(sl);
        let s = slot_of(y.0, y.1);
        if s is Extra {
            let add = acc.additional.push((y.0, y.1));
            assert(add.drop_last() =~= acc.additional);
            assert forall|i: int| 0 <= i < add.len() implies slot_of(add[i].0, add[i].1)
                == Slot::Extra(add[i].0, add[i].1) by {
                if i < acc.additional.len() {
                    assert(add[i] == acc.additional[i]);
                }
            }
        }
    }
}

proof fn lemma_slot_canonical(k: Seq<char>, v: Json)
    ensures
        match slot_of(k, v) {
            Slot::Field(kind, f) => {
                &&& field_kind(k) == kind
                &&& kind != 0
                &&& (f matches FieldValue::Value(j) ==> !(j is Null) && (kind == 1 || kind == 7))
                &&& (f matches FieldValue::Named(p) ==> canonical_named(p))
                &&& (f matches FieldValue::One(sm) ==> canonical(sm))
                &&& (f matches FieldValue::Many(l) ==> canonical_list(l))
            },
            Slot::Extra(k2, v2) => k2 == k && v2 == v,
        },
    decreases v, 0nat,
{
    let kind = field_kind(k);
    match v {
        Json::Object(pm) => {
            if kind == 2 {
                lemma_named_canonical(pm);
            } else if kind == 8 || kind == 9 {
                lemma_read_canonical(pm);
            }
        },
        Json::Array(a) => {
            if kind >= 10 {
                lemma_list_canonical(a);
            }
        },
        _ => {},
    }
}

proof fn lemma_named_canonical(pm: Members)
    ensures
        named_conv(pm) matches Some(p) ==> canonical_named(p),
    decreases pm, 0nat,
{
    if pm.len() > 0 {
        lemma_named_canonical(pm.drop_last());
        if let (Some(p), Json::Object(inner)) = (named_conv(pm.drop_last()), pm.last().1) {
            lemma_read_canonical(inner);
            let q = p.push((pm.last().0, object_conv(inner)));
            assert(q.drop_last() =~= p);
        }
    }
}

proof fn lemma_list_canonical(a: Seq<Json>)
    ensures
        list_conv(a) matches Some(l) ==> canonical_list(l),
    decreases a, 0nat,
{
    if a.len() > 0 {
        lemma_list_canonical(a.drop_last());
        if let (Some(l), Json::Object(inner)) = (list_conv(a.drop_last()), a.last()) {
            lemma_read_canonical(inner);
            let q = l.push(object_conv(inner));
            assert(q.drop_last() =~= l);
        }
    }
}

/// Every schema that reading JSON gives is canonical.
pub proof fn law_read_is_canonical(j: Json)
    requires
        schema_of(j) is Some,
    ensures
        canonical(schema_of(j)->0),
{
    if let Json::Object(m) = j {
        lemma_read_canonical(m);
    }
}

/// A schema read from JSON, written back as JSON and read again, is the
/// schema that was read.
pub proof fn law_read_write_read(j: Json)
    requires
        schema_of(j) is Some,
    ensures
        schema_of(schema_json(schema_of(j)->0)) == schema_of(j),
{
    law_read_is_canonical(j);
    law_canonical_round_trip(schema_of(j)->0);
}

/// A canonical schema, written as JSON and read back, is itself again.
pub proof fn law_canonical_round_trip(m: SchemaModel)
    requires
        canonical(m),
    ensures
        schema_of(schema_json(m)) == Some(m),
{
    lemma_schema_round_trip(m);
}

} // verus!
