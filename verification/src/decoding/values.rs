//! Configuration values read back from their encodings.

use vstd::prelude::*;
use crate::decoding::{lemma_str_prefix, lemma_tag, lemma_u64_prefix};
use crate::encode::{enc_str, enc_u64};
use crate::interfaces::{enc_opt_string_or, enc_string_or, StringOrModel};
use crate::values::{enc_entry_list, enc_value, enc_value_list, ValueModel};

verus! {

/// Every list in a value has a length that a `u64` holds.
pub open spec fn value_fits(v: ValueModel) -> bool
    decreases v,
{
    match v {
        ValueModel::Array(items) => items.len() <= u64::MAX && values_fit(items),
        ValueModel::Object(es) => es.len() <= u64::MAX && entries_fit(es),
        _ => true,
    }
}

/// Each value of a list fits.
pub open spec fn values_fit(vs: Seq<ValueModel>) -> bool
    decreases vs,
{
    if vs.len() == 0 {
        true
    } else {
        proof {
            assert(decreases_to!(vs => vs.subrange(1, vs.len() as int)));
        }
        value_fits(vs[0]) && values_fit(vs.drop_first())
    }
}

/// The value of each named value of a list fits.
pub open spec fn entries_fit(es: Seq<(Seq<char>, ValueModel)>) -> bool
    decreases es,
{
    if es.len() == 0 {
        true
    } else {
        proof {
            assert(decreases_to!(es => es.subrange(1, es.len() as int)));
            assert(decreases_to!(es => es[0]));
        }
        value_fits(es[0].1) && entries_fit(es.drop_first())
    }
}

spec fn string_or_tag(s: StringOrModel) -> u8 {
    match s {
        StringOrModel::EnvVar(_) => 0,
        StringOrModel::Value(_) => 1,
        StringOrModel::JinjaExpression(_) => 2,
    }
}

spec fn string_or_text(s: StringOrModel) -> Seq<char> {
    match s {
        StringOrModel::EnvVar(v) => v,
        StringOrModel::Value(v) => v,
        StringOrModel::JinjaExpression(v) => v,
    }
}

/// Two streams that agree and start with encoded `StringOr`s start with the
/// same one, and agree on what follows.
pub proof fn lemma_string_or_prefix(a: StringOrModel, b: StringOrModel, r1: Seq<u8>, r2: Seq<u8>)
    requires
        enc_string_or(a) + r1 == enc_string_or(b) + r2,
    ensures
        a == b,
        r1 == r2,
{
    assert(enc_string_or(a) + r1 =~= seq![string_or_tag(a)] + (enc_str(string_or_text(a)) + r1));
    assert(enc_string_or(b) + r2 =~= seq![string_or_tag(b)] + (enc_str(string_or_text(b)) + r2));
    lemma_tag(string_or_tag(a), string_or_tag(b), enc_str(string_or_text(a)) + r1, enc_str(string_or_text(b)) + r2);
    lemma_str_prefix(string_or_text(a), string_or_text(b), r1, r2);
}

/// Two streams that agree and start with encoded optional `StringOr`s start
/// with the same one, and agree on what follows.
pub proof fn lemma_opt_string_or_prefix(a: Option<StringOrModel>, b: Option<StringOrModel>, r1: Seq<u8>, r2: Seq<u8>)
    requires
        enc_opt_string_or(a) + r1 == enc_opt_string_or(b) + r2,
    ensures
        a == b,
        r1 == r2,
{
    let t1: u8 = if a is Some { 1 } else { 0 };
    let t2: u8 = if b is Some { 1 } else { 0 };
    let rest1 = match a {
        Some(x) => enc_string_or(x) + r1,
        None => r1,
    };
    let rest2 = match b {
        Some(x) => enc_string_or(x) + r2,
        None => r2,
    };
    assert(enc_opt_string_or(a) + r1 =~= seq![t1] + rest1);
    assert(enc_opt_string_or(b) + r2 =~= seq![t2] + rest2);
    lemma_tag(t1, t2, rest1, rest2);
    if a is Some {
        lemma_string_or_prefix(a->0, b->0, r1, r2);
    }
}

spec fn value_tag(v: ValueModel) -> u8 {
    match v {
        ValueModel::String(_) => 0,
        ValueModel::Numeric(_) => 1,
        ValueModel::Bool(_) => 2,
        ValueModel::Array(_) => 3,
        ValueModel::Object(_) => 4,
        ValueModel::Null => 5,
    }
}

proof fn lemma_value_head(a: ValueModel, b: ValueModel, r1: Seq<u8>, r2: Seq<u8>)
    requires
        enc_value(a) + r1 == enc_value(b) + r2,
    ensures
        value_tag(a) == value_tag(b),
        enc_value(a).drop_first() + r1 == enc_value(b).drop_first() + r2,
{
    assert(enc_value(a) =~= seq![value_tag(a)] + enc_value(a).drop_first());
    assert(enc_value(b) =~= seq![value_tag(b)] + enc_value(b).drop_first());
    assert(enc_value(a) + r1 =~= seq![value_tag(a)] + (enc_value(a).drop_first() + r1));
    assert(enc_value(b) + r2 =~= seq![value_tag(b)] + (enc_value(b).drop_first() + r2));
    lemma_tag(value_tag(a), value_tag(b), enc_value(a).drop_first() + r1, enc_value(b).drop_first() + r2);
}

/// The values without parts: strings, numbers, booleans and null.
proof fn lemma_scalar_prefix(a: ValueModel, b: ValueModel, r1: Seq<u8>, r2: Seq<u8>)
    requires
        !(a is Array || a is Object),
        value_tag(a) == value_tag(b),
        enc_value(a).drop_first() + r1 == enc_value(b).drop_first() + r2,
    ensures
        a == b,
        r1 == r2,
{
    match a {
        ValueModel::String(s1) => {
            let s2 = b->String_0;
            assert(enc_value(a).drop_first() =~= enc_string_or(s1));
            assert(enc_value(b).drop_first() =~= enc_string_or(s2));
            lemma_string_or_prefix(s1, s2, r1, r2);
        },
        ValueModel::Numeric(n1) => {
            let n2 = b->Numeric_0;
            assert(enc_value(a).drop_first() =~= enc_str(n1));
            assert(enc_value(b).drop_first() =~= enc_str(n2));
            lemma_str_prefix(n1, n2, r1, r2);
        },
        ValueModel::Bool(x1) => {
            let x2 = b->Bool_0;
            let t1 = if x1 { 1u8 } else { 0u8 };
            let t2 = if x2 { 1u8 } else { 0u8 };
            assert(enc_value(a).drop_first() + r1 =~= seq![t1] + r1);
            assert(enc_value(b).drop_first() + r2 =~= seq![t2] + r2);
            lemma_tag(t1, t2, r1, r2);
        },
        _ => {
            assert(enc_value(a).drop_first() + r1 =~= r1);
            assert(enc_value(b).drop_first() + r2 =~= r2);
        },
    }
}

proof fn lemma_array_unfold(a: ValueModel, b: ValueModel, r1: Seq<u8>, r2: Seq<u8>)
    requires
        a is Array,
        b is Array,
        value_fits(a),
        value_fits(b),
        enc_value(a).drop_first() + r1 == enc_value(b).drop_first() + r2,
    ensures
        a->Array_0.len() == b->Array_0.len(),
        values_fit(a->Array_0),
        values_fit(b->Array_0),
        enc_value_list(a->Array_0) + r1 == enc_value_list(b->Array_0) + r2,
{
    let (i1, i2) = (a->Array_0, b->Array_0);
    let c1 = enc_value_list(i1) + r1;
    let c2 = enc_value_list(i2) + r2;
    assert(enc_value(a).drop_first() + r1 =~= enc_u64(i1.len() as u64) + c1);
    assert(enc_value(b).drop_first() + r2 =~= enc_u64(i2.len() as u64) + c2);
    lemma_u64_prefix(i1.len() as u64, i2.len() as u64, c1, c2);
}

proof fn lemma_object_unfold(a: ValueModel, b: ValueModel, r1: Seq<u8>, r2: Seq<u8>)
    requires
        a is Object,
        b is Object,
        value_fits(a),
        value_fits(b),
        enc_value(a).drop_first() + r1 == enc_value(b).drop_first() + r2,
    ensures
        a->Object_0.len() == b->Object_0.len(),
        entries_fit(a->Object_0),
        entries_fit(b->Object_0),
        enc_entry_list(a->Object_0) + r1 == enc_entry_list(b->Object_0) + r2,
{
    let (e1, e2) = (a->Object_0, b->Object_0);
    let c1 = enc_entry_list(e1) + r1;
    let c2 = enc_entry_list(e2) + r2;
    assert(enc_value(a).drop_first() + r1 =~= enc_u64(e1.len() as u64) + c1);
    assert(enc_value(b).drop_first() + r2 =~= enc_u64(e2.len() as u64) + c2);
    lemma_u64_prefix(e1.len() as u64, e2.len() as u64, c1, c2);
}

proof fn lemma_value_list_front(vs: Seq<ValueModel>)
    requires
        vs.len() > 0,
    ensures
        enc_value_list(vs) == enc_value(vs[0]) + enc_value_list(vs.drop_first()),
    decreases vs.len(),
{
    if vs.len() == 1 {
        assert(vs.drop_first() =~= Seq::<ValueModel>::empty());
        assert(vs.drop_last() =~= Seq::<ValueModel>::empty());
        assert(enc_value_list(vs.drop_last()) =~= Seq::<u8>::empty());
        assert(vs.last() == vs[0]);
        assert(enc_value_list(vs) =~= enc_value(vs[0]));
    } else {
        let init = vs.drop_last();
        lemma_value_list_front(init);
        assert(vs.drop_first().drop_last() =~= init.drop_first());
        assert(vs.drop_first().last() == vs.last());
        assert(enc_value_list(vs) =~= enc_value(vs[0]) + enc_value_list(vs.drop_first()));
    }
}

proof fn lemma_entry_list_front(es: Seq<(Seq<char>, ValueModel)>)
    requires
        es.len() > 0,
    ensures
        enc_entry_list(es) == enc_str(es[0].0) + enc_value(es[0].1) + enc_entry_list(es.drop_first()),
    decreases es.len(),
{
    if es.len() == 1 {
        assert(es.drop_first() =~= Seq::<(Seq<char>, ValueModel)>::empty());
        assert(es.drop_last() =~= Seq::<(Seq<char>, ValueModel)>::empty());
        assert(enc_entry_list(es.drop_last()) =~= Seq::<u8>::empty());
        assert(es.last() == es[0]);
        assert(enc_entry_list(es) =~= enc_str(es[0].0) + enc_value(es[0].1));
    } else {
        let init = es.drop_last();
        lemma_entry_list_front(init);
        assert(es.drop_first().drop_last() =~= init.drop_first());
        assert(es.drop_first().last() == es.last());
        assert(enc_entry_list(es) =~= enc_str(es[0].0) + enc_value(es[0].1) + enc_entry_list(es.drop_first()));
    }
}

/// Two streams that agree and start with encoded values start with the same
/// value, and agree on what follows.
pub proof fn lemma_value_prefix(a: ValueModel, b: ValueModel, r1: Seq<u8>, r2: Seq<u8>)
    requires
        value_fits(a),
        value_fits(b),
        enc_value(a) + r1 == enc_value(b) + r2,
    ensures
        a == b,
        r1 == r2,
    decreases a,
{
    lemma_value_head(a, b, r1, r2);
    match a {
        ValueModel::Array(i1) => {
            let i2 = b->Array_0;
            lemma_array_unfold(a, b, r1, r2);
            lemma_value_list_prefix(i1, i2, r1, r2);
        },
        ValueModel::Object(e1) => {
            let e2 = b->Object_0;
            lemma_object_unfold(a, b, r1, r2);
            lemma_entry_list_prefix(e1, e2, r1, r2);
        },
        _ => lemma_scalar_prefix(a, b, r1, r2),
    }
}

/// Two streams that agree and start with as many encoded values start with
/// the same values, and agree on what follows.
pub proof fn lemma_value_list_prefix(vs1: Seq<ValueModel>, vs2: Seq<ValueModel>, r1: Seq<u8>, r2: Seq<u8>)
    requires
        vs1.len() == vs2.len(),
        values_fit(vs1),
        values_fit(vs2),
        enc_value_list(vs1) + r1 == enc_value_list(vs2) + r2,
    ensures
        vs1 == vs2,
        r1 == r2,
    decreases vs1,
{
    if vs1.len() == 0 {
        assert(enc_value_list(vs1) + r1 =~= r1);
        assert(enc_value_list(vs2) + r2 =~= r2);
        assert(vs1 =~= vs2);
    } else {
        lemma_value_list_front(vs1);
        lemma_value_list_front(vs2);
        let t1 = vs1.drop_first();
        let t2 = vs2.drop_first();
        assert(enc_value_list(vs1) + r1 =~= enc_value(vs1[0]) + (enc_value_list(t1) + r1));
        assert(enc_value_list(vs2) + r2 =~= enc_value(vs2[0]) + (enc_value_list(t2) + r2));
        lemma_value_prefix(vs1[0], vs2[0], enc_value_list(t1) + r1, enc_value_list(t2) + r2);
        assert(decreases_to!(vs1 => vs1.subrange(1, vs1.len() as int)));
        lemma_value_list_prefix(t1, t2, r1, r2);
        assert(vs1 =~= seq![vs1[0]] + t1);
        assert(vs2 =~= seq![vs2[0]] + t2);
    }
}

/// Two streams that agree and start with as many encoded named values start
/// with the same named values, and agree on what follows.
pub proof fn lemma_entry_list_prefix(
    es1: Seq<(Seq<char>, ValueModel)>,
    es2: Seq<(Seq<char>, ValueModel)>,
    r1: Seq<u8>,
    r2: Seq<u8>,
)
    requires
        es1.len() == es2.len(),
        entries_fit(es1),
        entries_fit(es2),
        enc_entry_list(es1) + r1 == enc_entry_list(es2) + r2,
    ensures
        es1 == es2,
        r1 == r2,
    decreases es1,
{
    if es1.len() == 0 {
        assert(enc_entry_list(es1) + r1 =~= r1);
        assert(enc_entry_list(es2) + r2 =~= r2);
        assert(es1 =~= es2);
    } else {
        lemma_entry_list_front(es1);
        lemma_entry_list_front(es2);
        let t1 = es1.drop_first();
        let t2 = es2.drop_first();
        let c1 = enc_value(es1[0].1) + (enc_entry_list(t1) + r1);
        let c2 = enc_value(es2[0].1) + (enc_entry_list(t2) + r2);
        assert(enc_entry_list(es1) + r1 =~= enc_str(es1[0].0) + c1);
        assert(enc_entry_list(es2) + r2 =~= enc_str(es2[0].0) + c2);
        lemma_str_prefix(es1[0].0, es2[0].0, c1, c2);
        assert(decreases_to!(es1 => es1[0]));
        lemma_value_prefix(es1[0].1, es2[0].1, enc_entry_list(t1) + r1, enc_entry_list(t2) + r2);
        assert(decreases_to!(es1 => es1.subrange(1, es1.len() as int)));
        lemma_entry_list_prefix(t1, t2, r1, r2);
        assert(es1[0] == es2[0]);
        assert(es1 =~= seq![es1[0]] + t1);
        assert(es2 =~= seq![es2[0]] + t2);
    }
}

} // verus!
