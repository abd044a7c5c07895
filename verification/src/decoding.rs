//! The encodings that hashes are taken of can be read back: two streams
//! that agree were made from values that agree in everything an interface
//! holds.  So, short of a collision of the digest, a change that reaches an
//! interface changes its hash.

pub mod values;

use vstd::prelude::*;
use vstd::utf8::*;
use crate::encode::{enc_bool, enc_str, enc_u64, le_bytes};
use crate::type_rpc::{
    enc_children, enc_constraint, enc_constraints, enc_literal, enc_meta, enc_mode_if, enc_opt_str, enc_rpc, enc_type,
    enc_type_value,
};
use crate::ast::class::field_interfaces;
use crate::ast::function::params_interface;
use crate::ast::retry_policy::{enc_strategy, RetryPolicyStrategy};
use crate::sorting::{lemma_sort_typed_multiset, sort_typed};
use crate::interfaces::{
    effective_alias, enc_opt_string_or, enc_source, renderable_implementation, typed_implementation, typed_interface,
    RenderModel, TypedModel,
};
use crate::decoding::values::lemma_opt_string_or_prefix;
use crate::types::{ConstraintLevel, ConstraintModel, LiteralModel, StreamingMode, TypeModel, TypeValue};

verus! {

/// Streams that agree and start with parts of equal length agree on those
/// parts and on what follows.
pub proof fn lemma_split_eq(a: Seq<u8>, r1: Seq<u8>, b: Seq<u8>, r2: Seq<u8>)
    requires
        a + r1 == b + r2,
        a.len() == b.len(),
    ensures
        a == b,
        r1 == r2,
{
    assert(a =~= (a + r1).subrange(0, a.len() as int));
    assert(b =~= (b + r2).subrange(0, b.len() as int));
    assert(r1 =~= (a + r1).subrange(a.len() as int, (a + r1).len() as int));
    assert(r2 =~= (b + r2).subrange(b.len() as int, (b + r2).len() as int));
}

/// One tag byte each.
pub proof fn lemma_tag(t1: u8, t2: u8, r1: Seq<u8>, r2: Seq<u8>)
    requires
        seq![t1] + r1 == seq![t2] + r2,
    ensures
        t1 == t2,
        r1 == r2,
{
    lemma_split_eq(seq![t1], r1, seq![t2], r2);
    assert(seq![t1][0] == seq![t2][0]);
}

proof fn lemma_scalar_no_ff(c: u32)
    ensures
        forall|i: int| 0 <= i < encode_scalar(c).len() ==> #[trigger] encode_scalar(c)[i] != 0xffu8,
{
    assert(leading_byte_width_1(c) != 0xffu8) by (bit_vector);
    assert(leading_byte_width_2(c) != 0xffu8) by (bit_vector);
    assert(leading_byte_width_3(c) != 0xffu8) by (bit_vector);
    assert(leading_byte_width_4(c) != 0xffu8) by (bit_vector);
    assert(last_continuation_byte(c) != 0xffu8) by (bit_vector);
    assert(second_last_continuation_byte(c) != 0xffu8) by (bit_vector);
    assert(third_last_continuation_byte(c) != 0xffu8) by (bit_vector);
}

/// UTF-8 never uses the byte `0xff`.
pub proof fn lemma_utf8_no_ff(s: Seq<char>)
    ensures
        forall|i: int| 0 <= i < encode_utf8(s).len() ==> #[trigger] encode_utf8(s)[i] != 0xffu8,
    decreases s.len(),
{
    if s.len() > 0 {
        lemma_scalar_no_ff(s[0] as u32);
        lemma_utf8_no_ff(s.drop_first());
        let a = encode_scalar(s[0] as u32);
        let b = encode_utf8(s.drop_first());
        assert(encode_utf8(s) == a + b);
        assert forall|i: int| 0 <= i < encode_utf8(s).len() implies #[trigger] encode_utf8(s)[i] != 0xffu8 by {
            if i < a.len() {
                assert(encode_utf8(s)[i] == a[i]);
            } else {
                assert(encode_utf8(s)[i] == b[i - a.len()]);
            }
        }
    }
}

/// A string's encoding ends where its first `0xff` is: two streams that
/// agree and start with encoded strings start with the same string.
pub proof fn lemma_str_prefix(a: Seq<char>, b: Seq<char>, r1: Seq<u8>, r2: Seq<u8>)
    requires
        enc_str(a) + r1 == enc_str(b) + r2,
    ensures
        a == b,
        r1 == r2,
{
    let ea = encode_utf8(a);
    let eb = encode_utf8(b);
    let s = enc_str(a) + r1;
    lemma_utf8_no_ff(a);
    lemma_utf8_no_ff(b);
    if ea.len() < eb.len() {
        assert(s[ea.len() as int] == 0xffu8);
        assert((enc_str(b) + r2)[ea.len() as int] == eb[ea.len() as int]);
        assert(false);
    }
    if eb.len() < ea.len() {
        assert((enc_str(b) + r2)[eb.len() as int] == 0xffu8);
        assert(s[eb.len() as int] == ea[eb.len() as int]);
        assert(false);
    }
    lemma_split_eq(enc_str(a), r1, enc_str(b), r2);
    assert(ea =~= enc_str(a).subrange(0, ea.len() as int));
    assert(eb =~= enc_str(b).subrange(0, eb.len() as int));
    encode_utf8_decode_utf8(a);
    encode_utf8_decode_utf8(b);
}

/// `256` to the power `n`: `n` little-endian bytes tell apart the numbers below it.
pub open spec fn byte_bound(n: nat) -> nat
    decreases n,
{
    if n == 0 {
        1
    } else {
        256 * byte_bound((n - 1) as nat)
    }
}

proof fn lemma_le_bytes_len(x: nat, n: nat)
    ensures
        le_bytes(x, n).len() == n,
    decreases n,
{
    if n > 0 {
        lemma_le_bytes_len(x / 256, (n - 1) as nat);
    }
}

proof fn lemma_le_bytes_injective(x: nat, y: nat, n: nat)
    requires
        le_bytes(x, n) == le_bytes(y, n),
        x < byte_bound(n),
        y < byte_bound(n),
    ensures
        x == y,
    decreases n,
{
    if n > 0 {
        lemma_le_bytes_len(x / 256, (n - 1) as nat);
        lemma_le_bytes_len(y / 256, (n - 1) as nat);
        let bx = seq![(x % 256) as u8];
        let by = seq![(y % 256) as u8];
        lemma_split_eq(bx, le_bytes(x / 256, (n - 1) as nat), by, le_bytes(y / 256, (n - 1) as nat));
        assert(bx[0] == by[0]);
        assert(x % 256 == y % 256);
        let b = byte_bound((n - 1) as nat);
        assert(x / 256 < b) by (nonlinear_arith)
            requires
                x < 256 * b,
        ;
        assert(y / 256 < b) by (nonlinear_arith)
            requires
                y < 256 * b,
        ;
        lemma_le_bytes_injective(x / 256, y / 256, (n - 1) as nat);
        assert(x == 256 * (x / 256) + x % 256);
        assert(y == 256 * (y / 256) + y % 256);
    }
}

/// Two streams that agree and start with encoded `u64`s start with the same
/// number.
pub proof fn lemma_u64_prefix(x: u64, y: u64, r1: Seq<u8>, r2: Seq<u8>)
    requires
        enc_u64(x) + r1 == enc_u64(y) + r2,
    ensures
        x == y,
        r1 == r2,
{
    lemma_le_bytes_len(x as nat, 8);
    lemma_le_bytes_len(y as nat, 8);
    lemma_split_eq(enc_u64(x), r1, enc_u64(y), r2);
    assert(byte_bound(8) == 0x1_0000_0000_0000_0000) by {
        reveal_with_fuel(byte_bound, 9);
    }
    lemma_le_bytes_injective(x as nat, y as nat, 8);
}

/// Two streams that agree and start with encoded booleans start with the
/// same boolean.
pub proof fn lemma_bool_prefix(a: bool, b: bool, r1: Seq<u8>, r2: Seq<u8>)
    requires
        enc_bool(a) + r1 == enc_bool(b) + r2,
    ensures
        a == b,
        r1 == r2,
{
    lemma_split_eq(enc_bool(a), r1, enc_bool(b), r2);
    assert(enc_bool(a)[0] == enc_bool(b)[0]);
}

/// Two streams that agree and start with encoded optional strings start
/// with the same optional string.
pub proof fn lemma_opt_str_prefix(a: Option<Seq<char>>, b: Option<Seq<char>>, r1: Seq<u8>, r2: Seq<u8>)
    requires
        enc_opt_str(a) + r1 == enc_opt_str(b) + r2,
    ensures
        a == b,
        r1 == r2,
{
    let t1: u8 = if a is Some { 1 } else { 0 };
    let t2: u8 = if b is Some { 1 } else { 0 };
    let rest1 = match a {
        Some(x) => enc_str(x) + r1,
        None => r1,
    };
    let rest2 = match b {
        Some(x) => enc_str(x) + r2,
        None => r2,
    };
    assert(enc_opt_str(a) + r1 =~= seq![t1] + rest1);
    assert(enc_opt_str(b) + r2 =~= seq![t2] + rest2);
    lemma_tag(t1, t2, rest1, rest2);
    if a is Some {
        lemma_str_prefix(a->0, b->0, r1, r2);
    }
}

/// A constraint as a type hashed on its own holds it: its level left out.
pub open spec fn constraint_form(c: ConstraintModel) -> ConstraintModel {
    ConstraintModel { level: ConstraintLevel::Assert, expression: c.expression, label: c.label }
}

/// The constraints of a type hashed on its own, each without its level.
pub open spec fn meta_form(cs: Seq<ConstraintModel>) -> Seq<ConstraintModel> {
    cs.map_values(|c: ConstraintModel| constraint_form(c))
}

/// The constraints as a type holds them, whole or on its own.
pub open spec fn meta_as(cs: Seq<ConstraintModel>, whole: bool) -> Seq<ConstraintModel> {
    if whole {
        cs
    } else {
        meta_form(cs)
    }
}

proof fn lemma_constraints_front(cs: Seq<ConstraintModel>, whole: bool)
    requires
        cs.len() > 0,
    ensures
        enc_constraints(cs, whole) == enc_constraint(cs[0], whole) + enc_constraints(cs.drop_first(), whole),
    decreases cs.len(),
{
    if cs.len() == 1 {
        assert(cs.drop_first() =~= Seq::<ConstraintModel>::empty());
        assert(cs.drop_last() =~= Seq::<ConstraintModel>::empty());
        assert(enc_constraints(cs.drop_last(), whole) =~= Seq::<u8>::empty());
        assert(cs.last() == cs[0]);
        assert(enc_constraints(cs, whole) =~= enc_constraint(cs[0], whole));
    } else {
        let init = cs.drop_last();
        lemma_constraints_front(init, whole);
        assert(cs.drop_first().drop_last() =~= init.drop_first());
        assert(cs.drop_first().last() == cs.last());
        assert(enc_constraints(cs, whole) =~= enc_constraint(cs[0], whole) + enc_constraints(cs.drop_first(), whole));
    }
}

/// The stream after a list of constraints and its end byte, by its first
/// byte.
proof fn lemma_meta_head(cs: Seq<ConstraintModel>, whole: bool, r: Seq<u8>)
    ensures
        cs.len() == 0 ==> enc_meta(cs, whole) + r == seq![0u8] + r,
        cs.len() > 0 ==> enc_meta(cs, whole) + r == seq![1u8] + (enc_constraint(cs[0], whole).drop_first() + (enc_meta(
            cs.drop_first(),
            whole,
        ) + r)),
{
    if cs.len() == 0 {
        assert(enc_meta(cs, whole) + r =~= seq![0u8] + r);
    } else {
        lemma_constraints_front(cs, whole);
        assert(enc_constraint(cs[0], whole) =~= seq![1u8] + enc_constraint(cs[0], whole).drop_first());
        assert(enc_meta(cs, whole) + r =~= seq![1u8] + (enc_constraint(cs[0], whole).drop_first() + (enc_meta(
            cs.drop_first(),
            whole,
        ) + r)));
    }
}

/// Two streams that agree and start with one encoded constraint each, past
/// its marker byte, start with the same constraint, levels aside where not
/// whole.
proof fn lemma_constraint_body_prefix(a: ConstraintModel, b: ConstraintModel, whole: bool, r1: Seq<u8>, r2: Seq<u8>)
    requires
        enc_constraint(a, whole).drop_first() + r1 == enc_constraint(b, whole).drop_first() + r2,
    ensures
        whole ==> a == b,
        constraint_form(a) == constraint_form(b),
        r1 == r2,
{
    let t1 = enc_opt_str(a.label) + (enc_str(a.expression) + r1);
    let t2 = enc_opt_str(b.label) + (enc_str(b.expression) + r2);
    if whole {
        let l1: u8 = if a.level is Check { 0 } else { 1 };
        let l2: u8 = if b.level is Check { 0 } else { 1 };
        assert(enc_constraint(a, whole).drop_first() + r1 =~= seq![l1] + t1);
        assert(enc_constraint(b, whole).drop_first() + r2 =~= seq![l2] + t2);
        lemma_tag(l1, l2, t1, t2);
    } else {
        assert(enc_constraint(a, whole).drop_first() + r1 =~= t1);
        assert(enc_constraint(b, whole).drop_first() + r2 =~= t2);
    }
    lemma_opt_str_prefix(a.label, b.label, enc_str(a.expression) + r1, enc_str(b.expression) + r2);
    lemma_str_prefix(a.expression, b.expression, r1, r2);
}

/// Two streams that agree and start with encoded metadata start with the
/// same constraints, levels aside where not whole.
pub proof fn lemma_meta_prefix(m1: Seq<ConstraintModel>, m2: Seq<ConstraintModel>, whole: bool, r1: Seq<u8>, r2: Seq<u8>)
    requires
        enc_meta(m1, whole) + r1 == enc_meta(m2, whole) + r2,
    ensures
        meta_as(m1, whole) == meta_as(m2, whole),
        r1 == r2,
    decreases m1.len(),
{
    lemma_meta_head(m1, whole, r1);
    lemma_meta_head(m2, whole, r2);
    if m1.len() == 0 && m2.len() == 0 {
        lemma_tag(0u8, 0u8, r1, r2);
        assert(m1 =~= m2);
        assert(meta_form(m1) =~= meta_form(m2));
    } else if m1.len() == 0 {
        let rest2 = enc_constraint(m2[0], whole).drop_first() + (enc_meta(m2.drop_first(), whole) + r2);
        lemma_tag(0u8, 1u8, r1, rest2);
    } else if m2.len() == 0 {
        let rest1 = enc_constraint(m1[0], whole).drop_first() + (enc_meta(m1.drop_first(), whole) + r1);
        lemma_tag(1u8, 0u8, rest1, r2);
    } else {
        let t1 = enc_meta(m1.drop_first(), whole) + r1;
        let t2 = enc_meta(m2.drop_first(), whole) + r2;
        lemma_tag(1u8, 1u8, enc_constraint(m1[0], whole).drop_first() + t1, enc_constraint(m2[0], whole).drop_first() + t2);
        lemma_constraint_body_prefix(m1[0], m2[0], whole, t1, t2);
        lemma_meta_prefix(m1.drop_first(), m2.drop_first(), whole, r1, r2);
        if whole {
            assert(m1 =~= seq![m1[0]] + m1.drop_first());
            assert(m2 =~= seq![m2[0]] + m2.drop_first());
        } else {
            assert(meta_form(m1) =~= seq![constraint_form(m1[0])] + meta_form(m1.drop_first()));
            assert(meta_form(m2) =~= seq![constraint_form(m2[0])] + meta_form(m2.drop_first()));
        }
    }
}

/// Two streams that agree and start with encoded literals start with the
/// same literal.
pub proof fn lemma_literal_prefix(a: LiteralModel, b: LiteralModel, r1: Seq<u8>, r2: Seq<u8>)
    requires
        enc_literal(a) + r1 == enc_literal(b) + r2,
    ensures
        a == b,
        r1 == r2,
{
    let t1: u8 = match a {
        LiteralModel::String(_) => 0,
        LiteralModel::Int(_) => 1,
        LiteralModel::Bool(_) => 2,
    };
    let t2: u8 = match b {
        LiteralModel::String(_) => 0,
        LiteralModel::Int(_) => 1,
        LiteralModel::Bool(_) => 2,
    };
    let rest1 = match a {
        LiteralModel::String(s) => enc_str(s) + r1,
        LiteralModel::Int(i) => enc_u64(i as u64) + r1,
        LiteralModel::Bool(x) => enc_bool(x) + r1,
    };
    let rest2 = match b {
        LiteralModel::String(s) => enc_str(s) + r2,
        LiteralModel::Int(i) => enc_u64(i as u64) + r2,
        LiteralModel::Bool(x) => enc_bool(x) + r2,
    };
    assert(enc_literal(a) + r1 =~= seq![t1] + rest1);
    assert(enc_literal(b) + r2 =~= seq![t2] + rest2);
    lemma_tag(t1, t2, rest1, rest2);
    match a {
        LiteralModel::String(s) => {
            lemma_str_prefix(s, b->String_0, r1, r2);
        },
        LiteralModel::Int(i) => {
            let j = b->Int_0;
            lemma_u64_prefix(i as u64, j as u64, r1, r2);
            assert(i == j) by (bit_vector)
                requires
                    i as u64 == j as u64,
            ;
        },
        LiteralModel::Bool(x) => {
            lemma_bool_prefix(x, b->Bool_0, r1, r2);
        },
    }
}

/// Two streams that agree and start with encoded primitive kinds start with
/// the same kind.
pub proof fn lemma_type_value_prefix(a: TypeValue, b: TypeValue, r1: Seq<u8>, r2: Seq<u8>)
    requires
        enc_type_value(a) + r1 == enc_type_value(b) + r2,
    ensures
        a == b,
        r1 == r2,
{
    lemma_split_eq(enc_type_value(a), r1, enc_type_value(b), r2);
    assert(enc_type_value(a)[0] == enc_type_value(b)[0]);
}

/// What of a type hashed on its own its encoding holds: all but its own
/// streaming mode and its constraints' levels.  The types it is made of are
/// held whole.
pub open spec fn interface_form(t: TypeModel) -> TypeModel {
    match t {
        TypeModel::Primitive(v, m) => TypeModel::Primitive(v, meta_form(m)),
        TypeModel::Enum { name, dynamic, meta } => TypeModel::Enum { name, dynamic, meta: meta_form(meta) },
        TypeModel::Literal(l, m) => TypeModel::Literal(l, meta_form(m)),
        TypeModel::Class { name, mode: _, dynamic, meta } => TypeModel::Class {
            name,
            mode: StreamingMode::NonStreaming,
            dynamic,
            meta: meta_form(meta),
        },
        TypeModel::List(x, m) => TypeModel::List(x, meta_form(m)),
        TypeModel::MapOf(k, v, m) => TypeModel::MapOf(k, v, meta_form(m)),
        TypeModel::Tuple(ts, m) => TypeModel::Tuple(ts, meta_form(m)),
        TypeModel::Arrow(ps, r, m) => TypeModel::Arrow(ps, r, meta_form(m)),
        TypeModel::Union(ts, m) => TypeModel::Union(ts, meta_form(m)),
        TypeModel::RecursiveTypeAlias { name, mode: _, meta } => TypeModel::RecursiveTypeAlias {
            name,
            mode: StreamingMode::NonStreaming,
            meta: meta_form(meta),
        },
    }
}

/// What of a type its encoding holds: all of it where whole, else its
/// interface form.
pub open spec fn form_as(t: TypeModel, whole: bool) -> TypeModel {
    if whole {
        t
    } else {
        interface_form(t)
    }
}

/// Every list in a type has a length that a `u64` holds, as every list
/// that a program can build has.
pub open spec fn fits(t: TypeModel) -> bool
    decreases t,
{
    match t {
        TypeModel::List(x, _) => fits(*x),
        TypeModel::MapOf(k, v, _) => fits(*k) && fits(*v),
        TypeModel::Tuple(ts, _) => ts.len() <= u64::MAX && fits_children(ts),
        TypeModel::Arrow(ps, r, _) => ps.len() <= u64::MAX && fits_children(ps) && fits(*r),
        TypeModel::Union(ts, _) => ts.len() <= u64::MAX && fits_children(ts),
        _ => true,
    }
}

/// Each type of a list fits.
pub open spec fn fits_children(ts: Seq<TypeModel>) -> bool
    decreases ts,
{
    if ts.len() == 0 {
        true
    } else {
        proof {
            assert(decreases_to!(ts => ts.subrange(1, ts.len() as int)));
        }
        fits(ts[0]) && fits_children(ts.drop_first())
    }
}

/// The first byte of a type's encoding, one for each kind of type.
pub open spec fn type_tag(t: TypeModel) -> u8 {
    match t {
        TypeModel::Primitive(..) => 1,
        TypeModel::Enum { .. } => 2,
        TypeModel::Literal(..) => 3,
        TypeModel::Class { .. } => 4,
        TypeModel::List(..) => 5,
        TypeModel::MapOf(..) => 6,
        TypeModel::Tuple(..) => 7,
        TypeModel::Arrow(..) => 8,
        TypeModel::Union(..) => 9,
        TypeModel::RecursiveTypeAlias { .. } => 10,
    }
}

proof fn lemma_type_tag(t: TypeModel, whole: bool)
    ensures
        enc_rpc(t, whole) == seq![type_tag(t)] + enc_rpc(t, whole).drop_first(),
{
    assert(enc_rpc(t, whole) =~= seq![type_tag(t)] + enc_rpc(t, whole).drop_first());
}

proof fn lemma_children_front(ts: Seq<TypeModel>)
    requires
        ts.len() > 0,
    ensures
        enc_children(ts) == enc_rpc(ts[0], true) + enc_children(ts.drop_first()),
    decreases ts.len(),
{
    if ts.len() == 1 {
        assert(ts.drop_first() =~= Seq::<TypeModel>::empty());
        assert(ts.drop_last() =~= Seq::<TypeModel>::empty());
        assert(enc_children(ts.drop_last()) =~= Seq::<u8>::empty());
        assert(enc_children(ts.drop_first()) =~= Seq::<u8>::empty());
        assert(enc_children(ts) =~= enc_rpc(ts[0], true));
    } else {
        let init = ts.drop_last();
        lemma_children_front(init);
        assert(ts.drop_first().drop_last() =~= init.drop_first());
        assert(ts.drop_first().last() == ts.last());
        assert(init[0] == ts[0]);
        assert(enc_children(ts) =~= enc_rpc(ts[0], true) + enc_children(ts.drop_first()));
    }
}

proof fn lemma_children_prefix(ts1: Seq<TypeModel>, ts2: Seq<TypeModel>, r1: Seq<u8>, r2: Seq<u8>)
    requires
        ts1.len() == ts2.len(),
        fits_children(ts1),
        fits_children(ts2),
        enc_children(ts1) + r1 == enc_children(ts2) + r2,
    ensures
        ts1 == ts2,
        r1 == r2,
    decreases ts1,
{
    if ts1.len() == 0 {
        assert(enc_children(ts1) + r1 =~= r1);
        assert(enc_children(ts2) + r2 =~= r2);
        assert(ts1 =~= ts2);
    } else {
        lemma_children_front(ts1);
        lemma_children_front(ts2);
        let t1 = ts1.drop_first();
        let t2 = ts2.drop_first();
        assert(enc_children(ts1) + r1 =~= enc_rpc(ts1[0], true) + (enc_children(t1) + r1));
        assert(enc_children(ts2) + r2 =~= enc_rpc(ts2[0], true) + (enc_children(t2) + r2));
        lemma_type_prefix(ts1[0], ts2[0], true, enc_children(t1) + r1, enc_children(t2) + r2);
        assert(decreases_to!(ts1 => ts1.subrange(1, ts1.len() as int)));
        lemma_children_prefix(t1, t2, r1, r2);
        assert(ts1 =~= seq![ts1[0]] + t1);
        assert(ts2 =~= seq![ts2[0]] + t2);
    }
}

/// Streams that agree and start with encoded types start with the same tag,
/// and agree after it.
proof fn lemma_type_head(a: TypeModel, b: TypeModel, whole: bool, r1: Seq<u8>, r2: Seq<u8>)
    requires
        enc_rpc(a, whole) + r1 == enc_rpc(b, whole) + r2,
    ensures
        type_tag(a) == type_tag(b),
        enc_rpc(a, whole).drop_first() + r1 == enc_rpc(b, whole).drop_first() + r2,
{
    lemma_type_tag(a, whole);
    lemma_type_tag(b, whole);
    assert(enc_rpc(a, whole) + r1 =~= seq![type_tag(a)] + (enc_rpc(a, whole).drop_first() + r1));
    assert(enc_rpc(b, whole) + r2 =~= seq![type_tag(b)] + (enc_rpc(b, whole).drop_first() + r2));
    lemma_tag(type_tag(a), type_tag(b), enc_rpc(a, whole).drop_first() + r1, enc_rpc(b, whole).drop_first() + r2);
}

/// Two streams that agree and start with encoded streaming modes, where
/// whole, start with the same mode.
proof fn lemma_mode_prefix(a: StreamingMode, b: StreamingMode, whole: bool, r1: Seq<u8>, r2: Seq<u8>)
    requires
        enc_mode_if(a, whole) + r1 == enc_mode_if(b, whole) + r2,
    ensures
        whole ==> a == b,
        r1 == r2,
{
    if whole {
        let t1: u8 = if a is NonStreaming { 0 } else { 1 };
        let t2: u8 = if b is NonStreaming { 0 } else { 1 };
        assert(enc_mode_if(a, whole) + r1 =~= seq![t1] + r1);
        assert(enc_mode_if(b, whole) + r2 =~= seq![t2] + r2);
        lemma_tag(t1, t2, r1, r2);
    } else {
        assert(enc_mode_if(a, whole) + r1 =~= r1);
        assert(enc_mode_if(b, whole) + r2 =~= r2);
    }
}

proof fn lemma_primitive_prefix(a: TypeModel, b: TypeModel, whole: bool, r1: Seq<u8>, r2: Seq<u8>)
    requires
        a is Primitive,
        b is Primitive,
        enc_rpc(a, whole) + r1 == enc_rpc(b, whole) + r2,
    ensures
        form_as(a, whole) == form_as(b, whole),
        r1 == r2,
{
    let (v1, m1) = (a->Primitive_0, a->Primitive_1);
    let (v2, m2) = (b->Primitive_0, b->Primitive_1);
    assert(enc_rpc(a, whole) + r1 =~= seq![1u8] + (enc_type_value(v1) + (enc_meta(m1, whole) + r1)));
    assert(enc_rpc(b, whole) + r2 =~= seq![1u8] + (enc_type_value(v2) + (enc_meta(m2, whole) + r2)));
    lemma_tag(1u8, 1u8, enc_type_value(v1) + (enc_meta(m1, whole) + r1), enc_type_value(v2) + (enc_meta(m2, whole) + r2));
    lemma_type_value_prefix(v1, v2, enc_meta(m1, whole) + r1, enc_meta(m2, whole) + r2);
    lemma_meta_prefix(m1, m2, whole, r1, r2);
}

proof fn lemma_enum_prefix(a: TypeModel, b: TypeModel, whole: bool, r1: Seq<u8>, r2: Seq<u8>)
    requires
        a is Enum,
        b is Enum,
        enc_rpc(a, whole) + r1 == enc_rpc(b, whole) + r2,
    ensures
        form_as(a, whole) == form_as(b, whole),
        r1 == r2,
{
    let (n1, d1, m1) = (a->Enum_name, a->Enum_dynamic, a->Enum_meta);
    let (n2, d2, m2) = (b->Enum_name, b->Enum_dynamic, b->Enum_meta);
    let t1 = enc_bool(d1) + (enc_meta(m1, whole) + r1);
    let t2 = enc_bool(d2) + (enc_meta(m2, whole) + r2);
    assert(enc_rpc(a, whole) + r1 =~= seq![2u8] + (enc_str(n1) + t1));
    assert(enc_rpc(b, whole) + r2 =~= seq![2u8] + (enc_str(n2) + t2));
    lemma_tag(2u8, 2u8, enc_str(n1) + t1, enc_str(n2) + t2);
    lemma_str_prefix(n1, n2, t1, t2);
    lemma_bool_prefix(d1, d2, enc_meta(m1, whole) + r1, enc_meta(m2, whole) + r2);
    lemma_meta_prefix(m1, m2, whole, r1, r2);
}

proof fn lemma_literal_type_prefix(a: TypeModel, b: TypeModel, whole: bool, r1: Seq<u8>, r2: Seq<u8>)
    requires
        a is Literal,
        b is Literal,
        enc_rpc(a, whole) + r1 == enc_rpc(b, whole) + r2,
    ensures
        form_as(a, whole) == form_as(b, whole),
        r1 == r2,
{
    let (l1, m1) = (a->Literal_0, a->Literal_1);
    let (l2, m2) = (b->Literal_0, b->Literal_1);
    assert(enc_rpc(a, whole) + r1 =~= seq![3u8] + (enc_literal(l1) + (enc_meta(m1, whole) + r1)));
    assert(enc_rpc(b, whole) + r2 =~= seq![3u8] + (enc_literal(l2) + (enc_meta(m2, whole) + r2)));
    lemma_tag(3u8, 3u8, enc_literal(l1) + (enc_meta(m1, whole) + r1), enc_literal(l2) + (enc_meta(m2, whole) + r2));
    lemma_literal_prefix(l1, l2, enc_meta(m1, whole) + r1, enc_meta(m2, whole) + r2);
    lemma_meta_prefix(m1, m2, whole, r1, r2);
}

#[verifier::spinoff_prover]
proof fn lemma_class_unfold(a: TypeModel, b: TypeModel, whole: bool, r1: Seq<u8>, r2: Seq<u8>)
    requires
        a is Class,
        b is Class,
        enc_rpc(a, whole) + r1 == enc_rpc(b, whole) + r2,
    ensures
        enc_str(a->Class_name) + (enc_mode_if(a->Class_mode, whole) + (enc_bool(a->Class_dynamic) + (enc_meta(
            a->Class_meta,
            whole,
        ) + r1))) == enc_str(b->Class_name) + (enc_mode_if(b->Class_mode, whole) + (enc_bool(b->Class_dynamic) + (
        enc_meta(b->Class_meta, whole) + r2))),
{
    let e1 = enc_str(a->Class_name) + (enc_mode_if(a->Class_mode, whole) + (enc_bool(a->Class_dynamic) + enc_meta(
        a->Class_meta,
        whole,
    )));
    let e2 = enc_str(b->Class_name) + (enc_mode_if(b->Class_mode, whole) + (enc_bool(b->Class_dynamic) + enc_meta(
        b->Class_meta,
        whole,
    )));
    let t1 = enc_str(a->Class_name) + (enc_mode_if(a->Class_mode, whole) + (enc_bool(a->Class_dynamic) + (enc_meta(
        a->Class_meta,
        whole,
    ) + r1)));
    let t2 = enc_str(b->Class_name) + (enc_mode_if(b->Class_mode, whole) + (enc_bool(b->Class_dynamic) + (enc_meta(
        b->Class_meta,
        whole,
    ) + r2)));
    assert(enc_rpc(a, whole) =~= seq![4u8] + e1);
    assert(enc_rpc(b, whole) =~= seq![4u8] + e2);
    assert(e1 + r1 =~= t1);
    assert(e2 + r2 =~= t2);
    assert(enc_rpc(a, whole) + r1 =~= seq![4u8] + t1);
    assert(enc_rpc(b, whole) + r2 =~= seq![4u8] + t2);
    lemma_tag(4u8, 4u8, t1, t2);
}

proof fn lemma_class_prefix(a: TypeModel, b: TypeModel, whole: bool, r1: Seq<u8>, r2: Seq<u8>)
    requires
        a is Class,
        b is Class,
        enc_rpc(a, whole) + r1 == enc_rpc(b, whole) + r2,
    ensures
        form_as(a, whole) == form_as(b, whole),
        r1 == r2,
{
    let (n1, o1, d1, m1) = (a->Class_name, a->Class_mode, a->Class_dynamic, a->Class_meta);
    let (n2, o2, d2, m2) = (b->Class_name, b->Class_mode, b->Class_dynamic, b->Class_meta);
    let u1 = enc_bool(d1) + (enc_meta(m1, whole) + r1);
    let u2 = enc_bool(d2) + (enc_meta(m2, whole) + r2);
    lemma_class_unfold(a, b, whole, r1, r2);
    lemma_str_prefix(n1, n2, enc_mode_if(o1, whole) + u1, enc_mode_if(o2, whole) + u2);
    lemma_mode_prefix(o1, o2, whole, u1, u2);
    lemma_bool_prefix(d1, d2, enc_meta(m1, whole) + r1, enc_meta(m2, whole) + r2);
    lemma_meta_prefix(m1, m2, whole, r1, r2);
}

proof fn lemma_alias_type_prefix(a: TypeModel, b: TypeModel, whole: bool, r1: Seq<u8>, r2: Seq<u8>)
    requires
        a is RecursiveTypeAlias,
        b is RecursiveTypeAlias,
        enc_rpc(a, whole) + r1 == enc_rpc(b, whole) + r2,
    ensures
        form_as(a, whole) == form_as(b, whole),
        r1 == r2,
{
    let (n1, o1, m1) = (a->RecursiveTypeAlias_name, a->RecursiveTypeAlias_mode, a->RecursiveTypeAlias_meta);
    let (n2, o2, m2) = (b->RecursiveTypeAlias_name, b->RecursiveTypeAlias_mode, b->RecursiveTypeAlias_meta);
    let u1 = enc_meta(m1, whole) + r1;
    let u2 = enc_meta(m2, whole) + r2;
    let t1 = enc_mode_if(o1, whole) + u1;
    let t2 = enc_mode_if(o2, whole) + u2;
    assert(enc_rpc(a, whole) + r1 =~= seq![10u8] + (enc_str(n1) + t1));
    assert(enc_rpc(b, whole) + r2 =~= seq![10u8] + (enc_str(n2) + t2));
    lemma_tag(10u8, 10u8, enc_str(n1) + t1, enc_str(n2) + t2);
    lemma_str_prefix(n1, n2, t1, t2);
    lemma_mode_prefix(o1, o2, whole, u1, u2);
    lemma_meta_prefix(m1, m2, whole, r1, r2);
}

proof fn lemma_list_unfold(a: TypeModel, b: TypeModel, whole: bool, r1: Seq<u8>, r2: Seq<u8>)
    requires
        a is List,
        b is List,
        enc_rpc(a, whole) + r1 == enc_rpc(b, whole) + r2,
    ensures
        enc_rpc(*a->List_0, true) + (enc_meta(a->List_1, whole) + r1) == enc_rpc(*b->List_0, true) + (enc_meta(
            b->List_1,
            whole,
        ) + r2),
{
    let (x1, m1) = (*a->List_0, a->List_1);
    let (x2, m2) = (*b->List_0, b->List_1);
    assert(enc_rpc(a, whole) + r1 =~= seq![5u8] + (enc_rpc(x1, true) + (enc_meta(m1, whole) + r1)));
    assert(enc_rpc(b, whole) + r2 =~= seq![5u8] + (enc_rpc(x2, true) + (enc_meta(m2, whole) + r2)));
    lemma_tag(5u8, 5u8, enc_rpc(x1, true) + (enc_meta(m1, whole) + r1), enc_rpc(x2, true) + (enc_meta(m2, whole) + r2));
}

proof fn lemma_map_unfold(a: TypeModel, b: TypeModel, whole: bool, r1: Seq<u8>, r2: Seq<u8>)
    requires
        a is MapOf,
        b is MapOf,
        enc_rpc(a, whole) + r1 == enc_rpc(b, whole) + r2,
    ensures
        enc_rpc(*a->MapOf_0, true) + (enc_rpc(*a->MapOf_1, true) + (enc_meta(a->MapOf_2, whole) + r1))
            == enc_rpc(*b->MapOf_0, true) + (enc_rpc(*b->MapOf_1, true) + (enc_meta(b->MapOf_2, whole) + r2)),
{
    let (k1, v1, m1) = (*a->MapOf_0, *a->MapOf_1, a->MapOf_2);
    let (k2, v2, m2) = (*b->MapOf_0, *b->MapOf_1, b->MapOf_2);
    let c1 = enc_rpc(k1, true) + (enc_rpc(v1, true) + (enc_meta(m1, whole) + r1));
    let c2 = enc_rpc(k2, true) + (enc_rpc(v2, true) + (enc_meta(m2, whole) + r2));
    assert(enc_rpc(a, whole) + r1 =~= seq![6u8] + c1);
    assert(enc_rpc(b, whole) + r2 =~= seq![6u8] + c2);
    lemma_tag(6u8, 6u8, c1, c2);
}

/// A list of types under a tag: its length, then the types.
proof fn lemma_seq_unfold(
    tag: u8,
    ts1: Seq<TypeModel>,
    tail1: Seq<u8>,
    ts2: Seq<TypeModel>,
    tail2: Seq<u8>,
    r1: Seq<u8>,
    r2: Seq<u8>,
)
    requires
        ts1.len() <= u64::MAX,
        ts2.len() <= u64::MAX,
        seq![tag] + enc_u64(ts1.len() as u64) + enc_children(ts1) + tail1 + r1
            == seq![tag] + enc_u64(ts2.len() as u64) + enc_children(ts2) + tail2 + r2,
    ensures
        ts1.len() == ts2.len(),
        enc_children(ts1) + (tail1 + r1) == enc_children(ts2) + (tail2 + r2),
{
    let c1 = enc_children(ts1) + (tail1 + r1);
    let c2 = enc_children(ts2) + (tail2 + r2);
    assert(seq![tag] + enc_u64(ts1.len() as u64) + enc_children(ts1) + tail1 + r1
        =~= seq![tag] + (enc_u64(ts1.len() as u64) + c1));
    assert(seq![tag] + enc_u64(ts2.len() as u64) + enc_children(ts2) + tail2 + r2
        =~= seq![tag] + (enc_u64(ts2.len() as u64) + c2));
    lemma_tag(tag, tag, enc_u64(ts1.len() as u64) + c1, enc_u64(ts2.len() as u64) + c2);
    lemma_u64_prefix(ts1.len() as u64, ts2.len() as u64, c1, c2);
}

/// Two streams that agree and start with encoded types start with types of
/// the same form, and agree on what follows: the same type where whole,
/// else the same interface form.
pub proof fn lemma_type_prefix(a: TypeModel, b: TypeModel, whole: bool, r1: Seq<u8>, r2: Seq<u8>)
    requires
        fits(a),
        fits(b),
        enc_rpc(a, whole) + r1 == enc_rpc(b, whole) + r2,
    ensures
        form_as(a, whole) == form_as(b, whole),
        r1 == r2,
    decreases a,
{
    lemma_type_head(a, b, whole, r1, r2);
    match a {
        TypeModel::Primitive(..) => lemma_primitive_prefix(a, b, whole, r1, r2),
        TypeModel::Enum { .. } => lemma_enum_prefix(a, b, whole, r1, r2),
        TypeModel::Literal(..) => lemma_literal_type_prefix(a, b, whole, r1, r2),
        TypeModel::Class { .. } => lemma_class_prefix(a, b, whole, r1, r2),
        TypeModel::RecursiveTypeAlias { .. } => lemma_alias_type_prefix(a, b, whole, r1, r2),
        TypeModel::List(x1, m1) => {
            let (x2, m2) = (b->List_0, b->List_1);
            lemma_list_unfold(a, b, whole, r1, r2);
            lemma_type_prefix(*x1, *x2, true, enc_meta(m1, whole) + r1, enc_meta(m2, whole) + r2);
            lemma_meta_prefix(m1, m2, whole, r1, r2);
        },
        TypeModel::MapOf(k1, v1, m1) => {
            let (k2, v2, m2) = (b->MapOf_0, b->MapOf_1, b->MapOf_2);
            lemma_map_unfold(a, b, whole, r1, r2);
            lemma_type_prefix(*k1, *k2, true, enc_rpc(*v1, true) + (enc_meta(m1, whole) + r1), enc_rpc(*v2, true) + (
            enc_meta(m2, whole) + r2));
            lemma_type_prefix(*v1, *v2, true, enc_meta(m1, whole) + r1, enc_meta(m2, whole) + r2);
            lemma_meta_prefix(m1, m2, whole, r1, r2);
        },
        TypeModel::Tuple(ts1, m1) => {
            let (ts2, m2) = (b->Tuple_0, b->Tuple_1);
            assert(enc_rpc(a, whole) =~= seq![7u8] + enc_u64(ts1.len() as u64) + enc_children(ts1) + enc_meta(m1, whole));
            assert(enc_rpc(b, whole) =~= seq![7u8] + enc_u64(ts2.len() as u64) + enc_children(ts2) + enc_meta(m2, whole));
            lemma_seq_unfold(7u8, ts1, enc_meta(m1, whole), ts2, enc_meta(m2, whole), r1, r2);
            lemma_children_prefix(ts1, ts2, enc_meta(m1, whole) + r1, enc_meta(m2, whole) + r2);
            lemma_meta_prefix(m1, m2, whole, r1, r2);
        },
        TypeModel::Arrow(ps1, x1, m1) => {
            let (ps2, x2, m2) = (b->Arrow_0, b->Arrow_1, b->Arrow_2);
            let tail1 = enc_rpc(*x1, true) + enc_meta(m1, whole);
            let tail2 = enc_rpc(*x2, true) + enc_meta(m2, whole);
            assert(enc_rpc(a, whole) =~= seq![8u8] + enc_u64(ps1.len() as u64) + enc_children(ps1) + tail1);
            assert(enc_rpc(b, whole) =~= seq![8u8] + enc_u64(ps2.len() as u64) + enc_children(ps2) + tail2);
            lemma_seq_unfold(8u8, ps1, tail1, ps2, tail2, r1, r2);
            assert(tail1 + r1 =~= enc_rpc(*x1, true) + (enc_meta(m1, whole) + r1));
            assert(tail2 + r2 =~= enc_rpc(*x2, true) + (enc_meta(m2, whole) + r2));
            lemma_children_prefix(ps1, ps2, tail1 + r1, tail2 + r2);
            lemma_type_prefix(*x1, *x2, true, enc_meta(m1, whole) + r1, enc_meta(m2, whole) + r2);
            lemma_meta_prefix(m1, m2, whole, r1, r2);
        },
        TypeModel::Union(ts1, m1) => {
            let (ts2, m2) = (b->Union_0, b->Union_1);
            assert(enc_rpc(a, whole) =~= seq![9u8] + enc_u64(ts1.len() as u64) + enc_children(ts1) + enc_meta(m1, whole));
            assert(enc_rpc(b, whole) =~= seq![9u8] + enc_u64(ts2.len() as u64) + enc_children(ts2) + enc_meta(m2, whole));
            lemma_seq_unfold(9u8, ts1, enc_meta(m1, whole), ts2, enc_meta(m2, whole), r1, r2);
            lemma_children_prefix(ts1, ts2, enc_meta(m1, whole) + r1, enc_meta(m2, whole) + r2);
            lemma_meta_prefix(m1, m2, whole, r1, r2);
        },
    }
}

/// What of a named, typed object its interface holds: its name and source,
/// and the interface form of its type.
pub open spec fn typed_form(t: TypedModel) -> TypedModel {
    TypedModel { name: t.name, ty: interface_form(t.ty), source: t.source }
}

/// The forms of a list of typed objects.
pub open spec fn typed_forms(ts: Seq<TypedModel>) -> Seq<TypedModel> {
    ts.map_values(|t: TypedModel| typed_form(t))
}

/// The type of each object of a list fits.
pub open spec fn all_fit(ts: Seq<TypedModel>) -> bool {
    forall|i: int| 0 <= i < ts.len() ==> fits(#[trigger] ts[i].ty)
}

/// What of a definition's own rendering its implementation holds: its alias
/// where the alias counts, its description and its skip flag.
pub open spec fn render_form(name: Seq<char>, r: RenderModel) -> RenderModel {
    RenderModel { alias: effective_alias(r.alias, name), description: r.description, skip: r.skip }
}

/// A definition's own rendering, read from the stream after its typed
/// implementation.
#[verifier::spinoff_prover]
pub proof fn lemma_own_rendering_prefix(
    a: TypedModel,
    ra: RenderModel,
    b: TypedModel,
    rb: RenderModel,
    s1: Seq<u8>,
    s2: Seq<u8>,
)
    requires
        fits(a.ty),
        fits(b.ty),
        typed_implementation(a) + renderable_implementation(a.name, ra) + s1
            == typed_implementation(b) + renderable_implementation(b.name, rb) + s2,
    ensures
        typed_form(a) == typed_form(b),
        render_form(a.name, ra) == render_form(b.name, rb),
        s1 == s2,
{
    let ea = effective_alias(ra.alias, a.name);
    let eb = effective_alias(rb.alias, b.name);
    let d1 = enc_opt_string_or(ra.description) + (enc_bool(ra.skip) + s1);
    let d2 = enc_opt_string_or(rb.description) + (enc_bool(rb.skip) + s2);
    let t1 = enc_opt_string_or(ea) + d1;
    let t2 = enc_opt_string_or(eb) + d2;
    lemma_rendering_unfold(a, ra, s1);
    lemma_rendering_unfold(b, rb, s2);
    lemma_typed_prefix(a, b, t1, t2);
    lemma_opt_string_or_prefix(ea, eb, d1, d2);
    lemma_opt_string_or_prefix(ra.description, rb.description, enc_bool(ra.skip) + s1, enc_bool(rb.skip) + s2);
    lemma_bool_prefix(ra.skip, rb.skip, s1, s2);
}

proof fn lemma_rendering_unfold(a: TypedModel, ra: RenderModel, s: Seq<u8>)
    ensures
        typed_implementation(a) + renderable_implementation(a.name, ra) + s == typed_interface(a) + (enc_opt_string_or(
            effective_alias(ra.alias, a.name),
        ) + (enc_opt_string_or(ra.description) + (enc_bool(ra.skip) + s))),
{
    let r = renderable_implementation(a.name, ra);
    assert(r =~= enc_opt_string_or(effective_alias(ra.alias, a.name)) + enc_opt_string_or(ra.description) + enc_bool(ra.skip));
    assert(typed_implementation(a) + r + s =~= typed_interface(a) + (enc_opt_string_or(effective_alias(ra.alias, a.name))
        + (enc_opt_string_or(ra.description) + (enc_bool(ra.skip) + s))));
}

/// Two streams that agree and start with encoded interfaces of typed objects
/// start with objects of the same form, and agree on what follows.
pub proof fn lemma_typed_prefix(a: TypedModel, b: TypedModel, r1: Seq<u8>, r2: Seq<u8>)
    requires
        fits(a.ty),
        fits(b.ty),
        typed_interface(a) + r1 == typed_interface(b) + r2,
    ensures
        typed_form(a) == typed_form(b),
        r1 == r2,
{
    let t1 = enc_type(a.ty) + (enc_source(a.source) + r1);
    let t2 = enc_type(b.ty) + (enc_source(b.source) + r2);
    assert(typed_interface(a) + r1 =~= enc_str(a.name) + t1);
    assert(typed_interface(b) + r2 =~= enc_str(b.name) + t2);
    lemma_str_prefix(a.name, b.name, t1, t2);
    lemma_type_prefix(a.ty, b.ty, false, enc_source(a.source) + r1, enc_source(b.source) + r2);
    lemma_split_eq(enc_source(a.source), r1, enc_source(b.source), r2);
    assert(enc_source(a.source)[0] == enc_source(b.source)[0]);
}

proof fn lemma_field_interfaces_front(fs: Seq<TypedModel>)
    requires
        fs.len() > 0,
    ensures
        field_interfaces(fs) == typed_interface(fs[0]) + field_interfaces(fs.drop_first()),
    decreases fs.len(),
{
    if fs.len() == 1 {
        assert(fs.drop_first() =~= Seq::<TypedModel>::empty());
        assert(fs.drop_last() =~= Seq::<TypedModel>::empty());
        assert(field_interfaces(fs.drop_last()) =~= Seq::<u8>::empty());
        assert(fs.last() == fs[0]);
        assert(field_interfaces(fs) =~= typed_interface(fs[0]));
    } else {
        let init = fs.drop_last();
        lemma_field_interfaces_front(init);
        assert(fs.drop_first().drop_last() =~= init.drop_first());
        assert(fs.drop_first().last() == fs.last());
        assert(field_interfaces(fs) =~= typed_interface(fs[0]) + field_interfaces(fs.drop_first()));
    }
}

proof fn lemma_all_fit_tail(fs: Seq<TypedModel>)
    requires
        fs.len() > 0,
        all_fit(fs),
    ensures
        fits(fs[0].ty),
        all_fit(fs.drop_first()),
{
    assert forall|i: int| 0 <= i < fs.drop_first().len() implies fits(#[trigger] fs.drop_first()[i].ty) by {
        assert(fs.drop_first()[i] == fs[i + 1]);
    }
}

/// Equal streams of field interfaces come from fields of equal forms.
#[verifier::spinoff_prover]
pub proof fn lemma_field_interfaces_injective(fs1: Seq<TypedModel>, fs2: Seq<TypedModel>)
    requires
        all_fit(fs1),
        all_fit(fs2),
        field_interfaces(fs1) == field_interfaces(fs2),
    ensures
        typed_forms(fs1) == typed_forms(fs2),
    decreases fs1.len(),
{
    if fs1.len() == 0 && fs2.len() == 0 {
        assert(typed_forms(fs1) =~= typed_forms(fs2));
    } else if fs1.len() == 0 {
        lemma_field_interfaces_front(fs2);
        assert(field_interfaces(fs1) =~= Seq::<u8>::empty());
        assert(typed_interface(fs2[0]).len() > 0);
    } else if fs2.len() == 0 {
        lemma_field_interfaces_front(fs1);
        assert(field_interfaces(fs2) =~= Seq::<u8>::empty());
        assert(typed_interface(fs1[0]).len() > 0);
    } else {
        lemma_field_interfaces_front(fs1);
        lemma_field_interfaces_front(fs2);
        let t1 = fs1.drop_first();
        let t2 = fs2.drop_first();
        lemma_typed_prefix(fs1[0], fs2[0], field_interfaces(t1), field_interfaces(t2));
        lemma_all_fit_tail(fs1);
        lemma_all_fit_tail(fs2);
        lemma_field_interfaces_injective(t1, t2);
        assert(typed_forms(fs1) =~= seq![typed_form(fs1[0])] + typed_forms(t1));
        assert(typed_forms(fs2) =~= seq![typed_form(fs2[0])] + typed_forms(t2));
    }
}

/// What of a list of parameters an interface holds: each name, and the
/// interface form of each type.
pub open spec fn param_forms(ps: Seq<(Seq<char>, TypeModel)>) -> Seq<(Seq<char>, TypeModel)> {
    ps.map_values(|p: (Seq<char>, TypeModel)| (p.0, interface_form(p.1)))
}

/// The type of each parameter of a list fits.
pub open spec fn params_fit(ps: Seq<(Seq<char>, TypeModel)>) -> bool {
    forall|i: int| 0 <= i < ps.len() ==> fits(#[trigger] ps[i].1)
}

proof fn lemma_params_front(ps: Seq<(Seq<char>, TypeModel)>)
    requires
        ps.len() > 0,
    ensures
        params_interface(ps) == enc_str(ps[0].0) + enc_type(ps[0].1) + params_interface(ps.drop_first()),
    decreases ps.len(),
{
    if ps.len() == 1 {
        assert(ps.drop_first() =~= Seq::<(Seq<char>, TypeModel)>::empty());
        assert(ps.drop_last() =~= Seq::<(Seq<char>, TypeModel)>::empty());
        assert(params_interface(ps.drop_last()) =~= Seq::<u8>::empty());
        assert(ps.last() == ps[0]);
        assert(params_interface(ps) =~= enc_str(ps[0].0) + enc_type(ps[0].1));
    } else {
        let init = ps.drop_last();
        lemma_params_front(init);
        assert(ps.drop_first().drop_last() =~= init.drop_first());
        assert(ps.drop_first().last() == ps.last());
        assert(params_interface(ps) =~= enc_str(ps[0].0) + enc_type(ps[0].1) + params_interface(ps.drop_first()));
    }
}

/// Two streams that agree and start with as many encoded parameters start
/// with parameters of the same forms, and agree on what follows.
pub proof fn lemma_params_prefix(
    ps1: Seq<(Seq<char>, TypeModel)>,
    ps2: Seq<(Seq<char>, TypeModel)>,
    r1: Seq<u8>,
    r2: Seq<u8>,
)
    requires
        ps1.len() == ps2.len(),
        params_fit(ps1),
        params_fit(ps2),
        params_interface(ps1) + r1 == params_interface(ps2) + r2,
    ensures
        param_forms(ps1) == param_forms(ps2),
        r1 == r2,
    decreases ps1.len(),
{
    if ps1.len() == 0 {
        assert(params_interface(ps1) + r1 =~= r1);
        assert(params_interface(ps2) + r2 =~= r2);
        assert(param_forms(ps1) =~= param_forms(ps2));
    } else {
        lemma_params_front(ps1);
        lemma_params_front(ps2);
        let t1 = ps1.drop_first();
        let t2 = ps2.drop_first();
        let c1 = enc_type(ps1[0].1) + (params_interface(t1) + r1);
        let c2 = enc_type(ps2[0].1) + (params_interface(t2) + r2);
        assert(params_interface(ps1) + r1 =~= enc_str(ps1[0].0) + c1);
        assert(params_interface(ps2) + r2 =~= enc_str(ps2[0].0) + c2);
        lemma_str_prefix(ps1[0].0, ps2[0].0, c1, c2);
        assert(fits(ps1[0].1));
        assert(fits(ps2[0].1));
        lemma_type_prefix(ps1[0].1, ps2[0].1, false, params_interface(t1) + r1, params_interface(t2) + r2);
        assert forall|i: int| 0 <= i < t1.len() implies fits(#[trigger] t1[i].1) by {
            assert(t1[i] == ps1[i + 1]);
        }
        assert forall|i: int| 0 <= i < t2.len() implies fits(#[trigger] t2[i].1) by {
            assert(t2[i] == ps2[i + 1]);
        }
        lemma_params_prefix(t1, t2, r1, r2);
        assert(param_forms(ps1) =~= seq![(ps1[0].0, interface_form(ps1[0].1))] + param_forms(t1));
        assert(param_forms(ps2) =~= seq![(ps2[0].0, interface_form(ps2[0].1))] + param_forms(t2));
    }
}

/// Sorting keeps every object, so the types of a sorted list fit as those
/// of the list do.
pub proof fn lemma_sort_fits(fs: Seq<TypedModel>)
    requires
        all_fit(fs),
    ensures
        all_fit(sort_typed(fs)),
{
    broadcast use vstd::seq_lib::group_to_multiset_ensures;

    lemma_sort_typed_multiset(fs);
    let s = sort_typed(fs);
    assert forall|i: int| 0 <= i < s.len() implies fits(#[trigger] s[i].ty) by {
        assert(s.contains(s[i]));
        assert(s.to_multiset().count(s[i]) > 0);
        assert(fs.contains(s[i]));
        let j = choose|j: int| 0 <= j < fs.len() && fs[j] == s[i];
        assert(fits(fs[j].ty));
    }
}

/// Two streams that agree and start with encoded retry strategies start with
/// the same strategy, and agree on what follows.
pub proof fn lemma_strategy_prefix(a: RetryPolicyStrategy, b: RetryPolicyStrategy, r1: Seq<u8>, r2: Seq<u8>)
    requires
        enc_strategy(a) + r1 == enc_strategy(b) + r2,
    ensures
        a == b,
        r1 == r2,
{
    match (a, b) {
        (RetryPolicyStrategy::ConstantDelay { delay_ms: d1 }, RetryPolicyStrategy::ConstantDelay { delay_ms: d2 }) => {
            assert(enc_strategy(a) + r1 =~= seq![0u8] + (enc_u64(d1 as u64) + r1));
            assert(enc_strategy(b) + r2 =~= seq![0u8] + (enc_u64(d2 as u64) + r2));
            lemma_tag(0u8, 0u8, enc_u64(d1 as u64) + r1, enc_u64(d2 as u64) + r2);
            lemma_u64_prefix(d1 as u64, d2 as u64, r1, r2);
        },
        (
            RetryPolicyStrategy::ExponentialBackoff { delay_ms: d1, multiplier_bits: m1, max_delay_ms: x1 },
            RetryPolicyStrategy::ExponentialBackoff { delay_ms: d2, multiplier_bits: m2, max_delay_ms: x2 },
        ) => {
            let t1 = enc_u64(m1 as u64) + (enc_u64(x1 as u64) + r1);
            let t2 = enc_u64(m2 as u64) + (enc_u64(x2 as u64) + r2);
            assert(enc_strategy(a) + r1 =~= seq![1u8] + (enc_u64(d1 as u64) + t1));
            assert(enc_strategy(b) + r2 =~= seq![1u8] + (enc_u64(d2 as u64) + t2));
            lemma_tag(1u8, 1u8, enc_u64(d1 as u64) + t1, enc_u64(d2 as u64) + t2);
            lemma_u64_prefix(d1 as u64, d2 as u64, t1, t2);
            lemma_u64_prefix(m1 as u64, m2 as u64, enc_u64(x1 as u64) + r1, enc_u64(x2 as u64) + r2);
            lemma_u64_prefix(x1 as u64, x2 as u64, r1, r2);
        },
        (RetryPolicyStrategy::ConstantDelay { delay_ms: d1 }, RetryPolicyStrategy::ExponentialBackoff { .. }) => {
            assert(enc_strategy(a) + r1 =~= seq![0u8] + (enc_strategy(a).drop_first() + r1));
            assert(enc_strategy(b) + r2 =~= seq![1u8] + (enc_strategy(b).drop_first() + r2));
            lemma_tag(0u8, 1u8, enc_strategy(a).drop_first() + r1, enc_strategy(b).drop_first() + r2);
        },
        (RetryPolicyStrategy::ExponentialBackoff { .. }, RetryPolicyStrategy::ConstantDelay { .. }) => {
            assert(enc_strategy(a) + r1 =~= seq![1u8] + (enc_strategy(a).drop_first() + r1));
            assert(enc_strategy(b) + r2 =~= seq![0u8] + (enc_strategy(b).drop_first() + r2));
            lemma_tag(1u8, 0u8, enc_strategy(a).drop_first() + r1, enc_strategy(b).drop_first() + r2);
        },
    }
}

} // verus!
