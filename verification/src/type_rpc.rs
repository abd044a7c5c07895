//! What a type contributes to hashes and dependencies.
//!
//! A type is hashed by its structure: primitive kinds, names of referenced
//! classes, enums and recursive aliases, the `dynamic` flag, literal values,
//! and the label and expression of each of its constraints.  The types it is
//! made of are hashed whole: with their streaming modes and the level of
//! each constraint too.  A type converted from the intermediate
//! representation carries no `@check` constraint, so those reach no hash.

use vstd::prelude::*;
use crate::interfaces::ShallowSignature;
use crate::order::string_views;
use crate::encode::{enc_bool, enc_str, enc_u64, push_bool, push_str, push_u64};
use crate::types::{
    literal_model, constraint_model, constraints_model, rpc_model, BamlMediaType, ConstraintLevel,
    ConstraintModel, LiteralModel, LiteralValue, MetaRPC, StreamingMode, TypeModel, TypeRPC, TypeValue,
};

verus! {

/// One byte for each primitive kind.
pub open spec fn enc_type_value(v: TypeValue) -> Seq<u8> {
    match v {
        TypeValue::String => seq![0u8],
        TypeValue::Int => seq![1u8],
        TypeValue::Float => seq![2u8],
        TypeValue::Bool => seq![3u8],
        TypeValue::Null => seq![4u8],
        TypeValue::Media(BamlMediaType::Image) => seq![5u8],
        TypeValue::Media(BamlMediaType::Audio) => seq![6u8],
        TypeValue::Media(BamlMediaType::Pdf) => seq![7u8],
        TypeValue::Media(BamlMediaType::Video) => seq![8u8],
    }
}

/// An optional string: a presence byte, then the string.
pub open spec fn enc_opt_str(o: Option<Seq<char>>) -> Seq<u8> {
    match o {
        Some(s) => seq![1u8] + enc_str(s),
        None => seq![0u8],
    }
}

/// One byte for a constraint's level.
pub open spec fn enc_level(l: ConstraintLevel) -> Seq<u8> {
    match l {
        ConstraintLevel::Check => seq![0u8],
        ConstraintLevel::Assert => seq![1u8],
    }
}

/// One byte for a streaming mode.
pub open spec fn enc_mode(m: StreamingMode) -> Seq<u8> {
    match m {
        StreamingMode::NonStreaming => seq![0u8],
        StreamingMode::Streaming => seq![1u8],
    }
}

/// A constraint: a marker byte, then its level where the type is hashed
/// whole, then its label and expression.
pub open spec fn enc_constraint(c: ConstraintModel, whole: bool) -> Seq<u8> {
    seq![1u8] + (if whole { enc_level(c.level) } else { Seq::empty() }) + enc_opt_str(c.label) + enc_str(c.expression)
}

/// The constraints, in order.
pub open spec fn enc_constraints(cs: Seq<ConstraintModel>, whole: bool) -> Seq<u8>
    decreases cs.len(),
{
    if cs.len() == 0 {
        Seq::empty()
    } else {
        enc_constraints(cs.drop_last(), whole) + enc_constraint(cs.last(), whole)
    }
}

/// A type's metadata: its constraints, then an end byte.
pub open spec fn enc_meta(cs: Seq<ConstraintModel>, whole: bool) -> Seq<u8> {
    enc_constraints(cs, whole) + seq![0u8]
}

/// A literal value.
pub open spec fn enc_literal(l: LiteralModel) -> Seq<u8> {
    match l {
        LiteralModel::String(s) => seq![0u8] + enc_str(s),
        LiteralModel::Int(i) => seq![1u8] + enc_u64(i as u64),
        LiteralModel::Bool(b) => seq![2u8] + enc_bool(b),
    }
}

/// The streaming mode where a type is hashed whole, else nothing.
pub open spec fn enc_mode_if(m: StreamingMode, whole: bool) -> Seq<u8> {
    if whole {
        enc_mode(m)
    } else {
        Seq::empty()
    }
}

/// The encoding of a type.  A type hashed on its own leaves out its own
/// streaming mode and its constraints' levels; the types it is made of are
/// hashed whole.  Lists of types carry their length first.
pub open spec fn enc_rpc(t: TypeModel, whole: bool) -> Seq<u8>
    decreases t,
{
    match t {
        TypeModel::Primitive(v, m) => seq![1u8] + enc_type_value(v) + enc_meta(m, whole),
        TypeModel::Enum { name, dynamic, meta } => seq![2u8] + enc_str(name) + enc_bool(dynamic) + enc_meta(meta, whole),
        TypeModel::Literal(l, m) => seq![3u8] + enc_literal(l) + enc_meta(m, whole),
        TypeModel::Class { name, mode, dynamic, meta } => seq![4u8] + enc_str(name) + enc_mode_if(mode, whole) + enc_bool(
            dynamic,
        ) + enc_meta(meta, whole),
        TypeModel::List(t, m) => seq![5u8] + enc_rpc(*t, true) + enc_meta(m, whole),
        TypeModel::MapOf(k, v, m) => seq![6u8] + enc_rpc(*k, true) + enc_rpc(*v, true) + enc_meta(m, whole),
        TypeModel::Tuple(ts, m) => seq![7u8] + enc_u64(ts.len() as u64) + enc_children(ts) + enc_meta(m, whole),
        TypeModel::Arrow(ps, r, m) => seq![8u8] + enc_u64(ps.len() as u64) + enc_children(ps) + enc_rpc(*r, true)
            + enc_meta(m, whole),
        TypeModel::Union(ts, m) => seq![9u8] + enc_u64(ts.len() as u64) + enc_children(ts) + enc_meta(m, whole),
        TypeModel::RecursiveTypeAlias { name, mode, meta } => seq![10u8] + enc_str(name) + enc_mode_if(mode, whole)
            + enc_meta(meta, whole),
    }
}

/// The encodings of a list of types, each whole, one after the other.
pub open spec fn enc_children(ts: Seq<TypeModel>) -> Seq<u8>
    decreases ts,
{
    if ts.len() == 0 {
        Seq::empty()
    } else {
        proof {
            assert(decreases_to!(ts => ts.subrange(0, ts.len() - 1)));
        }
        enc_children(ts.drop_last()) + enc_rpc(ts.last(), true)
    }
}

/// The encoding of a type hashed on its own.
pub open spec fn enc_type(t: TypeModel) -> Seq<u8> {
    enc_rpc(t, false)
}

/// The names of the classes, enums and recursive aliases a type refers to,
/// at any depth, in order of appearance.
pub open spec fn dep_list(t: TypeModel) -> Seq<Seq<char>>
    decreases t,
{
    match t {
        TypeModel::Enum { name, .. } => seq![name],
        TypeModel::Class { name, .. } => seq![name],
        TypeModel::RecursiveTypeAlias { name, .. } => seq![name],
        TypeModel::List(t, _) => dep_list(*t),
        TypeModel::MapOf(k, v, _) => dep_list(*k) + dep_list(*v),
        TypeModel::Tuple(ts, _) => dep_children(ts),
        TypeModel::Arrow(ps, r, _) => dep_children(ps) + dep_list(*r),
        TypeModel::Union(ts, _) => dep_children(ts),
        _ => Seq::empty(),
    }
}

/// The names a list of types refers to, one list after the other.
pub open spec fn dep_children(ts: Seq<TypeModel>) -> Seq<Seq<char>>
    decreases ts,
{
    if ts.len() == 0 {
        Seq::empty()
    } else {
        proof {
            assert(decreases_to!(ts => ts.subrange(0, ts.len() - 1)));
        }
        dep_children(ts.drop_last()) + dep_list(ts.last())
    }
}

/// The set of names a type depends on directly.
pub open spec fn type_deps(t: TypeModel) -> Set<Seq<char>> {
    dep_list(t).to_set()
}

/// Appends the encoding of a type's metadata.
pub fn push_meta(out: &mut Vec<u8>, m: &MetaRPC, whole: bool)
    ensures
        final(out)@ == old(out)@ + enc_meta(constraints_model(m.constraints@), whole),
{
    let ghost start = out@;
    let ghost cs = constraints_model(m.constraints@);
    let mut i: usize = 0;
    while i < m.constraints.len()
        invariant
            i <= m.constraints@.len(),
            cs == constraints_model(m.constraints@),
            out@ == start + enc_constraints(cs.take(i as int), whole),
        decreases m.constraints@.len() - i,
    {
        let c = &m.constraints[i];
        let ghost before = out@;
        out.push(1u8);
        if whole {
            match c.level {
                ConstraintLevel::Check => out.push(0u8),
                ConstraintLevel::Assert => out.push(1u8),
            }
        }
        match &c.label {
            Some(l) => {
                out.push(1u8);
                push_str(out, l.as_str());
            },
            None => {
                out.push(0u8);
            },
        }
        push_str(out, c.expression.as_str());
        proof {
            assert(out@ =~= before + enc_constraint(constraint_model(*c), whole));
            assert(cs.take(i + 1).drop_last() =~= cs.take(i as int));
            assert(cs.take(i + 1).last() == constraint_model(*c));
        }
        i = i + 1;
        assert(out@ =~= start + enc_constraints(cs.take(i as int), whole));
    }
    assert(cs.take(i as int) =~= cs);
    out.push(0u8);
    assert(out@ =~= start + enc_meta(cs, whole));
}

fn push_mode_if(out: &mut Vec<u8>, m: StreamingMode, whole: bool)
    ensures
        final(out)@ == old(out)@ + enc_mode_if(m, whole),
{
    if whole {
        match m {
            StreamingMode::NonStreaming => out.push(0u8),
            StreamingMode::Streaming => out.push(1u8),
        }
    }
    assert(final(out)@ =~= old(out)@ + enc_mode_if(m, whole)) by {}
}

/// Appends the encoding of a list of types: its length, then each type whole.
fn push_type_list(out: &mut Vec<u8>, ts: &Vec<TypeRPC>, Ghost(whole_type): Ghost<TypeRPC>, Ghost(ms): Ghost<Seq<TypeModel>>)
    requires
        decreases_to!(whole_type => ts@),
        ms.len() == ts@.len(),
        forall|i: int| 0 <= i < ts@.len() ==> ms[i] == rpc_model(#[trigger] ts@[i]),
    ensures
        final(out)@ == old(out)@ + enc_u64(ts@.len() as u64) + enc_children(ms),
    decreases whole_type, 0nat,
{
    push_u64(out, ts.len() as u64);
    let ghost start = out@;
    let mut i: usize = 0;
    while i < ts.len()
        invariant
            i <= ts@.len(),
            decreases_to!(whole_type => ts@),
            ms.len() == ts@.len(),
            forall|i: int| 0 <= i < ts@.len() ==> ms[i] == rpc_model(#[trigger] ts@[i]),
            out@ == start + enc_children(ms.take(i as int)),
        decreases ts@.len() - i,
    {
        proof {
            assert(decreases_to!(ts@ => ts@[i as int]));
        }
        push_rpc(out, &ts[i], true);
        proof {
            assert(ms.take(i + 1).drop_last() =~= ms.take(i as int));
            assert(ms.take(i + 1).last() == rpc_model(ts@[i as int]));
        }
        i = i + 1;
        assert(out@ =~= start + enc_children(ms.take(i as int)));
    }
    assert(ms.take(i as int) =~= ms);
}

/// Appends the encoding of a type hashed on its own.
pub fn push_type(out: &mut Vec<u8>, t: &TypeRPC)
    ensures
        final(out)@ == old(out)@ + enc_type(t@),
{
    push_rpc(out, t, false);
}

/// Appends the encoding of a type, whole or on its own.
pub fn push_rpc(out: &mut Vec<u8>, t: &TypeRPC, whole: bool)
    ensures
        final(out)@ == old(out)@ + enc_rpc(t@, whole),
    decreases *t, 2nat,
{
    match t {
        TypeRPC::Primitive(..) => push_primitive(out, t, whole),
        TypeRPC::Enum { .. } => push_named(out, t, whole),
        TypeRPC::Class { .. } => push_named(out, t, whole),
        TypeRPC::RecursiveTypeAlias { .. } => push_named(out, t, whole),
        TypeRPC::Literal(..) => push_literal(out, t, whole),
        TypeRPC::List(..) => push_container(out, t, whole),
        TypeRPC::MapOf(..) => push_container(out, t, whole),
        TypeRPC::Tuple(..) => push_sequence(out, t, whole),
        TypeRPC::Union(..) => push_sequence(out, t, whole),
        TypeRPC::Arrow(..) => push_arrow(out, t, whole),
    }
}

fn push_primitive(out: &mut Vec<u8>, t: &TypeRPC, whole: bool)
    requires
        t is Primitive,
    ensures
        final(out)@ == old(out)@ + enc_rpc(t@, whole),
{
    let ghost start = out@;
    if let TypeRPC::Primitive(v, m) = t {
        out.push(1u8);
        let b: u8 = match v {
            TypeValue::String => 0u8,
            TypeValue::Int => 1u8,
            TypeValue::Float => 2u8,
            TypeValue::Bool => 3u8,
            TypeValue::Null => 4u8,
            TypeValue::Media(BamlMediaType::Image) => 5u8,
            TypeValue::Media(BamlMediaType::Audio) => 6u8,
            TypeValue::Media(BamlMediaType::Pdf) => 7u8,
            TypeValue::Media(BamlMediaType::Video) => 8u8,
        };
        assert(enc_type_value(*v) == seq![b]);
        out.push(b);
        push_meta(out, m, whole);
        assert(out@ =~= start + enc_rpc(t@, whole));
    }
}

fn push_named(out: &mut Vec<u8>, t: &TypeRPC, whole: bool)
    requires
        t is Enum || t is Class || t is RecursiveTypeAlias,
    ensures
        final(out)@ == old(out)@ + enc_rpc(t@, whole),
{
    let ghost start = out@;
    match t {
        TypeRPC::Enum { name, dynamic, meta } => {
            out.push(2u8);
            push_str(out, name.as_str());
            push_bool(out, *dynamic);
            push_meta(out, meta, whole);
            assert(out@ =~= start + enc_rpc(t@, whole));
        },
        TypeRPC::Class { name, mode, dynamic, meta } => {
            out.push(4u8);
            push_str(out, name.as_str());
            push_mode_if(out, *mode, whole);
            push_bool(out, *dynamic);
            push_meta(out, meta, whole);
            assert(out@ =~= start + enc_rpc(t@, whole));
        },
        TypeRPC::RecursiveTypeAlias { name, mode, meta } => {
            out.push(10u8);
            push_str(out, name.as_str());
            push_mode_if(out, *mode, whole);
            push_meta(out, meta, whole);
            assert(out@ =~= start + enc_rpc(t@, whole));
        },
        _ => {},
    }
}

fn push_literal(out: &mut Vec<u8>, t: &TypeRPC, whole: bool)
    requires
        t is Literal,
    ensures
        final(out)@ == old(out)@ + enc_rpc(t@, whole),
{
    let ghost start = out@;
    if let TypeRPC::Literal(l, m) = t {
        out.push(3u8);
        match l {
            LiteralValue::String(s) => {
                out.push(0u8);
                push_str(out, s.as_str());
            },
            LiteralValue::Int(i) => {
                out.push(1u8);
                push_u64(out, *i as u64);
            },
            LiteralValue::Bool(b) => {
                out.push(2u8);
                push_bool(out, *b);
            },
        }
        assert(out@ =~= start + seq![3u8] + enc_literal(literal_model(*l)));
        push_meta(out, m, whole);
        assert(out@ =~= start + enc_rpc(t@, whole));
    }
}

fn push_container(out: &mut Vec<u8>, t: &TypeRPC, whole: bool)
    requires
        t is List || t is MapOf,
    ensures
        final(out)@ == old(out)@ + enc_rpc(t@, whole),
    decreases *t, 1nat,
{
    let ghost start = out@;
    match t {
        TypeRPC::List(item, m) => {
            out.push(5u8);
            push_rpc(out, item, true);
            push_meta(out, m, whole);
            assert(out@ =~= start + enc_rpc(t@, whole));
        },
        TypeRPC::MapOf(k, v, m) => {
            out.push(6u8);
            push_rpc(out, k, true);
            push_rpc(out, v, true);
            push_meta(out, m, whole);
            assert(out@ =~= start + enc_rpc(t@, whole));
        },
        _ => {},
    }
}

fn push_sequence(out: &mut Vec<u8>, t: &TypeRPC, whole: bool)
    requires
        t is Tuple || t is Union,
    ensures
        final(out)@ == old(out)@ + enc_rpc(t@, whole),
    decreases *t, 1nat,
{
    let ghost start = out@;
    match t {
        TypeRPC::Tuple(ts, m) => {
            proof {
                assert(decreases_to!(*t => *ts));
                assert(decreases_to!(*ts => ts@));
            }
            out.push(7u8);
            push_type_list(out, ts, Ghost(*t), Ghost(t@->Tuple_0));
            push_meta(out, m, whole);
            assert(out@ =~= start + enc_rpc(t@, whole));
        },
        TypeRPC::Union(ts, m) => {
            proof {
                assert(decreases_to!(*t => *ts));
                assert(decreases_to!(*ts => ts@));
            }
            out.push(9u8);
            push_type_list(out, ts, Ghost(*t), Ghost(t@->Union_0));
            push_meta(out, m, whole);
            assert(out@ =~= start + enc_rpc(t@, whole));
        },
        _ => {},
    }
}

fn push_arrow(out: &mut Vec<u8>, t: &TypeRPC, whole: bool)
    requires
        t is Arrow,
    ensures
        final(out)@ == old(out)@ + enc_rpc(t@, whole),
    decreases *t, 1nat,
{
    let ghost start = out@;
    if let TypeRPC::Arrow(ps, r, m) = t {
        proof {
            assert(decreases_to!(*t => *ps));
            assert(decreases_to!(*ps => ps@));
        }
        out.push(8u8);
        push_type_list(out, ps, Ghost(*t), Ghost(t@->Arrow_0));
        push_rpc(out, r, true);
        push_meta(out, m, whole);
        assert(out@ =~= start + enc_rpc(t@, whole));
    }
}

/// Appends the names a list of types refers to.
fn push_deps_list(out: &mut Vec<String>, ts: &Vec<TypeRPC>, Ghost(whole): Ghost<TypeRPC>, Ghost(ms): Ghost<Seq<TypeModel>>)
    requires
        decreases_to!(whole => ts@),
        ms.len() == ts@.len(),
        forall|i: int| 0 <= i < ts@.len() ==> ms[i] == rpc_model(#[trigger] ts@[i]),
    ensures
        string_views(final(out)@) == string_views(old(out)@) + dep_children(ms),
    decreases whole, 0nat,
{
    let ghost start = string_views(out@);
    let mut i: usize = 0;
    while i < ts.len()
        invariant
            i <= ts@.len(),
            decreases_to!(whole => ts@),
            ms.len() == ts@.len(),
            forall|i: int| 0 <= i < ts@.len() ==> ms[i] == rpc_model(#[trigger] ts@[i]),
            string_views(out@) == start + dep_children(ms.take(i as int)),
        decreases ts@.len() - i,
    {
        proof {
            assert(decreases_to!(ts@ => ts@[i as int]));
        }
        push_deps(out, &ts[i]);
        proof {
            assert(ms.take(i + 1).drop_last() =~= ms.take(i as int));
            assert(ms.take(i + 1).last() == rpc_model(ts@[i as int]));
        }
        i = i + 1;
        assert(string_views(out@) =~= start + dep_children(ms.take(i as int)));
    }
    assert(ms.take(i as int) =~= ms);
}

fn push_name(out: &mut Vec<String>, name: &String)
    ensures
        string_views(final(out)@) == string_views(old(out)@).push(name@),
{
    out.push(name.clone());
    assert(string_views(final(out)@) =~= string_views(old(out)@).push(name@));
}

/// Appends the names a type refers to.
fn push_deps(out: &mut Vec<String>, t: &TypeRPC)
    ensures
        string_views(final(out)@) == string_views(old(out)@) + dep_list(t@),
    decreases *t, 1nat,
{
    let ghost start = string_views(out@);
    match t {
        TypeRPC::Enum { name, .. } => {
            push_name(out, name);
            assert(string_views(out@) =~= start + dep_list(t@));
        },
        TypeRPC::Class { name, .. } => {
            push_name(out, name);
            assert(string_views(out@) =~= start + dep_list(t@));
        },
        TypeRPC::RecursiveTypeAlias { name, .. } => {
            push_name(out, name);
            assert(string_views(out@) =~= start + dep_list(t@));
        },
        TypeRPC::List(item, _) => {
            push_deps(out, item);
        },
        TypeRPC::MapOf(k, v, _) => {
            push_deps(out, k);
            push_deps(out, v);
            assert(string_views(out@) =~= start + dep_list(t@));
        },
        TypeRPC::Tuple(ts, _) => {
            proof {
                assert(decreases_to!(*t => *ts));
                assert(decreases_to!(*ts => ts@));
            }
            push_deps_list(out, ts, Ghost(*t), Ghost(t@->Tuple_0));
        },
        TypeRPC::Union(ts, _) => {
            proof {
                assert(decreases_to!(*t => *ts));
                assert(decreases_to!(*ts => ts@));
            }
            push_deps_list(out, ts, Ghost(*t), Ghost(t@->Union_0));
        },
        TypeRPC::Arrow(ps, r, _) => {
            proof {
                assert(decreases_to!(*t => *ps));
                assert(decreases_to!(*ps => ps@));
            }
            push_deps_list(out, ps, Ghost(*t), Ghost(t@->Arrow_0));
            push_deps(out, r);
            assert(string_views(out@) =~= start + dep_list(t@));
        },
        TypeRPC::Primitive(..) => {
            assert(string_views(out@) =~= start + dep_list(t@));
        },
        TypeRPC::Literal(..) => {
            assert(string_views(out@) =~= start + dep_list(t@));
        },
    }
}

impl TypeRPC {
    /// The names of the classes, enums and recursive aliases this type
    /// refers to, at any depth, in order of appearance.
    pub fn immediate_dependencies(&self) -> (r: Vec<String>)
        ensures
            string_views(r@) == dep_list(self@),
    {
        let mut out: Vec<String> = Vec::new();
        push_deps(&mut out, self);
        assert(string_views(out@) =~= dep_list(self@));
        out
    }
}

/// A type hashed on its own: interface and implementation are both its
/// encoding, and it depends on the names it refers to.
impl ShallowSignature for TypeRPC {
    open spec fn interface_bytes(&self) -> Seq<u8> {
        enc_type(self@)
    }

    open spec fn implementation_bytes(&self) -> Seq<u8> {
        enc_type(self@)
    }

    open spec fn interface_deps(&self) -> Set<Seq<char>> {
        type_deps(self@)
    }

    open spec fn implementation_deps(&self) -> Set<Seq<char>> {
        type_deps(self@)
    }

    open spec fn prefix_word(&self) -> Seq<char> {
        "type"@
    }

    fn shallow_hash_prefix(&self) -> (r: &'static str) {
        "type"
    }

    fn shallow_interface_hash(&self) -> (r: Vec<u8>) {
        let mut out: Vec<u8> = Vec::new();
        push_type(&mut out, self);
        assert(out@ =~= enc_type(self@));
        out
    }

    fn unsorted_interface_dependencies(&self) -> (r: Vec<String>) {
        self.immediate_dependencies()
    }

    fn shallow_implementation_hash(&self) -> (r: Vec<u8>) {
        self.shallow_interface_hash()
    }

    fn unsorted_implementation_dependencies(&self) -> (r: Vec<String>) {
        self.immediate_dependencies()
    }
}

} // verus!
