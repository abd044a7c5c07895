//! The types that definitions are built from, in the two forms the hasher
//! meets: `TypeIR`, as the compiler's intermediate representation holds them,
//! and `TypeRPC`, the form that is hashed.  Both have a mathematical model,
//! `TypeModel`, the view of a `TypeRPC`.

use vstd::prelude::*;

verus! {

/// Kinds of media values.
#[derive(Clone, Copy, Debug, PartialEq, Eq, Structural)]
pub enum BamlMediaType {
    Image,
    Audio,
    Pdf,
    Video,
}

/// Primitive types.
#[derive(Clone, Copy, Debug, PartialEq, Eq, Structural)]
pub enum TypeValue {
    String,
    Int,
    Float,
    Bool,
    Null,
    Media(BamlMediaType),
}

/// Whether a class or alias reference is the streaming variant.
#[derive(Clone, Copy, Debug, PartialEq, Eq, Structural)]
pub enum StreamingMode {
    NonStreaming,
    Streaming,
}

/// `@check` constraints are validated at runtime only; `@assert` constraints
/// are part of the type.
#[derive(Clone, Copy, Debug, PartialEq, Eq, Structural)]
pub enum ConstraintLevel {
    Check,
    Assert,
}

/// A constraint attached to a type.
#[derive(Clone, Debug)]
pub struct Constraint {
    pub level: ConstraintLevel,
    pub expression: String,
    pub label: Option<String>,
}

/// A literal type's value.
#[derive(Clone, Debug)]
pub enum LiteralValue {
    String(String),
    Int(i64),
    Bool(bool),
}

/// Metadata of a hashed type: its constraints.
#[derive(Clone, Debug)]
pub struct MetaRPC {
    pub constraints: Vec<Constraint>,
}

/// Metadata of an intermediate-representation type: its constraints and its
/// streaming behaviour, which the hashed form drops.
#[derive(Clone, Debug)]
pub struct MetaIR {
    pub constraints: Vec<Constraint>,
    pub streaming_needed: bool,
    pub streaming_done: bool,
}

/// A type in the form that is hashed.
#[derive(Debug)]
pub enum TypeRPC {
    Primitive(TypeValue, MetaRPC),
    Enum { name: String, dynamic: bool, meta: MetaRPC },
    Literal(LiteralValue, MetaRPC),
    Class { name: String, mode: StreamingMode, dynamic: bool, meta: MetaRPC },
    List(Box<TypeRPC>, MetaRPC),
    MapOf(Box<TypeRPC>, Box<TypeRPC>, MetaRPC),
    RecursiveTypeAlias { name: String, mode: StreamingMode, meta: MetaRPC },
    Tuple(Vec<TypeRPC>, MetaRPC),
    /// Parameter types, then the return type.
    Arrow(Vec<TypeRPC>, Box<TypeRPC>, MetaRPC),
    /// All variants, `null` included.
    Union(Vec<TypeRPC>, MetaRPC),
}

/// A type of the intermediate representation.
#[derive(Debug)]
pub enum TypeIR {
    Primitive(TypeValue, MetaIR),
    Enum { name: String, dynamic: bool, meta: MetaIR },
    Literal(LiteralValue, MetaIR),
    Class { name: String, mode: StreamingMode, dynamic: bool, meta: MetaIR },
    List(Box<TypeIR>, MetaIR),
    MapOf(Box<TypeIR>, Box<TypeIR>, MetaIR),
    RecursiveTypeAlias { name: String, mode: StreamingMode, meta: MetaIR },
    Tuple(Vec<TypeIR>, MetaIR),
    Arrow(Vec<TypeIR>, Box<TypeIR>, MetaIR),
    /// All variants, `null` included.
    Union(Vec<TypeIR>, MetaIR),
}

/// Model of a constraint.
pub struct ConstraintModel {
    pub level: ConstraintLevel,
    pub expression: Seq<char>,
    pub label: Option<Seq<char>>,
}

/// Model of a literal value.
pub enum LiteralModel {
    String(Seq<char>),
    Int(i64),
    Bool(bool),
}

/// Model of a type: what a `TypeRPC` holds, with strings as character
/// sequences and vectors as sequences.
pub enum TypeModel {
    Primitive(TypeValue, Seq<ConstraintModel>),
    Enum { name: Seq<char>, dynamic: bool, meta: Seq<ConstraintModel> },
    Literal(LiteralModel, Seq<ConstraintModel>),
    Class { name: Seq<char>, mode: StreamingMode, dynamic: bool, meta: Seq<ConstraintModel> },
    List(Box<TypeModel>, Seq<ConstraintModel>),
    MapOf(Box<TypeModel>, Box<TypeModel>, Seq<ConstraintModel>),
    RecursiveTypeAlias { name: Seq<char>, mode: StreamingMode, meta: Seq<ConstraintModel> },
    Tuple(Seq<TypeModel>, Seq<ConstraintModel>),
    Arrow(Seq<TypeModel>, Box<TypeModel>, Seq<ConstraintModel>),
    Union(Seq<TypeModel>, Seq<ConstraintModel>),
}

pub open spec fn option_string_model(o: Option<String>) -> Option<Seq<char>> {
    match o {
        Some(s) => Some(s@),
        None => None,
    }
}

pub open spec fn constraint_model(c: Constraint) -> ConstraintModel {
    ConstraintModel { level: c.level, expression: c.expression@, label: option_string_model(c.label) }
}

pub open spec fn constraints_model(cs: Seq<Constraint>) -> Seq<ConstraintModel> {
    cs.map_values(|c: Constraint| constraint_model(c))
}

pub open spec fn literal_model(l: LiteralValue) -> LiteralModel {
    match l {
        LiteralValue::String(s) => LiteralModel::String(s@),
        LiteralValue::Int(i) => LiteralModel::Int(i),
        LiteralValue::Bool(b) => LiteralModel::Bool(b),
    }
}

/// The model of a hashed type.
pub open spec fn rpc_model(t: TypeRPC) -> TypeModel
    decreases t,
{
    match t {
        TypeRPC::Primitive(v, m) => TypeModel::Primitive(v, constraints_model(m.constraints@)),
        TypeRPC::Enum { name, dynamic, meta } => TypeModel::Enum {
            name: name@,
            dynamic,
            meta: constraints_model(meta.constraints@),
        },
        TypeRPC::Literal(l, m) => TypeModel::Literal(literal_model(l), constraints_model(m.constraints@)),
        TypeRPC::Class { name, mode, dynamic, meta } => TypeModel::Class {
            name: name@,
            mode,
            dynamic,
            meta: constraints_model(meta.constraints@),
        },
        TypeRPC::List(t, m) => TypeModel::List(Box::new(rpc_model(*t)), constraints_model(m.constraints@)),
        TypeRPC::MapOf(k, v, m) => TypeModel::MapOf(
            Box::new(rpc_model(*k)),
            Box::new(rpc_model(*v)),
            constraints_model(m.constraints@),
        ),
        TypeRPC::RecursiveTypeAlias { name, mode, meta } => TypeModel::RecursiveTypeAlias {
            name: name@,
            mode,
            meta: constraints_model(meta.constraints@),
        },
        TypeRPC::Tuple(ts, m) => TypeModel::Tuple(
            Seq::new(ts@.len(), |i: int| if 0 <= i < ts@.len() { rpc_model(ts@[i]) } else { TypeModel::Primitive(TypeValue::Null, Seq::empty()) }),
            constraints_model(m.constraints@),
        ),
        TypeRPC::Arrow(ps, r, m) => TypeModel::Arrow(
            Seq::new(ps@.len(), |i: int| if 0 <= i < ps@.len() { rpc_model(ps@[i]) } else { TypeModel::Primitive(TypeValue::Null, Seq::empty()) }),
            Box::new(rpc_model(*r)),
            constraints_model(m.constraints@),
        ),
        TypeRPC::Union(ts, m) => TypeModel::Union(
            Seq::new(ts@.len(), |i: int| if 0 <= i < ts@.len() { rpc_model(ts@[i]) } else { TypeModel::Primitive(TypeValue::Null, Seq::empty()) }),
            constraints_model(m.constraints@),
        ),
    }
}

impl View for TypeRPC {
    type V = TypeModel;

    open spec fn view(&self) -> TypeModel {
        rpc_model(*self)
    }
}

/// The hashed form of an intermediate-representation type: the same shape
/// and `@assert` constraints, at every depth; `@check` constraints, which
/// are validated at runtime only, are left out, streaming modes are set to
/// non-streaming and streaming behaviour is dropped.
pub open spec fn rpc_model_of_ir(t: TypeIR) -> TypeModel
    decreases t,
{
    match t {
        TypeIR::Primitive(v, m) => TypeModel::Primitive(v, asserts_only(constraints_model(m.constraints@))),
        TypeIR::Enum { name, dynamic, meta } => TypeModel::Enum {
            name: name@,
            dynamic,
            meta: asserts_only(constraints_model(meta.constraints@)),
        },
        TypeIR::Literal(l, m) => TypeModel::Literal(literal_model(l), asserts_only(constraints_model(m.constraints@))),
        TypeIR::Class { name, mode, dynamic, meta } => TypeModel::Class {
            name: name@,
            mode: StreamingMode::NonStreaming,
            dynamic,
            meta: asserts_only(constraints_model(meta.constraints@)),
        },
        TypeIR::List(t, m) => TypeModel::List(Box::new(rpc_model_of_ir(*t)), asserts_only(constraints_model(m.constraints@))),
        TypeIR::MapOf(k, v, m) => TypeModel::MapOf(
            Box::new(rpc_model_of_ir(*k)),
            Box::new(rpc_model_of_ir(*v)),
            asserts_only(constraints_model(m.constraints@)),
        ),
        TypeIR::RecursiveTypeAlias { name, mode, meta } => TypeModel::RecursiveTypeAlias {
            name: name@,
            mode: StreamingMode::NonStreaming,
            meta: asserts_only(constraints_model(meta.constraints@)),
        },
        TypeIR::Tuple(ts, m) => TypeModel::Tuple(
            Seq::new(ts@.len(), |i: int| if 0 <= i < ts@.len() { rpc_model_of_ir(ts@[i]) } else { TypeModel::Primitive(TypeValue::Null, Seq::empty()) }),
            asserts_only(constraints_model(m.constraints@)),
        ),
        TypeIR::Arrow(ps, r, m) => TypeModel::Arrow(
            Seq::new(ps@.len(), |i: int| if 0 <= i < ps@.len() { rpc_model_of_ir(ps@[i]) } else { TypeModel::Primitive(TypeValue::Null, Seq::empty()) }),
            Box::new(rpc_model_of_ir(*r)),
            asserts_only(constraints_model(m.constraints@)),
        ),
        TypeIR::Union(ts, m) => TypeModel::Union(
            Seq::new(ts@.len(), |i: int| if 0 <= i < ts@.len() { rpc_model_of_ir(ts@[i]) } else { TypeModel::Primitive(TypeValue::Null, Seq::empty()) }),
            asserts_only(constraints_model(m.constraints@)),
        ),
    }
}

/// Model of an intermediate-representation type with all its constraints,
/// `@check` ones too; streaming modes are set to non-streaming.
pub open spec fn ir_model(t: TypeIR) -> TypeModel
    decreases t,
{
    match t {
        TypeIR::Primitive(v, m) => TypeModel::Primitive(v, constraints_model(m.constraints@)),
        TypeIR::Enum { name, dynamic, meta } => TypeModel::Enum {
            name: name@,
            dynamic,
            meta: constraints_model(meta.constraints@),
        },
        TypeIR::Literal(l, m) => TypeModel::Literal(literal_model(l), constraints_model(m.constraints@)),
        TypeIR::Class { name, mode, dynamic, meta } => TypeModel::Class {
            name: name@,
            mode: StreamingMode::NonStreaming,
            dynamic,
            meta: constraints_model(meta.constraints@),
        },
        TypeIR::List(t, m) => TypeModel::List(Box::new(ir_model(*t)), constraints_model(m.constraints@)),
        TypeIR::MapOf(k, v, m) => TypeModel::MapOf(
            Box::new(ir_model(*k)),
            Box::new(ir_model(*v)),
            constraints_model(m.constraints@),
        ),
        TypeIR::RecursiveTypeAlias { name, mode, meta } => TypeModel::RecursiveTypeAlias {
            name: name@,
            mode: StreamingMode::NonStreaming,
            meta: constraints_model(meta.constraints@),
        },
        TypeIR::Tuple(ts, m) => TypeModel::Tuple(
            Seq::new(ts@.len(), |i: int| if 0 <= i < ts@.len() { ir_model(ts@[i]) } else { TypeModel::Primitive(TypeValue::Null, Seq::empty()) }),
            constraints_model(m.constraints@),
        ),
        TypeIR::Arrow(ps, r, m) => TypeModel::Arrow(
            Seq::new(ps@.len(), |i: int| if 0 <= i < ps@.len() { ir_model(ps@[i]) } else { TypeModel::Primitive(TypeValue::Null, Seq::empty()) }),
            Box::new(ir_model(*r)),
            constraints_model(m.constraints@),
        ),
        TypeIR::Union(ts, m) => TypeModel::Union(
            Seq::new(ts@.len(), |i: int| if 0 <= i < ts@.len() { ir_model(ts@[i]) } else { TypeModel::Primitive(TypeValue::Null, Seq::empty()) }),
            constraints_model(m.constraints@),
        ),
    }
}

/// A type with every `@check` constraint removed, at every depth.
pub open spec fn strip_checks(t: TypeModel) -> TypeModel
    decreases t,
{
    match t {
        TypeModel::Primitive(v, m) => TypeModel::Primitive(v, asserts_only(m)),
        TypeModel::Enum { name, dynamic, meta } => TypeModel::Enum { name, dynamic, meta: asserts_only(meta) },
        TypeModel::Literal(l, m) => TypeModel::Literal(l, asserts_only(m)),
        TypeModel::Class { name, mode, dynamic, meta } => TypeModel::Class { name, mode, dynamic, meta: asserts_only(meta) },
        TypeModel::List(t, m) => TypeModel::List(Box::new(strip_checks(*t)), asserts_only(m)),
        TypeModel::MapOf(k, v, m) => TypeModel::MapOf(Box::new(strip_checks(*k)), Box::new(strip_checks(*v)), asserts_only(m)),
        TypeModel::Tuple(ts, m) => TypeModel::Tuple(strip_children(ts), asserts_only(m)),
        TypeModel::Arrow(ps, r, m) => TypeModel::Arrow(strip_children(ps), Box::new(strip_checks(*r)), asserts_only(m)),
        TypeModel::Union(ts, m) => TypeModel::Union(strip_children(ts), asserts_only(m)),
        TypeModel::RecursiveTypeAlias { name, mode, meta } => TypeModel::RecursiveTypeAlias { name, mode, meta: asserts_only(meta) },
    }
}

/// Each type of a list with its `@check` constraints removed.
pub open spec fn strip_children(ts: Seq<TypeModel>) -> Seq<TypeModel>
    decreases ts,
{
    if ts.len() == 0 {
        Seq::empty()
    } else {
        proof {
            assert(decreases_to!(ts => ts.subrange(0, ts.len() - 1)));
        }
        strip_children(ts.drop_last()).push(strip_checks(ts.last()))
    }
}

proof fn lemma_strip_children(ts: Seq<TypeModel>)
    ensures
        strip_children(ts).len() == ts.len(),
        forall|i: int| 0 <= i < ts.len() ==> #[trigger] strip_children(ts)[i] == strip_checks(ts[i]),
    decreases ts,
{
    if ts.len() > 0 {
        assert(decreases_to!(ts => ts.subrange(0, ts.len() - 1)));
        lemma_strip_children(ts.drop_last());
    }
}

/// Converting a type keeps everything of it but its `@check` constraints,
/// at every depth.
pub proof fn lemma_conversion_strips_checks(t: TypeIR)
    ensures
        rpc_model_of_ir(t) == strip_checks(ir_model(t)),
    decreases t,
{
    match t {
        TypeIR::List(x, _) => lemma_conversion_strips_checks(*x),
        TypeIR::MapOf(k, v, _) => {
            lemma_conversion_strips_checks(*k);
            lemma_conversion_strips_checks(*v);
        },
        TypeIR::Tuple(ts, _) => {
            let ms = ir_model(t)->Tuple_0;
            lemma_strip_children(ms);
            assert forall|i: int| 0 <= i < ts@.len() implies #[trigger] rpc_model_of_ir(t)->Tuple_0[i]
                == strip_children(ms)[i] by {
                assert(decreases_to!(t => ts));
                assert(decreases_to!(ts => ts@));
                assert(decreases_to!(ts@ => ts@[i]));
                lemma_conversion_strips_checks(ts@[i]);
            }
            assert(rpc_model_of_ir(t)->Tuple_0 =~= strip_children(ms));
        },
        TypeIR::Union(ts, _) => {
            let ms = ir_model(t)->Union_0;
            lemma_strip_children(ms);
            assert forall|i: int| 0 <= i < ts@.len() implies #[trigger] rpc_model_of_ir(t)->Union_0[i]
                == strip_children(ms)[i] by {
                assert(decreases_to!(t => ts));
                assert(decreases_to!(ts => ts@));
                assert(decreases_to!(ts@ => ts@[i]));
                lemma_conversion_strips_checks(ts@[i]);
            }
            assert(rpc_model_of_ir(t)->Union_0 =~= strip_children(ms));
        },
        TypeIR::Arrow(ps, r, _) => {
            let ms = ir_model(t)->Arrow_0;
            lemma_strip_children(ms);
            assert forall|i: int| 0 <= i < ps@.len() implies #[trigger] rpc_model_of_ir(t)->Arrow_0[i]
                == strip_children(ms)[i] by {
                assert(decreases_to!(t => ps));
                assert(decreases_to!(ps => ps@));
                assert(decreases_to!(ps@ => ps@[i]));
                lemma_conversion_strips_checks(ps@[i]);
            }
            assert(rpc_model_of_ir(t)->Arrow_0 =~= strip_children(ms));
            lemma_conversion_strips_checks(*r);
        },
        _ => {},
    }
}

/// Copies a string.
pub fn copy_string(s: &String) -> (r: String)
    ensures
        r@ == s@,
{
    s.clone()
}

fn copy_option_string(o: &Option<String>) -> (r: Option<String>)
    ensures
        option_string_model(r) == option_string_model(*o),
{
    match o {
        Some(s) => Some(s.clone()),
        None => None,
    }
}

fn copy_constraints(cs: &Vec<Constraint>) -> (r: Vec<Constraint>)
    ensures
        constraints_model(r@) == constraints_model(cs@),
{
    let mut out: Vec<Constraint> = Vec::new();
    let mut i: usize = 0;
    while i < cs.len()
        invariant
            i <= cs@.len(),
            out@.len() == i,
            constraints_model(out@) == constraints_model(cs@.take(i as int)),
        decreases cs@.len() - i,
    {
        let c = &cs[i];
        let copy = Constraint {
            level: c.level,
            expression: c.expression.clone(),
            label: copy_option_string(&c.label),
        };
        let ghost before = out@;
        proof {
            assert(constraint_model(copy) == constraint_model(cs@[i as int]));
        }
        out.push(copy);
        i = i + 1;
        proof {
            assert forall|k: int| 0 <= k < i implies #[trigger] constraints_model(out@)[k] == constraints_model(cs@.take(i as int))[k] by {
                if k < i - 1 {
                    assert(out@[k] == before[k]);
                    assert(constraints_model(before)[k] == constraints_model(cs@.take(i - 1))[k]);
                }
            }
            assert(constraints_model(out@) =~= constraints_model(cs@.take(i as int)));
        }
    }
    assert(cs@.take(i as int) =~= cs@);
    out
}

fn copy_literal(l: &LiteralValue) -> (r: LiteralValue)
    ensures
        literal_model(r) == literal_model(*l),
{
    match l {
        LiteralValue::String(s) => LiteralValue::String(s.clone()),
        LiteralValue::Int(i) => LiteralValue::Int(*i),
        LiteralValue::Bool(b) => LiteralValue::Bool(*b),
    }
}

/// The `@assert` constraints of a list, in order.
pub open spec fn asserts_only(cs: Seq<ConstraintModel>) -> Seq<ConstraintModel> {
    cs.filter(|c: ConstraintModel| c.level is Assert)
}

/// The metadata a converted type keeps: its `@assert` constraints.
fn meta_of_ir(m: &MetaIR) -> (r: MetaRPC)
    ensures
        constraints_model(r.constraints@) == asserts_only(constraints_model(m.constraints@)),
{
    let ghost cs = constraints_model(m.constraints@);
    let ghost pred = |c: ConstraintModel| c.level is Assert;
    let mut out: Vec<Constraint> = Vec::new();
    let mut i: usize = 0;
    proof {
        assert(cs.take(0) =~= Seq::<ConstraintModel>::empty());
        assert(constraints_model(out@) =~= asserts_only(cs.take(0)));
    }
    while i < m.constraints.len()
        invariant
            i <= m.constraints@.len(),
            cs == constraints_model(m.constraints@),
            pred == (|c: ConstraintModel| c.level is Assert),
            constraints_model(out@) == asserts_only(cs.take(i as int)),
        decreases m.constraints@.len() - i,
    {
        let c = &m.constraints[i];
        proof {
            assert(cs.take(i + 1) =~= cs.take(i as int).push(cs[i as int]));
            cs.take(i as int).lemma_filter_push(cs[i as int], pred);
            assert(cs[i as int] == constraint_model(*c));
        }
        let ghost before = out@;
        match c.level {
            ConstraintLevel::Assert => {
                let copy = Constraint {
                    level: c.level,
                    expression: c.expression.clone(),
                    label: copy_option_string(&c.label),
                };
                out.push(copy);
                assert(constraints_model(out@) =~= constraints_model(before).push(constraint_model(copy)));
            },
            ConstraintLevel::Check => {},
        }
        i = i + 1;
    }
    assert(cs.take(i as int) =~= cs);
    MetaRPC { constraints: out }
}

/// Converts a list of intermediate-representation types.
fn from_type_ir_list(ts: &Vec<TypeIR>, Ghost(whole): Ghost<TypeIR>) -> (r: Vec<TypeRPC>)
    requires
        decreases_to!(whole => ts@),
    ensures
        r@.len() == ts@.len(),
        forall|k: int| 0 <= k < ts@.len() ==> #[trigger] rpc_model(r@[k]) == rpc_model_of_ir(ts@[k]),
    decreases whole, 0nat,
{
    let mut out: Vec<TypeRPC> = Vec::new();
    let mut i: usize = 0;
    while i < ts.len()
        invariant
            i <= ts@.len(),
            decreases_to!(whole => ts@),
            out@.len() == i,
            forall|k: int| 0 <= k < i ==> #[trigger] rpc_model(out@[k]) == rpc_model_of_ir(ts@[k]),
        decreases ts@.len() - i,
    {
        proof {
            assert(decreases_to!(ts@ => ts@[i as int]));
        }
        let c = from_type_ir(&ts[i]);
        out.push(c);
        i = i + 1;
    }
    out
}

/// Converts an intermediate-representation type to its hashed form.
pub fn from_type_ir(t: &TypeIR) -> (r: TypeRPC)
    ensures
        r@ == rpc_model_of_ir(*t),
    decreases *t, 1nat,
{
    let r = match t {
        TypeIR::Primitive(v, m) => TypeRPC::Primitive(*v, meta_of_ir(m)),
        TypeIR::Enum { name, dynamic, meta } => TypeRPC::Enum {
            name: name.clone(),
            dynamic: *dynamic,
            meta: meta_of_ir(meta),
        },
        TypeIR::Literal(l, m) => TypeRPC::Literal(copy_literal(l), meta_of_ir(m)),
        TypeIR::Class { name, mode: _, dynamic, meta } => TypeRPC::Class {
            name: name.clone(),
            mode: StreamingMode::NonStreaming,
            dynamic: *dynamic,
            meta: meta_of_ir(meta),
        },
        TypeIR::List(item, m) => TypeRPC::List(Box::new(from_type_ir(item)), meta_of_ir(m)),
        TypeIR::MapOf(k, v, m) => {
            let key = from_type_ir(k);
            let value = from_type_ir(v);
            TypeRPC::MapOf(Box::new(key), Box::new(value), meta_of_ir(m))
        },
        TypeIR::RecursiveTypeAlias { name, mode: _, meta } => TypeRPC::RecursiveTypeAlias {
            name: name.clone(),
            mode: StreamingMode::NonStreaming,
            meta: meta_of_ir(meta),
        },
        TypeIR::Tuple(ts, m) => {
            proof {
                assert(decreases_to!(*t => *ts));
                assert(decreases_to!(*ts => ts@));
            }
            let items = from_type_ir_list(ts, Ghost(*t));
            let r = TypeRPC::Tuple(items, meta_of_ir(m));
            assert forall|k: int| 0 <= k < items@.len() implies #[trigger] rpc_model(r)->Tuple_0[k] == rpc_model_of_ir(*t)->Tuple_0[k] by {
                assert(rpc_model(items@[k]) == rpc_model_of_ir(ts@[k]));
            }
            assert(rpc_model(r)->Tuple_0 =~= rpc_model_of_ir(*t)->Tuple_0);
            r
        },
        TypeIR::Arrow(ps, ret, m) => {
            proof {
                assert(decreases_to!(*t => *ps));
                assert(decreases_to!(*ps => ps@));
            }
            let params = from_type_ir_list(ps, Ghost(*t));
            let ret_rpc = from_type_ir(ret);
            let r = TypeRPC::Arrow(params, Box::new(ret_rpc), meta_of_ir(m));
            assert forall|k: int| 0 <= k < params@.len() implies #[trigger] rpc_model(r)->Arrow_0[k] == rpc_model_of_ir(*t)->Arrow_0[k] by {
                assert(rpc_model(params@[k]) == rpc_model_of_ir(ps@[k]));
            }
            assert(rpc_model(r)->Arrow_0 =~= rpc_model_of_ir(*t)->Arrow_0);
            r
        },
        TypeIR::Union(ts, m) => {
            proof {
                assert(decreases_to!(*t => *ts));
                assert(decreases_to!(*ts => ts@));
            }
            let items = from_type_ir_list(ts, Ghost(*t));
            let r = TypeRPC::Union(items, meta_of_ir(m));
            assert forall|k: int| 0 <= k < items@.len() implies #[trigger] rpc_model(r)->Union_0[k] == rpc_model_of_ir(*t)->Union_0[k] by {
                assert(rpc_model(items@[k]) == rpc_model_of_ir(ts@[k]));
            }
            assert(rpc_model(r)->Union_0 =~= rpc_model_of_ir(*t)->Union_0);
            r
        },
    };
    r
}

fn copy_meta(m: &MetaRPC) -> (r: MetaRPC)
    ensures
        constraints_model(r.constraints@) == constraints_model(m.constraints@),
{
    MetaRPC { constraints: copy_constraints(&m.constraints) }
}

fn copy_type_list(ts: &Vec<TypeRPC>, Ghost(whole): Ghost<TypeRPC>) -> (r: Vec<TypeRPC>)
    requires
        decreases_to!(whole => ts@),
    ensures
        r@.len() == ts@.len(),
        forall|k: int| 0 <= k < ts@.len() ==> #[trigger] rpc_model(r@[k]) == rpc_model(ts@[k]),
    decreases whole, 0nat,
{
    let mut out: Vec<TypeRPC> = Vec::new();
    let mut i: usize = 0;
    while i < ts.len()
        invariant
            i <= ts@.len(),
            decreases_to!(whole => ts@),
            out@.len() == i,
            forall|k: int| 0 <= k < i ==> #[trigger] rpc_model(out@[k]) == rpc_model(ts@[k]),
        decreases ts@.len() - i,
    {
        proof {
            assert(decreases_to!(ts@ => ts@[i as int]));
        }
        let c = copy_type(&ts[i]);
        out.push(c);
        i = i + 1;
    }
    out
}

/// A copy of a hashed type.
pub fn copy_type(t: &TypeRPC) -> (r: TypeRPC)
    ensures
        r@ == t@,
    decreases *t, 1nat,
{
    match t {
        TypeRPC::Primitive(v, m) => TypeRPC::Primitive(*v, copy_meta(m)),
        TypeRPC::Enum { name, dynamic, meta } => TypeRPC::Enum {
            name: name.clone(),
            dynamic: *dynamic,
            meta: copy_meta(meta),
        },
        TypeRPC::Literal(l, m) => TypeRPC::Literal(copy_literal(l), copy_meta(m)),
        TypeRPC::Class { name, mode, dynamic, meta } => TypeRPC::Class {
            name: name.clone(),
            mode: *mode,
            dynamic: *dynamic,
            meta: copy_meta(meta),
        },
        TypeRPC::List(item, m) => TypeRPC::List(Box::new(copy_type(item)), copy_meta(m)),
        TypeRPC::MapOf(k, v, m) => {
            let key = copy_type(k);
            let value = copy_type(v);
            TypeRPC::MapOf(Box::new(key), Box::new(value), copy_meta(m))
        },
        TypeRPC::RecursiveTypeAlias { name, mode, meta } => TypeRPC::RecursiveTypeAlias {
            name: name.clone(),
            mode: *mode,
            meta: copy_meta(meta),
        },
        TypeRPC::Tuple(ts, m) => {
            proof {
                assert(decreases_to!(*t => *ts));
                assert(decreases_to!(*ts => ts@));
            }
            let items = copy_type_list(ts, Ghost(*t));
            let r = TypeRPC::Tuple(items, copy_meta(m));
            assert forall|k: int| 0 <= k < items@.len() implies #[trigger] rpc_model(r)->Tuple_0[k] == rpc_model(*t)->Tuple_0[k] by {
                assert(rpc_model(items@[k]) == rpc_model(ts@[k]));
            }
            assert(rpc_model(r)->Tuple_0 =~= rpc_model(*t)->Tuple_0);
            r
        },
        TypeRPC::Arrow(ps, ret, m) => {
            proof {
                assert(decreases_to!(*t => *ps));
                assert(decreases_to!(*ps => ps@));
            }
            let params = copy_type_list(ps, Ghost(*t));
            let ret_copy = copy_type(ret);
            let r = TypeRPC::Arrow(params, Box::new(ret_copy), copy_meta(m));
            assert forall|k: int| 0 <= k < params@.len() implies #[trigger] rpc_model(r)->Arrow_0[k] == rpc_model(*t)->Arrow_0[k] by {
                assert(rpc_model(params@[k]) == rpc_model(ps@[k]));
            }
            assert(rpc_model(r)->Arrow_0 =~= rpc_model(*t)->Arrow_0);
            r
        },
        TypeRPC::Union(ts, m) => {
            proof {
                assert(decreases_to!(*t => *ts));
                assert(decreases_to!(*ts => ts@));
            }
            let items = copy_type_list(ts, Ghost(*t));
            let r = TypeRPC::Union(items, copy_meta(m));
            assert forall|k: int| 0 <= k < items@.len() implies #[trigger] rpc_model(r)->Union_0[k] == rpc_model(*t)->Union_0[k] by {
                assert(rpc_model(items@[k]) == rpc_model(ts@[k]));
            }
            assert(rpc_model(r)->Union_0 =~= rpc_model(*t)->Union_0);
            r
        },
    }
}

impl TypeRPC {
    /// The type of the class of the given name, non-streaming, not dynamic,
    /// with no constraints.
    pub fn class(name: &str) -> (r: TypeRPC)
        ensures
            r@ == (TypeModel::Class { name: name@, mode: StreamingMode::NonStreaming, dynamic: false, meta: Seq::empty() }),
    {
        assert(constraints_model(Seq::<Constraint>::empty()) =~= Seq::empty());
        TypeRPC::Class {
            name: name.to_owned(),
            mode: StreamingMode::NonStreaming,
            dynamic: false,
            meta: MetaRPC { constraints: Vec::new() },
        }
    }

    /// The type of the enum of the given name, not dynamic, with no
    /// constraints.
    pub fn enum_named(name: &str) -> (r: TypeRPC)
        ensures
            r@ == (TypeModel::Enum { name: name@, dynamic: false, meta: Seq::empty() }),
    {
        assert(constraints_model(Seq::<Constraint>::empty()) =~= Seq::empty());
        TypeRPC::Enum { name: name.to_owned(), dynamic: false, meta: MetaRPC { constraints: Vec::new() } }
    }
}

} // verus!
