//! Signatures of all top-level definitions of a program.

pub mod shallow_hash;
pub mod signature;

use vstd::prelude::*;
use crate::agg::shallow_hash::{entries_model, signature_model, table_of, AllTops, HashError, ShallowHash, ShallowModel};
use crate::agg::signature::{signature_error, signature_matches, signature_ok, Signature, SignatureType};
use crate::ast::class::{ClassDefinition, TopClassDefinition};
use crate::ast::client::{ClientDefinition, TopClientDefinition};
use crate::ast::enums::{EnumDefinition, TopEnumDefinition};
use crate::ast::function::{FunctionDefinition, TopFunctionDefinition};
use crate::ast::retry_policy::{RetryPolicyDefinition, TopRetryPolicyDefinition};
use crate::ast::type_alias::{TopTypeAliasDefinition, TypeAliasDefinition};
use crate::interfaces::{ShallowSignature, TypedObject};

verus! {

/// A program whose definitions can be signed.
pub trait CanMakeSignature {
    type Function: FunctionDefinition;
    type Class: ClassDefinition;
    type Enum: EnumDefinition;
    type TypeAlias: TypeAliasDefinition;
    type Client: ClientDefinition;
    type RetryPolicy: RetryPolicyDefinition;

    spec fn function_refs<'a>(&'a self) -> Seq<&'a Self::Function>;

    spec fn class_refs<'a>(&'a self) -> Seq<&'a Self::Class>;

    spec fn enum_refs<'a>(&'a self) -> Seq<&'a Self::Enum>;

    spec fn type_alias_refs<'a>(&'a self) -> Seq<&'a Self::TypeAlias>;

    spec fn client_refs<'a>(&'a self) -> Seq<&'a Self::Client>;

    spec fn retry_policy_refs<'a>(&'a self) -> Seq<&'a Self::RetryPolicy>;

    fn functions<'a>(&'a self) -> (r: Vec<&'a Self::Function>)
        ensures
            r@ == self.function_refs(),
    ;

    fn classes<'a>(&'a self) -> (r: Vec<&'a Self::Class>)
        ensures
            r@ == self.class_refs(),
    ;

    fn enums<'a>(&'a self) -> (r: Vec<&'a Self::Enum>)
        ensures
            r@ == self.enum_refs(),
    ;

    fn type_aliases<'a>(&'a self) -> (r: Vec<&'a Self::TypeAlias>)
        ensures
            r@ == self.type_alias_refs(),
    ;

    fn clients<'a>(&'a self) -> (r: Vec<&'a Self::Client>)
        ensures
            r@ == self.client_refs(),
    ;

    fn retry_policies<'a>(&'a self) -> (r: Vec<&'a Self::RetryPolicy>)
        ensures
            r@ == self.retry_policy_refs(),
    ;
}

/// A reference to a program can be signed as the program itself.
impl<'x, T: CanMakeSignature> CanMakeSignature for &'x T {
    type Function = T::Function;
    type Class = T::Class;
    type Enum = T::Enum;
    type TypeAlias = T::TypeAlias;
    type Client = T::Client;
    type RetryPolicy = T::RetryPolicy;

    open spec fn function_refs<'a>(&'a self) -> Seq<&'a T::Function> {
        (**self).function_refs()
    }

    open spec fn class_refs<'a>(&'a self) -> Seq<&'a T::Class> {
        (**self).class_refs()
    }

    open spec fn enum_refs<'a>(&'a self) -> Seq<&'a T::Enum> {
        (**self).enum_refs()
    }

    open spec fn type_alias_refs<'a>(&'a self) -> Seq<&'a T::TypeAlias> {
        (**self).type_alias_refs()
    }

    open spec fn client_refs<'a>(&'a self) -> Seq<&'a T::Client> {
        (**self).client_refs()
    }

    open spec fn retry_policy_refs<'a>(&'a self) -> Seq<&'a T::RetryPolicy> {
        (**self).retry_policy_refs()
    }

    fn functions<'a>(&'a self) -> (r: Vec<&'a T::Function>) {
        (**self).functions()
    }

    fn classes<'a>(&'a self) -> (r: Vec<&'a T::Class>) {
        (**self).classes()
    }

    fn enums<'a>(&'a self) -> (r: Vec<&'a T::Enum>) {
        (**self).enums()
    }

    fn type_aliases<'a>(&'a self) -> (r: Vec<&'a T::TypeAlias>) {
        (**self).type_aliases()
    }

    fn clients<'a>(&'a self) -> (r: Vec<&'a T::Client>) {
        (**self).clients()
    }

    fn retry_policies<'a>(&'a self) -> (r: Vec<&'a T::RetryPolicy>) {
        (**self).retry_policies()
    }
}

/// A function's name and shallow hash.
pub open spec fn function_entry<'a, F: FunctionDefinition>(f: &'a F) -> (Seq<char>, ShallowModel) {
    (f.function_model().name, signature_model(TopFunctionDefinition(f)))
}

/// A class's name and shallow hash.
pub open spec fn class_entry<'a, C: ClassDefinition>(c: &'a C) -> (Seq<char>, ShallowModel) {
    (c.typed_model().name, signature_model(TopClassDefinition(c)))
}

/// An enum's name and shallow hash.
pub open spec fn enum_entry<'a, E: EnumDefinition>(e: &'a E) -> (Seq<char>, ShallowModel) {
    (e.typed_model().name, signature_model(TopEnumDefinition(e)))
}

/// A type alias's name and shallow hash.
pub open spec fn type_alias_entry<'a, T: TypeAliasDefinition>(t: &'a T) -> (Seq<char>, ShallowModel) {
    (t.alias_model().name, signature_model(TopTypeAliasDefinition(t)))
}

/// A client's name and shallow hash.
pub open spec fn client_entry<'a, L: ClientDefinition>(l: &'a L) -> (Seq<char>, ShallowModel) {
    (l.client_model().name, signature_model(TopClientDefinition(l)))
}

/// A retry policy's name and shallow hash.
pub open spec fn retry_policy_entry<'a, R: RetryPolicyDefinition>(r: &'a R) -> (Seq<char>, ShallowModel) {
    (r.retry_model().name, signature_model(TopRetryPolicyDefinition(r)))
}

pub open spec fn function_entries<'a, F: FunctionDefinition>(fs: Seq<&'a F>) -> Seq<(Seq<char>, ShallowModel)> {
    Seq::new(fs.len(), |i: int| function_entry(fs[i]))
}

pub open spec fn class_entries<'a, C: ClassDefinition>(cs: Seq<&'a C>) -> Seq<(Seq<char>, ShallowModel)> {
    Seq::new(cs.len(), |i: int| class_entry(cs[i]))
}

pub open spec fn enum_entries<'a, E: EnumDefinition>(es: Seq<&'a E>) -> Seq<(Seq<char>, ShallowModel)> {
    Seq::new(es.len(), |i: int| enum_entry(es[i]))
}

pub open spec fn type_alias_entries<'a, T: TypeAliasDefinition>(ts: Seq<&'a T>) -> Seq<(Seq<char>, ShallowModel)> {
    Seq::new(ts.len(), |i: int| type_alias_entry(ts[i]))
}

pub open spec fn client_entries<'a, L: ClientDefinition>(ls: Seq<&'a L>) -> Seq<(Seq<char>, ShallowModel)> {
    Seq::new(ls.len(), |i: int| client_entry(ls[i]))
}

pub open spec fn retry_policy_entries<'a, R: RetryPolicyDefinition>(rs: Seq<&'a R>) -> Seq<(Seq<char>, ShallowModel)> {
    Seq::new(rs.len(), |i: int| retry_policy_entry(rs[i]))
}

/// The entries of a program's definitions: functions, classes, enums, type
/// aliases, clients, retry policies.
pub open spec fn program_entries<S: CanMakeSignature>(s: S) -> Seq<(Seq<char>, ShallowModel)> {
    function_entries(s.function_refs()) + class_entries(s.class_refs()) + enum_entries(s.enum_refs())
        + type_alias_entries(s.type_alias_refs()) + client_entries(s.client_refs()) + retry_policy_entries(
        s.retry_policy_refs(),
    )
}

/// The kind of the `k`-th definition of a program, counting functions, then
/// classes, enums, type aliases, clients and retry policies.
pub open spec fn kind_at<S: CanMakeSignature>(s: S, k: int) -> SignatureType {
    let b1 = s.function_refs().len();
    let b2 = b1 + s.class_refs().len();
    let b3 = b2 + s.enum_refs().len();
    let b4 = b3 + s.type_alias_refs().len();
    let b5 = b4 + s.client_refs().len();
    if k < b1 {
        SignatureType::Function
    } else if k < b2 {
        SignatureType::Class
    } else if k < b3 {
        SignatureType::Enum
    } else if k < b4 {
        SignatureType::TypeAlias
    } else if k < b5 {
        SignatureType::Client
    } else {
        SignatureType::RetryPolicy
    }
}

/// Each definition of a program with its kind, in the order of
/// `program_entries`.
pub open spec fn program_names<S: CanMakeSignature>(s: S) -> Seq<(SignatureType, Seq<char>)> {
    Seq::new(program_entries(s).len(), |k: int| (kind_at(s, k), program_entries(s)[k].0))
}

/// Appends a definition's name and shallow hash.
fn push_entry<T: ShallowSignature>(entries: &mut Vec<(String, ShallowHash)>, name: &str, top: T)
    ensures
        entries_model(final(entries)@) == entries_model(old(entries)@).push((name@, signature_model(top))),
{
    let ghost before = entries@;
    let h = ShallowHash::new(top);
    entries.push((name.to_owned(), h));
    assert(entries_model(entries@) =~= entries_model(before).push((name@, signature_model(top))));
}

fn push_function_entries<'a, F: FunctionDefinition>(entries: &mut Vec<(String, ShallowHash)>, fs: &Vec<&'a F>)
    ensures
        entries_model(final(entries)@) == entries_model(old(entries)@) + function_entries(fs@),
{
    let ghost start = entries_model(entries@);
    let mut i: usize = 0;
    while i < fs.len()
        invariant
            i <= fs@.len(),
            entries_model(entries@) == start + function_entries(fs@.take(i as int)),
        decreases fs@.len() - i,
    {
        let f = fs[i];
        push_entry(entries, f.name(), TopFunctionDefinition(f));
        i = i + 1;
        assert(function_entries(fs@.take(i as int)) =~= function_entries(fs@.take(i - 1)).push(function_entry(f)));
        assert(entries_model(entries@) =~= start + function_entries(fs@.take(i as int)));
    }
    assert(fs@.take(i as int) =~= fs@);
}

fn push_class_entries<'a, C: ClassDefinition>(entries: &mut Vec<(String, ShallowHash)>, cs: &Vec<&'a C>)
    ensures
        entries_model(final(entries)@) == entries_model(old(entries)@) + class_entries(cs@),
{
    let ghost start = entries_model(entries@);
    let mut i: usize = 0;
    while i < cs.len()
        invariant
            i <= cs@.len(),
            entries_model(entries@) == start + class_entries(cs@.take(i as int)),
        decreases cs@.len() - i,
    {
        let c = cs[i];
        push_entry(entries, c.name(), TopClassDefinition(c));
        i = i + 1;
        assert(class_entries(cs@.take(i as int)) =~= class_entries(cs@.take(i - 1)).push(class_entry(c)));
        assert(entries_model(entries@) =~= start + class_entries(cs@.take(i as int)));
    }
    assert(cs@.take(i as int) =~= cs@);
}

fn push_enum_entries<'a, E: EnumDefinition>(entries: &mut Vec<(String, ShallowHash)>, es: &Vec<&'a E>)
    ensures
        entries_model(final(entries)@) == entries_model(old(entries)@) + enum_entries(es@),
{
    let ghost start = entries_model(entries@);
    let mut i: usize = 0;
    while i < es.len()
        invariant
            i <= es@.len(),
            entries_model(entries@) == start + enum_entries(es@.take(i as int)),
        decreases es@.len() - i,
    {
        let e = es[i];
        push_entry(entries, e.name(), TopEnumDefinition(e));
        i = i + 1;
        assert(enum_entries(es@.take(i as int)) =~= enum_entries(es@.take(i - 1)).push(enum_entry(e)));
        assert(entries_model(entries@) =~= start + enum_entries(es@.take(i as int)));
    }
    assert(es@.take(i as int) =~= es@);
}

fn push_type_alias_entries<'a, T: TypeAliasDefinition>(entries: &mut Vec<(String, ShallowHash)>, ts: &Vec<&'a T>)
    ensures
        entries_model(final(entries)@) == entries_model(old(entries)@) + type_alias_entries(ts@),
{
    let ghost start = entries_model(entries@);
    let mut i: usize = 0;
    while i < ts.len()
        invariant
            i <= ts@.len(),
            entries_model(entries@) == start + type_alias_entries(ts@.take(i as int)),
        decreases ts@.len() - i,
    {
        let t = ts[i];
        push_entry(entries, t.name(), TopTypeAliasDefinition(t));
        i = i + 1;
        assert(type_alias_entries(ts@.take(i as int)) =~= type_alias_entries(ts@.take(i - 1)).push(type_alias_entry(t)));
        assert(entries_model(entries@) =~= start + type_alias_entries(ts@.take(i as int)));
    }
    assert(ts@.take(i as int) =~= ts@);
}

fn push_client_entries<'a, L: ClientDefinition>(entries: &mut Vec<(String, ShallowHash)>, ls: &Vec<&'a L>)
    ensures
        entries_model(final(entries)@) == entries_model(old(entries)@) + client_entries(ls@),
{
    let ghost start = entries_model(entries@);
    let mut i: usize = 0;
    while i < ls.len()
        invariant
            i <= ls@.len(),
            entries_model(entries@) == start + client_entries(ls@.take(i as int)),
        decreases ls@.len() - i,
    {
        let l = ls[i];
        push_entry(entries, l.name(), TopClientDefinition(l));
        i = i + 1;
        assert(client_entries(ls@.take(i as int)) =~= client_entries(ls@.take(i - 1)).push(client_entry(l)));
        assert(entries_model(entries@) =~= start + client_entries(ls@.take(i as int)));
    }
    assert(ls@.take(i as int) =~= ls@);
}

fn push_retry_policy_entries<'a, R: RetryPolicyDefinition>(entries: &mut Vec<(String, ShallowHash)>, rs: &Vec<&'a R>)
    ensures
        entries_model(final(entries)@) == entries_model(old(entries)@) + retry_policy_entries(rs@),
{
    let ghost start = entries_model(entries@);
    let mut i: usize = 0;
    while i < rs.len()
        invariant
            i <= rs@.len(),
            entries_model(entries@) == start + retry_policy_entries(rs@.take(i as int)),
        decreases rs@.len() - i,
    {
        let r = rs[i];
        push_entry(entries, r.name(), TopRetryPolicyDefinition(r));
        i = i + 1;
        assert(retry_policy_entries(rs@.take(i as int)) =~= retry_policy_entries(rs@.take(i - 1)).push(retry_policy_entry(r)));
        assert(entries_model(entries@) =~= start + retry_policy_entries(rs@.take(i as int)));
    }
    assert(rs@.take(i as int) =~= rs@);
}

impl AllTops {
    /// The shallow hash of every definition, keyed by name, in the order
    /// functions, classes, enums, type aliases, clients, retry policies.
    pub fn new<'a, F: FunctionDefinition, C: ClassDefinition, E: EnumDefinition, T: TypeAliasDefinition, L: ClientDefinition, R: RetryPolicyDefinition>(
        functions: &Vec<&'a F>,
        classes: &Vec<&'a C>,
        enums: &Vec<&'a E>,
        type_aliases: &Vec<&'a T>,
        clients: &Vec<&'a L>,
        retry_policies: &Vec<&'a R>,
    ) -> (r: Self)
        ensures
            r.entries() == function_entries(functions@) + class_entries(classes@) + enum_entries(enums@)
                + type_alias_entries(type_aliases@) + client_entries(clients@) + retry_policy_entries(retry_policies@),
            r.table() == table_of(r.entries()),
    {
        let mut entries: Vec<(String, ShallowHash)> = Vec::new();
        assert(entries_model(entries@) =~= Seq::empty());
        push_function_entries(&mut entries, functions);
        push_class_entries(&mut entries, classes);
        push_enum_entries(&mut entries, enums);
        push_type_alias_entries(&mut entries, type_aliases);
        push_client_entries(&mut entries, clients);
        push_retry_policy_entries(&mut entries, retry_policies);
        AllTops::from_entries(entries)
    }
}

/// The name a failed signing of a program reports: the one the first
/// definition that cannot be signed reports.
pub open spec fn program_error<S: CanMakeSignature>(s: S, n: Seq<char>) -> bool {
    let names = program_names(s);
    let t = table_of(program_entries(s));
    exists|i: int|
        0 <= i < names.len() && (forall|k: int| 0 <= k < i ==> signature_ok(t, #[trigger] names[k].1))
            && signature_error(t, #[trigger] names[i].1, n)
}

/// What signing a program may give: success exactly when every definition
/// can be signed, with each signature as it must be, in program order; and
/// on failure the name that the first definition that cannot be signed
/// misses.
pub open spec fn signed<S: CanMakeSignature>(s: S, r: Result<Vec<Signature>, HashError>) -> bool {
    let names = program_names(s);
    let t = table_of(program_entries(s));
    &&& r is Ok <==> (forall|i: int| 0 <= i < names.len() ==> signature_ok(t, #[trigger] names[i].1))
    &&& r matches Ok(v) ==> v@.len() == names.len() && forall|i: int| 0 <= i < v@.len()
        ==> signature_matches(#[trigger] v@[i], names[i].0, names[i].1, t)
    &&& r matches Err(HashError::DependencyNotFound(n)) ==> program_error(s, n@)
}

/// The signature of every definition of a program, in the order functions,
/// classes, enums, type aliases, clients, retry policies.  Fails when a
/// definition, or something it depends on, has no entry.
pub fn generate_signatures<S: CanMakeSignature>(can_make_signature: S) -> (r: Result<Vec<Signature>, HashError>)
    ensures
        r is Ok <==> (forall|i: int| 0 <= i < program_names(can_make_signature).len()
            ==> signature_ok(table_of(program_entries(can_make_signature)), #[trigger] program_names(can_make_signature)[i].1)),
        r matches Ok(v) ==> v@.len() == program_names(can_make_signature).len() && forall|i: int| 0 <= i < v@.len()
            ==> signature_matches(#[trigger] v@[i], program_names(can_make_signature)[i].0, program_names(can_make_signature)[i].1,
                table_of(program_entries(can_make_signature))),
        r matches Err(HashError::DependencyNotFound(n)) ==> program_error(can_make_signature, n@),
{
    let functions = can_make_signature.functions();
    let classes = can_make_signature.classes();
    let enums = can_make_signature.enums();
    let type_aliases = can_make_signature.type_aliases();
    let clients = can_make_signature.clients();
    let retry_policies = can_make_signature.retry_policies();
    let all_tops = AllTops::new(&functions, &classes, &enums, &type_aliases, &clients, &retry_policies);
    let ghost t = all_tops.table();
    let ghost names = program_names(can_make_signature);
    let ghost es = program_entries(can_make_signature);
    assert(all_tops.entries() == es);
    let n = all_tops.len();
    assert(n == functions@.len() + classes@.len() + enums@.len() + type_aliases@.len() + clients@.len()
        + retry_policies@.len());
    let b1 = functions.len();
    let b2 = b1 + classes.len();
    let b3 = b2 + enums.len();
    let b4 = b3 + type_aliases.len();
    let b5 = b4 + clients.len();
    let mut signatures: Vec<Signature> = Vec::new();
    let mut i: usize = 0;
    while i < n
        invariant
            i <= n,
            n == names.len(),
            names == program_names(can_make_signature),
            es == program_entries(can_make_signature),
            all_tops.entries() == es,
            t == all_tops.table(),
            t == table_of(es),
            b1 == can_make_signature.function_refs().len(),
            b2 == b1 + can_make_signature.class_refs().len(),
            b3 == b2 + can_make_signature.enum_refs().len(),
            b4 == b3 + can_make_signature.type_alias_refs().len(),
            b5 == b4 + can_make_signature.client_refs().len(),
            signatures@.len() == i,
            forall|k: int| 0 <= k < i ==> signature_ok(t, #[trigger] names[k].1),
            forall|k: int| 0 <= k < i ==> signature_matches(#[trigger] signatures@[k], names[k].0, names[k].1, t),
        decreases n - i,
    {
        let kind = if i < b1 {
            SignatureType::Function
        } else if i < b2 {
            SignatureType::Class
        } else if i < b3 {
            SignatureType::Enum
        } else if i < b4 {
            SignatureType::TypeAlias
        } else if i < b5 {
            SignatureType::Client
        } else {
            SignatureType::RetryPolicy
        };
        let name = all_tops.name_at(i);
        assert(names[i as int] == (kind, name@));
        match Signature::new(kind, name, &all_tops) {
            Ok(s) => signatures.push(s),
            Err(e) => {
                assert(!signature_ok(t, names[i as int].1));
                assert(e matches HashError::DependencyNotFound(m) ==> signature_error(t, names[i as int].1, m@));
                return Err(e);
            },
        }
        i = i + 1;
    }
    Ok(signatures)
}

} // verus!
