//! Identifiers of definitions as they are published: a kind, a name, and a
//! compile-time and/or runtime pair of hashes.

use vstd::prelude::*;
use crate::order::str_eq;
use crate::text::{
    all_digits, chars_of, clean_piece, dec_digits, decimal_chars, decimal_string, lemma_dec_digits,
    lemma_digits_clean, lemma_parse_decimal, lemma_split_six, parse_u64,
    parse_u64_spec, pieces, push_chars, push_text, sep_at, split_on_separator, split_sep, string_of,
};

verus! {

/// The kind of a published definition.
#[derive(Clone, Copy, Debug, PartialEq, Eq, Hash, Structural)]
pub enum AstNodeIdType {
    Ast,
    Function,
    TypeAlias,
    Enum,
    Class,
    Client,
    RetryPolicy,
    TemplateString,
}

/// An interface hash and an implementation hash.
#[derive(Clone, Copy, Debug, PartialEq, Eq, Hash, Structural)]
pub struct HashPart {
    interface_hash: u64,
    impl_hash: u64,
}

/// Two hashes in decimal, a splitter between them.
pub open spec fn part_text(p: (u64, u64), splitter: Seq<char>) -> Seq<char> {
    dec_digits(p.0 as nat) + splitter + dec_digits(p.1 as nat)
}

impl View for HashPart {
    type V = (u64, u64);

    open spec fn view(&self) -> (u64, u64) {
        (self.spec_interface_hash(), self.spec_impl_hash())
    }
}

impl HashPart {
    pub closed spec fn spec_interface_hash(&self) -> u64 {
        self.interface_hash
    }

    pub closed spec fn spec_impl_hash(&self) -> u64 {
        self.impl_hash
    }

    /// A pair of hashes is determined by its two hashes.
    pub proof fn lemma_view_injective(a: Self, b: Self)
        requires
            a@ == b@,
        ensures
            a == b,
    {
    }

    /// The pair with the given hashes.
    pub closed spec fn from_view(v: (u64, u64)) -> HashPart {
        HashPart { interface_hash: v.0, impl_hash: v.1 }
    }

    pub proof fn lemma_from_view(v: (u64, u64))
        ensures
            Self::from_view(v)@ == v,
    {
    }

    pub fn new(interface_hash: u64, impl_hash: u64) -> (r: Self)
        ensures
            r@ == (interface_hash, impl_hash),
            r == Self::from_view((interface_hash, impl_hash)),
    {
        HashPart { interface_hash, impl_hash }
    }

    /// The pair of zeros, which stands for an absent part.
    pub fn zero() -> (r: Self)
        ensures
            r@ == (0u64, 0u64),
    {
        HashPart { interface_hash: 0, impl_hash: 0 }
    }

    /// Both hashes in decimal, the splitter between them.
    pub fn with_splitter(&self, splitter: &str) -> (r: String)
        ensures
            r@ == part_text(self@, splitter@),
    {
        let mut out = decimal_string(self.interface_hash);
        push_text(&mut out, splitter);
        let tail = decimal_chars(self.impl_hash);
        push_chars(&mut out, &tail);
        out
    }

    pub fn interface_hash(&self) -> (r: u64)
        ensures
            r == self@.0,
    {
        self.interface_hash
    }

    pub fn impl_hash(&self) -> (r: u64)
        ensures
            r == self@.1,
    {
        self.impl_hash
    }
}

/// The hashes of a definition: known at compile time, at runtime, or both.
#[derive(Clone, Copy, Debug, PartialEq, Eq, Hash, Structural)]
pub enum NodeHash {
    CompileTimeOnly(HashPart),
    CompileTimeAndRuntime(HashPart, HashPart),
    RuntimeOnly(HashPart),
}

/// The compile-time part; zeros when there is none.
pub open spec fn spec_compile_time(h: NodeHash) -> (u64, u64) {
    match h {
        NodeHash::CompileTimeOnly(p) => p@,
        NodeHash::CompileTimeAndRuntime(p, _) => p@,
        NodeHash::RuntimeOnly(_) => (0u64, 0u64),
    }
}

/// The runtime part; zeros when there is none.
pub open spec fn spec_runtime(h: NodeHash) -> (u64, u64) {
    match h {
        NodeHash::CompileTimeOnly(_) => (0u64, 0u64),
        NodeHash::CompileTimeAndRuntime(_, p) => p@,
        NodeHash::RuntimeOnly(p) => p@,
    }
}

/// Both parts of a hash as text: the compile-time part, then the runtime
/// part, each pair of numbers and the parts separated by the splitter.
pub open spec fn node_hash_text(h: NodeHash, splitter: Seq<char>) -> Seq<char> {
    part_text(spec_compile_time(h), splitter) + splitter + part_text(spec_runtime(h), splitter)
}

impl NodeHash {
    /// Both parts as text, separated by the splitter.
    pub fn with_splitter(&self, splitter: &str) -> (r: String)
        ensures
            r@ == node_hash_text(*self, splitter@),
    {
        let mut out = self.compile_time().with_splitter(splitter);
        push_text(&mut out, splitter);
        let rt = self.runtime().with_splitter(splitter);
        push_text(&mut out, rt.as_str());
        out
    }

    /// The compile-time part; zeros when there is none.
    pub fn compile_time(&self) -> (r: HashPart)
        ensures
            r@ == spec_compile_time(*self),
    {
        match self {
            NodeHash::CompileTimeOnly(p) => *p,
            NodeHash::CompileTimeAndRuntime(p, _) => *p,
            NodeHash::RuntimeOnly(_) => HashPart::zero(),
        }
    }

    /// The runtime part; zeros when there is none.
    pub fn runtime(&self) -> (r: HashPart)
        ensures
            r@ == spec_runtime(*self),
    {
        match self {
            NodeHash::CompileTimeOnly(_) => HashPart::zero(),
            NodeHash::CompileTimeAndRuntime(_, p) => *p,
            NodeHash::RuntimeOnly(p) => *p,
        }
    }
}

/// The identifier of a published definition.
#[derive(Clone, Debug, PartialEq, Eq, Hash)]
pub struct AstNodeId {
    kind: AstNodeIdType,
    name: String,
    hash: NodeHash,
}

/// Model of an identifier.
pub struct AstNodeIdModel {
    pub kind: AstNodeIdType,
    pub name: Seq<char>,
    pub hash: NodeHash,
}

impl View for AstNodeId {
    type V = AstNodeIdModel;

    closed spec fn view(&self) -> AstNodeIdModel {
        AstNodeIdModel { kind: self.kind, name: self.name@, hash: self.hash }
    }
}

/// The word that names a kind.
pub open spec fn type_word(t: AstNodeIdType) -> Seq<char> {
    match t {
        AstNodeIdType::Ast => "ast"@,
        AstNodeIdType::Function => "function"@,
        AstNodeIdType::TypeAlias => "type_alias"@,
        AstNodeIdType::Enum => "enum"@,
        AstNodeIdType::Class => "class"@,
        AstNodeIdType::Client => "client"@,
        AstNodeIdType::RetryPolicy => "retry_policy"@,
        AstNodeIdType::TemplateString => "template_string"@,
    }
}

impl AstNodeId {
    /// An identifier of the given kind.
    pub fn from_parts(kind: AstNodeIdType, name: String, hash: NodeHash) -> (r: Self)
        ensures
            r@ == (AstNodeIdModel { kind, name: name@, hash }),
    {
        AstNodeId { kind, name, hash }
    }

    /// A copy of the identifier.
    pub fn copy(&self) -> (r: Self)
        ensures
            r@ == self@,
    {
        AstNodeId { kind: self.kind, name: self.name.clone(), hash: self.hash }
    }

    /// The word that names the kind.
    pub fn kind_name(&self) -> (r: &'static str)
        ensures
            r@ == type_word(self@.kind),
    {
        match self.kind {
            AstNodeIdType::Ast => "ast",
            AstNodeIdType::Function => "function",
            AstNodeIdType::TypeAlias => "type_alias",
            AstNodeIdType::Enum => "enum",
            AstNodeIdType::Class => "class",
            AstNodeIdType::Client => "client",
            AstNodeIdType::RetryPolicy => "retry_policy",
            AstNodeIdType::TemplateString => "template_string",
        }
    }

    /// The kind.
    pub fn node_type(&self) -> (r: AstNodeIdType)
        ensures
            r == self@.kind,
    {
        self.kind
    }

    pub fn name(&self) -> (r: &str)
        ensures
            r@ == self@.name,
    {
        self.name.as_str()
    }

    /// Both parts of the hash.
    pub fn hash(&self) -> (r: NodeHash)
        ensures
            r == self@.hash,
    {
        self.hash
    }

    pub fn compile_time(&self) -> (r: HashPart)
        ensures
            r@ == spec_compile_time(self@.hash),
    {
        self.hash.compile_time()
    }

    pub fn runtime(&self) -> (r: HashPart)
        ensures
            r@ == spec_runtime(self@.hash),
    {
        self.hash.runtime()
    }

    /// The identifier of the whole program.
    pub fn new_ast(hash: NodeHash) -> (r: Self)
        ensures
            r@ == (AstNodeIdModel { kind: AstNodeIdType::Ast, name: "root"@, hash }),
    {
        AstNodeId { kind: AstNodeIdType::Ast, name: "root".to_owned(), hash }
    }

    pub fn new_type_alias(name: String, hash: NodeHash) -> (r: Self)
        ensures
            r@ == (AstNodeIdModel { kind: AstNodeIdType::TypeAlias, name: name@, hash }),
    {
        AstNodeId { kind: AstNodeIdType::TypeAlias, name, hash }
    }

    pub fn new_function(name: String, hash: NodeHash) -> (r: Self)
        ensures
            r@ == (AstNodeIdModel { kind: AstNodeIdType::Function, name: name@, hash }),
    {
        AstNodeId { kind: AstNodeIdType::Function, name, hash }
    }

    pub fn new_enum(name: String, hash: NodeHash) -> (r: Self)
        ensures
            r@ == (AstNodeIdModel { kind: AstNodeIdType::Enum, name: name@, hash }),
    {
        AstNodeId { kind: AstNodeIdType::Enum, name, hash }
    }

    pub fn new_class(name: String, hash: NodeHash) -> (r: Self)
        ensures
            r@ == (AstNodeIdModel { kind: AstNodeIdType::Class, name: name@, hash }),
    {
        AstNodeId { kind: AstNodeIdType::Class, name, hash }
    }

    pub fn new_client(name: String, hash: NodeHash) -> (r: Self)
        ensures
            r@ == (AstNodeIdModel { kind: AstNodeIdType::Client, name: name@, hash }),
    {
        AstNodeId { kind: AstNodeIdType::Client, name, hash }
    }

    pub fn new_retry_policy(name: String, hash: NodeHash) -> (r: Self)
        ensures
            r@ == (AstNodeIdModel { kind: AstNodeIdType::RetryPolicy, name: name@, hash }),
    {
        AstNodeId { kind: AstNodeIdType::RetryPolicy, name, hash }
    }

    pub fn new_template_string(name: String, hash: NodeHash) -> (r: Self)
        ensures
            r@ == (AstNodeIdModel { kind: AstNodeIdType::TemplateString, name: name@, hash }),
    {
        AstNodeId { kind: AstNodeIdType::TemplateString, name, hash }
    }
}

/// The separator between the fields of an identifier's text.
pub open spec fn separator() -> Seq<char> {
    seq!['#', '#']
}

/// The text of an identifier: kind, name, and the four hashes, separated
/// by `##`.
pub open spec fn id_text(m: AstNodeIdModel) -> Seq<char> {
    type_word(m.kind) + separator() + m.name + separator() + node_hash_text(m.hash, separator())
}

/// Why text is not an identifier.
#[derive(Debug)]
pub enum AstNodeIdError {
    /// A hash is not a number, or both parts of the hash are zero.
    InvalidUniqueId(String),
    /// The kind is not one of the known words.
    VariantNotFound,
}

/// Model of a parse error.
pub enum IdErrorKind {
    InvalidUniqueId,
    VariantNotFound,
}

/// The kind a word names.
pub open spec fn parse_kind(w: Seq<char>) -> Option<AstNodeIdType> {
    if w == type_word(AstNodeIdType::Ast) {
        Some(AstNodeIdType::Ast)
    } else if w == type_word(AstNodeIdType::Function) {
        Some(AstNodeIdType::Function)
    } else if w == type_word(AstNodeIdType::TypeAlias) {
        Some(AstNodeIdType::TypeAlias)
    } else if w == type_word(AstNodeIdType::Enum) {
        Some(AstNodeIdType::Enum)
    } else if w == type_word(AstNodeIdType::Class) {
        Some(AstNodeIdType::Class)
    } else if w == type_word(AstNodeIdType::Client) {
        Some(AstNodeIdType::Client)
    } else if w == type_word(AstNodeIdType::RetryPolicy) {
        Some(AstNodeIdType::RetryPolicy)
    } else if w == type_word(AstNodeIdType::TemplateString) {
        Some(AstNodeIdType::TemplateString)
    } else {
        None
    }
}

/// The hash made of a compile-time and a runtime pair; a pair of zeros is
/// absent, and both absent make no hash.
pub open spec fn node_hash_of(c: (u64, u64), r: (u64, u64)) -> Option<NodeHash> {
    let zero = (0u64, 0u64);
    if c != zero && r != zero {
        Some(NodeHash::CompileTimeAndRuntime(HashPart::from_view(c), HashPart::from_view(r)))
    } else if c != zero {
        Some(NodeHash::CompileTimeOnly(HashPart::from_view(c)))
    } else if r != zero {
        Some(NodeHash::RuntimeOnly(HashPart::from_view(r)))
    } else {
        None
    }
}

/// The pieces that reading an identifier looks at for hashes, the third to
/// the sixth, are numbers as far as there are pieces.
pub open spec fn hash_pieces_read(p: Seq<Seq<char>>) -> bool {
    forall|j: int| 2 <= j < p.len() && j < 6 ==> (#[trigger] parse_u64_spec(p[j])) is Some
}

/// Reading an identifier from this text looks for a piece past the last:
/// there are fewer than six pieces, and each hash piece there is is a
/// number.
pub open spec fn reads_past_end(s: Seq<char>) -> bool {
    split_sep(s).len() < 6 && hash_pieces_read(split_sep(s))
}

/// What reading an identifier from text that does not read past the end
/// gives: the text split on `##`; the third to sixth pieces must be
/// numbers, not all zero pairwise; the first piece must name a kind; the
/// second is the name.  Later pieces are ignored.
pub open spec fn parse_id(s: Seq<char>) -> Result<AstNodeIdModel, IdErrorKind> {
    let p = split_sep(s);
    if !hash_pieces_read(p) {
        Err(IdErrorKind::InvalidUniqueId)
    } else {
        let n0 = parse_u64_spec(p[2])->0;
        let n1 = parse_u64_spec(p[3])->0;
        let n2 = parse_u64_spec(p[4])->0;
        let n3 = parse_u64_spec(p[5])->0;
        match node_hash_of((n0, n1), (n2, n3)) {
            None => Err(IdErrorKind::InvalidUniqueId),
            Some(hash) => match parse_kind(p[0]) {
                None => Err(IdErrorKind::VariantNotFound),
                Some(kind) => Ok(AstNodeIdModel { kind, name: p[1], hash }),
            },
        }
    }
}

/// Whether an error is of the given kind.
pub open spec fn error_kind(e: AstNodeIdError) -> IdErrorKind {
    match e {
        AstNodeIdError::InvalidUniqueId(_) => IdErrorKind::InvalidUniqueId,
        AstNodeIdError::VariantNotFound => IdErrorKind::VariantNotFound,
    }
}

fn parse_kind_exec(w: &Vec<char>) -> (r: Option<AstNodeIdType>)
    ensures
        r == parse_kind(w@),
{
    let s = string_of(w);
    let t = s.as_str();
    if str_eq(t, "ast") {
        Some(AstNodeIdType::Ast)
    } else if str_eq(t, "function") {
        Some(AstNodeIdType::Function)
    } else if str_eq(t, "type_alias") {
        Some(AstNodeIdType::TypeAlias)
    } else if str_eq(t, "enum") {
        Some(AstNodeIdType::Enum)
    } else if str_eq(t, "class") {
        Some(AstNodeIdType::Class)
    } else if str_eq(t, "client") {
        Some(AstNodeIdType::Client)
    } else if str_eq(t, "retry_policy") {
        Some(AstNodeIdType::RetryPolicy)
    } else if str_eq(t, "template_string") {
        Some(AstNodeIdType::TemplateString)
    } else {
        None
    }
}

fn node_hash_exec(c0: u64, c1: u64, r0: u64, r1: u64) -> (r: Option<NodeHash>)
    ensures
        r == node_hash_of((c0, c1), (r0, r1)),
{
    let c_present = !(c0 == 0 && c1 == 0);
    let r_present = !(r0 == 0 && r1 == 0);
    if c_present && r_present {
        Some(NodeHash::CompileTimeAndRuntime(HashPart::new(c0, c1), HashPart::new(r0, r1)))
    } else if c_present {
        Some(NodeHash::CompileTimeOnly(HashPart::new(c0, c1)))
    } else if r_present {
        Some(NodeHash::RuntimeOnly(HashPart::new(r0, r1)))
    } else {
        None
    }
}

impl AstNodeId {
    /// The text of the identifier: `kind##name##` followed by the
    /// compile-time and runtime hashes, four numbers separated by `##`.
    pub fn to_string(&self) -> (r: String)
        ensures
            r@ == id_text(self@),
    {
        proof {
            reveal_strlit("##");
        }
        let mut out = self.kind_name().to_owned();
        push_text(&mut out, "##");
        push_text(&mut out, self.name.as_str());
        push_text(&mut out, "##");
        let h = self.hash.with_splitter("##");
        push_text(&mut out, h.as_str());
        assert(out@ =~= id_text(self@));
        out
    }

    /// Whether reading an identifier from `s` would look for a piece past
    /// the last.
    pub fn reads_past_end(s: &str) -> (r: bool)
        ensures
            r == reads_past_end(s@),
    {
        let cs = chars_of(s);
        let parts = split_on_separator(&cs);
        let ghost p = split_sep(s@);
        if parts.len() >= 6 {
            return false;
        }
        let mut j: usize = 2;
        while j < parts.len()
            invariant
                p == split_sep(s@),
                pieces(parts@) == p,
                parts@.len() < 6,
                2 <= j,
                forall|k: int| 2 <= k < j && k < parts@.len() ==> (#[trigger] parse_u64_spec(p[k])) is Some,
            decreases parts@.len() - j,
        {
            assert(pieces(parts@)[j as int] == parts@[j as int]@);
            if parse_u64(&parts[j]).is_none() {
                assert(parse_u64_spec(p[j as int]) is None);
                assert(!hash_pieces_read(p));
                return false;
            }
            j = j + 1;
        }
        true
    }

    /// Reads an identifier from its text, which must not read past the end.
    pub fn from_str(s: &str) -> (r: Result<AstNodeId, AstNodeIdError>)
        requires
            !reads_past_end(s@),
        ensures
            match r {
                Ok(id) => parse_id(s@) == Ok::<AstNodeIdModel, IdErrorKind>(id@),
                Err(e) => parse_id(s@) == Err::<AstNodeIdModel, IdErrorKind>(error_kind(e)),
            },
    {
        let cs = chars_of(s);
        let parts = split_on_separator(&cs);
        let ghost p = split_sep(s@);
        assert(parts@.len() > 2);
        assert(pieces(parts@)[2] == parts@[2]@);
        let c0 = match parse_u64(&parts[2]) {
            Some(v) => v,
            None => return Err(AstNodeIdError::InvalidUniqueId(s.to_owned())),
        };
        assert(parts@.len() > 3) by {
            if parts@.len() == 3 {
                assert(hash_pieces_read(p));
            }
        }
        assert(pieces(parts@)[3] == parts@[3]@);
        let c1 = match parse_u64(&parts[3]) {
            Some(v) => v,
            None => return Err(AstNodeIdError::InvalidUniqueId(s.to_owned())),
        };
        assert(parts@.len() > 4) by {
            if parts@.len() == 4 {
                assert(hash_pieces_read(p));
            }
        }
        assert(pieces(parts@)[4] == parts@[4]@);
        let r0 = match parse_u64(&parts[4]) {
            Some(v) => v,
            None => return Err(AstNodeIdError::InvalidUniqueId(s.to_owned())),
        };
        assert(parts@.len() > 5) by {
            if parts@.len() == 5 {
                assert(hash_pieces_read(p));
            }
        }
        assert(pieces(parts@)[5] == parts@[5]@);
        assert(pieces(parts@)[0] == parts@[0]@);
        assert(pieces(parts@)[1] == parts@[1]@);
        let r1 = match parse_u64(&parts[5]) {
            Some(v) => v,
            None => return Err(AstNodeIdError::InvalidUniqueId(s.to_owned())),
        };
        assert(hash_pieces_read(p));
        let hash = match node_hash_exec(c0, c1, r0, r1) {
            Some(h) => h,
            None => return Err(AstNodeIdError::InvalidUniqueId(s.to_owned())),
        };
        let kind = match parse_kind_exec(&parts[0]) {
            Some(k) => k,
            None => return Err(AstNodeIdError::VariantNotFound),
        };
        Ok(AstNodeId { kind, name: string_of(&parts[1]), hash })
    }
}

/// An identifier that can be written and read back: its name holds no
/// `##` and does not end in `#`, and each hash part it has is not a pair
/// of zeros.
pub open spec fn round_trips(m: AstNodeIdModel) -> bool {
    &&& clean_piece(m.name)
    &&& match m.hash {
        NodeHash::CompileTimeOnly(c) => c@ != (0u64, 0u64),
        NodeHash::CompileTimeAndRuntime(c, r) => c@ != (0u64, 0u64) && r@ != (0u64, 0u64),
        NodeHash::RuntimeOnly(r) => r@ != (0u64, 0u64),
    }
}

proof fn lemma_type_word_clean(k: AstNodeIdType)
    ensures
        clean_piece(type_word(k)),
        parse_kind(type_word(k)) == Some(k),
{
    reveal_strlit("ast");
    reveal_strlit("function");
    reveal_strlit("type_alias");
    reveal_strlit("enum");
    reveal_strlit("class");
    reveal_strlit("client");
    reveal_strlit("retry_policy");
    reveal_strlit("template_string");
    let w = type_word(k);
    assert forall|i: int| !sep_at(w, i) by {
        if 0 <= i < w.len() {
            assert(w[i] != '#');
        }
    }
    assert(w.len() > 0 ==> w.last() != '#');
    assert(type_word(AstNodeIdType::Ast).len() == 3);
    assert(type_word(AstNodeIdType::Function).len() == 8);
    assert(type_word(AstNodeIdType::TypeAlias).len() == 10);
    assert(type_word(AstNodeIdType::Enum).len() == 4);
    assert(type_word(AstNodeIdType::Class).len() == 5);
    assert(type_word(AstNodeIdType::Client).len() == 6);
    assert(type_word(AstNodeIdType::RetryPolicy).len() == 12);
    assert(type_word(AstNodeIdType::TemplateString).len() == 15);
}


/// Reading back the text of an identifier that can be written and read
/// back gives the identifier.
pub proof fn lemma_parse_to_string(m: AstNodeIdModel)
    requires
        round_trips(m),
    ensures
        !reads_past_end(id_text(m)),
        parse_id(id_text(m)) == Ok::<AstNodeIdModel, IdErrorKind>(m),
{
    let sep = separator();
    let c = spec_compile_time(m.hash);
    let r = spec_runtime(m.hash);
    let w0 = type_word(m.kind);
    let w1 = m.name;
    let w2 = dec_digits(c.0 as nat);
    let w3 = dec_digits(c.1 as nat);
    let w4 = dec_digits(r.0 as nat);
    let w5 = dec_digits(r.1 as nat);
    let s = id_text(m);
    assert(s =~= w0 + sep + w1 + sep + w2 + sep + w3 + sep + w4 + sep + w5);
    lemma_type_word_clean(m.kind);
    lemma_dec_digits(c.0 as nat);
    lemma_dec_digits(c.1 as nat);
    lemma_dec_digits(r.0 as nat);
    lemma_dec_digits(r.1 as nat);
    lemma_digits_clean(w2);
    lemma_digits_clean(w3);
    lemma_digits_clean(w4);
    lemma_digits_clean(w5);
    lemma_split_six(w0, w1, w2, w3, w4, w5);
    let p = split_sep(s);
    assert(p == seq![w0, w1, w2, w3, w4, w5]);
    assert(p[0] == w0 && p[1] == w1 && p[2] == w2 && p[3] == w3 && p[4] == w4 && p[5] == w5);
    lemma_parse_decimal(c.0);
    lemma_parse_decimal(c.1);
    lemma_parse_decimal(r.0);
    lemma_parse_decimal(r.1);
    match m.hash {
        NodeHash::CompileTimeOnly(cp) => {
            HashPart::lemma_from_view(c);
            HashPart::lemma_view_injective(HashPart::from_view(c), cp);
        },
        NodeHash::CompileTimeAndRuntime(cp, rp) => {
            HashPart::lemma_from_view(c);
            HashPart::lemma_from_view(r);
            HashPart::lemma_view_injective(HashPart::from_view(c), cp);
            HashPart::lemma_view_injective(HashPart::from_view(r), rp);
        },
        NodeHash::RuntimeOnly(rp) => {
            HashPart::lemma_from_view(r);
            HashPart::lemma_view_injective(HashPart::from_view(r), rp);
        },
    }
}

} // verus!
