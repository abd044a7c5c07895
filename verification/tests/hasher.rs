use ir_hasher::agg::shallow_hash::HashError;
use ir_hasher::agg::signature::{Signature, SignatureType};
use ir_hasher::agg::{generate_signatures, CanMakeSignature};
use ir_hasher::ast::class::TopClassDefinition;
use ir_hasher::ast::client::{ClientSpec, UnresolvedClientProperty};
use ir_hasher::ast::function::FunctionDefinition;
use ir_hasher::ast::retry_policy::RetryPolicyStrategy;
use ir_hasher::ast::type_alias::TypeAliasDefinition;
use ir_hasher::ast_node_id::{AstNodeId, AstNodeIdError, AstNodeIdType, HashPart, NodeHash};
use ir_hasher::interfaces::{ShallowSignature, StringOr, TypedObject};
use ir_hasher::ir::repr::{
    Class, Client, Enum, EnumValue, Field, Function, FunctionConfig, IntermediateRepr, Node,
    NodeAttributes, RetryPolicy, TypeAlias,
};
use ir_hasher::ir::IRSignatureAdapters;
use ir_hasher::publisher::{publish, publish_with, PublishError};
use ir_hasher::text::{decimal_string, hex_string, parse_u64, split_on_separator};
use ir_hasher::types::{
    from_type_ir, BamlMediaType, Constraint, ConstraintLevel, LiteralValue, MetaIR, MetaRPC, StreamingMode, TypeIR,
    TypeRPC, TypeValue,
};
use ir_hasher::values::UnresolvedValue;

// ---------------------------------------------------------------------------
// A reader for the part of the BAML language these tests write, building the
// intermediate representation the hasher signs.
// ---------------------------------------------------------------------------

#[derive(Clone, Debug, PartialEq)]
enum Tok {
    Ident(String),
    Str(String),
    Raw(String),
    Jinja(String),
    Punct(char),
    AtAt,
    Arrow,
}

fn tokenize(src: &str) -> Result<Vec<Tok>, String> {
    let cs: Vec<char> = src.chars().collect();
    let mut out = Vec::new();
    let mut i = 0;
    while i < cs.len() {
        let c = cs[i];
        if c.is_whitespace() {
            i += 1;
        } else if c == '/' && i + 1 < cs.len() && cs[i + 1] == '/' {
            while i < cs.len() && cs[i] != '\n' {
                i += 1;
            }
        } else if c == '#' && i + 1 < cs.len() && cs[i + 1] == '"' {
            let start = i + 2;
            let mut j = start;
            while j + 1 < cs.len() && !(cs[j] == '"' && cs[j + 1] == '#') {
                j += 1;
            }
            if j + 1 >= cs.len() {
                return Err("unterminated block string".to_string());
            }
            out.push(Tok::Raw(cs[start..j].iter().collect()));
            i = j + 2;
        } else if c == '"' {
            let start = i + 1;
            let mut j = start;
            while j < cs.len() && cs[j] != '"' {
                j += 1;
            }
            if j >= cs.len() {
                return Err("unterminated string".to_string());
            }
            out.push(Tok::Str(cs[start..j].iter().collect()));
            i = j + 1;
        } else if c == '{' && i + 1 < cs.len() && cs[i + 1] == '{' {
            let start = i + 2;
            let mut j = start;
            while j + 1 < cs.len() && !(cs[j] == '}' && cs[j + 1] == '}') {
                j += 1;
            }
            if j + 1 >= cs.len() {
                return Err("unterminated expression".to_string());
            }
            let text: String = cs[start..j].iter().collect();
            out.push(Tok::Jinja(text.trim().to_string()));
            i = j + 2;
        } else if c == '@' && i + 1 < cs.len() && cs[i + 1] == '@' {
            out.push(Tok::AtAt);
            i += 2;
        } else if c == '-' && i + 1 < cs.len() && cs[i + 1] == '>' {
            out.push(Tok::Arrow);
            i += 2;
        } else if c.is_alphanumeric() || c == '_' || (c == '-' && i + 1 < cs.len() && cs[i + 1].is_ascii_digit()) {
            let start = i;
            i += 1;
            while i < cs.len() && (cs[i].is_alphanumeric() || cs[i] == '_' || cs[i] == '-' || cs[i] == '.') {
                if cs[i] == '-' && i + 1 < cs.len() && cs[i + 1] == '>' {
                    break;
                }
                i += 1;
            }
            out.push(Tok::Ident(cs[start..i].iter().collect()));
        } else {
            out.push(Tok::Punct(c));
            i += 1;
        }
    }
    Ok(out)
}

#[derive(Clone, Debug)]
struct PConstraint {
    level: ConstraintLevel,
    label: Option<String>,
    expression: String,
}

#[derive(Clone, Debug)]
enum PType {
    Prim(TypeValue),
    Named(String),
    LitStr(String),
    LitInt(i64),
    LitBool(bool),
    List(Box<PTyped>),
    MapOf(Box<PTyped>, Box<PTyped>),
    Tuple(Vec<PTyped>),
    Union(Vec<PTyped>),
    Optional(Box<PTyped>),
}

#[derive(Clone, Debug)]
struct PTyped {
    ty: PType,
    constraints: Vec<PConstraint>,
}

#[derive(Clone, Debug, Default)]
struct PAttrs {
    alias: Option<StringOr>,
    description: Option<StringOr>,
    skip: bool,
    dynamic: bool,
    constraints: Vec<PConstraint>,
}

struct PField {
    name: String,
    ty: PTyped,
    attrs: PAttrs,
}

struct PClass {
    name: String,
    fields: Vec<PField>,
    attrs: PAttrs,
}

struct PEnum {
    name: String,
    values: Vec<(String, PAttrs)>,
    attrs: PAttrs,
}

struct PFunction {
    name: String,
    params: Vec<(String, PTyped)>,
    output: PTyped,
    client: ClientSpec,
    prompt: String,
}

struct PClient {
    name: String,
    provider: String,
    retry_policy: Option<String>,
    options: Vec<(String, UnresolvedValue)>,
}

struct PRetry {
    name: String,
    max_retries: u32,
    strategy: RetryPolicyStrategy,
}

#[derive(Default)]
struct Program {
    classes: Vec<PClass>,
    enums: Vec<PEnum>,
    aliases: Vec<(String, PTyped)>,
    functions: Vec<PFunction>,
    clients: Vec<PClient>,
    retries: Vec<PRetry>,
}

struct Reader {
    toks: Vec<Tok>,
    pos: usize,
}

impl Reader {
    fn peek(&self) -> Option<&Tok> {
        self.toks.get(self.pos)
    }

    fn next(&mut self) -> Result<Tok, String> {
        let t = self.toks.get(self.pos).cloned().ok_or_else(|| "unexpected end of input".to_string())?;
        self.pos += 1;
        Ok(t)
    }

    fn is_punct(&self, c: char) -> bool {
        self.peek() == Some(&Tok::Punct(c))
    }

    fn expect_punct(&mut self, c: char) -> Result<(), String> {
        match self.next()? {
            Tok::Punct(d) if d == c => Ok(()),
            t => Err(format!("expected '{}', found {:?}", c, t)),
        }
    }

    fn ident(&mut self) -> Result<String, String> {
        match self.next()? {
            Tok::Ident(s) => Ok(s),
            t => Err(format!("expected a name, found {:?}", t)),
        }
    }

    fn primary_type(&mut self) -> Result<PType, String> {
        match self.next()? {
            Tok::Punct('(') => {
                let mut items = vec![self.typed()?];
                let mut tuple = false;
                while self.is_punct(',') {
                    self.next()?;
                    tuple = true;
                    items.push(self.typed()?);
                }
                self.expect_punct(')')?;
                if tuple {
                    Ok(PType::Tuple(items))
                } else {
                    Ok(items.remove(0).ty)
                }
            }
            Tok::Str(s) => Ok(PType::LitStr(s)),
            Tok::Ident(w) => {
                if w == "map" && self.is_punct('<') {
                    self.next()?;
                    let k = self.typed()?;
                    self.expect_punct(',')?;
                    let v = self.typed()?;
                    self.expect_punct('>')?;
                    return Ok(PType::MapOf(Box::new(k), Box::new(v)));
                }
                Ok(match w.as_str() {
                    "string" => PType::Prim(TypeValue::String),
                    "int" => PType::Prim(TypeValue::Int),
                    "float" => PType::Prim(TypeValue::Float),
                    "bool" => PType::Prim(TypeValue::Bool),
                    "null" => PType::Prim(TypeValue::Null),
                    "image" => PType::Prim(TypeValue::Media(BamlMediaType::Image)),
                    "audio" => PType::Prim(TypeValue::Media(BamlMediaType::Audio)),
                    "pdf" => PType::Prim(TypeValue::Media(BamlMediaType::Pdf)),
                    "video" => PType::Prim(TypeValue::Media(BamlMediaType::Video)),
                    "true" => PType::LitBool(true),
                    "false" => PType::LitBool(false),
                    _ => match w.parse::<i64>() {
                        Ok(n) => PType::LitInt(n),
                        Err(_) => PType::Named(w),
                    },
                })
            }
            t => Err(format!("expected a type, found {:?}", t)),
        }
    }

    fn postfix_type(&mut self) -> Result<PTyped, String> {
        let mut t = PTyped { ty: self.primary_type()?, constraints: Vec::new() };
        loop {
            if self.is_punct('[') {
                self.next()?;
                self.expect_punct(']')?;
                t = PTyped { ty: PType::List(Box::new(t)), constraints: Vec::new() };
            } else if self.is_punct('?') {
                self.next()?;
                t = PTyped { ty: PType::Optional(Box::new(t)), constraints: Vec::new() };
            } else {
                return Ok(t);
            }
        }
    }

    fn typed(&mut self) -> Result<PTyped, String> {
        let first = self.postfix_type()?;
        if !self.is_punct('|') {
            return Ok(first);
        }
        let mut items = vec![first];
        while self.is_punct('|') {
            self.next()?;
            items.push(self.postfix_type()?);
        }
        Ok(PTyped { ty: PType::Union(items), constraints: Vec::new() })
    }

    fn attr_args(&mut self) -> Result<Vec<Tok>, String> {
        let mut args = Vec::new();
        if !self.is_punct('(') {
            return Ok(args);
        }
        self.next()?;
        while !self.is_punct(')') {
            let t = self.next()?;
            if t != Tok::Punct(',') {
                args.push(t);
            }
        }
        self.next()?;
        Ok(args)
    }

    fn string_arg(args: &[Tok]) -> Result<StringOr, String> {
        match args.first() {
            Some(Tok::Str(s)) => Ok(StringOr::Value(s.clone())),
            Some(Tok::Ident(s)) => Ok(StringOr::Value(s.clone())),
            Some(Tok::Raw(s)) => Ok(StringOr::Value(s.clone())),
            _ => Err("expected a string argument".to_string()),
        }
    }

    fn constraint(level: ConstraintLevel, args: &[Tok]) -> Result<PConstraint, String> {
        let mut label = None;
        let mut expression = None;
        for a in args {
            match a {
                Tok::Ident(s) => label = Some(s.clone()),
                Tok::Jinja(e) => expression = Some(e.clone()),
                _ => return Err(format!("unexpected constraint argument {:?}", a)),
            }
        }
        let expression = expression.ok_or_else(|| "constraint without expression".to_string())?;
        Ok(PConstraint { level, label, expression })
    }

    fn attrs(&mut self, block: bool) -> Result<PAttrs, String> {
        let mut a = PAttrs::default();
        loop {
            let is_attr = if block { self.peek() == Some(&Tok::AtAt) } else { self.is_punct('@') };
            if !is_attr {
                return Ok(a);
            }
            self.next()?;
            let name = self.ident()?;
            let args = self.attr_args()?;
            match name.as_str() {
                "alias" => a.alias = Some(Self::string_arg(&args)?),
                "description" => a.description = Some(Self::string_arg(&args)?),
                "skip" => a.skip = true,
                "dynamic" => a.dynamic = true,
                "check" => a.constraints.push(Self::constraint(ConstraintLevel::Check, &args)?),
                "assert" => a.constraints.push(Self::constraint(ConstraintLevel::Assert, &args)?),
                other => return Err(format!("unknown attribute {}", other)),
            }
        }
    }

    fn value(&mut self) -> Result<UnresolvedValue, String> {
        match self.next()? {
            Tok::Str(s) => Ok(UnresolvedValue::String(StringOr::Value(s))),
            Tok::Raw(s) => Ok(UnresolvedValue::String(StringOr::Value(s))),
            Tok::Ident(w) => {
                if w == "true" {
                    Ok(UnresolvedValue::Bool(true))
                } else if w == "false" {
                    Ok(UnresolvedValue::Bool(false))
                } else if w == "null" {
                    Ok(UnresolvedValue::Null)
                } else if let Some(var) = w.strip_prefix("env.") {
                    Ok(UnresolvedValue::String(StringOr::EnvVar(var.to_string())))
                } else if w.parse::<f64>().is_ok() {
                    Ok(UnresolvedValue::Numeric(w))
                } else {
                    Ok(UnresolvedValue::String(StringOr::Value(w)))
                }
            }
            Tok::Punct('{') => {
                let mut entries = Vec::new();
                while !self.is_punct('}') {
                    let k = self.ident()?;
                    let v = self.value()?;
                    entries.push((k, v));
                }
                self.next()?;
                Ok(UnresolvedValue::Object(entries))
            }
            Tok::Punct('[') => {
                let mut items = Vec::new();
                while !self.is_punct(']') {
                    if self.is_punct(',') {
                        self.next()?;
                        continue;
                    }
                    items.push(self.value()?);
                }
                self.next()?;
                Ok(UnresolvedValue::Array(items))
            }
            t => Err(format!("expected a value, found {:?}", t)),
        }
    }

    fn class(&mut self) -> Result<PClass, String> {
        let name = self.ident()?;
        self.expect_punct('{')?;
        let mut fields = Vec::new();
        let mut attrs = PAttrs::default();
        while !self.is_punct('}') {
            if self.peek() == Some(&Tok::AtAt) {
                let a = self.attrs(true)?;
                attrs.dynamic |= a.dynamic;
                if a.alias.is_some() {
                    attrs.alias = a.alias;
                }
                if a.description.is_some() {
                    attrs.description = a.description;
                }
                continue;
            }
            let field = self.ident()?;
            let mut ty = self.typed()?;
            let a = self.attrs(false)?;
            ty.constraints.extend(a.constraints.iter().cloned());
            fields.push(PField { name: field, ty, attrs: a });
        }
        self.next()?;
        Ok(PClass { name, fields, attrs })
    }

    fn enumeration(&mut self) -> Result<PEnum, String> {
        let name = self.ident()?;
        self.expect_punct('{')?;
        let mut values = Vec::new();
        let mut attrs = PAttrs::default();
        while !self.is_punct('}') {
            if self.peek() == Some(&Tok::AtAt) {
                let a = self.attrs(true)?;
                attrs.dynamic |= a.dynamic;
                continue;
            }
            let value = self.ident()?;
            let a = self.attrs(false)?;
            values.push((value, a));
        }
        self.next()?;
        Ok(PEnum { name, values, attrs })
    }

    fn function(&mut self) -> Result<PFunction, String> {
        let name = self.ident()?;
        self.expect_punct('(')?;
        let mut params = Vec::new();
        while !self.is_punct(')') {
            if self.is_punct(',') {
                self.next()?;
                continue;
            }
            let p = self.ident()?;
            self.expect_punct(':')?;
            let mut t = self.typed()?;
            let a = self.attrs(false)?;
            t.constraints.extend(a.constraints);
            params.push((p, t));
        }
        self.next()?;
        match self.next()? {
            Tok::Arrow => {}
            t => return Err(format!("expected '->', found {:?}", t)),
        }
        let mut output = self.typed()?;
        let a = self.attrs(false)?;
        output.constraints.extend(a.constraints);
        self.expect_punct('{')?;
        let mut client = ClientSpec::Shorthand(String::new(), String::new());
        let mut prompt = String::new();
        while !self.is_punct('}') {
            let key = self.ident()?;
            match key.as_str() {
                "client" => {
                    client = match self.next()? {
                        Tok::Ident(n) => ClientSpec::Named(n),
                        Tok::Str(s) => match s.split_once('/') {
                            Some((p, m)) => ClientSpec::Shorthand(p.to_string(), m.to_string()),
                            None => ClientSpec::Named(s),
                        },
                        t => return Err(format!("expected a client, found {:?}", t)),
                    }
                }
                "prompt" => {
                    prompt = match self.next()? {
                        Tok::Raw(s) => s,
                        Tok::Str(s) => s,
                        t => return Err(format!("expected a prompt, found {:?}", t)),
                    }
                }
                other => return Err(format!("unknown function field {}", other)),
            }
        }
        self.next()?;
        Ok(PFunction { name, params, output, client, prompt })
    }

    fn client(&mut self) -> Result<PClient, String> {
        if self.is_punct('<') {
            self.next()?;
            self.ident()?;
            self.expect_punct('>')?;
        }
        let name = self.ident()?;
        self.expect_punct('{')?;
        let mut provider = String::new();
        let mut retry_policy = None;
        let mut options = Vec::new();
        while !self.is_punct('}') {
            let key = self.ident()?;
            match key.as_str() {
                "provider" => {
                    provider = match self.next()? {
                        Tok::Ident(s) | Tok::Str(s) => s,
                        t => return Err(format!("expected a provider, found {:?}", t)),
                    }
                }
                "retry_policy" => retry_policy = Some(self.ident()?),
                "options" => match self.value()? {
                    UnresolvedValue::Object(entries) => options = entries,
                    _ => return Err("options must be a block".to_string()),
                },
                other => return Err(format!("unknown client field {}", other)),
            }
        }
        self.next()?;
        Ok(PClient { name, provider, retry_policy, options })
    }

    fn number(&mut self) -> Result<u32, String> {
        let w = self.ident()?;
        w.parse::<u32>().map_err(|e| format!("{}: {}", w, e))
    }

    fn retry_policy(&mut self) -> Result<PRetry, String> {
        let name = self.ident()?;
        self.expect_punct('{')?;
        let mut max_retries = 0;
        let mut strategy = RetryPolicyStrategy::ConstantDelay { delay_ms: 200 };
        while !self.is_punct('}') {
            let key = self.ident()?;
            match key.as_str() {
                "max_retries" => max_retries = self.number()?,
                "strategy" => {
                    self.expect_punct('{')?;
                    let mut kind = String::from("constant_delay");
                    let mut delay_ms = 200;
                    let mut max_delay_ms = 10000;
                    let mut multiplier = 1.5f32;
                    while !self.is_punct('}') {
                        let k = self.ident()?;
                        match k.as_str() {
                            "type" => kind = self.ident()?,
                            "delay_ms" => delay_ms = self.number()?,
                            "max_delay_ms" => max_delay_ms = self.number()?,
                            "multiplier" => {
                                let w = self.ident()?;
                                multiplier = w.parse::<f32>().map_err(|e| format!("{}: {}", w, e))?;
                            }
                            other => return Err(format!("unknown strategy field {}", other)),
                        }
                    }
                    self.next()?;
                    strategy = match kind.as_str() {
                        "constant_delay" => RetryPolicyStrategy::ConstantDelay { delay_ms },
                        "exponential_backoff" => RetryPolicyStrategy::ExponentialBackoff {
                            delay_ms,
                            multiplier_bits: multiplier.to_bits(),
                            max_delay_ms,
                        },
                        other => return Err(format!("unknown strategy {}", other)),
                    };
                }
                other => return Err(format!("unknown retry policy field {}", other)),
            }
        }
        self.next()?;
        Ok(PRetry { name, max_retries, strategy })
    }

    fn program(&mut self) -> Result<Program, String> {
        let mut p = Program::default();
        while self.peek().is_some() {
            let word = self.ident()?;
            match word.as_str() {
                "class" => p.classes.push(self.class()?),
                "enum" => p.enums.push(self.enumeration()?),
                "type" => {
                    let name = self.ident()?;
                    self.expect_punct('=')?;
                    let mut t = self.typed()?;
                    let a = self.attrs(false)?;
                    t.constraints.extend(a.constraints);
                    p.aliases.push((name, t));
                }
                "function" => p.functions.push(self.function()?),
                "client" => p.clients.push(self.client()?),
                "retry_policy" => p.retries.push(self.retry_policy()?),
                other => return Err(format!("unknown definition {}", other)),
            }
        }
        Ok(p)
    }
}

fn meta(constraints: &[PConstraint]) -> MetaIR {
    MetaIR {
        constraints: constraints
            .iter()
            .map(|c| Constraint { level: c.level, expression: c.expression.clone(), label: c.label.clone() })
            .collect(),
        streaming_needed: false,
        streaming_done: false,
    }
}

fn lower(p: &Program, t: &PTyped, expanding: &mut Vec<String>) -> Result<TypeIR, String> {
    let m = meta(&t.constraints);
    Ok(match &t.ty {
        PType::Prim(v) => TypeIR::Primitive(*v, m),
        PType::LitStr(s) => TypeIR::Literal(LiteralValue::String(s.clone()), m),
        PType::LitInt(n) => TypeIR::Literal(LiteralValue::Int(*n), m),
        PType::LitBool(b) => TypeIR::Literal(LiteralValue::Bool(*b), m),
        PType::List(item) => TypeIR::List(Box::new(lower(p, item, expanding)?), m),
        PType::MapOf(k, v) => TypeIR::MapOf(Box::new(lower(p, k, expanding)?), Box::new(lower(p, v, expanding)?), m),
        PType::Tuple(items) => {
            TypeIR::Tuple(items.iter().map(|i| lower(p, i, expanding)).collect::<Result<Vec<_>, _>>()?, m)
        }
        PType::Union(items) => {
            TypeIR::Union(items.iter().map(|i| lower(p, i, expanding)).collect::<Result<Vec<_>, _>>()?, m)
        }
        PType::Optional(inner) => TypeIR::Union(
            vec![lower(p, inner, expanding)?, TypeIR::Primitive(TypeValue::Null, meta(&[]))],
            m,
        ),
        PType::Named(n) => {
            if let Some(c) = p.classes.iter().find(|c| &c.name == n) {
                TypeIR::Class { name: n.clone(), mode: StreamingMode::NonStreaming, dynamic: c.attrs.dynamic, meta: m }
            } else if let Some(e) = p.enums.iter().find(|e| &e.name == n) {
                TypeIR::Enum { name: n.clone(), dynamic: e.attrs.dynamic, meta: m }
            } else if let Some((_, target)) = p.aliases.iter().find(|(a, _)| a == n) {
                if expanding.contains(n) {
                    TypeIR::RecursiveTypeAlias { name: n.clone(), mode: StreamingMode::NonStreaming, meta: m }
                } else {
                    expanding.push(n.clone());
                    let mut merged = target.clone();
                    merged.constraints.extend(t.constraints.iter().cloned());
                    let r = lower(p, &merged, expanding)?;
                    expanding.pop();
                    r
                }
            } else {
                return Err(format!("unknown type {}", n));
            }
        }
    })
}

fn node_attributes(a: &PAttrs) -> NodeAttributes {
    NodeAttributes { alias: a.alias.clone(), description: a.description.clone(), skip: a.skip, dynamic: a.dynamic }
}

fn parse_baml(content: &str) -> Result<IntermediateRepr, String> {
    let mut reader = Reader { toks: tokenize(content)?, pos: 0 };
    let p = reader.program()?;
    let mut ir = IntermediateRepr {
        functions: Vec::new(),
        classes: Vec::new(),
        enums: Vec::new(),
        type_aliases: Vec::new(),
        clients: Vec::new(),
        retry_policies: Vec::new(),
    };
    for c in &p.classes {
        let mut fields = Vec::new();
        for f in &c.fields {
            let field_type = lower(&p, &f.ty, &mut Vec::new())?;
            fields.push(Node { elem: Field { name: f.name.clone(), field_type }, attributes: node_attributes(&f.attrs) });
        }
        ir.classes.push(Node {
            elem: Class { name: c.name.clone(), static_fields: fields },
            attributes: node_attributes(&c.attrs),
        });
    }
    for e in &p.enums {
        let values = e
            .values
            .iter()
            .map(|(v, a)| (Node { elem: EnumValue(v.clone()), attributes: node_attributes(a) }, None))
            .collect();
        ir.enums.push(Node { elem: Enum { name: e.name.clone(), values }, attributes: node_attributes(&e.attrs) });
    }
    for (name, t) in &p.aliases {
        let mut expanding = vec![name.clone()];
        let alias_type = lower(&p, t, &mut expanding)?;
        ir.type_aliases.push(Node {
            elem: TypeAlias { name: name.clone(), alias_type },
            attributes: node_attributes(&PAttrs::default()),
        });
    }
    for f in &p.functions {
        let mut inputs = Vec::new();
        for (n, t) in &f.params {
            inputs.push((n.clone(), lower(&p, t, &mut Vec::new())?));
        }
        let output = lower(&p, &f.output, &mut Vec::new())?;
        ir.functions.push(Node {
            elem: Function {
                name: f.name.clone(),
                inputs,
                output,
                configs: vec![FunctionConfig {
                    name: "default_config".to_string(),
                    prompt_template: f.prompt.clone(),
                    client: f.client.clone(),
                }],
                default_config: "default_config".to_string(),
            },
            attributes: node_attributes(&PAttrs::default()),
        });
    }
    for c in p.clients {
        ir.clients.push(Node {
            elem: Client {
                name: c.name,
                provider: c.provider,
                retry_policy_id: c.retry_policy,
                options: UnresolvedClientProperty { properties: c.options },
            },
            attributes: node_attributes(&PAttrs::default()),
        });
    }
    for r in p.retries {
        ir.retry_policies.push(Node {
            elem: RetryPolicy { name: r.name, max_retries: r.max_retries, strategy: r.strategy, options: Vec::new() },
            attributes: node_attributes(&PAttrs::default()),
        });
    }
    Ok(ir)
}

// ---------------------------------------------------------------------------
// Helpers
// ---------------------------------------------------------------------------

fn get_signatures(ir: &IntermediateRepr) -> Result<Vec<Signature>, String> {
    let adapters = ir.as_signature_adapters();
    generate_signatures(adapters).map_err(|e| format!("{:?}", e))
}

fn get_signature_by_name(ir: &IntermediateRepr, name: &str) -> Result<Signature, String> {
    let signatures = get_signatures(ir)?;
    signatures
        .into_iter()
        .find(|s| s.display_name == name)
        .ok_or_else(|| format!("Signature not found for {}", name))
}

fn get_interface_hash(ir: &IntermediateRepr, name: &str) -> Result<u64, String> {
    let signature = get_signature_by_name(ir, name)?;
    match signature.hashes {
        NodeHash::CompileTimeOnly(part) => Ok(part.interface_hash()),
        _ => Err("Unexpected hash type".to_string()),
    }
}

fn get_implementation_hash(ir: &IntermediateRepr, name: &str) -> Result<u64, String> {
    let signature = get_signature_by_name(ir, name)?;
    match signature.hashes {
        NodeHash::CompileTimeOnly(part) => Ok(part.impl_hash()),
        _ => Err("Unexpected hash type".to_string()),
    }
}

fn assert_interface_hash_equal(baml1: &str, baml2: &str, def_name: &str) -> Result<(), String> {
    let ir1 = parse_baml(baml1)?;
    let ir2 = parse_baml(baml2)?;
    let hash1 = get_interface_hash(&ir1, def_name)?;
    let hash2 = get_interface_hash(&ir2, def_name)?;
    assert_eq!(hash1, hash2, "Interface hash mismatch for type {}. Hash1: {}, Hash2: {}", def_name, hash1, hash2);
    Ok(())
}

fn assert_interface_hash_different(baml1: &str, baml2: &str, def_name: &str) -> Result<(), String> {
    let ir1 = parse_baml(baml1)?;
    let ir2 = parse_baml(baml2)?;
    let hash1 = get_interface_hash(&ir1, def_name)?;
    let hash2 = get_interface_hash(&ir2, def_name)?;
    assert_ne!(hash1, hash2, "Expected interface hashes to differ for type {}. Both have hash: {}", def_name, hash1);
    Ok(())
}

fn assert_implementation_hash_different(baml1: &str, baml2: &str, def_name: &str) -> Result<(), String> {
    let ir1 = parse_baml(baml1)?;
    let ir2 = parse_baml(baml2)?;
    let hash1 = get_implementation_hash(&ir1, def_name)?;
    let hash2 = get_implementation_hash(&ir2, def_name)?;
    assert_ne!(
        hash1, hash2,
        "Expected implementation hashes to differ for type {}. Both have hash: {}",
        def_name, hash1
    );
    Ok(())
}

fn assert_implementation_hash_equal(baml1: &str, baml2: &str, def_name: &str) -> Result<(), String> {
    let ir1 = parse_baml(baml1)?;
    let ir2 = parse_baml(baml2)?;
    let hash1 = get_implementation_hash(&ir1, def_name)?;
    let hash2 = get_implementation_hash(&ir2, def_name)?;
    assert_eq!(
        hash1, hash2,
        "Implementation hash mismatch for type {}. Hash1: {}, Hash2: {}",
        def_name, hash1, hash2
    );
    Ok(())
}

fn hash_pair(h: &NodeHash) -> (u64, u64) {
    match h {
        NodeHash::CompileTimeOnly(part) => (part.interface_hash(), part.impl_hash()),
        _ => panic!("Unexpected hash type"),
    }
}

fn assert_hash_stable(ir: &IntermediateRepr) -> Result<(), String> {
    let hash1 = get_signatures(ir)?;
    let hash2 = get_signatures(ir)?;
    let hash3 = get_signatures(ir)?;
    for i in 0..hash1.len() {
        let h1 = &hash1[i];
        let h2 = &hash2[i];
        let h3 = &hash3[i];
        assert_eq!(h1.display_name, h2.display_name, "Names don't match between runs");
        assert_eq!(h2.display_name, h3.display_name, "Names don't match between runs");
        let (h1_interface, h1_impl) = hash_pair(&h1.hashes);
        let (h2_interface, h2_impl) = hash_pair(&h2.hashes);
        let (h3_interface, h3_impl) = hash_pair(&h3.hashes);
        assert_eq!(h1_interface, h2_interface, "Interface hash not stable for {} between runs 1 and 2", h1.display_name);
        assert_eq!(h2_interface, h3_interface, "Interface hash not stable for {} between runs 2 and 3", h1.display_name);
        assert_eq!(h1_impl, h2_impl, "Implementation hash not stable for {} between runs 1 and 2", h1.display_name);
        assert_eq!(h2_impl, h3_impl, "Implementation hash not stable for {} between runs 2 and 3", h1.display_name);
    }
    Ok(())
}

// test change detection
// ============================================================================
// Interface Hash Change Tests - These MUST change the interface hash
// ============================================================================

#[test]
fn test_add_class_field_changes_interface() -> Result<(), String> {
    let baml1 = r#"
class Person {
  name string
}
"#;
    let baml2 = r#"
class Person {
  name string
  age int
}
"#;
    assert_interface_hash_different(baml1, baml2, "Person")?;
    Ok(())
}

#[test]
fn test_remove_class_field_changes_interface() -> Result<(), String> {
    let baml1 = r#"
class Person {
  name string
  age int
}
"#;
    let baml2 = r#"
class Person {
  name string
}
"#;
    assert_interface_hash_different(baml1, baml2, "Person")?;
    Ok(())
}

#[test]
fn test_rename_class_field_changes_interface() -> Result<(), String> {
    let baml1 = r#"
class Person {
  name string
}
"#;
    let baml2 = r#"
class Person {
  full_name string
}
"#;
    assert_interface_hash_different(baml1, baml2, "Person")?;
    Ok(())
}

#[test]
fn test_change_field_type_changes_interface() -> Result<(), String> {
    let baml1 = r#"
class Person {
  age int
}
"#;
    let baml2 = r#"
class Person {
  age string
}
"#;
    assert_interface_hash_different(baml1, baml2, "Person")?;
    Ok(())
}

#[test]
fn test_add_enum_value_changes_interface() -> Result<(), String> {
    let baml1 = r#"
enum Status {
  ACTIVE
}
"#;
    let baml2 = r#"
enum Status {
  ACTIVE
  INACTIVE
}
"#;
    assert_interface_hash_different(baml1, baml2, "Status")?;
    Ok(())
}

#[test]
fn test_remove_enum_value_changes_interface() -> Result<(), String> {
    let baml1 = r#"
enum Status {
  ACTIVE
  INACTIVE
}
"#;
    let baml2 = r#"
enum Status {
  ACTIVE
}
"#;
    assert_interface_hash_different(baml1, baml2, "Status")?;
    Ok(())
}

#[test]
fn test_add_assert_constraint_changes_interface() -> Result<(), String> {
    let baml1 = r#"
type Email = string
"#;
    let baml2 = r#"
type Email = string @assert({{ this|regex_match("^[^@]+@[^@]+$") }})
"#;
    assert_interface_hash_different(baml1, baml2, "Email")?;
    Ok(())
}

#[test]
fn test_add_check_constraint_does_not_affect_hashes() -> Result<(), String> {
    let baml1 = r#"
class Person {
  age int
}
"#;
    let baml2 = r#"
class Person {
  age int @check(positive, {{ this > 0 }})
}
"#;
    // @check constraints don't affect any hash - they're runtime-only validation
    assert_interface_hash_equal(baml1, baml2, "Person")?;
    assert_implementation_hash_equal(baml1, baml2, "Person")?;
    Ok(())
}

#[test]
fn test_change_check_constraint_does_not_affect_hashes() -> Result<(), String> {
    let baml1 = r#"
type Age = int @check(positive, {{ this > 0 }})
"#;
    let baml2 = r#"
type Age = int @check(positive, {{ this >= 0 }})
"#;
    // @check changes don't affect any hash - they're runtime-only validation
    assert_interface_hash_equal(baml1, baml2, "Age")?;
    assert_implementation_hash_equal(baml1, baml2, "Age")?;
    Ok(())
}

#[test]
fn test_add_dynamic_attribute_changes_interface() -> Result<(), String> {
    let baml1 = r#"
class Config {
  setting string
}
"#;
    let baml2 = r#"
class Config {
  setting string
  @@dynamic
}
"#;
    assert_interface_hash_different(baml1, baml2, "Config")?;
    Ok(())
}

#[test]
fn test_change_optional_modifier_changes_interface() -> Result<(), String> {
    let baml1 = r#"
class Person {
  email string
}
"#;
    let baml2 = r#"
class Person {
  email string?
}
"#;
    assert_interface_hash_different(baml1, baml2, "Person")?;
    Ok(())
}

#[test]
fn test_change_function_parameter_type_changes_interface() -> Result<(), String> {
    let baml1 = r##"
client<llm> TestClient {
  provider openai
  options {
    model gpt-4
  }
}

function Process(value: int) -> string {
  client TestClient
  prompt #"Process"#
}
"##;
    let baml2 = r##"
client<llm> TestClient {
  provider openai
  options {
    model gpt-4
  }
}

function Process(value: string) -> string {
  client TestClient
  prompt #"Process"#
}
"##;
    assert_interface_hash_different(baml1, baml2, "Process")?;
    Ok(())
}

#[test]
fn test_change_function_return_type_changes_interface() -> Result<(), String> {
    let baml1 = r##"
client<llm> TestClient {
  provider openai
  options {
    model gpt-4
  }
}

function Process() -> string {
  client TestClient
  prompt #"Process"#
}
"##;
    let baml2 = r##"
client<llm> TestClient {
  provider openai
  options {
    model gpt-4
  }
}

function Process() -> int {
  client TestClient
  prompt #"Process"#
}
"##;
    assert_interface_hash_different(baml1, baml2, "Process")?;
    Ok(())
}

// ============================================================================
// Implementation-Only Hash Change Tests
// These should change implementation hash BUT NOT interface hash
// ============================================================================

#[test]
fn test_alias_change_only_affects_implementation() -> Result<(), String> {
    let baml1 = r##"
class Person {
  name string @alias("userName")
}
"##;
    let baml2 = r##"
class Person {
  name string @alias("fullName")
}
"##;
    assert_interface_hash_equal(baml1, baml2, "Person")?;
    assert_implementation_hash_different(baml1, baml2, "Person")?;
    Ok(())
}

#[test]
fn test_description_change_only_affects_implementation() -> Result<(), String> {
    let baml1 = r##"
enum Status {
  ACTIVE @description("User is active")
}
"##;
    let baml2 = r##"
enum Status {
  ACTIVE @description("Currently active")
}
"##;
    assert_interface_hash_equal(baml1, baml2, "Status")?;
    assert_implementation_hash_different(baml1, baml2, "Status")?;
    Ok(())
}

#[test]
fn test_skip_change_only_affects_implementation() -> Result<(), String> {
    let baml1 = r#"
class Config {
  api_key string
  public_data string
}
"#;
    let baml2 = r#"
class Config {
  api_key string @skip
  public_data string
}
"#;
    assert_interface_hash_equal(baml1, baml2, "Config")?;
    assert_implementation_hash_different(baml1, baml2, "Config")?;
    Ok(())
}

#[test]
fn test_field_ordering_only_affects_implementation() -> Result<(), String> {
    let baml1 = r#"
class Person {
  name string
  age int
  email string
}
"#;
    let baml2 = r#"
class Person {
  email string
  name string
  age int
}
"#;
    // Interface should be order-independent (fields sorted by name)
    assert_interface_hash_equal(baml1, baml2, "Person")?;
    // Implementation should be order-sensitive
    assert_implementation_hash_different(baml1, baml2, "Person")?;
    Ok(())
}

#[test]
fn test_change_detection_test_enum_value_ordering_affects_implementation() -> Result<(), String> {
    let baml1 = r#"
enum Priority {
  HIGH
  MEDIUM
  LOW
}
"#;
    let baml2 = r#"
enum Priority {
  LOW
  MEDIUM
  HIGH
}
"#;
    // Enum value order affects implementation
    assert_implementation_hash_different(baml1, baml2, "Priority")?;
    Ok(())
}

#[test]
fn test_change_detection_test_function_prompt_change_only_affects_implementation() -> Result<(), String> {
    let baml1 = r##"
client<llm> TestClient {
  provider openai
  options {
    model gpt-4
  }
}

function Greet(name: string) -> string {
  client TestClient
  prompt #"
    Say hello to {{ name }}
  "#
}
"##;
    let baml2 = r##"
client<llm> TestClient {
  provider openai
  options {
    model gpt-4
  }
}

function Greet(name: string) -> string {
  client TestClient
  prompt #"
    Greet {{ name }} warmly
  "#
}
"##;
    assert_interface_hash_equal(baml1, baml2, "Greet")?;
    assert_implementation_hash_different(baml1, baml2, "Greet")?;
    Ok(())
}

#[test]
fn test_change_detection_test_function_client_change_only_affects_implementation() -> Result<(), String> {
    let baml1 = r##"
client<llm> ClientA {
  provider openai
  options { model "gpt-4" }
}

client<llm> ClientB {
  provider openai
  options { model "gpt-3.5-turbo" }
}

function Process() -> string {
  client ClientA
  prompt #"Process"#
}
"##;
    let baml2 = r##"
client<llm> ClientA {
  provider openai
  options { model "gpt-4" }
}

client<llm> ClientB {
  provider openai
  options { model "gpt-3.5-turbo" }
}

function Process() -> string {
  client ClientB
  prompt #"Process"#
}
"##;
    assert_interface_hash_equal(baml1, baml2, "Process")?;
    assert_implementation_hash_different(baml1, baml2, "Process")?;
    Ok(())
}

// ============================================================================
// Assert Constraint Tests - These MUST change the interface hash
// ============================================================================

#[test]
fn test_add_assert_constraint_to_class_changes_interface() -> Result<(), String> {
    let baml1 = r#"
class Person {
  age int
}
"#;
    let baml2 = r#"
class Person {
  age int @assert({{ this > 0 }})
}
"#;
    // @assert affects interface hash
    assert_interface_hash_different(baml1, baml2, "Person")?;
    Ok(())
}

#[test]
fn test_change_assert_expression_changes_interface() -> Result<(), String> {
    let baml1 = r#"
type Age = int @assert({{ this > 0 }})
"#;
    let baml2 = r#"
type Age = int @assert({{ this >= 0 }})
"#;
    // @assert expression changes affect interface
    assert_interface_hash_different(baml1, baml2, "Age")?;
    Ok(())
}

// ============================================================================
// Edge Case Tests
// ============================================================================

#[test]
fn test_multiple_attributes_interaction() -> Result<(), String> {
    let baml1 = r##"
class Person {
  first_name string @alias("firstName") @description("First name")
  last_name string @alias("lastName") @description("Last name")
}
"##;
    let baml2 = r##"
class Person {
  first_name string @alias("fname") @description("Given name")
  last_name string @alias("lname") @description("Family name")
}
"##;
    // Both alias and description are implementation-only
    assert_interface_hash_equal(baml1, baml2, "Person")?;
    assert_implementation_hash_different(baml1, baml2, "Person")?;
    Ok(())
}

#[test]
fn test_check_constraint_label_change_does_not_affect_hashes() -> Result<(), String> {
    let baml1 = r##"
type Age = int @check(positive, {{ this > 0 }})
"##;
    let baml2 = r##"
type Age = int @check(non_negative, {{ this > 0 }})
"##;
    // @check label changes don't affect any hash - they're runtime-only validation
    assert_interface_hash_equal(baml1, baml2, "Age")?;
    assert_implementation_hash_equal(baml1, baml2, "Age")?;
    Ok(())
}

#[test]
fn test_complex_type_structure_changes() -> Result<(), String> {
    let baml1 = r##"
type Data = string | int
"##;
    let baml2 = r##"
type Data = string | int | bool
"##;
    assert_interface_hash_different(baml1, baml2, "Data")?;
    Ok(())
}

#[test]
fn test_map_type_changes() -> Result<(), String> {
    let baml1 = r##"
type Dict = map<string, string>
"##;
    let baml2 = r##"
type Dict = map<string, int>
"##;
    assert_interface_hash_different(baml1, baml2, "Dict")?;
    Ok(())
}

#[test]
fn test_list_to_single_type_change() -> Result<(), String> {
    let baml1 = r#"
class Container {
  items string[]
}
"#;
    let baml2 = r#"
class Container {
  items string
}
"#;
    assert_interface_hash_different(baml1, baml2, "Container")?;
    Ok(())
}

#[test]
fn test_tuple_element_change() -> Result<(), String> {
    let baml1 = r#"
type Pair = (string, int)
"#;
    let baml2 = r#"
type Pair = (string, string)
"#;
    assert_interface_hash_different(baml1, baml2, "Pair")?;
    Ok(())
}

// test dependency resolution
#[test]
fn test_direct_dependencies() -> Result<(), String> {
    let baml = r#"
enum Color {
  RED
  GREEN
  BLUE
}

class Car {
  color Color
  brand string
}
"#;
    let ir = parse_baml(baml)?;

    // Car should depend on Color
    let car_sig = get_signature_by_name(&ir, "Car")?;
    assert_eq!(car_sig.dependencies.len(), 1);
    assert!(car_sig.dependencies.contains(&"Color".to_string()));

    // Color should have no dependencies
    let color_sig = get_signature_by_name(&ir, "Color")?;
    assert!(color_sig.dependencies.is_empty());

    Ok(())
}

#[test]
fn test_transitive_dependencies() -> Result<(), String> {
    let baml = r#"
enum Status {
  ACTIVE
  INACTIVE
}

class Address {
  street string
  city string
}

class Person {
  name string
  address Address
  status Status
}

class Company {
  employees Person[]
  headquarters Address
}
"#;
    let ir = parse_baml(baml)?;

    // Person depends on Address and Status
    let person_sig = get_signature_by_name(&ir, "Person")?;
    assert!(person_sig.dependencies.contains(&"Address".to_string()));
    assert!(person_sig.dependencies.contains(&"Status".to_string()));

    // Company depends on Person and Address
    let company_sig = get_signature_by_name(&ir, "Company")?;
    assert!(company_sig.dependencies.contains(&"Person".to_string()));
    assert!(company_sig.dependencies.contains(&"Address".to_string()));
    // Company should also transitively depend on Status through Person
    assert!(company_sig.dependencies.contains(&"Status".to_string()));

    Ok(())
}

#[test]
fn test_circular_dependencies() -> Result<(), String> {
    let baml = r#"
class User {
  name string
  posts Post[]
}

class Post {
  title string
  author User
}
"#;
    let ir = parse_baml(baml)?;

    // User depends on Post
    let user_sig = get_signature_by_name(&ir, "User")?;
    assert!(user_sig.dependencies.contains(&"Post".to_string()));

    // Post depends on User
    let post_sig = get_signature_by_name(&ir, "Post")?;
    assert!(post_sig.dependencies.contains(&"User".to_string()));

    // Both should handle circular dependency without infinite recursion
    // (test passes if it doesn't hang)

    Ok(())
}

#[test]
fn test_type_alias_dependencies() -> Result<(), String> {
    let baml = r#"
class Person {
  name string
}

type PersonList = Person[]
type OptionalPerson = Person?
"#;
    let ir = parse_baml(baml)?;

    // PersonList should depend on Person
    let list_sig = get_signature_by_name(&ir, "PersonList")?;
    assert!(list_sig.dependencies.contains(&"Person".to_string()));

    // OptionalPerson should depend on Person
    let optional_sig = get_signature_by_name(&ir, "OptionalPerson")?;
    assert!(optional_sig.dependencies.contains(&"Person".to_string()));

    Ok(())
}

#[test]
fn test_function_dependencies() -> Result<(), String> {
    let baml = r##"
client<llm> TestClient {
  provider openai
  options {
    model gpt-4
  }
}

class Input {
  data string
}

class Output {
  result string
}

function Process(input: Input) -> Output {
  client TestClient
  prompt #"
    Process input
  "#
}
"##;
    let ir = parse_baml(baml)?;

    // Process function should depend on both Input and Output
    let func_sig = get_signature_by_name(&ir, "Process")?;
    assert!(func_sig.dependencies.contains(&"Input".to_string()));
    assert!(func_sig.dependencies.contains(&"Output".to_string()));

    Ok(())
}

#[test]
fn test_union_type_dependencies() -> Result<(), String> {
    let baml = r#"
class ClassA {
  field string
}

class ClassB {
  field int
}

type UnionType = ClassA | ClassB
"#;
    let ir = parse_baml(baml)?;

    // UnionType should depend on both ClassA and ClassB
    let union_sig = get_signature_by_name(&ir, "UnionType")?;
    assert!(union_sig.dependencies.contains(&"ClassA".to_string()));
    assert!(union_sig.dependencies.contains(&"ClassB".to_string()));

    Ok(())
}

#[test]
fn test_map_type_dependencies() -> Result<(), String> {
    let baml = r#"
class Value {
  data string
}

type ValueMap = map<string, Value>
"#;
    let ir = parse_baml(baml)?;

    // ValueMap should depend on Value
    let map_sig = get_signature_by_name(&ir, "ValueMap")?;
    assert!(map_sig.dependencies.contains(&"Value".to_string()));

    Ok(())
}

#[test]
fn test_nested_dependencies() -> Result<(), String> {
    let baml = r#"
enum Level {
  LOW
  HIGH
}

class Config {
  level Level
}

class Settings {
  config Config
}

class Application {
  settings Settings
}
"#;
    let ir = parse_baml(baml)?;

    // Application should depend on Settings, Config, and Level (transitively)
    let app_sig = get_signature_by_name(&ir, "Application")?;
    assert!(app_sig.dependencies.contains(&"Settings".to_string()));
    assert!(app_sig.dependencies.contains(&"Config".to_string()));
    assert!(app_sig.dependencies.contains(&"Level".to_string()));

    Ok(())
}

#[test]
fn test_client_retry_policy_dependency() -> Result<(), String> {
    let baml = r#"
retry_policy MyRetry {
  max_retries 3
}

client MyClient {
  provider openai
  retry_policy MyRetry
  options {
    model "gpt-4"
  }
}
"#;
    let ir = parse_baml(baml)?;

    // MyClient should depend on MyRetry
    let client_sig = get_signature_by_name(&ir, "MyClient")?;
    assert!(client_sig.dependencies.contains(&"MyRetry".to_string()));

    Ok(())
}

#[test]
fn test_no_dependencies() -> Result<(), String> {
    let baml = r#"
class SimpleClass {
  field1 string
  field2 int
  field3 bool
}

enum SimpleEnum {
  VALUE1
  VALUE2
}

type SimpleAlias = string
"#;
    let ir = parse_baml(baml)?;

    // All should have no dependencies
    let class_sig = get_signature_by_name(&ir, "SimpleClass")?;
    assert!(class_sig.dependencies.is_empty());

    let enum_sig = get_signature_by_name(&ir, "SimpleEnum")?;
    assert!(enum_sig.dependencies.is_empty());

    let alias_sig = get_signature_by_name(&ir, "SimpleAlias")?;
    assert!(alias_sig.dependencies.is_empty());

    Ok(())
}

// test hash stability
#[test]
fn test_hash_determinism() -> Result<(), String> {
    let baml = r##"
client<llm> TestClient {
  provider openai
  options {
    model gpt-4
  }
}

class Person {
  name string
  age int
  email string?
}

enum Status {
  ACTIVE
  INACTIVE
  PENDING
}

function ProcessPerson(person: Person) -> Status {
  client TestClient
  prompt #"
    Determine status for person
  "#
}
"##;

    // Parse the same BAML multiple times
    let ir1 = parse_baml(baml)?;
    let ir2 = parse_baml(baml)?;
    let ir3 = parse_baml(baml)?;

    // Get hashes for each parse
    let hash1_person = get_interface_hash(&ir1, "Person")?;
    let hash2_person = get_interface_hash(&ir2, "Person")?;
    let hash3_person = get_interface_hash(&ir3, "Person")?;

    // All hashes should be identical
    assert_eq!(hash1_person, hash2_person, "Hash should be deterministic");
    assert_eq!(hash2_person, hash3_person, "Hash should be deterministic");

    // Test for other types too
    let hash1_status = get_interface_hash(&ir1, "Status")?;
    let hash2_status = get_interface_hash(&ir2, "Status")?;
    let hash3_status = get_interface_hash(&ir3, "Status")?;

    assert_eq!(hash1_status, hash2_status);
    assert_eq!(hash2_status, hash3_status);

    Ok(())
}

#[test]
fn test_whitespace_insensitivity() -> Result<(), String> {
    let baml1 = r#"
class Person {
  name string
  age int
}
"#;

    let baml2 = r#"
class   Person   {
    name    string
    age     int
}
"#;

    let baml3 = r#"
class Person{
name string
age int
}
"#;

    // All variations should produce the same hash
    assert_interface_hash_equal(baml1, baml2, "Person")?;
    assert_interface_hash_equal(baml2, baml3, "Person")?;
    assert_interface_hash_equal(baml1, baml3, "Person")?;

    Ok(())
}

#[test]
fn test_comment_insensitivity() -> Result<(), String> {
    let baml1 = r#"
class Person {
  name string
  age int
}
"#;

    let baml2 = r#"
// This is a person class
class Person {
  name string  // The person's name
  age int      // The person's age
}
"#;

    let baml3 = r#"
class Person { // Represents a person
  // Personal information
  name string
  age int
  // End of class
}
"#;

    // Comments should not affect hash
    assert_interface_hash_equal(baml1, baml2, "Person")?;
    assert_interface_hash_equal(baml2, baml3, "Person")?;
    assert_interface_hash_equal(baml1, baml3, "Person")?;

    Ok(())
}

#[test]
fn test_hash_stability_across_types() -> Result<(), String> {
    let baml = r##"
class MyClass {
  field string
}

enum MyEnum {
  VALUE
}

function MyFunction() -> string {
  prompt #"
    Hello
  "#
}

type MyAlias = string

client MyClient {
  provider openai
  options {
    model "gpt-4"
  }
}

retry_policy MyRetry {
  max_retries 3
}
"##;

    let ir = parse_baml(baml)?;
    assert_hash_stable(&ir)?;

    Ok(())
}

#[test]
fn test_complex_type_hash_stability() -> Result<(), String> {
    let baml = r#"
class Address {
  street string
  city string
  country string
}

class Person {
  name string
  addresses Address[]
  primary_address Address?
  metadata map<string, string>
}

type PersonOrAddress = Person | Address
type PersonList = Person[]
type PersonMap = map<string, Person>
"#;

    let ir = parse_baml(baml)?;
    assert_hash_stable(&ir)?;

    Ok(())
}

#[test]
fn test_hash_stability_with_constraints() -> Result<(), String> {
    let baml = r#"
type PositiveInt = int @check(positive, {{ this > 0 }})
type Email = string @assert({{ this|regex_match("^[^@]+@[^@]+$") }})

class ValidatedData {
  age PositiveInt
  email Email
  score int @check(range, {{ this >= 0 and this <= 100 }})
}
"#;

    let ir = parse_baml(baml)?;
    assert_hash_stable(&ir)?;

    Ok(())
}

#[test]
fn test_hash_stability_with_circular_deps() -> Result<(), String> {
    let baml = r#"
class User {
  name string
  posts Post[]
  comments Comment[]
}

class Post {
  title string
  author User
  comments Comment[]
}

class Comment {
  text string
  author User
  post Post
}
"#;

    let ir = parse_baml(baml)?;
    assert_hash_stable(&ir)?;

    Ok(())
}

#[test]
fn test_empty_types_hash_stability() -> Result<(), String> {
    let baml = r#"
class EmptyClass {
}

enum EmptyEnum {
}
"#;

    let ir = parse_baml(baml)?;
    assert_hash_stable(&ir)?;

    Ok(())
}

// test signature generation
#[test]
fn test_generate_signatures_for_simple_ir() -> Result<(), String> {
    let baml = r##"
client<llm> TestClient {
  provider openai
  options {
    model gpt-4
  }
}

class Person {
  name string
  age int
}

enum Status {
  ACTIVE
  INACTIVE
}

function ProcessPerson(person: Person) -> Status {
  client TestClient
  prompt #"
    Process person
  "#
}
"##;
    let ir = parse_baml(baml)?;
    let signatures = get_signatures(&ir)?;

    assert_eq!(
        signatures.len(),
        4,
        "Should have 4 signatures (including client)"
    );

    let names: Vec<String> = signatures.iter().map(|s| s.display_name.clone()).collect();
    assert!(names.contains(&"Person".to_string()));
    assert!(names.contains(&"Status".to_string()));
    assert!(names.contains(&"ProcessPerson".to_string()));

    Ok(())
}

#[test]
fn test_signature_includes_all_types() -> Result<(), String> {
    let baml = r##"
class MyClass {
  field string
}

enum MyEnum {
  VALUE
}

client<llm> MyClient {
  provider openai
  options {
    model "gpt-4"
  }
}

function MyFunction() -> string {
  client MyClient
  prompt #"
    Hello
  "#
}

type MyAlias = string

retry_policy MyRetry {
  max_retries 3
}
"##;
    let ir = parse_baml(baml)?;
    let signatures = get_signatures(&ir)?;

    assert_eq!(signatures.len(), 6, "Should have 6 signatures");

    let names: Vec<String> = signatures.iter().map(|s| s.display_name.clone()).collect();
    assert!(names.contains(&"MyClass".to_string()));
    assert!(names.contains(&"MyEnum".to_string()));
    assert!(names.contains(&"MyFunction".to_string()));
    assert!(names.contains(&"MyAlias".to_string()));
    assert!(names.contains(&"MyClient".to_string()));
    assert!(names.contains(&"MyRetry".to_string()));

    Ok(())
}

#[test]
fn test_signature_has_valid_hashes() -> Result<(), String> {
    let baml = r#"
class Person {
  name string
}
"#;
    let ir = parse_baml(baml)?;
    let signature = get_signature_by_name(&ir, "Person")?;

    match signature.hashes {
        NodeHash::CompileTimeOnly(part) => {
            assert_ne!(
                part.interface_hash(),
                0,
                "Interface hash should not be zero"
            );
            assert_ne!(
                part.impl_hash(),
                0,
                "Implementation hash should not be zero"
            );
        }
        _ => panic!("Unexpected hash type"),
    }

    Ok(())
}

#[test]
fn test_signature_dependency_tracking() -> Result<(), String> {
    let baml = r##"
enum Status {
  ACTIVE
  INACTIVE
}

class Person {
  name string
  status Status
}

function ProcessPerson(person: Person) -> Status {
  client "openai/gpt-4o"
  prompt #"
    Process person
  "#
}
"##;
    let ir = parse_baml(baml)?;

    // Person should depend on Status
    let person_sig = get_signature_by_name(&ir, "Person")?;
    assert!(
        person_sig.dependencies.contains(&"Status".to_string()),
        "Person should depend on Status"
    );

    // ProcessPerson should depend on both Person and Status
    let func_sig = get_signature_by_name(&ir, "ProcessPerson")?;
    assert!(
        func_sig.dependencies.contains(&"Person".to_string()),
        "ProcessPerson should depend on Person"
    );
    assert!(
        func_sig.dependencies.contains(&"Status".to_string()),
        "ProcessPerson should depend on Status"
    );

    // Status should have no dependencies
    let status_sig = get_signature_by_name(&ir, "Status")?;
    assert!(
        status_sig.dependencies.is_empty(),
        "Status should have no dependencies"
    );

    Ok(())
}

#[test]
fn test_empty_signature_generation() -> Result<(), String> {
    let baml = "";
    let ir = parse_baml(baml)?;
    let signatures = get_signatures(&ir)?;
    assert_eq!(
        signatures.len(),
        0,
        "Empty BAML should generate no signatures"
    );
    Ok(())
}

#[test]
fn test_signature_type_correct() -> Result<(), String> {
    let baml = r##"
class MyClass { field string }
enum MyEnum { VALUE }
function MyFunction() -> string { prompt #"Hello"# }
type MyAlias = string
client<llm> MyClient { 
  provider openai 
  options { model "gpt-4" } 
}
retry_policy MyRetry { max_retries 3 }
"##;
    let ir = parse_baml(baml)?;
    let signatures = get_signatures(&ir)?;

    for sig in signatures {
        match sig.display_name.as_str() {
            "MyClass" => assert!(matches!(sig.signature_type, SignatureType::Class)),
            "MyEnum" => assert!(matches!(sig.signature_type, SignatureType::Enum)),
            "MyFunction" => assert!(matches!(sig.signature_type, SignatureType::Function)),
            "MyAlias" => assert!(matches!(sig.signature_type, SignatureType::TypeAlias)),
            "MyClient" => assert!(matches!(sig.signature_type, SignatureType::Client)),
            "MyRetry" => assert!(matches!(sig.signature_type, SignatureType::RetryPolicy)),
            _ => panic!("Unexpected signature name: {}", sig.display_name),
        }
    }

    Ok(())
}

// test class hasher
#[test]
fn test_empty_class() -> Result<(), String> {
    let baml = r#"
class Empty {
}
"#;
    let ir = parse_baml(baml)?;
    let hash = get_interface_hash(&ir, "Empty")?;
    assert_ne!(hash, 0, "Empty class should have non-zero hash");
    Ok(())
}

#[test]
fn test_class_with_single_field() -> Result<(), String> {
    let baml = r#"
class Person {
  name string
}
"#;
    let ir = parse_baml(baml)?;
    let hash = get_interface_hash(&ir, "Person")?;
    assert_ne!(hash, 0, "Class with single field should have non-zero hash");
    Ok(())
}

#[test]
fn test_class_with_multiple_fields() -> Result<(), String> {
    let baml = r#"
class Person {
  name string
  age int
  email string?
}
"#;
    let ir = parse_baml(baml)?;
    let hash = get_interface_hash(&ir, "Person")?;
    assert_ne!(
        hash, 0,
        "Class with multiple fields should have non-zero hash"
    );
    Ok(())
}

#[test]
fn test_class_field_type_change_affects_interface() -> Result<(), String> {
    let baml1 = r#"
class Person {
  age int
}
"#;
    let baml2 = r#"
class Person {
  age string
}
"#;
    assert_interface_hash_different(baml1, baml2, "Person")?;
    Ok(())
}

#[test]
fn test_class_field_name_change_affects_interface() -> Result<(), String> {
    let baml1 = r#"
class Person {
  name string
}
"#;
    let baml2 = r#"
class Person {
  full_name string
}
"#;
    assert_interface_hash_different(baml1, baml2, "Person")?;
    Ok(())
}

#[test]
fn test_class_field_optional_change_affects_interface() -> Result<(), String> {
    let baml1 = r#"
class Person {
  email string
}
"#;
    let baml2 = r#"
class Person {
  email string?
}
"#;
    assert_interface_hash_different(baml1, baml2, "Person")?;
    Ok(())
}

#[test]
fn test_class_field_alias_only_affects_implementation() -> Result<(), String> {
    let baml1 = r#"
class Person {
  name string @alias("userName")
}
"#;
    let baml2 = r#"
class Person {
  name string @alias("fullName")
}
"#;
    assert_interface_hash_equal(baml1, baml2, "Person")?;
    assert_implementation_hash_different(baml1, baml2, "Person")?;
    Ok(())
}

#[test]
fn test_class_field_description_only_affects_implementation() -> Result<(), String> {
    let baml1 = r#"
class Person {
  name string @description("User's name")
}
"#;
    let baml2 = r#"
class Person {
  name string @description("The person's full name")
}
"#;
    assert_interface_hash_equal(baml1, baml2, "Person")?;
    assert_implementation_hash_different(baml1, baml2, "Person")?;
    Ok(())
}

#[test]
fn test_class_field_skip_only_affects_implementation() -> Result<(), String> {
    let baml1 = r#"
class Person {
  secret string
}
"#;
    let baml2 = r#"
class Person {
  secret string @skip
}
"#;
    assert_interface_hash_equal(baml1, baml2, "Person")?;
    assert_implementation_hash_different(baml1, baml2, "Person")?;
    Ok(())
}

#[test]
fn test_class_field_ordering_affects_implementation_not_interface() -> Result<(), String> {
    let baml1 = r#"
class Person {
  name string
  age int
}
"#;
    let baml2 = r#"
class Person {
  age int
  name string
}
"#;
    // Interface hash should be the same (fields sorted by name)
    assert_interface_hash_equal(baml1, baml2, "Person")?;
    // Implementation hash should be different (fields in declaration order)
    assert_implementation_hash_different(baml1, baml2, "Person")?;
    Ok(())
}

#[test]
fn test_class_with_check_constraints_does_not_affect_hashes() -> Result<(), String> {
    let baml1 = r#"
class Person {
  age int
}
"#;
    let baml2 = r#"
class Person {
  age int @check(positive, {{ this > 0 }})
}
"#;
    // @check constraints don't affect any hash - they're runtime-only validation
    assert_interface_hash_equal(baml1, baml2, "Person")?;
    assert_implementation_hash_equal(baml1, baml2, "Person")?;
    Ok(())
}

#[test]
fn test_class_check_constraint_expression_change_does_not_affect_hashes() -> Result<(), String> {
    let baml1 = r#"
class Person {
  age int @check(positive, {{ this > 0 }})
}
"#;
    let baml2 = r#"
class Person {
  age int @check(positive, {{ this >= 0 }})
}
"#;
    // @check expression changes don't affect any hash - they're runtime-only validation
    assert_interface_hash_equal(baml1, baml2, "Person")?;
    assert_implementation_hash_equal(baml1, baml2, "Person")?;
    Ok(())
}

#[test]
fn test_class_hash_stability() -> Result<(), String> {
    let baml = r#"
class Person {
  name string
  age int
  email string?
}
"#;
    let ir = parse_baml(baml)?;
    assert_hash_stable(&ir)?;
    Ok(())
}

// test client hasher
#[test]
fn test_simple_client() -> Result<(), String> {
    let baml = r#"
client MyClient {
  provider openai
  options {
    model "gpt-4"
  }
}
"#;
    let ir = parse_baml(baml)?;
    let hash = get_interface_hash(&ir, "MyClient")?;
    assert_ne!(hash, 0, "Simple client should have non-zero hash");
    Ok(())
}

#[test]
fn test_client_provider_change_affects_interface() -> Result<(), String> {
    let baml1 = r#"
client MyClient {
  provider openai
  options {
    model "gpt-4"
  }
}
"#;
    let baml2 = r#"
client MyClient {
  provider anthropic
  options {
    model "anthropic-3"
  }
}
"#;
    assert_interface_hash_different(baml1, baml2, "MyClient")?;
    Ok(())
}

#[test]
fn test_client_model_change_affects_implementation() -> Result<(), String> {
    let baml1 = r#"
client MyClient {
  provider openai
  options {
    model "gpt-4"
  }
}
"#;
    let baml2 = r#"
client MyClient {
  provider openai
  options {
    model "gpt-3.5-turbo"
  }
}
"#;
    // Model change should affect implementation
    assert_implementation_hash_different(baml1, baml2, "MyClient")?;
    Ok(())
}

#[test]
fn test_client_temperature_change_affects_implementation() -> Result<(), String> {
    let baml1 = r#"
client MyClient {
  provider openai
  options {
    model "gpt-4"
    temperature 0.7
  }
}
"#;
    let baml2 = r#"
client MyClient {
  provider openai
  options {
    model "gpt-4"
    temperature 0.9
  }
}
"#;
    assert_implementation_hash_different(baml1, baml2, "MyClient")?;
    Ok(())
}

#[test]
fn test_client_with_retry_policy() -> Result<(), String> {
    let baml = r#"
retry_policy MyRetry {
  max_retries 3
}

client MyClient {
  provider openai
  retry_policy MyRetry
  options {
    model "gpt-4"
  }
}
"#;
    let ir = parse_baml(baml)?;
    let hash = get_interface_hash(&ir, "MyClient")?;
    assert_ne!(
        hash, 0,
        "Client with retry policy should have non-zero hash"
    );
    Ok(())
}

#[test]
fn test_client_retry_policy_change_affects_implementation() -> Result<(), String> {
    let baml1 = r#"
retry_policy RetryA {
  max_retries 3
}

retry_policy RetryB {
  max_retries 5
}

client MyClient {
  provider openai
  retry_policy RetryA
  options {
    model "gpt-4"
  }
}
"#;
    let baml2 = r#"
retry_policy RetryA {
  max_retries 3
}

retry_policy RetryB {
  max_retries 5
}

client MyClient {
  provider openai
  retry_policy RetryB
  options {
    model "gpt-4"
  }
}
"#;
    assert_implementation_hash_different(baml1, baml2, "MyClient")?;
    Ok(())
}

#[test]
fn test_client_max_tokens_change_affects_implementation() -> Result<(), String> {
    let baml1 = r#"
client MyClient {
  provider openai
  options {
    model "gpt-4"
    max_tokens 1000
  }
}
"#;
    let baml2 = r#"
client MyClient {
  provider openai
  options {
    model "gpt-4"
    max_tokens 2000
  }
}
"#;
    assert_implementation_hash_different(baml1, baml2, "MyClient")?;
    Ok(())
}

#[test]
fn test_multiple_clients() -> Result<(), String> {
    let baml = r#"
client ClientA {
  provider openai
  options {
    model "gpt-4"
  }
}

client ClientB {
  provider anthropic
  options {
    model "anthropic-3"
  }
}
"#;
    let ir = parse_baml(baml)?;
    let hash_a = get_interface_hash(&ir, "ClientA")?;
    let hash_b = get_interface_hash(&ir, "ClientB")?;
    assert_ne!(
        hash_a, hash_b,
        "Different clients should have different hashes"
    );
    Ok(())
}

#[test]
fn test_client_hash_stability() -> Result<(), String> {
    let baml = r#"
client MyClient {
  provider openai
  options {
    model "gpt-4"
    temperature 0.7
    max_tokens 2000
  }
}
"#;
    let ir = parse_baml(baml)?;
    assert_hash_stable(&ir)?;
    Ok(())
}

// test enum hasher
#[test]
fn test_simple_enum() -> Result<(), String> {
    let baml = r#"
enum Color {
  RED
  GREEN
  BLUE
}
"#;
    let ir = parse_baml(baml)?;
    let hash = get_interface_hash(&ir, "Color")?;
    assert_ne!(hash, 0, "Simple enum should have non-zero hash");
    Ok(())
}

#[test]
fn test_enum_value_addition_affects_interface() -> Result<(), String> {
    let baml1 = r#"
enum Color {
  RED
  GREEN
}
"#;
    let baml2 = r#"
enum Color {
  RED
  GREEN
  BLUE
}
"#;
    assert_interface_hash_different(baml1, baml2, "Color")?;
    Ok(())
}

#[test]
fn test_enum_value_removal_affects_interface() -> Result<(), String> {
    let baml1 = r#"
enum Color {
  RED
  GREEN
  BLUE
}
"#;
    let baml2 = r#"
enum Color {
  RED
  GREEN
}
"#;
    assert_interface_hash_different(baml1, baml2, "Color")?;
    Ok(())
}

#[test]
fn test_enum_value_rename_affects_interface() -> Result<(), String> {
    let baml1 = r#"
enum Color {
  RED
  GREEN
  BLUE
}
"#;
    let baml2 = r#"
enum Color {
  RED
  GREEN
  PURPLE
}
"#;
    assert_interface_hash_different(baml1, baml2, "Color")?;
    Ok(())
}

#[test]
fn test_enum_value_alias_only_affects_implementation() -> Result<(), String> {
    let baml1 = r#"
enum Status {
  ACTIVE @alias("active")
  INACTIVE
}
"#;
    let baml2 = r#"
enum Status {
  ACTIVE @alias("is_active")
  INACTIVE
}
"#;
    assert_interface_hash_equal(baml1, baml2, "Status")?;
    assert_implementation_hash_different(baml1, baml2, "Status")?;
    Ok(())
}

#[test]
fn test_enum_value_description_only_affects_implementation() -> Result<(), String> {
    let baml1 = r#"
enum Status {
  ACTIVE @description("User is active")
  INACTIVE
}
"#;
    let baml2 = r#"
enum Status {
  ACTIVE @description("Currently active")
  INACTIVE
}
"#;
    assert_interface_hash_equal(baml1, baml2, "Status")?;
    assert_implementation_hash_different(baml1, baml2, "Status")?;
    Ok(())
}

#[test]
fn test_enum_value_skip_only_affects_implementation() -> Result<(), String> {
    let baml1 = r#"
enum Status {
  ACTIVE
  INACTIVE
  DEPRECATED
}
"#;
    let baml2 = r#"
enum Status {
  ACTIVE
  INACTIVE
  DEPRECATED @skip
}
"#;
    assert_interface_hash_equal(baml1, baml2, "Status")?;
    assert_implementation_hash_different(baml1, baml2, "Status")?;
    Ok(())
}

#[test]
fn test_enum_hasher_test_enum_value_ordering_affects_implementation() -> Result<(), String> {
    let baml1 = r#"
enum Priority {
  HIGH
  MEDIUM
  LOW
}
"#;
    let baml2 = r#"
enum Priority {
  LOW
  MEDIUM
  HIGH
}
"#;
    // For enums, order might affect both interface and implementation
    // depending on the implementation, but typically order affects implementation
    assert_implementation_hash_different(baml1, baml2, "Priority")?;
    Ok(())
}

#[test]
fn test_large_enum() -> Result<(), String> {
    let mut baml = String::from("enum LargeEnum {\n");
    for i in 1..=100 {
        baml.push_str(&format!("  VALUE_{:03}\n", i));
    }
    baml.push_str("}\n");

    let ir = parse_baml(&baml)?;
    let hash = get_interface_hash(&ir, "LargeEnum")?;
    assert_ne!(hash, 0, "Large enum should have non-zero hash");
    Ok(())
}

#[test]
fn test_enum_hash_stability() -> Result<(), String> {
    let baml = r#"
enum Status {
  ACTIVE
  INACTIVE
  PENDING
}
"#;
    let ir = parse_baml(baml)?;
    assert_hash_stable(&ir)?;
    Ok(())
}

// test function hasher
#[test]
fn test_no_arg_function() -> Result<(), String> {
    let baml = r##"
client<llm> TestClient {
  provider openai
  options {
    model gpt-4
  }
}

function GetGreeting() -> string {
  client TestClient
  prompt #"Say hello"#
}
"##;
    let ir = parse_baml(baml)?;
    let hash = get_interface_hash(&ir, "GetGreeting")?;
    assert_ne!(hash, 0, "No-arg function should have non-zero hash");
    Ok(())
}

#[test]
fn test_single_param_function() -> Result<(), String> {
    let baml = r##"
client<llm> TestClient {
  provider openai
  options {
    model gpt-4
  }
}

function Echo(input: string) -> string {
  client TestClient
  prompt #"Echo: {{ input }}"#
}
"##;
    let ir = parse_baml(baml)?;
    let hash = get_interface_hash(&ir, "Echo")?;
    assert_ne!(hash, 0, "Single-param function should have non-zero hash");
    Ok(())
}

#[test]
fn test_multi_param_function() -> Result<(), String> {
    let baml = r##"
client<llm> TestClient {
  provider openai
  options {
    model gpt-4
  }
}

function Process(name: string, age: int, active: bool?) -> string {
  client TestClient
  prompt #"Process user: {{ name }}, {{ age }}, {{ active }}"#
}
"##;
    let ir = parse_baml(baml)?;
    let hash = get_interface_hash(&ir, "Process")?;
    assert_ne!(hash, 0, "Multi-param function should have non-zero hash");
    Ok(())
}

#[test]
fn test_function_param_type_change_affects_interface() -> Result<(), String> {
    let baml1 = r##"
client<llm> TestClient {
  provider openai
  options {
    model gpt-4
  }
}

function Process(age: int) -> string {
  client TestClient
  prompt #"
    Age: {{ age }}
  "#
}
"##;
    let baml2 = r##"
client<llm> TestClient {
  provider openai
  options {
    model gpt-4
  }
}

function Process(age: string) -> string {
  client TestClient
  prompt #"
    Age: {{ age }}
  "#
}
"##;
    assert_interface_hash_different(baml1, baml2, "Process")?;
    Ok(())
}

#[test]
fn test_function_param_name_change_affects_interface() -> Result<(), String> {
    let baml1 = r##"
client<llm> TestClient {
  provider openai
  options {
    model gpt-4
  }
}

function Process(name: string) -> string {
  client TestClient
  prompt #"
    Name: {{ name }}
  "#
}
"##;
    let baml2 = r##"
client<llm> TestClient {
  provider openai
  options {
    model gpt-4
  }
}

function Process(full_name: string) -> string {
  client TestClient
  prompt #"
    Name: {{ full_name }}
  "#
}
"##;
    assert_interface_hash_different(baml1, baml2, "Process")?;
    Ok(())
}

#[test]
fn test_function_return_type_change_affects_interface() -> Result<(), String> {
    let baml1 = r##"
client<llm> TestClient {
  provider openai
  options {
    model gpt-4
  }
}

function Process() -> string {
  client TestClient
  prompt #"
    Hello
  "#
}
"##;
    let baml2 = r##"
client<llm> TestClient {
  provider openai
  options {
    model gpt-4
  }
}

function Process() -> int {
  client TestClient
  prompt #"
    Hello
  "#
}
"##;
    assert_interface_hash_different(baml1, baml2, "Process")?;
    Ok(())
}

#[test]
fn test_function_hasher_test_function_prompt_change_only_affects_implementation() -> Result<(), String> {
    let baml1 = r##"
client<llm> TestClient {
  provider openai
  options {
    model gpt-4
  }
}

function Process(input: string) -> string {
  client TestClient
  prompt #"
    Process this: {{ input }}
  "#
}
"##;
    let baml2 = r##"
client<llm> TestClient {
  provider openai
  options {
    model gpt-4
  }
}

function Process(input: string) -> string {
  client TestClient
  prompt #"
    Handle the input: {{ input }}
  "#
}
"##;
    assert_interface_hash_equal(baml1, baml2, "Process")?;
    assert_implementation_hash_different(baml1, baml2, "Process")?;
    Ok(())
}

#[test]
fn test_function_hasher_test_function_client_change_only_affects_implementation() -> Result<(), String> {
    let baml1 = r##"
client<llm> ClientA {
  provider openai
  options {
    model "gpt-4"
  }
}

client<llm> ClientB {
  provider openai
  options {
    model "gpt-3.5-turbo"
  }
}

function Process(input: string) -> string {
  client ClientA
  prompt #"
    Process: {{ input }}
  "#
}
"##;
    let baml2 = r##"
client<llm> ClientA {
  provider openai
  options {
    model "gpt-4"
  }
}

client<llm> ClientB {
  provider openai
  options {
    model "gpt-3.5-turbo"
  }
}

function Process(input: string) -> string {
  client ClientB
  prompt #"
    Process: {{ input }}
  "#
}
"##;
    assert_interface_hash_equal(baml1, baml2, "Process")?;
    assert_implementation_hash_different(baml1, baml2, "Process")?;
    Ok(())
}

#[test]
fn test_function_with_complex_types() -> Result<(), String> {
    let baml = r##"
client<llm> TestClient {
  provider openai
  options {
    model gpt-4
  }
}

class User {
  name string
  age int
}

class Result {
  users User[]
  total int
}

function ProcessUsers(users: User[]) -> Result {
  client TestClient
  prompt #"
    Process users
  "#
}
"##;
    let ir = parse_baml(baml)?;
    let hash = get_interface_hash(&ir, "ProcessUsers")?;
    assert_ne!(
        hash, 0,
        "Function with complex types should have non-zero hash"
    );
    Ok(())
}

#[test]
fn test_function_with_assert_constraints() -> Result<(), String> {
    let baml1 = r##"
client<llm> TestClient {
  provider openai
  options {
    model gpt-4
  }
}

function Process(age: int) -> string {
  client TestClient
  prompt #"
    Age: {{ age }}
  "#
}
"##;
    let baml2 = r##"
client<llm> TestClient {
  provider openai
  options {
    model gpt-4
  }
}

function Process(age: int) -> string @assert({{ this | length > 0 }}) {
  client TestClient
  prompt #"
    Age: {{ age }}
  "#
}
"##;
    // @assert constraints on return types affect interface hash
    assert_interface_hash_different(baml1, baml2, "Process")?;
    Ok(())
}

#[test]
fn test_function_hash_stability() -> Result<(), String> {
    let baml = r##"
client<llm> TestClient {
  provider openai
  options {
    model gpt-4
  }
}

function Process(name: string, age: int) -> string {
  client TestClient
  prompt #"Process user"#
}
"##;
    let ir = parse_baml(baml)?;
    assert_hash_stable(&ir)?;
    Ok(())
}

// test retry policy hasher
#[test]
fn test_simple_retry_policy() -> Result<(), String> {
    let baml = r#"
retry_policy SimpleRetry {
  max_retries 3
}
"#;
    let ir = parse_baml(baml)?;
    let hash = get_interface_hash(&ir, "SimpleRetry")?;
    assert_ne!(hash, 0, "Simple retry policy should have non-zero hash");
    Ok(())
}

#[test]
fn test_retry_policy_max_retries_change_affects_interface() -> Result<(), String> {
    let baml1 = r#"
retry_policy MyRetry {
  max_retries 3
}
"#;
    let baml2 = r#"
retry_policy MyRetry {
  max_retries 5
}
"#;
    assert_interface_hash_different(baml1, baml2, "MyRetry")?;
    Ok(())
}

#[test]
fn test_retry_policy_with_exponential_backoff() -> Result<(), String> {
    let baml = r#"
retry_policy ExponentialRetry {
  max_retries 5
  strategy {
    type exponential_backoff
    delay_ms 1000
    max_delay_ms 30000
  }
}
"#;
    let ir = parse_baml(baml)?;
    let hash = get_interface_hash(&ir, "ExponentialRetry")?;
    assert_ne!(
        hash, 0,
        "Retry policy with exponential backoff should have non-zero hash"
    );
    Ok(())
}

#[test]
fn test_retry_policy_with_constant_delay() -> Result<(), String> {
    let baml = r#"
retry_policy ConstantRetry {
  max_retries 10
  strategy {
    type constant_delay
    delay_ms 500
  }
}
"#;
    let ir = parse_baml(baml)?;
    let hash = get_interface_hash(&ir, "ConstantRetry")?;
    assert_ne!(
        hash, 0,
        "Retry policy with constant delay should have non-zero hash"
    );
    Ok(())
}

#[test]
fn test_retry_policy_strategy_type_change_affects_interface() -> Result<(), String> {
    let baml1 = r#"
retry_policy MyRetry {
  max_retries 3
  strategy {
    type constant_delay
    delay_ms 500
  }
}
"#;
    let baml2 = r#"
retry_policy MyRetry {
  max_retries 3
  strategy {
    type exponential_backoff
    delay_ms 500
    max_delay_ms 10000
  }
}
"#;
    assert_interface_hash_different(baml1, baml2, "MyRetry")?;
    Ok(())
}

#[test]
fn test_retry_policy_delay_change_affects_interface() -> Result<(), String> {
    let baml1 = r#"
retry_policy MyRetry {
  max_retries 3
  strategy {
    type constant_delay
    delay_ms 500
  }
}
"#;
    let baml2 = r#"
retry_policy MyRetry {
  max_retries 3
  strategy {
    type constant_delay
    delay_ms 1000
  }
}
"#;
    assert_interface_hash_different(baml1, baml2, "MyRetry")?;
    Ok(())
}

#[test]
fn test_retry_policy_max_delay_change_affects_interface() -> Result<(), String> {
    let baml1 = r#"
retry_policy MyRetry {
  max_retries 3
  strategy {
    type exponential_backoff
    delay_ms 1000
    max_delay_ms 10000
  }
}
"#;
    let baml2 = r#"
retry_policy MyRetry {
  max_retries 3
  strategy {
    type exponential_backoff
    delay_ms 1000
    max_delay_ms 30000
  }
}
"#;
    assert_interface_hash_different(baml1, baml2, "MyRetry")?;
    Ok(())
}

#[test]
fn test_multiple_retry_policies() -> Result<(), String> {
    let baml = r#"
retry_policy RetryA {
  max_retries 3
}

retry_policy RetryB {
  max_retries 5
  strategy {
    type exponential_backoff
    delay_ms 1000
    max_delay_ms 30000
  }
}
"#;
    let ir = parse_baml(baml)?;
    let hash_a = get_interface_hash(&ir, "RetryA")?;
    let hash_b = get_interface_hash(&ir, "RetryB")?;
    assert_ne!(
        hash_a, hash_b,
        "Different retry policies should have different hashes"
    );
    Ok(())
}

#[test]
fn test_retry_policy_hash_stability() -> Result<(), String> {
    let baml = r#"
retry_policy MyRetry {
  max_retries 5
  strategy {
    type exponential_backoff
    delay_ms 1000
    max_delay_ms 30000
  }
}
"#;
    let ir = parse_baml(baml)?;
    assert_hash_stable(&ir)?;
    Ok(())
}

// test type alias hasher
#[test]
fn test_simple_type_alias() -> Result<(), String> {
    let baml = r#"
type Name = string
"#;
    let ir = parse_baml(baml)?;
    let hash = get_interface_hash(&ir, "Name")?;
    assert_ne!(hash, 0, "Simple type alias should have non-zero hash");
    Ok(())
}

#[test]
fn test_type_alias_underlying_type_change_affects_interface() -> Result<(), String> {
    let baml1 = r#"
type Age = int
"#;
    let baml2 = r#"
type Age = string
"#;
    assert_interface_hash_different(baml1, baml2, "Age")?;
    Ok(())
}

#[test]
fn test_optional_type_alias() -> Result<(), String> {
    let baml = r#"
type MaybeName = string?
"#;
    let ir = parse_baml(baml)?;
    let hash = get_interface_hash(&ir, "MaybeName")?;
    assert_ne!(hash, 0, "Optional type alias should have non-zero hash");
    Ok(())
}

#[test]
fn test_list_type_alias() -> Result<(), String> {
    let baml = r#"
type Names = string[]
"#;
    let ir = parse_baml(baml)?;
    let hash = get_interface_hash(&ir, "Names")?;
    assert_ne!(hash, 0, "List type alias should have non-zero hash");
    Ok(())
}

#[test]
fn test_map_type_alias() -> Result<(), String> {
    let baml = r#"
type Dictionary = map<string, string>
"#;
    let ir = parse_baml(baml)?;
    let hash = get_interface_hash(&ir, "Dictionary")?;
    assert_ne!(hash, 0, "Map type alias should have non-zero hash");
    Ok(())
}

#[test]
fn test_union_type_alias() -> Result<(), String> {
    let baml = r#"
type StringOrInt = string | int
"#;
    let ir = parse_baml(baml)?;
    let hash = get_interface_hash(&ir, "StringOrInt")?;
    assert_ne!(hash, 0, "Union type alias should have non-zero hash");
    Ok(())
}

#[test]
fn test_complex_union_type_alias() -> Result<(), String> {
    let baml = r#"
type Complex = string | int[]? | map<string, bool>
"#;
    let ir = parse_baml(baml)?;
    let hash = get_interface_hash(&ir, "Complex")?;
    assert_ne!(
        hash, 0,
        "Complex union type alias should have non-zero hash"
    );
    Ok(())
}

#[test]
fn test_type_alias_modifier_change_affects_interface() -> Result<(), String> {
    let baml1 = r#"
type Name = string
"#;
    let baml2 = r#"
type Name = string?
"#;
    assert_interface_hash_different(baml1, baml2, "Name")?;
    Ok(())
}

#[test]
fn test_type_alias_list_change_affects_interface() -> Result<(), String> {
    let baml1 = r#"
type Data = string
"#;
    let baml2 = r#"
type Data = string[]
"#;
    assert_interface_hash_different(baml1, baml2, "Data")?;
    Ok(())
}

#[test]
fn test_type_alias_union_variant_addition_affects_interface() -> Result<(), String> {
    let baml1 = r#"
type Value = string | int
"#;
    let baml2 = r#"
type Value = string | int | bool
"#;
    assert_interface_hash_different(baml1, baml2, "Value")?;
    Ok(())
}

#[test]
fn test_type_alias_with_check_constraints_does_not_affect_hashes() -> Result<(), String> {
    let baml1 = r#"
type Age = int
"#;
    let baml2 = r#"
type Age = int @check(positive, {{ this > 0 }})
"#;
    // @check constraints don't affect any hash - they're runtime-only validation
    assert_interface_hash_equal(baml1, baml2, "Age")?;
    assert_implementation_hash_equal(baml1, baml2, "Age")?;
    Ok(())
}

#[test]
fn test_type_alias_check_constraint_expression_change_does_not_affect_hashes() -> Result<(), String> {
    let baml1 = r#"
type Age = int @check(positive, {{ this > 0 }})
"#;
    let baml2 = r#"
type Age = int @check(positive, {{ this >= 0 }})
"#;
    // @check expression changes don't affect any hash - they're runtime-only validation
    assert_interface_hash_equal(baml1, baml2, "Age")?;
    assert_implementation_hash_equal(baml1, baml2, "Age")?;
    Ok(())
}

#[test]
fn test_nested_type_alias() -> Result<(), String> {
    let baml = r#"
type Inner = string
type Outer = Inner[]
"#;
    let ir = parse_baml(baml)?;
    let hash = get_interface_hash(&ir, "Outer")?;
    assert_ne!(hash, 0, "Nested type alias should have non-zero hash");
    Ok(())
}

#[test]
fn test_type_alias_hash_stability() -> Result<(), String> {
    let baml = r#"
type Complex = string | int[] | map<string, bool>
"#;
    let ir = parse_baml(baml)?;
    assert_hash_stable(&ir)?;
    Ok(())
}

// adapters
#[test]
fn test_ir_signature_adapters_smoke() {
    // Create a simple test IR with a function
    let Ok(ir) = parse_baml(
        r##"
            client<llm> TestClient {
                provider openai
                options {
                    model gpt-4
                    api_key env.OPENAI_API_KEY
                }
            }
            
            function TestFunction(input: string) -> string {
                client TestClient
                prompt #"Test prompt: {{input}}"#
            }
            
            class TestClass {
                field string
            }
            
            enum TestEnum {
                Value1
                Value2
            }
            
            type TestAlias = string
            "##,
    ) else {
        panic!("Failed to create test IR");
    };

    // Create the adapters
    let adapters = IRSignatureAdapters::new(&ir);

    // Test function access
    let functions = adapters.functions();
    assert!(!functions.is_empty(), "Should have at least one function");
    assert_eq!(FunctionDefinition::name(functions[0]), "TestFunction");

    // Test class access
    let classes = adapters.classes();
    assert!(!classes.is_empty(), "Should have at least one class");
    assert_eq!(TypedObject::name(classes[0]), "TestClass");

    // Test enum access
    let enums = adapters.enums();
    assert!(!enums.is_empty(), "Should have at least one enum");
    assert_eq!(TypedObject::name(enums[0]), "TestEnum");

    // Test type alias access
    let type_aliases = adapters.type_aliases();
    assert!(!type_aliases.is_empty(), "Should have at least one type alias");
    assert_eq!(TypeAliasDefinition::name(type_aliases[0]), "TestAlias");

    println!("All trait accesses work correctly!");
}

// ---------------------------------------------------------------------------
// Further behaviour of the library
// ---------------------------------------------------------------------------

fn deps_of(ir: &IntermediateRepr, name: &str) -> Vec<String> {
    get_signature_by_name(ir, name).unwrap().dependencies
}

#[test]
fn dependencies_are_sorted_and_transitive() {
    let ir = parse_baml(
        r#"
enum Status { ACTIVE }
class Address { street string }
class Person { status Status address Address }
class Company { employees Person[] headquarters Address }
"#,
    )
    .unwrap();
    assert_eq!(deps_of(&ir, "Company"), vec!["Address".to_string(), "Person".to_string(), "Status".to_string()]);
    assert_eq!(deps_of(&ir, "Person"), vec!["Address".to_string(), "Status".to_string()]);
    assert!(deps_of(&ir, "Status").is_empty());
}

#[test]
fn a_definition_on_a_cycle_depends_on_itself() {
    let ir = parse_baml(
        r#"
class User { posts Post[] }
class Post { author User }
class Plain { name string }
"#,
    )
    .unwrap();
    assert_eq!(deps_of(&ir, "User"), vec!["Post".to_string(), "User".to_string()]);
    assert_eq!(deps_of(&ir, "Post"), vec!["Post".to_string(), "User".to_string()]);
    assert!(deps_of(&ir, "Plain").is_empty());
}

#[test]
fn implementation_change_of_a_dependency_keeps_interface_hash() {
    let a = r#"
class Inner { value string @alias("v") }
class Outer { inner Inner }
"#;
    let b = r#"
class Inner { value string @alias("w") }
class Outer { inner Inner }
"#;
    assert_interface_hash_equal(a, b, "Outer").unwrap();
    assert_implementation_hash_different(a, b, "Outer").unwrap();
    assert_interface_hash_equal(a, b, "Inner").unwrap();
}

#[test]
fn interface_change_of_a_dependency_changes_interface_hash() {
    let a = r#"
class Inner { value string }
class Outer { inner Inner }
"#;
    let b = r#"
class Inner { value int }
class Outer { inner Inner }
"#;
    assert_interface_hash_different(a, b, "Outer").unwrap();
}

#[test]
fn field_order_of_three_fields_keeps_interface() {
    let a = "class P { a string b int c bool }";
    let b = "class P { c bool a string b int }";
    assert_interface_hash_equal(a, b, "P").unwrap();
    assert_implementation_hash_different(a, b, "P").unwrap();
}

#[test]
fn alias_equal_to_the_name_counts_as_no_alias() {
    let a = r#"class P { name string }"#;
    let b = r#"class P { name string @alias("name") }"#;
    let c = r#"class P { name string @alias("") }"#;
    assert_implementation_hash_equal(a, b, "P").unwrap();
    assert_implementation_hash_equal(a, c, "P").unwrap();
}

#[test]
fn missing_dependency_is_reported() {
    let ir = IntermediateRepr {
        functions: Vec::new(),
        classes: vec![Node {
            elem: Class {
                name: "Holder".to_string(),
                static_fields: vec![Node {
                    elem: Field {
                        name: "thing".to_string(),
                        field_type: TypeIR::Class {
                            name: "Missing".to_string(),
                            mode: StreamingMode::NonStreaming,
                            dynamic: false,
                            meta: meta(&[]),
                        },
                    },
                    attributes: node_attributes(&PAttrs::default()),
                }],
            },
            attributes: node_attributes(&PAttrs::default()),
        }],
        enums: Vec::new(),
        type_aliases: Vec::new(),
        clients: Vec::new(),
        retry_policies: Vec::new(),
    };
    let r = generate_signatures(ir.as_signature_adapters());
    match r {
        Err(HashError::DependencyNotFound(name)) => assert_eq!(name, "Missing"),
        other => panic!("expected a missing dependency, got {:?}", other),
    }
}

#[test]
fn signatures_come_in_program_order_with_kinds() {
    let ir = parse_baml(
        r##"
retry_policy R { max_retries 1 }
client<llm> C { provider openai retry_policy R options { model "m" } }
type A = string
enum E { X }
class K { f string }
function F() -> string { client C prompt #"p"# }
"##,
    )
    .unwrap();
    let sigs = get_signatures(&ir).unwrap();
    let got: Vec<(String, SignatureType)> = sigs.iter().map(|s| (s.display_name.clone(), s.signature_type)).collect();
    assert_eq!(
        got,
        vec![
            ("F".to_string(), SignatureType::Function),
            ("K".to_string(), SignatureType::Class),
            ("E".to_string(), SignatureType::Enum),
            ("A".to_string(), SignatureType::TypeAlias),
            ("C".to_string(), SignatureType::Client),
            ("R".to_string(), SignatureType::RetryPolicy),
        ]
    );
    assert_eq!(deps_of(&ir, "F"), vec!["C".to_string(), "R".to_string()]);
    assert_eq!(deps_of(&ir, "C"), vec!["R".to_string()]);
}

#[test]
fn function_interface_does_not_follow_the_client() {
    let a = r##"
retry_policy R { max_retries 1 }
client<llm> C { provider openai retry_policy R options { model "m" } }
function F() -> string { client C prompt #"p"# }
"##;
    let b = r##"
retry_policy R { max_retries 2 }
client<llm> C { provider openai retry_policy R options { model "m" } }
function F() -> string { client C prompt #"p"# }
"##;
    assert_interface_hash_equal(a, b, "F").unwrap();
    assert_implementation_hash_different(a, b, "F").unwrap();
}

#[test]
fn ast_node_id_text_round_trip() {
    let id = AstNodeId::new_class("Person".to_string(), NodeHash::CompileTimeOnly(HashPart::new(12, 345)));
    let text = id.to_string();
    assert_eq!(text, "class##Person##12##345##0##0");
    let back = AstNodeId::from_str(&text).unwrap();
    assert_eq!(back, id);
    assert_eq!(back.node_type(), AstNodeIdType::Class);
    assert_eq!(back.kind_name(), "class");

    let both = AstNodeId::new_function(
        "F".to_string(),
        NodeHash::CompileTimeAndRuntime(HashPart::new(1, 2), HashPart::new(u64::MAX, 0)),
    );
    let text = both.to_string();
    assert_eq!(text, "function##F##1##2##18446744073709551615##0");
    assert_eq!(AstNodeId::from_str(&text).unwrap(), both);

    let runtime = AstNodeId::new_retry_policy("R".to_string(), NodeHash::RuntimeOnly(HashPart::new(0, 7)));
    let text = runtime.to_string();
    assert_eq!(text, "retry_policy##R##0##0##0##7");
    assert_eq!(AstNodeId::from_str(&text).unwrap(), runtime);

    let root = AstNodeId::new_ast(NodeHash::CompileTimeOnly(HashPart::new(3, 4)));
    assert_eq!(root.to_string(), "ast##root##3##4##0##0");
    assert_eq!(root.name(), "root");
}

#[test]
fn ast_node_id_parse_errors() {
    match AstNodeId::from_str("class##X##abc##1##0##0") {
        Err(AstNodeIdError::InvalidUniqueId(s)) => assert_eq!(s, "class##X##abc##1##0##0"),
        other => panic!("unexpected {:?}", other),
    }
    match AstNodeId::from_str("class##X##0##0##0##0") {
        Err(AstNodeIdError::InvalidUniqueId(_)) => {}
        other => panic!("unexpected {:?}", other),
    }
    match AstNodeId::from_str("klass##X##1##2##0##0") {
        Err(AstNodeIdError::VariantNotFound) => {}
        other => panic!("unexpected {:?}", other),
    }
    match AstNodeId::from_str("class##X##-1##2##0##0") {
        Err(AstNodeIdError::InvalidUniqueId(_)) => {}
        other => panic!("unexpected {:?}", other),
    }
    match AstNodeId::from_str("class##X##18446744073709551616##2##0##0") {
        Err(AstNodeIdError::InvalidUniqueId(_)) => {}
        other => panic!("unexpected {:?}", other),
    }
}

#[test]
fn ast_node_id_short_text_errors_or_reads_past_end() {
    // The first hash piece is not a number: an error before the missing pieces are looked for.
    assert!(!AstNodeId::reads_past_end("class##X##abc"));
    match AstNodeId::from_str("class##X##abc") {
        Err(AstNodeIdError::InvalidUniqueId(s)) => assert_eq!(s, "class##X##abc"),
        other => panic!("unexpected {:?}", other),
    }
    assert!(!AstNodeId::reads_past_end("class##X##1##2##x"));
    match AstNodeId::from_str("class##X##1##2##x") {
        Err(AstNodeIdError::InvalidUniqueId(_)) => {}
        other => panic!("unexpected {:?}", other),
    }
    // Numbers as far as the pieces go: reading looks past the end.
    assert!(AstNodeId::reads_past_end("class##X"));
    assert!(AstNodeId::reads_past_end("class##X##1##2##0"));
    assert!(!AstNodeId::reads_past_end("class##X##1##2##0##0"));
}

#[test]
fn ast_node_id_parse_accepts_plus_and_ignores_extra_pieces() {
    let id = AstNodeId::from_str("enum##E##+5##007##0##0##extra").unwrap();
    assert_eq!(id, AstNodeId::new_enum("E".to_string(), NodeHash::CompileTimeOnly(HashPart::new(5, 7))));
    // A name ending in `#` is not read back: the text splits after its first `#`.
    let id = AstNodeId::new_type_alias("A#".to_string(), NodeHash::CompileTimeOnly(HashPart::new(1, 2)));
    assert_eq!(id.to_string(), "type_alias##A###1##2##0##0");
    match AstNodeId::from_str(&id.to_string()) {
        Err(AstNodeIdError::InvalidUniqueId(_)) => {}
        other => panic!("unexpected {:?}", other),
    }
}

#[test]
fn decimal_text_and_parsing() {
    assert_eq!(decimal_string(0), "0");
    assert_eq!(decimal_string(1234567890), "1234567890");
    assert_eq!(decimal_string(u64::MAX), "18446744073709551615");
    let chars = |s: &str| s.chars().collect::<Vec<char>>();
    assert_eq!(parse_u64(&chars("42")), Some(42));
    assert_eq!(parse_u64(&chars("+42")), Some(42));
    assert_eq!(parse_u64(&chars("")), None);
    assert_eq!(parse_u64(&chars("+")), None);
    assert_eq!(parse_u64(&chars("-1")), None);
    assert_eq!(parse_u64(&chars("4 2")), None);
    assert_eq!(parse_u64(&chars("18446744073709551615")), Some(u64::MAX));
    assert_eq!(parse_u64(&chars("18446744073709551616")), None);
    let pieces: Vec<String> = split_on_separator(&chars("a##b###c##")).into_iter().map(|p| p.into_iter().collect()).collect();
    assert_eq!(pieces, vec!["a".to_string(), "b".to_string(), "#c".to_string(), "".to_string()]);
    let pieces = split_on_separator(&chars(""));
    assert_eq!(pieces.len(), 1);
    assert!(pieces[0].is_empty());
}

#[test]
fn hash_text_with_splitter() {
    assert_eq!(HashPart::new(1, 22).with_splitter("::"), "1::22");
    assert_eq!(NodeHash::RuntimeOnly(HashPart::new(5, 6)).with_splitter("-"), "0-0-5-6");
    assert_eq!(HashPart::zero().interface_hash(), 0);
}

#[test]
fn shallow_hash_prefixes_name_the_kinds() {
    let ir = parse_baml("class K { f string }").unwrap();
    let adapters = ir.as_signature_adapters();
    assert_eq!(TopClassDefinition::new(&adapters.class_adapters[0]).shallow_hash_prefix(), "class");
    assert_eq!(ShallowSignature::shallow_hash_prefix(&adapters.class_adapters[0].class_type), "type");
}

#[test]
fn type_conversion_drops_streaming_and_keeps_constraints() {
    let t = TypeIR::List(
        Box::new(TypeIR::Class {
            name: "K".to_string(),
            mode: StreamingMode::Streaming,
            dynamic: true,
            meta: MetaIR {
                constraints: vec![Constraint {
                    level: ConstraintLevel::Check,
                    expression: "this.ok".to_string(),
                    label: Some("ok".to_string()),
                }],
                streaming_needed: true,
                streaming_done: true,
            },
        }),
        meta(&[
            PConstraint { level: ConstraintLevel::Check, label: Some("c".to_string()), expression: "true".to_string() },
            PConstraint { level: ConstraintLevel::Assert, label: None, expression: "this > 0".to_string() },
        ]),
    );
    // `@check` constraints are left out at every depth; `@assert` ones stay.
    match from_type_ir(&t) {
        TypeRPC::List(item, m) => {
            assert_eq!(m.constraints.len(), 1);
            assert_eq!(m.constraints[0].expression, "this > 0");
            match *item {
                TypeRPC::Class { name, mode, dynamic, meta } => {
                    assert_eq!(name, "K");
                    assert_eq!(mode, StreamingMode::NonStreaming);
                    assert!(dynamic);
                    assert!(meta.constraints.is_empty());
                }
                other => panic!("unexpected {:?}", other),
            }
        }
        other => panic!("unexpected {:?}", other),
    }
}

#[test]
fn publish_lists_functions_and_types_with_dependency_ids() {
    let ir = parse_baml(
        r##"
enum Status { ACTIVE INACTIVE }
class Person { status Status name string }
type People = Person[]
function Process(p: Person, n: int) -> Status { client "openai/gpt-4o" prompt #"x"# }
"##,
    )
    .unwrap();
    let published = publish(&ir).unwrap();
    assert_eq!(published.functions.len(), 1);
    let (fname, f) = &published.functions[0];
    assert_eq!(fname, "Process");
    assert_eq!(f.function_id.0 .0.to_string(), get_signature_by_name(&ir, "Process").unwrap().to_ast_node().to_string());
    let dep_names: Vec<String> = f.function_id.1.iter().map(|d| d.0.name().to_string()).collect();
    assert_eq!(dep_names, vec!["Person".to_string(), "Status".to_string()]);
    let input_names: Vec<&str> = f.inputs.iter().map(|(n, _)| n.as_str()).collect();
    assert_eq!(input_names, vec!["p", "n"]);

    let type_names: Vec<&str> = published.types.iter().map(|(n, _)| n.as_str()).collect();
    assert_eq!(type_names, vec!["Person", "Status", "People"]);
    let person = &published.types[0].1;
    let fields: Vec<&str> = person.class_fields.as_ref().unwrap().iter().map(|(n, _)| n.as_str()).collect();
    assert_eq!(fields, vec!["name", "status"]);
    assert!(person.enum_values.is_none());
    let status = &published.types[1].1;
    assert_eq!(status.enum_values.as_ref().unwrap(), &vec!["ACTIVE".to_string(), "INACTIVE".to_string()]);
    assert!(status.type_id.1.is_empty());
    let people = &published.types[2].1;
    assert_eq!(people.type_id.1.len(), 2);
    assert!(people.class_fields.is_none());
}

#[test]
fn publish_reports_a_signature_failure() {
    let ir = parse_baml(r##"function F() -> string { client Missing prompt #"x"# }"##).unwrap();
    match publish(&ir) {
        Err(PublishError::Hash(_)) => {}
        other => panic!("unexpected {:?}", other),
    }
}

#[test]
fn publish_with_reports_missing_names_in_order() {
    let empty = parse_baml("").unwrap();
    let no_sigs = get_signatures(&empty).unwrap();
    let cases = [
        (r##"function F() -> string { prompt #"x"# }"##, "function"),
        ("class K { f string }", "class"),
        ("enum E { X }", "enum"),
        ("type A = string", "alias"),
    ];
    for (src, kind) in cases {
        let ir = parse_baml(src).unwrap();
        let adapters = ir.as_signature_adapters();
        match (publish_with(&adapters, &no_sigs), kind) {
            (Err(PublishError::FunctionNotFound), "function") => {}
            (Err(PublishError::ClassNotFound), "class") => {}
            (Err(PublishError::EnumNotFound), "enum") => {}
            (Err(PublishError::TypeAliasNotFound), "alias") => {}
            (other, k) => panic!("unexpected {:?} for {}", other, k),
        }
    }
}

#[test]
fn default_config_is_the_first_of_its_name() {
    let f = Function {
        name: "F".to_string(),
        inputs: Vec::new(),
        output: TypeIR::Primitive(TypeValue::String, meta(&[])),
        configs: vec![
            FunctionConfig { name: "other".to_string(), prompt_template: "a".to_string(), client: ClientSpec::Named("X".to_string()) },
            FunctionConfig { name: "main".to_string(), prompt_template: "b".to_string(), client: ClientSpec::Named("Y".to_string()) },
            FunctionConfig { name: "main".to_string(), prompt_template: "c".to_string(), client: ClientSpec::Named("Z".to_string()) },
        ],
        default_config: "main".to_string(),
    };
    let c = f.find_default_config().unwrap();
    assert_eq!(c.prompt_template, "b");
    let missing = Function { default_config: "none".to_string(), ..f };
    assert!(missing.find_default_config().is_none());
}

#[test]
fn later_entry_of_a_name_wins() {
    let ir = parse_baml(
        r#"
class Dup { a string }
enum Dup { X }
class User { d Dup }
"#,
    );
    let ir = ir.unwrap();
    let sigs = get_signatures(&ir).unwrap();
    let class_sig = &sigs[0];
    let enum_sig = &sigs[2];
    assert_eq!(class_sig.display_name, "Dup");
    assert_eq!(enum_sig.display_name, "Dup");
    assert_eq!(class_sig.hashes, enum_sig.hashes);
}

/// Names, kinds and dependency lists of a program's signatures, each with a
/// compile-time hash only.
fn signature_rows(baml: &str) -> Vec<(String, SignatureType, Vec<String>)> {
    let ir = parse_baml(baml).unwrap();
    let signatures = get_signatures(&ir).unwrap();
    signatures
        .iter()
        .map(|sig| {
            match sig.hashes {
                NodeHash::CompileTimeOnly(_) => {}
                _ => panic!("Unexpected hash variant"),
            }
            (sig.display_name.clone(), sig.signature_type, sig.dependencies.clone())
        })
        .collect()
}

fn row(name: &str, kind: SignatureType, deps: &[&str]) -> (String, SignatureType, Vec<String>) {
    (name.to_string(), kind, deps.iter().map(|d| d.to_string()).collect())
}

#[test]
fn test_snapshot_simple_class() {
    let baml = r#"
class Person {
  name string
  age int
  email string?
}
"#;
    assert_eq!(signature_rows(baml), vec![row("Person", SignatureType::Class, &[])]);
}

#[test]
fn test_snapshot_simple_enum() {
    let baml = r#"
enum Color {
  RED
  GREEN
  BLUE
}
"#;
    assert_eq!(signature_rows(baml), vec![row("Color", SignatureType::Enum, &[])]);
}

#[test]
fn test_snapshot_function_with_dependencies() {
    let baml = r##"
client<llm> TestClient {
  provider openai
  options {
    model gpt-4
  }
}

class Input {
  data string
}

class Output {
  result string
}

function Process(input: Input) -> Output {
  client TestClient
  prompt #"Process the input"#
}
"##;
    assert_eq!(
        signature_rows(baml),
        vec![
            row("Process", SignatureType::Function, &["Input", "Output", "TestClient"]),
            row("Input", SignatureType::Class, &[]),
            row("Output", SignatureType::Class, &[]),
            row("TestClient", SignatureType::Client, &[]),
        ]
    );
}

#[test]
fn test_snapshot_complex_types() {
    let baml = r##"
client<llm> TestClient {
  provider openai
  options {
    model gpt-4
  }
}

enum Status {
  ACTIVE
  INACTIVE
}

class Address {
  street string
  city string
  country string
}

class Person {
  name string
  addresses Address[]
  status Status
}

type PersonList = Person[]

function ProcessPeople(people: PersonList) -> Status {
  client TestClient
  prompt #"Process people"#
}
"##;
    assert_eq!(
        signature_rows(baml),
        vec![
            // The parameter's alias reads as its target, `Person[]`.
            row("ProcessPeople", SignatureType::Function, &["Address", "Person", "Status", "TestClient"]),
            row("Address", SignatureType::Class, &[]),
            row("Person", SignatureType::Class, &["Address", "Status"]),
            row("Status", SignatureType::Enum, &[]),
            row("PersonList", SignatureType::TypeAlias, &["Address", "Person", "Status"]),
            row("TestClient", SignatureType::Client, &[]),
        ]
    );
}

#[test]
fn the_missing_name_reported_is_the_first_the_stack_search_meets() {
    // `Holder` depends on `Alpha` and `Zed`, neither defined.  The search
    // pushes them in order of name and takes the last pushed first: `Zed`.
    let missing = |name: &str| Node {
        elem: Field {
            name: name.to_lowercase(),
            field_type: TypeIR::Class {
                name: name.to_string(),
                mode: StreamingMode::NonStreaming,
                dynamic: false,
                meta: meta(&[]),
            },
        },
        attributes: node_attributes(&PAttrs::default()),
    };
    let ir = IntermediateRepr {
        functions: Vec::new(),
        classes: vec![Node {
            elem: Class { name: "Holder".to_string(), static_fields: vec![missing("Alpha"), missing("Zed")] },
            attributes: node_attributes(&PAttrs::default()),
        }],
        enums: Vec::new(),
        type_aliases: Vec::new(),
        clients: Vec::new(),
        retry_policies: Vec::new(),
    };
    match generate_signatures(ir.as_signature_adapters()) {
        Err(HashError::DependencyNotFound(name)) => assert_eq!(name, "Zed"),
        other => panic!("expected a missing dependency, got {:?}", other),
    }
}

#[test]
fn adapters_made_twice_sign_the_same() {
    let ir = parse_baml(
        r##"
retry_policy R { max_retries 1 }
client<llm> C { provider openai retry_policy R options { model "m" } }
class K { f string }
function F(k: K) -> string { client C prompt #"p"# }
"##,
    )
    .unwrap();
    let first = generate_signatures(ir.as_signature_adapters()).unwrap();
    let second = generate_signatures(ir.as_signature_adapters()).unwrap();
    assert_eq!(first.len(), second.len());
    for (a, b) in first.iter().zip(second.iter()) {
        assert_eq!(a.display_name, b.display_name);
        assert_eq!(a.signature_type, b.signature_type);
        assert_eq!(a.hashes, b.hashes);
        assert_eq!(a.dependencies, b.dependencies);
    }
}

fn rpc_meta(cs: &[(ConstraintLevel, &str)]) -> MetaRPC {
    MetaRPC {
        constraints: cs
            .iter()
            .map(|(level, e)| Constraint { level: *level, expression: e.to_string(), label: None })
            .collect(),
    }
}

fn class_rpc(mode: StreamingMode, cs: &[(ConstraintLevel, &str)]) -> TypeRPC {
    TypeRPC::Class { name: "K".to_string(), mode, dynamic: false, meta: rpc_meta(cs) }
}

#[test]
fn a_type_hashed_on_its_own_holds_its_constraints_but_not_their_levels_or_its_mode() {
    let plain = class_rpc(StreamingMode::NonStreaming, &[]);
    let checked = class_rpc(StreamingMode::NonStreaming, &[(ConstraintLevel::Check, "this.ok")]);
    let asserted = class_rpc(StreamingMode::NonStreaming, &[(ConstraintLevel::Assert, "this.ok")]);
    let streaming = class_rpc(StreamingMode::Streaming, &[]);
    assert_ne!(plain.shallow_interface_hash(), checked.shallow_interface_hash());
    assert_eq!(checked.shallow_interface_hash(), asserted.shallow_interface_hash());
    assert_eq!(plain.shallow_interface_hash(), streaming.shallow_interface_hash());
}

#[test]
fn the_types_a_type_is_made_of_are_hashed_whole() {
    let list = |item: TypeRPC| TypeRPC::List(Box::new(item), rpc_meta(&[]));
    let plain = list(class_rpc(StreamingMode::NonStreaming, &[]));
    let checked = list(class_rpc(StreamingMode::NonStreaming, &[(ConstraintLevel::Check, "this.ok")]));
    let asserted = list(class_rpc(StreamingMode::NonStreaming, &[(ConstraintLevel::Assert, "this.ok")]));
    let streaming = list(class_rpc(StreamingMode::Streaming, &[]));
    assert_ne!(plain.shallow_interface_hash(), checked.shallow_interface_hash());
    assert_ne!(checked.shallow_interface_hash(), asserted.shallow_interface_hash());
    assert_ne!(plain.shallow_interface_hash(), streaming.shallow_interface_hash());
}

#[test]
fn hex_text_is_lowercase_without_leading_zeros() {
    assert_eq!(hex_string(0), "0");
    assert_eq!(hex_string(255), "ff");
    assert_eq!(hex_string(0x1a2b), "1a2b");
    assert_eq!(hex_string(u64::MAX), format!("{:x}", u64::MAX));
}
