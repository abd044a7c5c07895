//! Configuration values of clients and retry policies, as written in the
//! source before environment variables are resolved.

use vstd::prelude::*;
use crate::encode::{enc_bool, enc_str, enc_u64, push_bool, push_str, push_u64};
use crate::interfaces::{enc_string_or, string_or_model, StringOr, StringOrModel};

verus! {

/// An unresolved configuration value.  Numbers are kept as written.
#[derive(Debug)]
pub enum UnresolvedValue {
    String(StringOr),
    Numeric(String),
    Bool(bool),
    Array(Vec<UnresolvedValue>),
    Object(Vec<(String, UnresolvedValue)>),
    Null,
}

/// Model of an unresolved value.
pub enum ValueModel {
    String(StringOrModel),
    Numeric(Seq<char>),
    Bool(bool),
    Array(Seq<ValueModel>),
    Object(Seq<(Seq<char>, ValueModel)>),
    Null,
}

pub open spec fn value_model(v: UnresolvedValue) -> ValueModel
    decreases v,
{
    match v {
        UnresolvedValue::String(s) => ValueModel::String(string_or_model(s)),
        UnresolvedValue::Numeric(n) => ValueModel::Numeric(n@),
        UnresolvedValue::Bool(b) => ValueModel::Bool(b),
        UnresolvedValue::Array(items) => ValueModel::Array(
            Seq::new(items@.len(), |i: int| if 0 <= i < items@.len() { value_model(items@[i]) } else { ValueModel::Null }),
        ),
        UnresolvedValue::Object(entries) => ValueModel::Object(
            Seq::new(
                entries@.len(),
                |i: int| if 0 <= i < entries@.len() { (entries@[i].0@, value_model(entries@[i].1)) } else { (Seq::empty(), ValueModel::Null) },
            ),
        ),
        UnresolvedValue::Null => ValueModel::Null,
    }
}

impl View for UnresolvedValue {
    type V = ValueModel;

    open spec fn view(&self) -> ValueModel {
        value_model(*self)
    }
}

/// The model of a list of named values.
pub open spec fn entries_model(entries: Seq<(String, UnresolvedValue)>) -> Seq<(Seq<char>, ValueModel)> {
    Seq::new(entries.len(), |i: int| (entries[i].0@, value_model(entries[i].1)))
}

/// The encoding of a value; lists carry their length first.
pub open spec fn enc_value(v: ValueModel) -> Seq<u8>
    decreases v,
{
    match v {
        ValueModel::String(s) => seq![0u8] + enc_string_or(s),
        ValueModel::Numeric(n) => seq![1u8] + enc_str(n),
        ValueModel::Bool(b) => seq![2u8] + enc_bool(b),
        ValueModel::Array(items) => seq![3u8] + enc_u64(items.len() as u64) + enc_value_list(items),
        ValueModel::Object(entries) => seq![4u8] + enc_u64(entries.len() as u64) + enc_entry_list(entries),
        ValueModel::Null => seq![5u8],
    }
}

/// Values, one after the other.
pub open spec fn enc_value_list(vs: Seq<ValueModel>) -> Seq<u8>
    decreases vs,
{
    if vs.len() == 0 {
        Seq::empty()
    } else {
        proof {
            assert(decreases_to!(vs => vs.subrange(0, vs.len() - 1)));
        }
        enc_value_list(vs.drop_last()) + enc_value(vs.last())
    }
}

/// Named values, one after the other, each name before its value.
pub open spec fn enc_entry_list(es: Seq<(Seq<char>, ValueModel)>) -> Seq<u8>
    decreases es,
{
    if es.len() == 0 {
        Seq::empty()
    } else {
        proof {
            assert(decreases_to!(es => es.subrange(0, es.len() - 1)));
            assert(decreases_to!(es => es[es.len() - 1]));
        }
        enc_entry_list(es.drop_last()) + enc_str(es.last().0) + enc_value(es.last().1)
    }
}

/// The encoding of named values: their number, then each.
pub open spec fn enc_entries(es: Seq<(Seq<char>, ValueModel)>) -> Seq<u8> {
    enc_u64(es.len() as u64) + enc_entry_list(es)
}

fn push_string_or(out: &mut Vec<u8>, s: &StringOr)
    ensures
        final(out)@ == old(out)@ + enc_string_or(string_or_model(*s)),
{
    let ghost start = out@;
    match s {
        StringOr::EnvVar(v) => {
            out.push(0u8);
            push_str(out, v.as_str());
        },
        StringOr::Value(v) => {
            out.push(1u8);
            push_str(out, v.as_str());
        },
        StringOr::JinjaExpression(v) => {
            out.push(2u8);
            push_str(out, v.as_str());
        },
    }
    assert(out@ =~= start + enc_string_or(string_or_model(*s)));
}

fn push_value_list(out: &mut Vec<u8>, vs: &Vec<UnresolvedValue>, Ghost(whole): Ghost<UnresolvedValue>, Ghost(ms): Ghost<Seq<ValueModel>>)
    requires
        decreases_to!(whole => vs@),
        ms.len() == vs@.len(),
        forall|i: int| 0 <= i < vs@.len() ==> ms[i] == value_model(#[trigger] vs@[i]),
    ensures
        final(out)@ == old(out)@ + enc_u64(vs@.len() as u64) + enc_value_list(ms),
    decreases whole, 0nat,
{
    push_u64(out, vs.len() as u64);
    let ghost start = out@;
    let mut i: usize = 0;
    while i < vs.len()
        invariant
            i <= vs@.len(),
            decreases_to!(whole => vs@),
            ms.len() == vs@.len(),
            forall|i: int| 0 <= i < vs@.len() ==> ms[i] == value_model(#[trigger] vs@[i]),
            out@ == start + enc_value_list(ms.take(i as int)),
        decreases vs@.len() - i,
    {
        proof {
            assert(decreases_to!(vs@ => vs@[i as int]));
        }
        push_value(out, &vs[i]);
        proof {
            assert(ms.take(i + 1).drop_last() =~= ms.take(i as int));
        }
        i = i + 1;
        assert(out@ =~= start + enc_value_list(ms.take(i as int)));
    }
    assert(ms.take(i as int) =~= ms);
}

fn push_entry_list(out: &mut Vec<u8>, es: &Vec<(String, UnresolvedValue)>, Ghost(whole): Ghost<UnresolvedValue>, Ghost(ms): Ghost<Seq<(Seq<char>, ValueModel)>>)
    requires
        decreases_to!(whole => es@),
        ms.len() == es@.len(),
        forall|i: int| 0 <= i < es@.len() ==> ms[i] == (#[trigger] es@[i].0@, value_model(es@[i].1)),
    ensures
        final(out)@ == old(out)@ + enc_u64(es@.len() as u64) + enc_entry_list(ms),
    decreases whole, 0nat,
{
    push_u64(out, es.len() as u64);
    let ghost start = out@;
    let mut i: usize = 0;
    while i < es.len()
        invariant
            i <= es@.len(),
            decreases_to!(whole => es@),
            ms.len() == es@.len(),
            forall|i: int| 0 <= i < es@.len() ==> ms[i] == (#[trigger] es@[i].0@, value_model(es@[i].1)),
            out@ == start + enc_entry_list(ms.take(i as int)),
        decreases es@.len() - i,
    {
        proof {
            assert(decreases_to!(es@ => es@[i as int]));
            assert(decreases_to!(es@[i as int] => es@[i as int].1));
        }
        let entry = &es[i];
        push_str(out, entry.0.as_str());
        push_value(out, &entry.1);
        proof {
            assert(ms.take(i + 1).drop_last() =~= ms.take(i as int));
            assert(ms[i as int] == (es@[i as int].0@, value_model(es@[i as int].1)));
        }
        i = i + 1;
        assert(out@ =~= start + enc_entry_list(ms.take(i as int)));
    }
    assert(ms.take(i as int) =~= ms);
}

/// Appends the encoding of a value.
pub fn push_value(out: &mut Vec<u8>, v: &UnresolvedValue)
    ensures
        final(out)@ == old(out)@ + enc_value(v@),
    decreases *v, 1nat,
{
    let ghost start = out@;
    match v {
        UnresolvedValue::String(s) => {
            out.push(0u8);
            push_string_or(out, s);
        },
        UnresolvedValue::Numeric(n) => {
            out.push(1u8);
            push_str(out, n.as_str());
        },
        UnresolvedValue::Bool(b) => {
            out.push(2u8);
            push_bool(out, *b);
        },
        UnresolvedValue::Array(items) => {
            proof {
                assert(decreases_to!(*v => *items));
                assert(decreases_to!(*items => items@));
            }
            out.push(3u8);
            push_value_list(out, items, Ghost(*v), Ghost(v@->Array_0));
        },
        UnresolvedValue::Object(entries) => {
            proof {
                assert(decreases_to!(*v => *entries));
                assert(decreases_to!(*entries => entries@));
            }
            out.push(4u8);
            push_entry_list(out, entries, Ghost(*v), Ghost(v@->Object_0));
        },
        UnresolvedValue::Null => {
            out.push(5u8);
        },
    }
    assert(out@ =~= start + enc_value(v@));
}

/// Appends the encoding of named values.
pub fn push_entries(out: &mut Vec<u8>, es: &Vec<(String, UnresolvedValue)>)
    ensures
        final(out)@ == old(out)@ + enc_entries(entries_model(es@)),
{
    let ghost ms = entries_model(es@);
    push_u64(out, es.len() as u64);
    let ghost start = out@;
    let mut i: usize = 0;
    while i < es.len()
        invariant
            i <= es@.len(),
            ms == entries_model(es@),
            out@ == start + enc_entry_list(ms.take(i as int)),
        decreases es@.len() - i,
    {
        let entry = &es[i];
        push_str(out, entry.0.as_str());
        push_value(out, &entry.1);
        proof {
            assert(ms.take(i + 1).drop_last() =~= ms.take(i as int));
        }
        i = i + 1;
        assert(out@ =~= start + enc_entry_list(ms.take(i as int)));
    }
    assert(ms.take(i as int) =~= ms);
}

} // verus!
