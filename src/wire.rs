//! The wire form of the configurations: a list of named fields, as the JSON
//! object of a request body lists its members. An optional setting that is
//! absent has no entry at all; a present one has an entry holding its value.
//! Each configuration is read back from such a list by looking up its names,
//! the first entry of a name counting.

use vstd::prelude::*;
use vstd::string::*;
use crate::audio::{Audio, ResponseFormat};
use crate::chat::{Chat, Function, FunctionCall, Message};
use crate::decimal::Decimal;
use crate::embeddings::{Embedding, InputType};
use crate::files::Files;
use crate::fine_tunes::FineTune;
use crate::image::Image;
use crate::moderations::Moderation;
use crate::text::same_text;

verus! {

/// The value of one field of a request body.
#[derive(Debug)]
pub enum Field {
    Text(String),
    Bool(bool),
    Int(i64),
    UInt(u64),
    Number(Decimal),
    Numbers(Vec<Decimal>),
    Messages(Vec<Message>),
    Functions(Vec<Function>),
    /// Token identifiers with a bias each, a JSON object of numbers.
    Bias(Vec<(String, Decimal)>),
    Input(InputType),
    AudioFormat(ResponseFormat),
    Call(FunctionCall),
}

/// One named field of a request body.
pub type Entry = (String, Field);

/// The entries with their names as character sequences.
pub open spec fn entries_view(es: Seq<Entry>) -> Seq<(Seq<char>, Field)> {
    es.map_values(|e: Entry| (e.0@, e.1))
}

/// The value of the first entry named `k`, if any.
pub open spec fn lookup(es: Seq<(Seq<char>, Field)>, k: Seq<char>) -> Option<Field>
    decreases es.len(),
{
    if es.len() == 0 {
        None
    } else if es[0].0 == k {
        Some(es[0].1)
    } else {
        lookup(es.drop_first(), k)
    }
}

/// An entry where the value is present, none where it is absent.
pub open spec fn optional_entry(k: Seq<char>, v: Option<Field>) -> Seq<(Seq<char>, Field)> {
    match v {
        Some(f) => seq![(k, f)],
        None => Seq::empty(),
    }
}

pub proof fn lemma_lookup_concat(a: Seq<(Seq<char>, Field)>, b: Seq<(Seq<char>, Field)>, k: Seq<char>)
    ensures
        lookup(a + b, k) == (match lookup(a, k) {
            Some(v) => Some(v),
            None => lookup(b, k),
        }),
    decreases a.len(),
{
    if a.len() == 0 {
        assert(a + b =~= b);
    } else {
        assert((a + b)[0] == a[0]);
        assert((a + b).drop_first() =~= a.drop_first() + b);
        lemma_lookup_concat(a.drop_first(), b, k);
    }
}

pub proof fn lemma_lookup_optional(k: Seq<char>, v: Option<Field>, q: Seq<char>)
    ensures
        lookup(optional_entry(k, v), q) == (if k == q { v } else { None }),
{
    if v is Some {
        let s = optional_entry(k, v);
        assert(s.drop_first() =~= Seq::<(Seq<char>, Field)>::empty());
        assert(lookup(s.drop_first(), q) is None);
    }
}

/// The names in `keys` as character sequences.
pub open spec fn key_views(keys: Seq<&str>) -> Seq<Seq<char>> {
    keys.map_values(|k: &str| k@)
}

/// Whether the names in `keys` are pairwise different.
pub open spec fn distinct_keys(keys: Seq<&str>) -> bool {
    forall|i: int, j: int| 0 <= i < j < keys.len() ==> (#[trigger] keys[i])@ != (#[trigger] keys[j])@
}

/// The value under each of `keys` in `entries`, the first entry of a name
/// counting.
pub fn take_slots(entries: Vec<Entry>, keys: &Vec<&'static str>) -> (r: Vec<Option<Field>>)
    requires
        distinct_keys(keys@),
    ensures
        r@.len() == keys@.len(),
        forall|j: int| 0 <= j < keys@.len() ==> #[trigger] r@[j] == lookup(entries_view(entries@), keys@[j]@),
{
    let ghost all = entries_view(entries@);
    let mut slots: Vec<Option<Field>> = Vec::new();
    let mut j: usize = 0;
    while j < keys.len()
        invariant
            j <= keys@.len(),
            slots@.len() == j,
            forall|i: int| 0 <= i < j ==> #[trigger] slots@[i] is None,
        decreases keys@.len() - j,
    {
        slots.push(None);
        j = j + 1;
    }
    let mut rest = entries;
    let ghost total = all.len();
    assert(all.subrange(total as int, total as int) =~= Seq::<(Seq<char>, Field)>::empty());
    while rest.len() > 0
        invariant
            rest@.len() <= total,
            total == all.len(),
            all == entries_view(entries@),
            entries_view(rest@) == all.subrange(0, rest@.len() as int),
            slots@.len() == keys@.len(),
            distinct_keys(keys@),
            forall|i: int| 0 <= i < keys@.len() ==> #[trigger] slots@[i] == lookup(
                all.subrange(rest@.len() as int, total as int),
                keys@[i]@,
            ),
        decreases rest@.len(),
    {
        let ghost n = rest@.len();
        let ghost old_rest = rest@;
        let entry = rest.pop().unwrap();
        assert(entries_view(rest@) =~= all.subrange(0, n - 1));
        assert(all[n - 1] == (entry.0@, entry.1)) by {
            assert(old_rest == rest@.push(entry));
            assert(entries_view(old_rest)[n - 1] == all.subrange(0, n as int)[n - 1]);
        }
        let ghost suffix = all.subrange(n - 1, total as int);
        assert(suffix[0] == all[n - 1]);
        assert(suffix.drop_first() =~= all.subrange(n as int, total as int));
        let (name, value) = entry;
        let mut i: usize = 0;
        let mut found = false;
        while !found && i < keys.len()
            invariant
                i <= keys@.len(),
                found ==> i < keys@.len() && keys@[i as int]@ == name@,
                forall|m: int| 0 <= m < i ==> (#[trigger] keys@[m])@ != name@,
            decreases keys@.len() - i + (if found { 0int } else { 1int }),
        {
            if same_text(name.as_str(), keys[i]) {
                found = true;
            } else {
                i = i + 1;
            }
        }
        if found {
            slots.set(i, Some(value));
            assert forall|m: int| 0 <= m < keys@.len() implies #[trigger] slots@[m] == lookup(
                suffix,
                keys@[m]@,
            ) by {
                if m != i {
                    assert(keys@[m]@ != keys@[i as int]@);
                }
            }
        } else {
            assert forall|m: int| 0 <= m < keys@.len() implies #[trigger] slots@[m] == lookup(
                suffix,
                keys@[m]@,
            ) by {
                assert(keys@[m]@ != name@);
            }
        }
    }
    assert(all.subrange(0, total as int) =~= all);
    slots
}

/// The entries for settings named `ks` with values `vs`, in order, without
/// the absent ones.
pub open spec fn fields_to_entries(ks: Seq<Seq<char>>, vs: Seq<Option<Field>>) -> Seq<(Seq<char>, Field)>
    decreases ks.len(),
{
    if ks.len() == 0 || vs.len() == 0 {
        Seq::empty()
    } else {
        fields_to_entries(ks.drop_last(), vs.drop_last()) + optional_entry(ks.last(), vs.last())
    }
}

/// Whether the names in `ks` are pairwise different.
pub open spec fn distinct_names(ks: Seq<Seq<char>>) -> bool {
    forall|i: int, j: int| 0 <= i < j < ks.len() ==> #[trigger] ks[i] != #[trigger] ks[j]
}

proof fn lemma_lookup_absent(ks: Seq<Seq<char>>, vs: Seq<Option<Field>>, q: Seq<char>)
    requires
        ks.len() == vs.len(),
        forall|i: int| 0 <= i < ks.len() ==> #[trigger] ks[i] != q,
    ensures
        lookup(fields_to_entries(ks, vs), q) is None,
    decreases ks.len(),
{
    if ks.len() > 0 {
        let n = ks.len() - 1;
        assert forall|i: int| 0 <= i < ks.drop_last().len() implies #[trigger] ks.drop_last()[i] != q by {
            assert(ks.drop_last()[i] == ks[i]);
        }
        lemma_lookup_absent(ks.drop_last(), vs.drop_last(), q);
        lemma_lookup_concat(fields_to_entries(ks.drop_last(), vs.drop_last()), optional_entry(ks.last(), vs.last()), q);
        lemma_lookup_optional(ks.last(), vs.last(), q);
        assert(ks[n] != q);
    }
}

/// Looking a setting up in the entries of distinctly named settings gives
/// its value, and nothing where the setting is absent.
pub proof fn lemma_lookup_fields(ks: Seq<Seq<char>>, vs: Seq<Option<Field>>, j: int)
    requires
        ks.len() == vs.len(),
        distinct_names(ks),
        0 <= j < ks.len(),
    ensures
        lookup(fields_to_entries(ks, vs), ks[j]) == vs[j],
    decreases ks.len(),
{
    let n = ks.len() - 1;
    let front = fields_to_entries(ks.drop_last(), vs.drop_last());
    lemma_lookup_concat(front, optional_entry(ks.last(), vs.last()), ks[j]);
    lemma_lookup_optional(ks.last(), vs.last(), ks[j]);
    if j < n {
        assert(ks.drop_last()[j] == ks[j]);
        assert(vs.drop_last()[j] == vs[j]);
        assert(distinct_names(ks.drop_last())) by {
            assert forall|a: int, b: int| 0 <= a < b < ks.drop_last().len() implies
                #[trigger] ks.drop_last()[a] != #[trigger] ks.drop_last()[b] by {
                assert(ks.drop_last()[a] == ks[a] && ks.drop_last()[b] == ks[b]);
            }
        }
        lemma_lookup_fields(ks.drop_last(), vs.drop_last(), j);
        assert(ks[n] != ks[j]);
    } else {
        assert forall|i: int| 0 <= i < ks.drop_last().len() implies #[trigger] ks.drop_last()[i] != ks[j] by {
            assert(ks.drop_last()[i] == ks[i]);
        }
        lemma_lookup_absent(ks.drop_last(), vs.drop_last(), ks[j]);
    }
}

fn push_entry(es: &mut Vec<Entry>, name: &str, value: Field)
    ensures
        entries_view(final(es)@) == entries_view(old(es)@).push((name@, value)),
{
    let ghost before = es@;
    es.push((String::from_str(name), value));
    assert(entries_view(es@) =~= entries_view(before).push((name@, value)));
}

proof fn lemma_fields_step(ks: Seq<Seq<char>>, vs: Seq<Option<Field>>, i: int)
    requires
        0 <= i < ks.len(),
        ks.len() == vs.len(),
    ensures
        fields_to_entries(ks.subrange(0, i + 1), vs.subrange(0, i + 1)) == fields_to_entries(
            ks.subrange(0, i),
            vs.subrange(0, i),
        ) + optional_entry(ks[i], vs[i]),
{
    assert(ks.subrange(0, i + 1).drop_last() =~= ks.subrange(0, i));
    assert(vs.subrange(0, i + 1).drop_last() =~= vs.subrange(0, i));
}

/// The entries for settings named `keys` with values `values`, in order,
/// without the absent ones.
fn entries_from(keys: &Vec<&'static str>, values: Vec<Option<Field>>) -> (r: Vec<Entry>)
    requires
        keys@.len() == values@.len(),
    ensures
        entries_view(r@) == fields_to_entries(key_views(keys@), values@),
{
    let ghost ks = key_views(keys@);
    let ghost vs = values@;
    let n = keys.len();
    let mut rest = values;
    let mut es: Vec<Entry> = Vec::new();
    let mut i: usize = 0;
    assert(entries_view(es@) =~= fields_to_entries(ks.subrange(0, 0), vs.subrange(0, 0)));
    assert(rest@ =~= vs.subrange(0, n as int));
    while i < n
        invariant
            n == keys@.len(),
            n == vs.len(),
            ks == key_views(keys@),
            i <= n,
            rest@ == vs.subrange(i as int, n as int),
            entries_view(es@) == fields_to_entries(ks.subrange(0, i as int), vs.subrange(0, i as int)),
        decreases n - i,
    {
        proof {
            lemma_fields_step(ks, vs, i as int);
        }
        let v = rest.remove(0);
        assert(v == vs[i as int]);
        assert(rest@ =~= vs.subrange(i + 1, n as int));
        match v {
            Some(f) => {
                push_entry(&mut es, keys[i], f);
                assert(entries_view(es@) =~= fields_to_entries(ks.subrange(0, i as int), vs.subrange(0, i as int)) + optional_entry(ks[i as int], vs[i as int]));
            },
            None => {
                assert(optional_entry(ks[i as int], vs[i as int]) =~= Seq::<(Seq<char>, Field)>::empty());
                assert(entries_view(es@) =~= fields_to_entries(ks.subrange(0, i as int), vs.subrange(0, i as int)) + optional_entry(ks[i as int], vs[i as int]));
            },
        }
        i = i + 1;
    }
    assert(ks.subrange(0, n as int) =~= ks);
    assert(vs.subrange(0, n as int) =~= vs);
    es
}

/// The names of the settings of a chat configuration, in order.
pub open spec fn chat_keys() -> Seq<Seq<char>> {
    seq!["model"@, "messages"@, "functions"@, "function_call"@, "temperature"@, "top_p"@, "n"@, "stream"@, "stop"@, "max_tokens"@, "presence_penalty"@, "frequency_penalty"@, "logit_bias"@, "user"@]
}

/// The values of the settings of a chat configuration, in the order of their names;
/// `None` for an absent optional setting.
pub open spec fn chat_values(c: Chat) -> Seq<Option<Field>> {
    seq![
        Some(Field::Text(c.model)),
        Some(Field::Messages(c.messages)),
        match c.functions { Some(v) => Some(Field::Functions(v)), None => None },
        match c.function_call { Some(v) => Some(Field::Text(v)), None => None },
        match c.temperature { Some(v) => Some(Field::Number(v)), None => None },
        match c.top_p { Some(v) => Some(Field::Number(v)), None => None },
        match c.n { Some(v) => Some(Field::Int(v)), None => None },
        match c.stream { Some(v) => Some(Field::Bool(v)), None => None },
        match c.stop { Some(v) => Some(Field::Text(v)), None => None },
        match c.max_tokens { Some(v) => Some(Field::UInt(v)), None => None },
        match c.presence_penalty { Some(v) => Some(Field::Number(v)), None => None },
        match c.frequency_penalty { Some(v) => Some(Field::Number(v)), None => None },
        match c.logit_bias { Some(v) => Some(Field::Bias(v)), None => None },
        match c.user { Some(v) => Some(Field::Text(v)), None => None },
    ]
}

/// The wire form of a chat configuration.
pub open spec fn chat_entries(c: Chat) -> Seq<(Seq<char>, Field)> {
    fields_to_entries(chat_keys(), chat_values(c))
}

/// A chat configuration read back from entries: each setting is the first
/// entry of its name; a required setting must be there, and every setting
/// found must hold a value of its kind.
pub open spec fn chat_of_entries(es: Seq<(Seq<char>, Field)>) -> Option<Chat> {
    let f0 = lookup(es, "model"@);
    let f1 = lookup(es, "messages"@);
    let f2 = lookup(es, "functions"@);
    let f3 = lookup(es, "function_call"@);
    let f4 = lookup(es, "temperature"@);
    let f5 = lookup(es, "top_p"@);
    let f6 = lookup(es, "n"@);
    let f7 = lookup(es, "stream"@);
    let f8 = lookup(es, "stop"@);
    let f9 = lookup(es, "max_tokens"@);
    let f10 = lookup(es, "presence_penalty"@);
    let f11 = lookup(es, "frequency_penalty"@);
    let f12 = lookup(es, "logit_bias"@);
    let f13 = lookup(es, "user"@);
    if (f0 is Some && f0->0 is Text)
        && (f1 is Some && f1->0 is Messages)
        && (f2 is None || f2->0 is Functions)
        && (f3 is None || f3->0 is Text)
        && (f4 is None || f4->0 is Number)
        && (f5 is None || f5->0 is Number)
        && (f6 is None || f6->0 is Int)
        && (f7 is None || f7->0 is Bool)
        && (f8 is None || f8->0 is Text)
        && (f9 is None || f9->0 is UInt)
        && (f10 is None || f10->0 is Number)
        && (f11 is None || f11->0 is Number)
        && (f12 is None || f12->0 is Bias)
        && (f13 is None || f13->0 is Text) {
        Some(Chat {
            model: f0->0->Text_0,
            messages: f1->0->Messages_0,
            functions: if f2 is Some { Some(f2->0->Functions_0) } else { None },
            function_call: if f3 is Some { Some(f3->0->Text_0) } else { None },
            temperature: if f4 is Some { Some(f4->0->Number_0) } else { None },
            top_p: if f5 is Some { Some(f5->0->Number_0) } else { None },
            n: if f6 is Some { Some(f6->0->Int_0) } else { None },
            stream: if f7 is Some { Some(f7->0->Bool_0) } else { None },
            stop: if f8 is Some { Some(f8->0->Text_0) } else { None },
            max_tokens: if f9 is Some { Some(f9->0->UInt_0) } else { None },
            presence_penalty: if f10 is Some { Some(f10->0->Number_0) } else { None },
            frequency_penalty: if f11 is Some { Some(f11->0->Number_0) } else { None },
            logit_bias: if f12 is Some { Some(f12->0->Bias_0) } else { None },
            user: if f13 is Some { Some(f13->0->Text_0) } else { None },
        })
    } else {
        None
    }
}

proof fn lemma_chat_keys_distinct()
    ensures
        distinct_names(chat_keys()),
{
    reveal_strlit("frequency_penalty");
    reveal_strlit("function_call");
    reveal_strlit("functions");
    reveal_strlit("logit_bias");
    reveal_strlit("max_tokens");
    reveal_strlit("messages");
    reveal_strlit("model");
    reveal_strlit("n");
    reveal_strlit("presence_penalty");
    reveal_strlit("stop");
    reveal_strlit("stream");
    reveal_strlit("temperature");
    reveal_strlit("top_p");
    reveal_strlit("user");
    let ks = chat_keys();
    assert forall|i: int, j: int| 0 <= i < j < ks.len() implies #[trigger] ks[i] != #[trigger] ks[j] by {
        if i == 0 && j == 1 {
            assert(ks[i].len() != ks[j].len());
        } else if i == 0 && j == 2 {
            assert(ks[i].len() != ks[j].len());
        } else if i == 0 && j == 3 {
            assert(ks[i].len() != ks[j].len());
        } else if i == 0 && j == 4 {
            assert(ks[i].len() != ks[j].len());
        } else if i == 0 && j == 5 {
            assert(ks[i][0] != ks[j][0]);
        } else if i == 0 && j == 6 {
            assert(ks[i].len() != ks[j].len());
        } else if i == 0 && j == 7 {
            assert(ks[i].len() != ks[j].len());
        } else if i == 0 && j == 8 {
            assert(ks[i].len() != ks[j].len());
        } else if i == 0 && j == 9 {
            assert(ks[i].len() != ks[j].len());
        } else if i == 0 && j == 10 {
            assert(ks[i].len() != ks[j].len());
        } else if i == 0 && j == 11 {
            assert(ks[i].len() != ks[j].len());
        } else if i == 0 && j == 12 {
            assert(ks[i].len() != ks[j].len());
        } else if i == 0 && j == 13 {
            assert(ks[i].len() != ks[j].len());
        } else if i == 1 && j == 2 {
            assert(ks[i].len() != ks[j].len());
        } else if i == 1 && j == 3 {
            assert(ks[i].len() != ks[j].len());
        } else if i == 1 && j == 4 {
            assert(ks[i].len() != ks[j].len());
        } else if i == 1 && j == 5 {
            assert(ks[i].len() != ks[j].len());
        } else if i == 1 && j == 6 {
            assert(ks[i].len() != ks[j].len());
        } else if i == 1 && j == 7 {
            assert(ks[i].len() != ks[j].len());
        } else if i == 1 && j == 8 {
            assert(ks[i].len() != ks[j].len());
        } else if i == 1 && j == 9 {
            assert(ks[i].len() != ks[j].len());
        } else if i == 1 && j == 10 {
            assert(ks[i].len() != ks[j].len());
        } else if i == 1 && j == 11 {
            assert(ks[i].len() != ks[j].len());
        } else if i == 1 && j == 12 {
            assert(ks[i].len() != ks[j].len());
        } else if i == 1 && j == 13 {
            assert(ks[i].len() != ks[j].len());
        } else if i == 2 && j == 3 {
            assert(ks[i].len() != ks[j].len());
        } else if i == 2 && j == 4 {
            assert(ks[i].len() != ks[j].len());
        } else if i == 2 && j == 5 {
            assert(ks[i].len() != ks[j].len());
        } else if i == 2 && j == 6 {
            assert(ks[i].len() != ks[j].len());
        } else if i == 2 && j == 7 {
            assert(ks[i].len() != ks[j].len());
        } else if i == 2 && j == 8 {
            assert(ks[i].len() != ks[j].len());
        } else if i == 2 && j == 9 {
            assert(ks[i].len() != ks[j].len());
        } else if i == 2 && j == 10 {
            assert(ks[i].len() != ks[j].len());
        } else if i == 2 && j == 11 {
            assert(ks[i].len() != ks[j].len());
        } else if i == 2 && j == 12 {
            assert(ks[i].len() != ks[j].len());
        } else if i == 2 && j == 13 {
            assert(ks[i].len() != ks[j].len());
        } else if i == 3 && j == 4 {
            assert(ks[i].len() != ks[j].len());
        } else if i == 3 && j == 5 {
            assert(ks[i].len() != ks[j].len());
        } else if i == 3 && j == 6 {
            assert(ks[i].len() != ks[j].len());
        } else if i == 3 && j == 7 {
            assert(ks[i].len() != ks[j].len());
        } else if i == 3 && j == 8 {
            assert(ks[i].len() != ks[j].len());
        } else if i == 3 && j == 9 {
            assert(ks[i].len() != ks[j].len());
        } else if i == 3 && j == 10 {
            assert(ks[i].len() != ks[j].len());
        } else if i == 3 && j == 11 {
            assert(ks[i].len() != ks[j].len());
        } else if i == 3 && j == 12 {
            assert(ks[i].len() != ks[j].len());
        } else if i == 3 && j == 13 {
            assert(ks[i].len() != ks[j].len());
        } else if i == 4 && j == 5 {
            assert(ks[i].len() != ks[j].len());
        } else if i == 4 && j == 6 {
            assert(ks[i].len() != ks[j].len());
        } else if i == 4 && j == 7 {
            assert(ks[i].len() != ks[j].len());
        } else if i == 4 && j == 8 {
            assert(ks[i].len() != ks[j].len());
        } else if i == 4 && j == 9 {
            assert(ks[i].len() != ks[j].len());
        } else if i == 4 && j == 10 {
            assert(ks[i].len() != ks[j].len());
        } else if i == 4 && j == 11 {
            assert(ks[i].len() != ks[j].len());
        } else if i == 4 && j == 12 {
            assert(ks[i].len() != ks[j].len());
        } else if i == 4 && j == 13 {
            assert(ks[i].len() != ks[j].len());
        } else if i == 5 && j == 6 {
            assert(ks[i].len() != ks[j].len());
        } else if i == 5 && j == 7 {
            assert(ks[i].len() != ks[j].len());
        } else if i == 5 && j == 8 {
            assert(ks[i].len() != ks[j].len());
        } else if i == 5 && j == 9 {
            assert(ks[i].len() != ks[j].len());
        } else if i == 5 && j == 10 {
            assert(ks[i].len() != ks[j].len());
        } else if i == 5 && j == 11 {
            assert(ks[i].len() != ks[j].len());
        } else if i == 5 && j == 12 {
            assert(ks[i].len() != ks[j].len());
        } else if i == 5 && j == 13 {
            assert(ks[i].len() != ks[j].len());
        } else if i == 6 && j == 7 {
            assert(ks[i].len() != ks[j].len());
        } else if i == 6 && j == 8 {
            assert(ks[i].len() != ks[j].len());
        } else if i == 6 && j == 9 {
            assert(ks[i].len() != ks[j].len());
        } else if i == 6 && j == 10 {
            assert(ks[i].len() != ks[j].len());
        } else if i == 6 && j == 11 {
            assert(ks[i].len() != ks[j].len());
        } else if i == 6 && j == 12 {
            assert(ks[i].len() != ks[j].len());
        } else if i == 6 && j == 13 {
            assert(ks[i].len() != ks[j].len());
        } else if i == 7 && j == 8 {
            assert(ks[i].len() != ks[j].len());
        } else if i == 7 && j == 9 {
            assert(ks[i].len() != ks[j].len());
        } else if i == 7 && j == 10 {
            assert(ks[i].len() != ks[j].len());
        } else if i == 7 && j == 11 {
            assert(ks[i].len() != ks[j].len());
        } else if i == 7 && j == 12 {
            assert(ks[i].len() != ks[j].len());
        } else if i == 7 && j == 13 {
            assert(ks[i].len() != ks[j].len());
        } else if i == 8 && j == 9 {
            assert(ks[i].len() != ks[j].len());
        } else if i == 8 && j == 10 {
            assert(ks[i].len() != ks[j].len());
        } else if i == 8 && j == 11 {
            assert(ks[i].len() != ks[j].len());
        } else if i == 8 && j == 12 {
            assert(ks[i].len() != ks[j].len());
        } else if i == 8 && j == 13 {
            assert(ks[i][0] != ks[j][0]);
        } else if i == 9 && j == 10 {
            assert(ks[i].len() != ks[j].len());
        } else if i == 9 && j == 11 {
            assert(ks[i].len() != ks[j].len());
        } else if i == 9 && j == 12 {
            assert(ks[i][0] != ks[j][0]);
        } else if i == 9 && j == 13 {
            assert(ks[i].len() != ks[j].len());
        } else if i == 10 && j == 11 {
            assert(ks[i].len() != ks[j].len());
        } else if i == 10 && j == 12 {
            assert(ks[i].len() != ks[j].len());
        } else if i == 10 && j == 13 {
            assert(ks[i].len() != ks[j].len());
        } else if i == 11 && j == 12 {
            assert(ks[i].len() != ks[j].len());
        } else if i == 11 && j == 13 {
            assert(ks[i].len() != ks[j].len());
        } else if i == 12 && j == 13 {
            assert(ks[i].len() != ks[j].len());
        }
    }
}

/// Reading back the wire form of a chat configuration gives it back, and an optional
/// setting has an entry exactly when it is present.
pub proof fn lemma_chat_round_trip(c: Chat)
    ensures
        chat_of_entries(chat_entries(c)) == Some(c),
        lookup(chat_entries(c), "model"@) is Some,
        lookup(chat_entries(c), "messages"@) is Some,
        lookup(chat_entries(c), "functions"@) is None <==> c.functions is None,
        lookup(chat_entries(c), "function_call"@) is None <==> c.function_call is None,
        lookup(chat_entries(c), "temperature"@) is None <==> c.temperature is None,
        lookup(chat_entries(c), "top_p"@) is None <==> c.top_p is None,
        lookup(chat_entries(c), "n"@) is None <==> c.n is None,
        lookup(chat_entries(c), "stream"@) is None <==> c.stream is None,
        lookup(chat_entries(c), "stop"@) is None <==> c.stop is None,
        lookup(chat_entries(c), "max_tokens"@) is None <==> c.max_tokens is None,
        lookup(chat_entries(c), "presence_penalty"@) is None <==> c.presence_penalty is None,
        lookup(chat_entries(c), "frequency_penalty"@) is None <==> c.frequency_penalty is None,
        lookup(chat_entries(c), "logit_bias"@) is None <==> c.logit_bias is None,
        lookup(chat_entries(c), "user"@) is None <==> c.user is None,
{
    lemma_chat_keys_distinct();
    lemma_lookup_fields(chat_keys(), chat_values(c), 0);
    lemma_lookup_fields(chat_keys(), chat_values(c), 1);
    lemma_lookup_fields(chat_keys(), chat_values(c), 2);
    lemma_lookup_fields(chat_keys(), chat_values(c), 3);
    lemma_lookup_fields(chat_keys(), chat_values(c), 4);
    lemma_lookup_fields(chat_keys(), chat_values(c), 5);
    lemma_lookup_fields(chat_keys(), chat_values(c), 6);
    lemma_lookup_fields(chat_keys(), chat_values(c), 7);
    lemma_lookup_fields(chat_keys(), chat_values(c), 8);
    lemma_lookup_fields(chat_keys(), chat_values(c), 9);
    lemma_lookup_fields(chat_keys(), chat_values(c), 10);
    lemma_lookup_fields(chat_keys(), chat_values(c), 11);
    lemma_lookup_fields(chat_keys(), chat_values(c), 12);
    lemma_lookup_fields(chat_keys(), chat_values(c), 13);
}

fn chat_key_list() -> (r: Vec<&'static str>)
    ensures
        r@.len() == 14,
        forall|j: int| 0 <= j < 14 ==> (#[trigger] r@[j])@ == chat_keys()[j],
        distinct_keys(r@),
{
    proof {
        lemma_chat_keys_distinct();
        reveal_strlit("frequency_penalty");
        reveal_strlit("function_call");
        reveal_strlit("functions");
        reveal_strlit("logit_bias");
        reveal_strlit("max_tokens");
        reveal_strlit("messages");
        reveal_strlit("model");
        reveal_strlit("n");
        reveal_strlit("presence_penalty");
        reveal_strlit("stop");
        reveal_strlit("stream");
        reveal_strlit("temperature");
        reveal_strlit("top_p");
        reveal_strlit("user");
    }
    let mut keys: Vec<&'static str> = Vec::new();
    keys.push("model");
    keys.push("messages");
    keys.push("functions");
    keys.push("function_call");
    keys.push("temperature");
    keys.push("top_p");
    keys.push("n");
    keys.push("stream");
    keys.push("stop");
    keys.push("max_tokens");
    keys.push("presence_penalty");
    keys.push("frequency_penalty");
    keys.push("logit_bias");
    keys.push("user");
    assert(forall|j: int| 0 <= j < 14 ==> (#[trigger] keys@[j])@ == chat_keys()[j]);
    assert(distinct_keys(keys@)) by {
        assert forall|i: int, j: int| 0 <= i < j < keys@.len() implies (#[trigger] keys@[i])@ != (#[trigger] keys@[j])@ by {
            assert(keys@[i]@ == chat_keys()[i] && keys@[j]@ == chat_keys()[j]);
        }
    }
    keys
}

impl Chat {
    /// The wire form of this value: its settings in order, without the
    /// absent optional ones.
    pub fn into_entries(self) -> (r: Vec<Entry>)
        ensures
            entries_view(r@) == chat_entries(self),
    {
        let ghost vs = chat_values(self);
        let keys = chat_key_list();
        let Chat { model, messages, functions, function_call, temperature, top_p, n, stream, stop, max_tokens, presence_penalty, frequency_penalty, logit_bias, user } = self;
        let mut values: Vec<Option<Field>> = Vec::new();
        values.push(Some(Field::Text(model)));
        values.push(Some(Field::Messages(messages)));
        values.push(
            match functions {
                Some(v) => Some(Field::Functions(v)),
                None => None,
            },
        );
        values.push(
            match function_call {
                Some(v) => Some(Field::Text(v)),
                None => None,
            },
        );
        values.push(
            match temperature {
                Some(v) => Some(Field::Number(v)),
                None => None,
            },
        );
        values.push(
            match top_p {
                Some(v) => Some(Field::Number(v)),
                None => None,
            },
        );
        values.push(
            match n {
                Some(v) => Some(Field::Int(v)),
                None => None,
            },
        );
        values.push(
            match stream {
                Some(v) => Some(Field::Bool(v)),
                None => None,
            },
        );
        values.push(
            match stop {
                Some(v) => Some(Field::Text(v)),
                None => None,
            },
        );
        values.push(
            match max_tokens {
                Some(v) => Some(Field::UInt(v)),
                None => None,
            },
        );
        values.push(
            match presence_penalty {
                Some(v) => Some(Field::Number(v)),
                None => None,
            },
        );
        values.push(
            match frequency_penalty {
                Some(v) => Some(Field::Number(v)),
                None => None,
            },
        );
        values.push(
            match logit_bias {
                Some(v) => Some(Field::Bias(v)),
                None => None,
            },
        );
        values.push(
            match user {
                Some(v) => Some(Field::Text(v)),
                None => None,
            },
        );
        assert(values@ =~= vs);
        assert(key_views(keys@) =~= chat_keys()) by {
            assert forall|j: int| 0 <= j < 14 implies #[trigger] key_views(keys@)[j] == chat_keys()[j] by {
                assert(keys@[j]@ == chat_keys()[j]);
            }
        }
        entries_from(&keys, values)
    }

    /// The configuration that `entries` describe, if they describe one.
    pub fn from_entries(entries: Vec<Entry>) -> (r: Option<Chat>)
        ensures
            r == chat_of_entries(entries_view(entries@)),
    {
        let ghost view = entries_view(entries@);
        let keys = chat_key_list();
        proof {
            reveal_strlit("frequency_penalty");
            reveal_strlit("function_call");
            reveal_strlit("functions");
            reveal_strlit("logit_bias");
            reveal_strlit("max_tokens");
            reveal_strlit("messages");
            reveal_strlit("model");
            reveal_strlit("n");
            reveal_strlit("presence_penalty");
            reveal_strlit("stop");
            reveal_strlit("stream");
            reveal_strlit("temperature");
            reveal_strlit("top_p");
            reveal_strlit("user");
        }
        let mut slots = take_slots(entries, &keys);
        let ghost all = slots@;
        let s13 = slots.pop().unwrap();
        assert(s13 == all[13]);
        let s12 = slots.pop().unwrap();
        assert(s12 == all[12]);
        let s11 = slots.pop().unwrap();
        assert(s11 == all[11]);
        let s10 = slots.pop().unwrap();
        assert(s10 == all[10]);
        let s9 = slots.pop().unwrap();
        assert(s9 == all[9]);
        let s8 = slots.pop().unwrap();
        assert(s8 == all[8]);
        let s7 = slots.pop().unwrap();
        assert(s7 == all[7]);
        let s6 = slots.pop().unwrap();
        assert(s6 == all[6]);
        let s5 = slots.pop().unwrap();
        assert(s5 == all[5]);
        let s4 = slots.pop().unwrap();
        assert(s4 == all[4]);
        let s3 = slots.pop().unwrap();
        assert(s3 == all[3]);
        let s2 = slots.pop().unwrap();
        assert(s2 == all[2]);
        let s1 = slots.pop().unwrap();
        assert(s1 == all[1]);
        let s0 = slots.pop().unwrap();
        assert(s0 == all[0]);
        assert(s0 == lookup(view, "model"@));
        assert(s1 == lookup(view, "messages"@));
        assert(s2 == lookup(view, "functions"@));
        assert(s3 == lookup(view, "function_call"@));
        assert(s4 == lookup(view, "temperature"@));
        assert(s5 == lookup(view, "top_p"@));
        assert(s6 == lookup(view, "n"@));
        assert(s7 == lookup(view, "stream"@));
        assert(s8 == lookup(view, "stop"@));
        assert(s9 == lookup(view, "max_tokens"@));
        assert(s10 == lookup(view, "presence_penalty"@));
        assert(s11 == lookup(view, "frequency_penalty"@));
        assert(s12 == lookup(view, "logit_bias"@));
        assert(s13 == lookup(view, "user"@));
        let model = match s0 {
            Some(Field::Text(v)) => v,
            _ => {
                return None;
            },
        };
        let messages = match s1 {
            Some(Field::Messages(v)) => v,
            _ => {
                return None;
            },
        };
        let functions = match s2 {
            None => None,
            Some(Field::Functions(v)) => Some(v),
            Some(_) => {
                return None;
            },
        };
        let function_call = match s3 {
            None => None,
            Some(Field::Text(v)) => Some(v),
            Some(_) => {
                return None;
            },
        };
        let temperature = match s4 {
            None => None,
            Some(Field::Number(v)) => Some(v),
            Some(_) => {
                return None;
            },
        };
        let top_p = match s5 {
            None => None,
            Some(Field::Number(v)) => Some(v),
            Some(_) => {
                return None;
            },
        };
        let n = match s6 {
            None => None,
            Some(Field::Int(v)) => Some(v),
            Some(_) => {
                return None;
            },
        };
        let stream = match s7 {
            None => None,
            Some(Field::Bool(v)) => Some(v),
            Some(_) => {
                return None;
            },
        };
        let stop = match s8 {
            None => None,
            Some(Field::Text(v)) => Some(v),
            Some(_) => {
                return None;
            },
        };
        let max_tokens = match s9 {
            None => None,
            Some(Field::UInt(v)) => Some(v),
            Some(_) => {
                return None;
            },
        };
        let presence_penalty = match s10 {
            None => None,
            Some(Field::Number(v)) => Some(v),
            Some(_) => {
                return None;
            },
        };
        let frequency_penalty = match s11 {
            None => None,
            Some(Field::Number(v)) => Some(v),
            Some(_) => {
                return None;
            },
        };
        let logit_bias = match s12 {
            None => None,
            Some(Field::Bias(v)) => Some(v),
            Some(_) => {
                return None;
            },
        };
        let user = match s13 {
            None => None,
            Some(Field::Text(v)) => Some(v),
            Some(_) => {
                return None;
            },
        };
        Some(Chat { model, messages, functions, function_call, temperature, top_p, n, stream, stop, max_tokens, presence_penalty, frequency_penalty, logit_bias, user })
    }
}

/// The names of the settings of a message, in order.
pub open spec fn message_keys() -> Seq<Seq<char>> {
    seq!["role"@, "content"@, "name"@, "function_call"@]
}

/// The values of the settings of a message, in the order of their names;
/// `None` for an absent optional setting.
pub open spec fn message_values(c: Message) -> Seq<Option<Field>> {
    seq![
        Some(Field::Text(c.role)),
        Some(Field::Text(c.content)),
        match c.name { Some(v) => Some(Field::Text(v)), None => None },
        match c.function_call { Some(v) => Some(Field::Call(v)), None => None },
    ]
}

/// The wire form of a message.
pub open spec fn message_entries(c: Message) -> Seq<(Seq<char>, Field)> {
    fields_to_entries(message_keys(), message_values(c))
}

/// A message read back from entries: each setting is the first
/// entry of its name; a required setting must be there, and every setting
/// found must hold a value of its kind.
pub open spec fn message_of_entries(es: Seq<(Seq<char>, Field)>) -> Option<Message> {
    let f0 = lookup(es, "role"@);
    let f1 = lookup(es, "content"@);
    let f2 = lookup(es, "name"@);
    let f3 = lookup(es, "function_call"@);
    if (f0 is Some && f0->0 is Text)
        && (f1 is Some && f1->0 is Text)
        && (f2 is None || f2->0 is Text)
        && (f3 is None || f3->0 is Call) {
        Some(Message {
            role: f0->0->Text_0,
            content: f1->0->Text_0,
            name: if f2 is Some { Some(f2->0->Text_0) } else { None },
            function_call: if f3 is Some { Some(f3->0->Call_0) } else { None },
        })
    } else {
        None
    }
}

proof fn lemma_message_keys_distinct()
    ensures
        distinct_names(message_keys()),
{
    reveal_strlit("content");
    reveal_strlit("function_call");
    reveal_strlit("name");
    reveal_strlit("role");
    let ks = message_keys();
    assert forall|i: int, j: int| 0 <= i < j < ks.len() implies #[trigger] ks[i] != #[trigger] ks[j] by {
        if i == 0 && j == 1 {
            assert(ks[i].len() != ks[j].len());
        } else if i == 0 && j == 2 {
            assert(ks[i][0] != ks[j][0]);
        } else if i == 0 && j == 3 {
            assert(ks[i].len() != ks[j].len());
        } else if i == 1 && j == 2 {
            assert(ks[i].len() != ks[j].len());
        } else if i == 1 && j == 3 {
            assert(ks[i].len() != ks[j].len());
        } else if i == 2 && j == 3 {
            assert(ks[i].len() != ks[j].len());
        }
    }
}

/// Reading back the wire form of a message gives it back, and an optional
/// setting has an entry exactly when it is present.
pub proof fn lemma_message_round_trip(c: Message)
    ensures
        message_of_entries(message_entries(c)) == Some(c),
        lookup(message_entries(c), "role"@) is Some,
        lookup(message_entries(c), "content"@) is Some,
        lookup(message_entries(c), "name"@) is None <==> c.name is None,
        lookup(message_entries(c), "function_call"@) is None <==> c.function_call is None,
{
    lemma_message_keys_distinct();
    lemma_lookup_fields(message_keys(), message_values(c), 0);
    lemma_lookup_fields(message_keys(), message_values(c), 1);
    lemma_lookup_fields(message_keys(), message_values(c), 2);
    lemma_lookup_fields(message_keys(), message_values(c), 3);
}

fn message_key_list() -> (r: Vec<&'static str>)
    ensures
        r@.len() == 4,
        forall|j: int| 0 <= j < 4 ==> (#[trigger] r@[j])@ == message_keys()[j],
        distinct_keys(r@),
{
    proof {
        lemma_message_keys_distinct();
        reveal_strlit("content");
        reveal_strlit("function_call");
        reveal_strlit("name");
        reveal_strlit("role");
    }
    let mut keys: Vec<&'static str> = Vec::new();
    keys.push("role");
    keys.push("content");
    keys.push("name");
    keys.push("function_call");
    assert(forall|j: int| 0 <= j < 4 ==> (#[trigger] keys@[j])@ == message_keys()[j]);
    assert(distinct_keys(keys@)) by {
        assert forall|i: int, j: int| 0 <= i < j < keys@.len() implies (#[trigger] keys@[i])@ != (#[trigger] keys@[j])@ by {
            assert(keys@[i]@ == message_keys()[i] && keys@[j]@ == message_keys()[j]);
        }
    }
    keys
}

impl Message {
    /// The wire form of this value: its settings in order, without the
    /// absent optional ones.
    pub fn into_entries(self) -> (r: Vec<Entry>)
        ensures
            entries_view(r@) == message_entries(self),
    {
        let ghost vs = message_values(self);
        let keys = message_key_list();
        let Message { role, content, name, function_call } = self;
        let mut values: Vec<Option<Field>> = Vec::new();
        values.push(Some(Field::Text(role)));
        values.push(Some(Field::Text(content)));
        values.push(
            match name {
                Some(v) => Some(Field::Text(v)),
                None => None,
            },
        );
        values.push(
            match function_call {
                Some(v) => Some(Field::Call(v)),
                None => None,
            },
        );
        assert(values@ =~= vs);
        assert(key_views(keys@) =~= message_keys()) by {
            assert forall|j: int| 0 <= j < 4 implies #[trigger] key_views(keys@)[j] == message_keys()[j] by {
                assert(keys@[j]@ == message_keys()[j]);
            }
        }
        entries_from(&keys, values)
    }

    /// The configuration that `entries` describe, if they describe one.
    pub fn from_entries(entries: Vec<Entry>) -> (r: Option<Message>)
        ensures
            r == message_of_entries(entries_view(entries@)),
    {
        let ghost view = entries_view(entries@);
        let keys = message_key_list();
        proof {
            reveal_strlit("content");
            reveal_strlit("function_call");
            reveal_strlit("name");
            reveal_strlit("role");
        }
        let mut slots = take_slots(entries, &keys);
        let ghost all = slots@;
        let s3 = slots.pop().unwrap();
        assert(s3 == all[3]);
        let s2 = slots.pop().unwrap();
        assert(s2 == all[2]);
        let s1 = slots.pop().unwrap();
        assert(s1 == all[1]);
        let s0 = slots.pop().unwrap();
        assert(s0 == all[0]);
        assert(s0 == lookup(view, "role"@));
        assert(s1 == lookup(view, "content"@));
        assert(s2 == lookup(view, "name"@));
        assert(s3 == lookup(view, "function_call"@));
        let role = match s0 {
            Some(Field::Text(v)) => v,
            _ => {
                return None;
            },
        };
        let content = match s1 {
            Some(Field::Text(v)) => v,
            _ => {
                return None;
            },
        };
        let name = match s2 {
            None => None,
            Some(Field::Text(v)) => Some(v),
            Some(_) => {
                return None;
            },
        };
        let function_call = match s3 {
            None => None,
            Some(Field::Call(v)) => Some(v),
            Some(_) => {
                return None;
            },
        };
        Some(Message { role, content, name, function_call })
    }
}

/// The names of the settings of a function description, in order.
pub open spec fn function_keys() -> Seq<Seq<char>> {
    seq!["name"@, "description"@, "parameters"@]
}

/// The values of the settings of a function description, in the order of their names;
/// `None` for an absent optional setting.
pub open spec fn function_values(c: Function) -> Seq<Option<Field>> {
    seq![
        Some(Field::Text(c.name)),
        match c.description { Some(v) => Some(Field::Text(v)), None => None },
        Some(Field::Text(c.parameters)),
    ]
}

/// The wire form of a function description.
pub open spec fn function_entries(c: Function) -> Seq<(Seq<char>, Field)> {
    fields_to_entries(function_keys(), function_values(c))
}

/// A function description read back from entries: each setting is the first
/// entry of its name; a required setting must be there, and every setting
/// found must hold a value of its kind.
pub open spec fn function_of_entries(es: Seq<(Seq<char>, Field)>) -> Option<Function> {
    let f0 = lookup(es, "name"@);
    let f1 = lookup(es, "description"@);
    let f2 = lookup(es, "parameters"@);
    if (f0 is Some && f0->0 is Text)
        && (f1 is None || f1->0 is Text)
        && (f2 is Some && f2->0 is Text) {
        Some(Function {
            name: f0->0->Text_0,
            description: if f1 is Some { Some(f1->0->Text_0) } else { None },
            parameters: f2->0->Text_0,
        })
    } else {
        None
    }
}

proof fn lemma_function_keys_distinct()
    ensures
        distinct_names(function_keys()),
{
    reveal_strlit("description");
    reveal_strlit("name");
    reveal_strlit("parameters");
    let ks = function_keys();
    assert forall|i: int, j: int| 0 <= i < j < ks.len() implies #[trigger] ks[i] != #[trigger] ks[j] by {
        if i == 0 && j == 1 {
            assert(ks[i].len() != ks[j].len());
        } else if i == 0 && j == 2 {
            assert(ks[i].len() != ks[j].len());
        } else if i == 1 && j == 2 {
            assert(ks[i].len() != ks[j].len());
        }
    }
}

/// Reading back the wire form of a function description gives it back, and an optional
/// setting has an entry exactly when it is present.
pub proof fn lemma_function_round_trip(c: Function)
    ensures
        function_of_entries(function_entries(c)) == Some(c),
        lookup(function_entries(c), "name"@) is Some,
        lookup(function_entries(c), "description"@) is None <==> c.description is None,
        lookup(function_entries(c), "parameters"@) is Some,
{
    lemma_function_keys_distinct();
    lemma_lookup_fields(function_keys(), function_values(c), 0);
    lemma_lookup_fields(function_keys(), function_values(c), 1);
    lemma_lookup_fields(function_keys(), function_values(c), 2);
}

fn function_key_list() -> (r: Vec<&'static str>)
    ensures
        r@.len() == 3,
        forall|j: int| 0 <= j < 3 ==> (#[trigger] r@[j])@ == function_keys()[j],
        distinct_keys(r@),
{
    proof {
        lemma_function_keys_distinct();
        reveal_strlit("description");
        reveal_strlit("name");
        reveal_strlit("parameters");
    }
    let mut keys: Vec<&'static str> = Vec::new();
    keys.push("name");
    keys.push("description");
    keys.push("parameters");
    assert(forall|j: int| 0 <= j < 3 ==> (#[trigger] keys@[j])@ == function_keys()[j]);
    assert(distinct_keys(keys@)) by {
        assert forall|i: int, j: int| 0 <= i < j < keys@.len() implies (#[trigger] keys@[i])@ != (#[trigger] keys@[j])@ by {
            assert(keys@[i]@ == function_keys()[i] && keys@[j]@ == function_keys()[j]);
        }
    }
    keys
}

impl Function {
    /// The wire form of this value: its settings in order, without the
    /// absent optional ones.
    pub fn into_entries(self) -> (r: Vec<Entry>)
        ensures
            entries_view(r@) == function_entries(self),
    {
        let ghost vs = function_values(self);
        let keys = function_key_list();
        let Function { name, description, parameters } = self;
        let mut values: Vec<Option<Field>> = Vec::new();
        values.push(Some(Field::Text(name)));
        values.push(
            match description {
                Some(v) => Some(Field::Text(v)),
                None => None,
            },
        );
        values.push(Some(Field::Text(parameters)));
        assert(values@ =~= vs);
        assert(key_views(keys@) =~= function_keys()) by {
            assert forall|j: int| 0 <= j < 3 implies #[trigger] key_views(keys@)[j] == function_keys()[j] by {
                assert(keys@[j]@ == function_keys()[j]);
            }
        }
        entries_from(&keys, values)
    }

    /// The configuration that `entries` describe, if they describe one.
    pub fn from_entries(entries: Vec<Entry>) -> (r: Option<Function>)
        ensures
            r == function_of_entries(entries_view(entries@)),
    {
        let ghost view = entries_view(entries@);
        let keys = function_key_list();
        proof {
            reveal_strlit("description");
            reveal_strlit("name");
            reveal_strlit("parameters");
        }
        let mut slots = take_slots(entries, &keys);
        let ghost all = slots@;
        let s2 = slots.pop().unwrap();
        assert(s2 == all[2]);
        let s1 = slots.pop().unwrap();
        assert(s1 == all[1]);
        let s0 = slots.pop().unwrap();
        assert(s0 == all[0]);
        assert(s0 == lookup(view, "name"@));
        assert(s1 == lookup(view, "description"@));
        assert(s2 == lookup(view, "parameters"@));
        let name = match s0 {
            Some(Field::Text(v)) => v,
            _ => {
                return None;
            },
        };
        let description = match s1 {
            None => None,
            Some(Field::Text(v)) => Some(v),
            Some(_) => {
                return None;
            },
        };
        let parameters = match s2 {
            Some(Field::Text(v)) => v,
            _ => {
                return None;
            },
        };
        Some(Function { name, description, parameters })
    }
}

/// The names of the settings of an image configuration, in order.
pub open spec fn image_keys() -> Seq<Seq<char>> {
    seq!["prompt"@, "n"@, "size"@, "response_format"@, "user"@, "image"@, "mask"@]
}

/// The values of the settings of an image configuration, in the order of their names;
/// `None` for an absent optional setting.
pub open spec fn image_values(c: Image) -> Seq<Option<Field>> {
    seq![
        match c.prompt { Some(v) => Some(Field::Text(v)), None => None },
        match c.n { Some(v) => Some(Field::UInt(v)), None => None },
        match c.size { Some(v) => Some(Field::Text(v)), None => None },
        match c.response_format { Some(v) => Some(Field::Text(v)), None => None },
        match c.user { Some(v) => Some(Field::Text(v)), None => None },
        match c.image { Some(v) => Some(Field::Text(v)), None => None },
        match c.mask { Some(v) => Some(Field::Text(v)), None => None },
    ]
}

/// The wire form of an image configuration.
pub open spec fn image_entries(c: Image) -> Seq<(Seq<char>, Field)> {
    fields_to_entries(image_keys(), image_values(c))
}

/// An image configuration read back from entries: each setting is the first
/// entry of its name; a required setting must be there, and every setting
/// found must hold a value of its kind.
pub open spec fn image_of_entries(es: Seq<(Seq<char>, Field)>) -> Option<Image> {
    let f0 = lookup(es, "prompt"@);
    let f1 = lookup(es, "n"@);
    let f2 = lookup(es, "size"@);
    let f3 = lookup(es, "response_format"@);
    let f4 = lookup(es, "user"@);
    let f5 = lookup(es, "image"@);
    let f6 = lookup(es, "mask"@);
    if (f0 is None || f0->0 is Text)
        && (f1 is None || f1->0 is UInt)
        && (f2 is None || f2->0 is Text)
        && (f3 is None || f3->0 is Text)
        && (f4 is None || f4->0 is Text)
        && (f5 is None || f5->0 is Text)
        && (f6 is None || f6->0 is Text) {
        Some(Image {
            prompt: if f0 is Some { Some(f0->0->Text_0) } else { None },
            n: if f1 is Some { Some(f1->0->UInt_0) } else { None },
            size: if f2 is Some { Some(f2->0->Text_0) } else { None },
            response_format: if f3 is Some { Some(f3->0->Text_0) } else { None },
            user: if f4 is Some { Some(f4->0->Text_0) } else { None },
            image: if f5 is Some { Some(f5->0->Text_0) } else { None },
            mask: if f6 is Some { Some(f6->0->Text_0) } else { None },
        })
    } else {
        None
    }
}

proof fn lemma_image_keys_distinct()
    ensures
        distinct_names(image_keys()),
{
    reveal_strlit("image");
    reveal_strlit("mask");
    reveal_strlit("n");
    reveal_strlit("prompt");
    reveal_strlit("response_format");
    reveal_strlit("size");
    reveal_strlit("user");
    let ks = image_keys();
    assert forall|i: int, j: int| 0 <= i < j < ks.len() implies #[trigger] ks[i] != #[trigger] ks[j] by {
        if i == 0 && j == 1 {
            assert(ks[i].len() != ks[j].len());
        } else if i == 0 && j == 2 {
            assert(ks[i].len() != ks[j].len());
        } else if i == 0 && j == 3 {
            assert(ks[i].len() != ks[j].len());
        } else if i == 0 && j == 4 {
            assert(ks[i].len() != ks[j].len());
        } else if i == 0 && j == 5 {
            assert(ks[i].len() != ks[j].len());
        } else if i == 0 && j == 6 {
            assert(ks[i].len() != ks[j].len());
        } else if i == 1 && j == 2 {
            assert(ks[i].len() != ks[j].len());
        } else if i == 1 && j == 3 {
            assert(ks[i].len() != ks[j].len());
        } else if i == 1 && j == 4 {
            assert(ks[i].len() != ks[j].len());
        } else if i == 1 && j == 5 {
            assert(ks[i].len() != ks[j].len());
        } else if i == 1 && j == 6 {
            assert(ks[i].len() != ks[j].len());
        } else if i == 2 && j == 3 {
            assert(ks[i].len() != ks[j].len());
        } else if i == 2 && j == 4 {
            assert(ks[i][0] != ks[j][0]);
        } else if i == 2 && j == 5 {
            assert(ks[i].len() != ks[j].len());
        } else if i == 2 && j == 6 {
            assert(ks[i][0] != ks[j][0]);
        } else if i == 3 && j == 4 {
            assert(ks[i].len() != ks[j].len());
        } else if i == 3 && j == 5 {
            assert(ks[i].len() != ks[j].len());
        } else if i == 3 && j == 6 {
            assert(ks[i].len() != ks[j].len());
        } else if i == 4 && j == 5 {
            assert(ks[i].len() != ks[j].len());
        } else if i == 4 && j == 6 {
            assert(ks[i][0] != ks[j][0]);
        } else if i == 5 && j == 6 {
            assert(ks[i].len() != ks[j].len());
        }
    }
}

/// Reading back the wire form of an image configuration gives it back, and an optional
/// setting has an entry exactly when it is present.
pub proof fn lemma_image_round_trip(c: Image)
    ensures
        image_of_entries(image_entries(c)) == Some(c),
        lookup(image_entries(c), "prompt"@) is None <==> c.prompt is None,
        lookup(image_entries(c), "n"@) is None <==> c.n is None,
        lookup(image_entries(c), "size"@) is None <==> c.size is None,
        lookup(image_entries(c), "response_format"@) is None <==> c.response_format is None,
        lookup(image_entries(c), "user"@) is None <==> c.user is None,
        lookup(image_entries(c), "image"@) is None <==> c.image is None,
        lookup(image_entries(c), "mask"@) is None <==> c.mask is None,
{
    lemma_image_keys_distinct();
    lemma_lookup_fields(image_keys(), image_values(c), 0);
    lemma_lookup_fields(image_keys(), image_values(c), 1);
    lemma_lookup_fields(image_keys(), image_values(c), 2);
    lemma_lookup_fields(image_keys(), image_values(c), 3);
    lemma_lookup_fields(image_keys(), image_values(c), 4);
    lemma_lookup_fields(image_keys(), image_values(c), 5);
    lemma_lookup_fields(image_keys(), image_values(c), 6);
}

fn image_key_list() -> (r: Vec<&'static str>)
    ensures
        r@.len() == 7,
        forall|j: int| 0 <= j < 7 ==> (#[trigger] r@[j])@ == image_keys()[j],
        distinct_keys(r@),
{
    proof {
        lemma_image_keys_distinct();
        reveal_strlit("image");
        reveal_strlit("mask");
        reveal_strlit("n");
        reveal_strlit("prompt");
        reveal_strlit("response_format");
        reveal_strlit("size");
        reveal_strlit("user");
    }
    let mut keys: Vec<&'static str> = Vec::new();
    keys.push("prompt");
    keys.push("n");
    keys.push("size");
    keys.push("response_format");
    keys.push("user");
    keys.push("image");
    keys.push("mask");
    assert(forall|j: int| 0 <= j < 7 ==> (#[trigger] keys@[j])@ == image_keys()[j]);
    assert(distinct_keys(keys@)) by {
        assert forall|i: int, j: int| 0 <= i < j < keys@.len() implies (#[trigger] keys@[i])@ != (#[trigger] keys@[j])@ by {
            assert(keys@[i]@ == image_keys()[i] && keys@[j]@ == image_keys()[j]);
        }
    }
    keys
}

impl Image {
    /// The wire form of this value: its settings in order, without the
    /// absent optional ones.
    pub fn into_entries(self) -> (r: Vec<Entry>)
        ensures
            entries_view(r@) == image_entries(self),
    {
        let ghost vs = image_values(self);
        let keys = image_key_list();
        let Image { prompt, n, size, response_format, user, image, mask } = self;
        let mut values: Vec<Option<Field>> = Vec::new();
        values.push(
            match prompt {
                Some(v) => Some(Field::Text(v)),
                None => None,
            },
        );
        values.push(
            match n {
                Some(v) => Some(Field::UInt(v)),
                None => None,
            },
        );
        values.push(
            match size {
                Some(v) => Some(Field::Text(v)),
                None => None,
            },
        );
        values.push(
            match response_format {
                Some(v) => Some(Field::Text(v)),
                None => None,
            },
        );
        values.push(
            match user {
                Some(v) => Some(Field::Text(v)),
                None => None,
            },
        );
        values.push(
            match image {
                Some(v) => Some(Field::Text(v)),
                None => None,
            },
        );
        values.push(
            match mask {
                Some(v) => Some(Field::Text(v)),
                None => None,
            },
        );
        assert(values@ =~= vs);
        assert(key_views(keys@) =~= image_keys()) by {
            assert forall|j: int| 0 <= j < 7 implies #[trigger] key_views(keys@)[j] == image_keys()[j] by {
                assert(keys@[j]@ == image_keys()[j]);
            }
        }
        entries_from(&keys, values)
    }

    /// The configuration that `entries` describe, if they describe one.
    pub fn from_entries(entries: Vec<Entry>) -> (r: Option<Image>)
        ensures
            r == image_of_entries(entries_view(entries@)),
    {
        let ghost view = entries_view(entries@);
        let keys = image_key_list();
        proof {
            reveal_strlit("image");
            reveal_strlit("mask");
            reveal_strlit("n");
            reveal_strlit("prompt");
            reveal_strlit("response_format");
            reveal_strlit("size");
            reveal_strlit("user");
        }
        let mut slots = take_slots(entries, &keys);
        let ghost all = slots@;
        let s6 = slots.pop().unwrap();
        assert(s6 == all[6]);
        let s5 = slots.pop().unwrap();
        assert(s5 == all[5]);
        let s4 = slots.pop().unwrap();
        assert(s4 == all[4]);
        let s3 = slots.pop().unwrap();
        assert(s3 == all[3]);
        let s2 = slots.pop().unwrap();
        assert(s2 == all[2]);
        let s1 = slots.pop().unwrap();
        assert(s1 == all[1]);
        let s0 = slots.pop().unwrap();
        assert(s0 == all[0]);
        assert(s0 == lookup(view, "prompt"@));
        assert(s1 == lookup(view, "n"@));
        assert(s2 == lookup(view, "size"@));
        assert(s3 == lookup(view, "response_format"@));
        assert(s4 == lookup(view, "user"@));
        assert(s5 == lookup(view, "image"@));
        assert(s6 == lookup(view, "mask"@));
        let prompt = match s0 {
            None => None,
            Some(Field::Text(v)) => Some(v),
            Some(_) => {
                return None;
            },
        };
        let n = match s1 {
            None => None,
            Some(Field::UInt(v)) => Some(v),
            Some(_) => {
                return None;
            },
        };
        let size = match s2 {
            None => None,
            Some(Field::Text(v)) => Some(v),
            Some(_) => {
                return None;
            },
        };
        let response_format = match s3 {
            None => None,
            Some(Field::Text(v)) => Some(v),
            Some(_) => {
                return None;
            },
        };
        let user = match s4 {
            None => None,
            Some(Field::Text(v)) => Some(v),
            Some(_) => {
                return None;
            },
        };
        let image = match s5 {
            None => None,
            Some(Field::Text(v)) => Some(v),
            Some(_) => {
                return None;
            },
        };
        let mask = match s6 {
            None => None,
            Some(Field::Text(v)) => Some(v),
            Some(_) => {
                return None;
            },
        };
        Some(Image { prompt, n, size, response_format, user, image, mask })
    }
}

/// The names of the settings of an embedding configuration, in order.
pub open spec fn embedding_keys() -> Seq<Seq<char>> {
    seq!["model"@, "input"@, "user"@]
}

/// The values of the settings of an embedding configuration, in the order of their names;
/// `None` for an absent optional setting.
pub open spec fn embedding_values(c: Embedding) -> Seq<Option<Field>> {
    seq![
        Some(Field::Text(c.model)),
        Some(Field::Input(c.input)),
        match c.user { Some(v) => Some(Field::Text(v)), None => None },
    ]
}

/// The wire form of an embedding configuration.
pub open spec fn embedding_entries(c: Embedding) -> Seq<(Seq<char>, Field)> {
    fields_to_entries(embedding_keys(), embedding_values(c))
}

/// An embedding configuration read back from entries: each setting is the first
/// entry of its name; a required setting must be there, and every setting
/// found must hold a value of its kind.
pub open spec fn embedding_of_entries(es: Seq<(Seq<char>, Field)>) -> Option<Embedding> {
    let f0 = lookup(es, "model"@);
    let f1 = lookup(es, "input"@);
    let f2 = lookup(es, "user"@);
    if (f0 is Some && f0->0 is Text)
        && (f1 is Some && f1->0 is Input)
        && (f2 is None || f2->0 is Text) {
        Some(Embedding {
            model: f0->0->Text_0,
            input: f1->0->Input_0,
            user: if f2 is Some { Some(f2->0->Text_0) } else { None },
        })
    } else {
        None
    }
}

proof fn lemma_embedding_keys_distinct()
    ensures
        distinct_names(embedding_keys()),
{
    reveal_strlit("input");
    reveal_strlit("model");
    reveal_strlit("user");
    let ks = embedding_keys();
    assert forall|i: int, j: int| 0 <= i < j < ks.len() implies #[trigger] ks[i] != #[trigger] ks[j] by {
        if i == 0 && j == 1 {
            assert(ks[i][0] != ks[j][0]);
        } else if i == 0 && j == 2 {
            assert(ks[i].len() != ks[j].len());
        } else if i == 1 && j == 2 {
            assert(ks[i].len() != ks[j].len());
        }
    }
}

/// Reading back the wire form of an embedding configuration gives it back, and an optional
/// setting has an entry exactly when it is present.
pub proof fn lemma_embedding_round_trip(c: Embedding)
    ensures
        embedding_of_entries(embedding_entries(c)) == Some(c),
        lookup(embedding_entries(c), "model"@) is Some,
        lookup(embedding_entries(c), "input"@) is Some,
        lookup(embedding_entries(c), "user"@) is None <==> c.user is None,
{
    lemma_embedding_keys_distinct();
    lemma_lookup_fields(embedding_keys(), embedding_values(c), 0);
    lemma_lookup_fields(embedding_keys(), embedding_values(c), 1);
    lemma_lookup_fields(embedding_keys(), embedding_values(c), 2);
}

fn embedding_key_list() -> (r: Vec<&'static str>)
    ensures
        r@.len() == 3,
        forall|j: int| 0 <= j < 3 ==> (#[trigger] r@[j])@ == embedding_keys()[j],
        distinct_keys(r@),
{
    proof {
        lemma_embedding_keys_distinct();
        reveal_strlit("input");
        reveal_strlit("model");
        reveal_strlit("user");
    }
    let mut keys: Vec<&'static str> = Vec::new();
    keys.push("model");
    keys.push("input");
    keys.push("user");
    assert(forall|j: int| 0 <= j < 3 ==> (#[trigger] keys@[j])@ == embedding_keys()[j]);
    assert(distinct_keys(keys@)) by {
        assert forall|i: int, j: int| 0 <= i < j < keys@.len() implies (#[trigger] keys@[i])@ != (#[trigger] keys@[j])@ by {
            assert(keys@[i]@ == embedding_keys()[i] && keys@[j]@ == embedding_keys()[j]);
        }
    }
    keys
}

impl Embedding {
    /// The wire form of this value: its settings in order, without the
    /// absent optional ones.
    pub fn into_entries(self) -> (r: Vec<Entry>)
        ensures
            entries_view(r@) == embedding_entries(self),
    {
        let ghost vs = embedding_values(self);
        let keys = embedding_key_list();
        let Embedding { model, input, user } = self;
        let mut values: Vec<Option<Field>> = Vec::new();
        values.push(Some(Field::Text(model)));
        values.push(Some(Field::Input(input)));
        values.push(
            match user {
                Some(v) => Some(Field::Text(v)),
                None => None,
            },
        );
        assert(values@ =~= vs);
        assert(key_views(keys@) =~= embedding_keys()) by {
            assert forall|j: int| 0 <= j < 3 implies #[trigger] key_views(keys@)[j] == embedding_keys()[j] by {
                assert(keys@[j]@ == embedding_keys()[j]);
            }
        }
        entries_from(&keys, values)
    }

    /// The configuration that `entries` describe, if they describe one.
    pub fn from_entries(entries: Vec<Entry>) -> (r: Option<Embedding>)
        ensures
            r == embedding_of_entries(entries_view(entries@)),
    {
        let ghost view = entries_view(entries@);
        let keys = embedding_key_list();
        proof {
            reveal_strlit("input");
            reveal_strlit("model");
            reveal_strlit("user");
        }
        let mut slots = take_slots(entries, &keys);
        let ghost all = slots@;
        let s2 = slots.pop().unwrap();
        assert(s2 == all[2]);
        let s1 = slots.pop().unwrap();
        assert(s1 == all[1]);
        let s0 = slots.pop().unwrap();
        assert(s0 == all[0]);
        assert(s0 == lookup(view, "model"@));
        assert(s1 == lookup(view, "input"@));
        assert(s2 == lookup(view, "user"@));
        let model = match s0 {
            Some(Field::Text(v)) => v,
            _ => {
                return None;
            },
        };
        let input = match s1 {
            Some(Field::Input(v)) => v,
            _ => {
                return None;
            },
        };
        let user = match s2 {
            None => None,
            Some(Field::Text(v)) => Some(v),
            Some(_) => {
                return None;
            },
        };
        Some(Embedding { model, input, user })
    }
}

/// The names of the settings of an audio configuration, in order.
pub open spec fn audio_keys() -> Seq<Seq<char>> {
    seq!["file"@, "model"@, "prompt"@, "response_format"@, "temperature"@, "language"@]
}

/// The values of the settings of an audio configuration, in the order of their names;
/// `None` for an absent optional setting.
pub open spec fn audio_values(c: Audio) -> Seq<Option<Field>> {
    seq![
        Some(Field::Text(c.file)),
        Some(Field::Text(c.model)),
        match c.prompt { Some(v) => Some(Field::Text(v)), None => None },
        match c.response_format { Some(v) => Some(Field::AudioFormat(v)), None => None },
        match c.temperature { Some(v) => Some(Field::Number(v)), None => None },
        match c.language { Some(v) => Some(Field::Text(v)), None => None },
    ]
}

/// The wire form of an audio configuration.
pub open spec fn audio_entries(c: Audio) -> Seq<(Seq<char>, Field)> {
    fields_to_entries(audio_keys(), audio_values(c))
}

/// An audio configuration read back from entries: each setting is the first
/// entry of its name; a required setting must be there, and every setting
/// found must hold a value of its kind.
pub open spec fn audio_of_entries(es: Seq<(Seq<char>, Field)>) -> Option<Audio> {
    let f0 = lookup(es, "file"@);
    let f1 = lookup(es, "model"@);
    let f2 = lookup(es, "prompt"@);
    let f3 = lookup(es, "response_format"@);
    let f4 = lookup(es, "temperature"@);
    let f5 = lookup(es, "language"@);
    if (f0 is Some && f0->0 is Text)
        && (f1 is Some && f1->0 is Text)
        && (f2 is None || f2->0 is Text)
        && (f3 is None || f3->0 is AudioFormat)
        && (f4 is None || f4->0 is Number)
        && (f5 is None || f5->0 is Text) {
        Some(Audio {
            file: f0->0->Text_0,
            model: f1->0->Text_0,
            prompt: if f2 is Some { Some(f2->0->Text_0) } else { None },
            response_format: if f3 is Some { Some(f3->0->AudioFormat_0) } else { None },
            temperature: if f4 is Some { Some(f4->0->Number_0) } else { None },
            language: if f5 is Some { Some(f5->0->Text_0) } else { None },
        })
    } else {
        None
    }
}

proof fn lemma_audio_keys_distinct()
    ensures
        distinct_names(audio_keys()),
{
    reveal_strlit("file");
    reveal_strlit("language");
    reveal_strlit("model");
    reveal_strlit("prompt");
    reveal_strlit("response_format");
    reveal_strlit("temperature");
    let ks = audio_keys();
    assert forall|i: int, j: int| 0 <= i < j < ks.len() implies #[trigger] ks[i] != #[trigger] ks[j] by {
        if i == 0 && j == 1 {
            assert(ks[i].len() != ks[j].len());
        } else if i == 0 && j == 2 {
            assert(ks[i].len() != ks[j].len());
        } else if i == 0 && j == 3 {
            assert(ks[i].len() != ks[j].len());
        } else if i == 0 && j == 4 {
            assert(ks[i].len() != ks[j].len());
        } else if i == 0 && j == 5 {
            assert(ks[i].len() != ks[j].len());
        } else if i == 1 && j == 2 {
            assert(ks[i].len() != ks[j].len());
        } else if i == 1 && j == 3 {
            assert(ks[i].len() != ks[j].len());
        } else if i == 1 && j == 4 {
            assert(ks[i].len() != ks[j].len());
        } else if i == 1 && j == 5 {
            assert(ks[i].len() != ks[j].len());
        } else if i == 2 && j == 3 {
            assert(ks[i].len() != ks[j].len());
        } else if i == 2 && j == 4 {
            assert(ks[i].len() != ks[j].len());
        } else if i == 2 && j == 5 {
            assert(ks[i].len() != ks[j].len());
        } else if i == 3 && j == 4 {
            assert(ks[i].len() != ks[j].len());
        } else if i == 3 && j == 5 {
            assert(ks[i].len() != ks[j].len());
        } else if i == 4 && j == 5 {
            assert(ks[i].len() != ks[j].len());
        }
    }
}

/// Reading back the wire form of an audio configuration gives it back, and an optional
/// setting has an entry exactly when it is present.
pub proof fn lemma_audio_round_trip(c: Audio)
    ensures
        audio_of_entries(audio_entries(c)) == Some(c),
        lookup(audio_entries(c), "file"@) is Some,
        lookup(audio_entries(c), "model"@) is Some,
        lookup(audio_entries(c), "prompt"@) is None <==> c.prompt is None,
        lookup(audio_entries(c), "response_format"@) is None <==> c.response_format is None,
        lookup(audio_entries(c), "temperature"@) is None <==> c.temperature is None,
        lookup(audio_entries(c), "language"@) is None <==> c.language is None,
{
    lemma_audio_keys_distinct();
    lemma_lookup_fields(audio_keys(), audio_values(c), 0);
    lemma_lookup_fields(audio_keys(), audio_values(c), 1);
    lemma_lookup_fields(audio_keys(), audio_values(c), 2);
    lemma_lookup_fields(audio_keys(), audio_values(c), 3);
    lemma_lookup_fields(audio_keys(), audio_values(c), 4);
    lemma_lookup_fields(audio_keys(), audio_values(c), 5);
}

fn audio_key_list() -> (r: Vec<&'static str>)
    ensures
        r@.len() == 6,
        forall|j: int| 0 <= j < 6 ==> (#[trigger] r@[j])@ == audio_keys()[j],
        distinct_keys(r@),
{
    proof {
        lemma_audio_keys_distinct();
        reveal_strlit("file");
        reveal_strlit("language");
        reveal_strlit("model");
        reveal_strlit("prompt");
        reveal_strlit("response_format");
        reveal_strlit("temperature");
    }
    let mut keys: Vec<&'static str> = Vec::new();
    keys.push("file");
    keys.push("model");
    keys.push("prompt");
    keys.push("response_format");
    keys.push("temperature");
    keys.push("language");
    assert(forall|j: int| 0 <= j < 6 ==> (#[trigger] keys@[j])@ == audio_keys()[j]);
    assert(distinct_keys(keys@)) by {
        assert forall|i: int, j: int| 0 <= i < j < keys@.len() implies (#[trigger] keys@[i])@ != (#[trigger] keys@[j])@ by {
            assert(keys@[i]@ == audio_keys()[i] && keys@[j]@ == audio_keys()[j]);
        }
    }
    keys
}

impl Audio {
    /// The wire form of this value: its settings in order, without the
    /// absent optional ones.
    pub fn into_entries(self) -> (r: Vec<Entry>)
        ensures
            entries_view(r@) == audio_entries(self),
    {
        let ghost vs = audio_values(self);
        let keys = audio_key_list();
        let Audio { file, model, prompt, response_format, temperature, language } = self;
        let mut values: Vec<Option<Field>> = Vec::new();
        values.push(Some(Field::Text(file)));
        values.push(Some(Field::Text(model)));
        values.push(
            match prompt {
                Some(v) => Some(Field::Text(v)),
                None => None,
            },
        );
        values.push(
            match response_format {
                Some(v) => Some(Field::AudioFormat(v)),
                None => None,
            },
        );
        values.push(
            match temperature {
                Some(v) => Some(Field::Number(v)),
                None => None,
            },
        );
        values.push(
            match language {
                Some(v) => Some(Field::Text(v)),
                None => None,
            },
        );
        assert(values@ =~= vs);
        assert(key_views(keys@) =~= audio_keys()) by {
            assert forall|j: int| 0 <= j < 6 implies #[trigger] key_views(keys@)[j] == audio_keys()[j] by {
                assert(keys@[j]@ == audio_keys()[j]);
            }
        }
        entries_from(&keys, values)
    }

    /// The configuration that `entries` describe, if they describe one.
    pub fn from_entries(entries: Vec<Entry>) -> (r: Option<Audio>)
        ensures
            r == audio_of_entries(entries_view(entries@)),
    {
        let ghost view = entries_view(entries@);
        let keys = audio_key_list();
        proof {
            reveal_strlit("file");
            reveal_strlit("language");
            reveal_strlit("model");
            reveal_strlit("prompt");
            reveal_strlit("response_format");
            reveal_strlit("temperature");
        }
        let mut slots = take_slots(entries, &keys);
        let ghost all = slots@;
        let s5 = slots.pop().unwrap();
        assert(s5 == all[5]);
        let s4 = slots.pop().unwrap();
        assert(s4 == all[4]);
        let s3 = slots.pop().unwrap();
        assert(s3 == all[3]);
        let s2 = slots.pop().unwrap();
        assert(s2 == all[2]);
        let s1 = slots.pop().unwrap();
        assert(s1 == all[1]);
        let s0 = slots.pop().unwrap();
        assert(s0 == all[0]);
        assert(s0 == lookup(view, "file"@));
        assert(s1 == lookup(view, "model"@));
        assert(s2 == lookup(view, "prompt"@));
        assert(s3 == lookup(view, "response_format"@));
        assert(s4 == lookup(view, "temperature"@));
        assert(s5 == lookup(view, "language"@));
        let file = match s0 {
            Some(Field::Text(v)) => v,
            _ => {
                return None;
            },
        };
        let model = match s1 {
            Some(Field::Text(v)) => v,
            _ => {
                return None;
            },
        };
        let prompt = match s2 {
            None => None,
            Some(Field::Text(v)) => Some(v),
            Some(_) => {
                return None;
            },
        };
        let response_format = match s3 {
            None => None,
            Some(Field::AudioFormat(v)) => Some(v),
            Some(_) => {
                return None;
            },
        };
        let temperature = match s4 {
            None => None,
            Some(Field::Number(v)) => Some(v),
            Some(_) => {
                return None;
            },
        };
        let language = match s5 {
            None => None,
            Some(Field::Text(v)) => Some(v),
            Some(_) => {
                return None;
            },
        };
        Some(Audio { file, model, prompt, response_format, temperature, language })
    }
}

/// The names of the settings of a files configuration, in order.
pub open spec fn files_keys() -> Seq<Seq<char>> {
    seq!["file"@, "purpose"@, "file_id"@]
}

/// The values of the settings of a files configuration, in the order of their names;
/// `None` for an absent optional setting.
pub open spec fn files_values(c: Files) -> Seq<Option<Field>> {
    seq![
        match c.file { Some(v) => Some(Field::Text(v)), None => None },
        match c.purpose { Some(v) => Some(Field::Text(v)), None => None },
        match c.file_id { Some(v) => Some(Field::Text(v)), None => None },
    ]
}

/// The wire form of a files configuration.
pub open spec fn files_entries(c: Files) -> Seq<(Seq<char>, Field)> {
    fields_to_entries(files_keys(), files_values(c))
}

/// A files configuration read back from entries: each setting is the first
/// entry of its name; a required setting must be there, and every setting
/// found must hold a value of its kind.
pub open spec fn files_of_entries(es: Seq<(Seq<char>, Field)>) -> Option<Files> {
    let f0 = lookup(es, "file"@);
    let f1 = lookup(es, "purpose"@);
    let f2 = lookup(es, "file_id"@);
    if (f0 is None || f0->0 is Text)
        && (f1 is None || f1->0 is Text)
        && (f2 is None || f2->0 is Text) {
        Some(Files {
            file: if f0 is Some { Some(f0->0->Text_0) } else { None },
            purpose: if f1 is Some { Some(f1->0->Text_0) } else { None },
            file_id: if f2 is Some { Some(f2->0->Text_0) } else { None },
        })
    } else {
        None
    }
}

proof fn lemma_files_keys_distinct()
    ensures
        distinct_names(files_keys()),
{
    reveal_strlit("file");
    reveal_strlit("file_id");
    reveal_strlit("purpose");
    let ks = files_keys();
    assert forall|i: int, j: int| 0 <= i < j < ks.len() implies #[trigger] ks[i] != #[trigger] ks[j] by {
        if i == 0 && j == 1 {
            assert(ks[i].len() != ks[j].len());
        } else if i == 0 && j == 2 {
            assert(ks[i].len() != ks[j].len());
        } else if i == 1 && j == 2 {
            assert(ks[i][0] != ks[j][0]);
        }
    }
}

/// Reading back the wire form of a files configuration gives it back, and an optional
/// setting has an entry exactly when it is present.
pub proof fn lemma_files_round_trip(c: Files)
    ensures
        files_of_entries(files_entries(c)) == Some(c),
        lookup(files_entries(c), "file"@) is None <==> c.file is None,
        lookup(files_entries(c), "purpose"@) is None <==> c.purpose is None,
        lookup(files_entries(c), "file_id"@) is None <==> c.file_id is None,
{
    lemma_files_keys_distinct();
    lemma_lookup_fields(files_keys(), files_values(c), 0);
    lemma_lookup_fields(files_keys(), files_values(c), 1);
    lemma_lookup_fields(files_keys(), files_values(c), 2);
}

fn files_key_list() -> (r: Vec<&'static str>)
    ensures
        r@.len() == 3,
        forall|j: int| 0 <= j < 3 ==> (#[trigger] r@[j])@ == files_keys()[j],
        distinct_keys(r@),
{
    proof {
        lemma_files_keys_distinct();
        reveal_strlit("file");
        reveal_strlit("file_id");
        reveal_strlit("purpose");
    }
    let mut keys: Vec<&'static str> = Vec::new();
    keys.push("file");
    keys.push("purpose");
    keys.push("file_id");
    assert(forall|j: int| 0 <= j < 3 ==> (#[trigger] keys@[j])@ == files_keys()[j]);
    assert(distinct_keys(keys@)) by {
        assert forall|i: int, j: int| 0 <= i < j < keys@.len() implies (#[trigger] keys@[i])@ != (#[trigger] keys@[j])@ by {
            assert(keys@[i]@ == files_keys()[i] && keys@[j]@ == files_keys()[j]);
        }
    }
    keys
}

impl Files {
    /// The wire form of this value: its settings in order, without the
    /// absent optional ones.
    pub fn into_entries(self) -> (r: Vec<Entry>)
        ensures
            entries_view(r@) == files_entries(self),
    {
        let ghost vs = files_values(self);
        let keys = files_key_list();
        let Files { file, purpose, file_id } = self;
        let mut values: Vec<Option<Field>> = Vec::new();
        values.push(
            match file {
                Some(v) => Some(Field::Text(v)),
                None => None,
            },
        );
        values.push(
            match purpose {
                Some(v) => Some(Field::Text(v)),
                None => None,
            },
        );
        values.push(
            match file_id {
                Some(v) => Some(Field::Text(v)),
                None => None,
            },
        );
        assert(values@ =~= vs);
        assert(key_views(keys@) =~= files_keys()) by {
            assert forall|j: int| 0 <= j < 3 implies #[trigger] key_views(keys@)[j] == files_keys()[j] by {
                assert(keys@[j]@ == files_keys()[j]);
            }
        }
        entries_from(&keys, values)
    }

    /// The configuration that `entries` describe, if they describe one.
    pub fn from_entries(entries: Vec<Entry>) -> (r: Option<Files>)
        ensures
            r == files_of_entries(entries_view(entries@)),
    {
        let ghost view = entries_view(entries@);
        let keys = files_key_list();
        proof {
            reveal_strlit("file");
            reveal_strlit("file_id");
            reveal_strlit("purpose");
        }
        let mut slots = take_slots(entries, &keys);
        let ghost all = slots@;
        let s2 = slots.pop().unwrap();
        assert(s2 == all[2]);
        let s1 = slots.pop().unwrap();
        assert(s1 == all[1]);
        let s0 = slots.pop().unwrap();
        assert(s0 == all[0]);
        assert(s0 == lookup(view, "file"@));
        assert(s1 == lookup(view, "purpose"@));
        assert(s2 == lookup(view, "file_id"@));
        let file = match s0 {
            None => None,
            Some(Field::Text(v)) => Some(v),
            Some(_) => {
                return None;
            },
        };
        let purpose = match s1 {
            None => None,
            Some(Field::Text(v)) => Some(v),
            Some(_) => {
                return None;
            },
        };
        let file_id = match s2 {
            None => None,
            Some(Field::Text(v)) => Some(v),
            Some(_) => {
                return None;
            },
        };
        Some(Files { file, purpose, file_id })
    }
}

/// The names of the settings of a fine-tuning configuration, in order.
pub open spec fn fine_tune_keys() -> Seq<Seq<char>> {
    seq!["training_file"@, "validation_file"@, "model"@, "n_epochs"@, "batch_size"@, "learning_rate_multiplier"@, "prompt_loss_weight"@, "compute_classification_metrics"@, "classification_n_classes"@, "classification_positive_class"@, "classification_betas"@, "suffix"@]
}

/// The values of the settings of a fine-tuning configuration, in the order of their names;
/// `None` for an absent optional setting.
pub open spec fn fine_tune_values(c: FineTune) -> Seq<Option<Field>> {
    seq![
        Some(Field::Text(c.training_file)),
        match c.validation_file { Some(v) => Some(Field::Text(v)), None => None },
        match c.model { Some(v) => Some(Field::Text(v)), None => None },
        match c.n_epochs { Some(v) => Some(Field::UInt(v)), None => None },
        match c.batch_size { Some(v) => Some(Field::UInt(v)), None => None },
        match c.learning_rate_multiplier { Some(v) => Some(Field::Number(v)), None => None },
        match c.prompt_loss_weight { Some(v) => Some(Field::Number(v)), None => None },
        match c.compute_classification_metrics { Some(v) => Some(Field::Bool(v)), None => None },
        match c.classification_n_classes { Some(v) => Some(Field::UInt(v)), None => None },
        match c.classification_positive_class { Some(v) => Some(Field::Text(v)), None => None },
        match c.classification_betas { Some(v) => Some(Field::Numbers(v)), None => None },
        match c.suffix { Some(v) => Some(Field::Text(v)), None => None },
    ]
}

/// The wire form of a fine-tuning configuration.
pub open spec fn fine_tune_entries(c: FineTune) -> Seq<(Seq<char>, Field)> {
    fields_to_entries(fine_tune_keys(), fine_tune_values(c))
}

/// A fine-tuning configuration read back from entries: each setting is the first
/// entry of its name; a required setting must be there, and every setting
/// found must hold a value of its kind.
pub open spec fn fine_tune_of_entries(es: Seq<(Seq<char>, Field)>) -> Option<FineTune> {
    let f0 = lookup(es, "training_file"@);
    let f1 = lookup(es, "validation_file"@);
    let f2 = lookup(es, "model"@);
    let f3 = lookup(es, "n_epochs"@);
    let f4 = lookup(es, "batch_size"@);
    let f5 = lookup(es, "learning_rate_multiplier"@);
    let f6 = lookup(es, "prompt_loss_weight"@);
    let f7 = lookup(es, "compute_classification_metrics"@);
    let f8 = lookup(es, "classification_n_classes"@);
    let f9 = lookup(es, "classification_positive_class"@);
    let f10 = lookup(es, "classification_betas"@);
    let f11 = lookup(es, "suffix"@);
    if (f0 is Some && f0->0 is Text)
        && (f1 is None || f1->0 is Text)
        && (f2 is None || f2->0 is Text)
        && (f3 is None || f3->0 is UInt)
        && (f4 is None || f4->0 is UInt)
        && (f5 is None || f5->0 is Number)
        && (f6 is None || f6->0 is Number)
        && (f7 is None || f7->0 is Bool)
        && (f8 is None || f8->0 is UInt)
        && (f9 is None || f9->0 is Text)
        && (f10 is None || f10->0 is Numbers)
        && (f11 is None || f11->0 is Text) {
        Some(FineTune {
            training_file: f0->0->Text_0,
            validation_file: if f1 is Some { Some(f1->0->Text_0) } else { None },
            model: if f2 is Some { Some(f2->0->Text_0) } else { None },
            n_epochs: if f3 is Some { Some(f3->0->UInt_0) } else { None },
            batch_size: if f4 is Some { Some(f4->0->UInt_0) } else { None },
            learning_rate_multiplier: if f5 is Some { Some(f5->0->Number_0) } else { None },
            prompt_loss_weight: if f6 is Some { Some(f6->0->Number_0) } else { None },
            compute_classification_metrics: if f7 is Some { Some(f7->0->Bool_0) } else { None },
            classification_n_classes: if f8 is Some { Some(f8->0->UInt_0) } else { None },
            classification_positive_class: if f9 is Some { Some(f9->0->Text_0) } else { None },
            classification_betas: if f10 is Some { Some(f10->0->Numbers_0) } else { None },
            suffix: if f11 is Some { Some(f11->0->Text_0) } else { None },
        })
    } else {
        None
    }
}

proof fn lemma_fine_tune_keys_distinct()
    ensures
        distinct_names(fine_tune_keys()),
{
    reveal_strlit("batch_size");
    reveal_strlit("classification_betas");
    reveal_strlit("classification_n_classes");
    reveal_strlit("classification_positive_class");
    reveal_strlit("compute_classification_metrics");
    reveal_strlit("learning_rate_multiplier");
    reveal_strlit("model");
    reveal_strlit("n_epochs");
    reveal_strlit("prompt_loss_weight");
    reveal_strlit("suffix");
    reveal_strlit("training_file");
    reveal_strlit("validation_file");
    let ks = fine_tune_keys();
    assert forall|i: int, j: int| 0 <= i < j < ks.len() implies #[trigger] ks[i] != #[trigger] ks[j] by {
        if i == 0 && j == 1 {
            assert(ks[i].len() != ks[j].len());
        } else if i == 0 && j == 2 {
            assert(ks[i].len() != ks[j].len());
        } else if i == 0 && j == 3 {
            assert(ks[i].len() != ks[j].len());
        } else if i == 0 && j == 4 {
            assert(ks[i].len() != ks[j].len());
        } else if i == 0 && j == 5 {
            assert(ks[i].len() != ks[j].len());
        } else if i == 0 && j == 6 {
            assert(ks[i].len() != ks[j].len());
        } else if i == 0 && j == 7 {
            assert(ks[i].len() != ks[j].len());
        } else if i == 0 && j == 8 {
            assert(ks[i].len() != ks[j].len());
        } else if i == 0 && j == 9 {
            assert(ks[i].len() != ks[j].len());
        } else if i == 0 && j == 10 {
            assert(ks[i].len() != ks[j].len());
        } else if i == 0 && j == 11 {
            assert(ks[i].len() != ks[j].len());
        } else if i == 1 && j == 2 {
            assert(ks[i].len() != ks[j].len());
        } else if i == 1 && j == 3 {
            assert(ks[i].len() != ks[j].len());
        } else if i == 1 && j == 4 {
            assert(ks[i].len() != ks[j].len());
        } else if i == 1 && j == 5 {
            assert(ks[i].len() != ks[j].len());
        } else if i == 1 && j == 6 {
            assert(ks[i].len() != ks[j].len());
        } else if i == 1 && j == 7 {
            assert(ks[i].len() != ks[j].len());
        } else if i == 1 && j == 8 {
            assert(ks[i].len() != ks[j].len());
        } else if i == 1 && j == 9 {
            assert(ks[i].len() != ks[j].len());
        } else if i == 1 && j == 10 {
            assert(ks[i].len() != ks[j].len());
        } else if i == 1 && j == 11 {
            assert(ks[i].len() != ks[j].len());
        } else if i == 2 && j == 3 {
            assert(ks[i].len() != ks[j].len());
        } else if i == 2 && j == 4 {
            assert(ks[i].len() != ks[j].len());
        } else if i == 2 && j == 5 {
            assert(ks[i].len() != ks[j].len());
        } else if i == 2 && j == 6 {
            assert(ks[i].len() != ks[j].len());
        } else if i == 2 && j == 7 {
            assert(ks[i].len() != ks[j].len());
        } else if i == 2 && j == 8 {
            assert(ks[i].len() != ks[j].len());
        } else if i == 2 && j == 9 {
            assert(ks[i].len() != ks[j].len());
        } else if i == 2 && j == 10 {
            assert(ks[i].len() != ks[j].len());
        } else if i == 2 && j == 11 {
            assert(ks[i].len() != ks[j].len());
        } else if i == 3 && j == 4 {
            assert(ks[i].len() != ks[j].len());
        } else if i == 3 && j == 5 {
            assert(ks[i].len() != ks[j].len());
        } else if i == 3 && j == 6 {
            assert(ks[i].len() != ks[j].len());
        } else if i == 3 && j == 7 {
            assert(ks[i].len() != ks[j].len());
        } else if i == 3 && j == 8 {
            assert(ks[i].len() != ks[j].len());
        } else if i == 3 && j == 9 {
            assert(ks[i].len() != ks[j].len());
        } else if i == 3 && j == 10 {
            assert(ks[i].len() != ks[j].len());
        } else if i == 3 && j == 11 {
            assert(ks[i].len() != ks[j].len());
        } else if i == 4 && j == 5 {
            assert(ks[i].len() != ks[j].len());
        } else if i == 4 && j == 6 {
            assert(ks[i].len() != ks[j].len());
        } else if i == 4 && j == 7 {
            assert(ks[i].len() != ks[j].len());
        } else if i == 4 && j == 8 {
            assert(ks[i].len() != ks[j].len());
        } else if i == 4 && j == 9 {
            assert(ks[i].len() != ks[j].len());
        } else if i == 4 && j == 10 {
            assert(ks[i].len() != ks[j].len());
        } else if i == 4 && j == 11 {
            assert(ks[i].len() != ks[j].len());
        } else if i == 5 && j == 6 {
            assert(ks[i].len() != ks[j].len());
        } else if i == 5 && j == 7 {
            assert(ks[i].len() != ks[j].len());
        } else if i == 5 && j == 8 {
            assert(ks[i][0] != ks[j][0]);
        } else if i == 5 && j == 9 {
            assert(ks[i].len() != ks[j].len());
        } else if i == 5 && j == 10 {
            assert(ks[i].len() != ks[j].len());
        } else if i == 5 && j == 11 {
            assert(ks[i].len() != ks[j].len());
        } else if i == 6 && j == 7 {
            assert(ks[i].len() != ks[j].len());
        } else if i == 6 && j == 8 {
            assert(ks[i].len() != ks[j].len());
        } else if i == 6 && j == 9 {
            assert(ks[i].len() != ks[j].len());
        } else if i == 6 && j == 10 {
            assert(ks[i].len() != ks[j].len());
        } else if i == 6 && j == 11 {
            assert(ks[i].len() != ks[j].len());
        } else if i == 7 && j == 8 {
            assert(ks[i].len() != ks[j].len());
        } else if i == 7 && j == 9 {
            assert(ks[i].len() != ks[j].len());
        } else if i == 7 && j == 10 {
            assert(ks[i].len() != ks[j].len());
        } else if i == 7 && j == 11 {
            assert(ks[i].len() != ks[j].len());
        } else if i == 8 && j == 9 {
            assert(ks[i].len() != ks[j].len());
        } else if i == 8 && j == 10 {
            assert(ks[i].len() != ks[j].len());
        } else if i == 8 && j == 11 {
            assert(ks[i].len() != ks[j].len());
        } else if i == 9 && j == 10 {
            assert(ks[i].len() != ks[j].len());
        } else if i == 9 && j == 11 {
            assert(ks[i].len() != ks[j].len());
        } else if i == 10 && j == 11 {
            assert(ks[i].len() != ks[j].len());
        }
    }
}

/// Reading back the wire form of a fine-tuning configuration gives it back, and an optional
/// setting has an entry exactly when it is present.
pub proof fn lemma_fine_tune_round_trip(c: FineTune)
    ensures
        fine_tune_of_entries(fine_tune_entries(c)) == Some(c),
        lookup(fine_tune_entries(c), "training_file"@) is Some,
        lookup(fine_tune_entries(c), "validation_file"@) is None <==> c.validation_file is None,
        lookup(fine_tune_entries(c), "model"@) is None <==> c.model is None,
        lookup(fine_tune_entries(c), "n_epochs"@) is None <==> c.n_epochs is None,
        lookup(fine_tune_entries(c), "batch_size"@) is None <==> c.batch_size is None,
        lookup(fine_tune_entries(c), "learning_rate_multiplier"@) is None <==> c.learning_rate_multiplier is None,
        lookup(fine_tune_entries(c), "prompt_loss_weight"@) is None <==> c.prompt_loss_weight is None,
        lookup(fine_tune_entries(c), "compute_classification_metrics"@) is None <==> c.compute_classification_metrics is None,
        lookup(fine_tune_entries(c), "classification_n_classes"@) is None <==> c.classification_n_classes is None,
        lookup(fine_tune_entries(c), "classification_positive_class"@) is None <==> c.classification_positive_class is None,
        lookup(fine_tune_entries(c), "classification_betas"@) is None <==> c.classification_betas is None,
        lookup(fine_tune_entries(c), "suffix"@) is None <==> c.suffix is None,
{
    lemma_fine_tune_keys_distinct();
    lemma_lookup_fields(fine_tune_keys(), fine_tune_values(c), 0);
    lemma_lookup_fields(fine_tune_keys(), fine_tune_values(c), 1);
    lemma_lookup_fields(fine_tune_keys(), fine_tune_values(c), 2);
    lemma_lookup_fields(fine_tune_keys(), fine_tune_values(c), 3);
    lemma_lookup_fields(fine_tune_keys(), fine_tune_values(c), 4);
    lemma_lookup_fields(fine_tune_keys(), fine_tune_values(c), 5);
    lemma_lookup_fields(fine_tune_keys(), fine_tune_values(c), 6);
    lemma_lookup_fields(fine_tune_keys(), fine_tune_values(c), 7);
    lemma_lookup_fields(fine_tune_keys(), fine_tune_values(c), 8);
    lemma_lookup_fields(fine_tune_keys(), fine_tune_values(c), 9);
    lemma_lookup_fields(fine_tune_keys(), fine_tune_values(c), 10);
    lemma_lookup_fields(fine_tune_keys(), fine_tune_values(c), 11);
}

fn fine_tune_key_list() -> (r: Vec<&'static str>)
    ensures
        r@.len() == 12,
        forall|j: int| 0 <= j < 12 ==> (#[trigger] r@[j])@ == fine_tune_keys()[j],
        distinct_keys(r@),
{
    proof {
        lemma_fine_tune_keys_distinct();
        reveal_strlit("batch_size");
        reveal_strlit("classification_betas");
        reveal_strlit("classification_n_classes");
        reveal_strlit("classification_positive_class");
        reveal_strlit("compute_classification_metrics");
        reveal_strlit("learning_rate_multiplier");
        reveal_strlit("model");
        reveal_strlit("n_epochs");
        reveal_strlit("prompt_loss_weight");
        reveal_strlit("suffix");
        reveal_strlit("training_file");
        reveal_strlit("validation_file");
    }
    let mut keys: Vec<&'static str> = Vec::new();
    keys.push("training_file");
    keys.push("validation_file");
    keys.push("model");
    keys.push("n_epochs");
    keys.push("batch_size");
    keys.push("learning_rate_multiplier");
    keys.push("prompt_loss_weight");
    keys.push("compute_classification_metrics");
    keys.push("classification_n_classes");
    keys.push("classification_positive_class");
    keys.push("classification_betas");
    keys.push("suffix");
    assert(forall|j: int| 0 <= j < 12 ==> (#[trigger] keys@[j])@ == fine_tune_keys()[j]);
    assert(distinct_keys(keys@)) by {
        assert forall|i: int, j: int| 0 <= i < j < keys@.len() implies (#[trigger] keys@[i])@ != (#[trigger] keys@[j])@ by {
            assert(keys@[i]@ == fine_tune_keys()[i] && keys@[j]@ == fine_tune_keys()[j]);
        }
    }
    keys
}

impl FineTune {
    /// The wire form of this value: its settings in order, without the
    /// absent optional ones.
    pub fn into_entries(self) -> (r: Vec<Entry>)
        ensures
            entries_view(r@) == fine_tune_entries(self),
    {
        let ghost vs = fine_tune_values(self);
        let keys = fine_tune_key_list();
        let FineTune { training_file, validation_file, model, n_epochs, batch_size, learning_rate_multiplier, prompt_loss_weight, compute_classification_metrics, classification_n_classes, classification_positive_class, classification_betas, suffix } = self;
        let mut values: Vec<Option<Field>> = Vec::new();
        values.push(Some(Field::Text(training_file)));
        values.push(
            match validation_file {
                Some(v) => Some(Field::Text(v)),
                None => None,
            },
        );
        values.push(
            match model {
                Some(v) => Some(Field::Text(v)),
                None => None,
            },
        );
        values.push(
            match n_epochs {
                Some(v) => Some(Field::UInt(v)),
                None => None,
            },
        );
        values.push(
            match batch_size {
                Some(v) => Some(Field::UInt(v)),
                None => None,
            },
        );
        values.push(
            match learning_rate_multiplier {
                Some(v) => Some(Field::Number(v)),
                None => None,
            },
        );
        values.push(
            match prompt_loss_weight {
                Some(v) => Some(Field::Number(v)),
                None => None,
            },
        );
        values.push(
            match compute_classification_metrics {
                Some(v) => Some(Field::Bool(v)),
                None => None,
            },
        );
        values.push(
            match classification_n_classes {
                Some(v) => Some(Field::UInt(v)),
                None => None,
            },
        );
        values.push(
            match classification_positive_class {
                Some(v) => Some(Field::Text(v)),
                None => None,
            },
        );
        values.push(
            match classification_betas {
                Some(v) => Some(Field::Numbers(v)),
                None => None,
            },
        );
        values.push(
            match suffix {
                Some(v) => Some(Field::Text(v)),
                None => None,
            },
        );
        assert(values@ =~= vs);
        assert(key_views(keys@) =~= fine_tune_keys()) by {
            assert forall|j: int| 0 <= j < 12 implies #[trigger] key_views(keys@)[j] == fine_tune_keys()[j] by {
                assert(keys@[j]@ == fine_tune_keys()[j]);
            }
        }
        entries_from(&keys, values)
    }

    /// The configuration that `entries` describe, if they describe one.
    pub fn from_entries(entries: Vec<Entry>) -> (r: Option<FineTune>)
        ensures
            r == fine_tune_of_entries(entries_view(entries@)),
    {
        let ghost view = entries_view(entries@);
        let keys = fine_tune_key_list();
        proof {
            reveal_strlit("batch_size");
            reveal_strlit("classification_betas");
            reveal_strlit("classification_n_classes");
            reveal_strlit("classification_positive_class");
            reveal_strlit("compute_classification_metrics");
            reveal_strlit("learning_rate_multiplier");
            reveal_strlit("model");
            reveal_strlit("n_epochs");
            reveal_strlit("prompt_loss_weight");
            reveal_strlit("suffix");
            reveal_strlit("training_file");
            reveal_strlit("validation_file");
        }
        let mut slots = take_slots(entries, &keys);
        let ghost all = slots@;
        let s11 = slots.pop().unwrap();
        assert(s11 == all[11]);
        let s10 = slots.pop().unwrap();
        assert(s10 == all[10]);
        let s9 = slots.pop().unwrap();
        assert(s9 == all[9]);
        let s8 = slots.pop().unwrap();
        assert(s8 == all[8]);
        let s7 = slots.pop().unwrap();
        assert(s7 == all[7]);
        let s6 = slots.pop().unwrap();
        assert(s6 == all[6]);
        let s5 = slots.pop().unwrap();
        assert(s5 == all[5]);
        let s4 = slots.pop().unwrap();
        assert(s4 == all[4]);
        let s3 = slots.pop().unwrap();
        assert(s3 == all[3]);
        let s2 = slots.pop().unwrap();
        assert(s2 == all[2]);
        let s1 = slots.pop().unwrap();
        assert(s1 == all[1]);
        let s0 = slots.pop().unwrap();
        assert(s0 == all[0]);
        assert(s0 == lookup(view, "training_file"@));
        assert(s1 == lookup(view, "validation_file"@));
        assert(s2 == lookup(view, "model"@));
        assert(s3 == lookup(view, "n_epochs"@));
        assert(s4 == lookup(view, "batch_size"@));
        assert(s5 == lookup(view, "learning_rate_multiplier"@));
        assert(s6 == lookup(view, "prompt_loss_weight"@));
        assert(s7 == lookup(view, "compute_classification_metrics"@));
        assert(s8 == lookup(view, "classification_n_classes"@));
        assert(s9 == lookup(view, "classification_positive_class"@));
        assert(s10 == lookup(view, "classification_betas"@));
        assert(s11 == lookup(view, "suffix"@));
        let training_file = match s0 {
            Some(Field::Text(v)) => v,
            _ => {
                return None;
            },
        };
        let validation_file = match s1 {
            None => None,
            Some(Field::Text(v)) => Some(v),
            Some(_) => {
                return None;
            },
        };
        let model = match s2 {
            None => None,
            Some(Field::Text(v)) => Some(v),
            Some(_) => {
                return None;
            },
        };
        let n_epochs = match s3 {
            None => None,
            Some(Field::UInt(v)) => Some(v),
            Some(_) => {
                return None;
            },
        };
        let batch_size = match s4 {
            None => None,
            Some(Field::UInt(v)) => Some(v),
            Some(_) => {
                return None;
            },
        };
        let learning_rate_multiplier = match s5 {
            None => None,
            Some(Field::Number(v)) => Some(v),
            Some(_) => {
                return None;
            },
        };
        let prompt_loss_weight = match s6 {
            None => None,
            Some(Field::Number(v)) => Some(v),
            Some(_) => {
                return None;
            },
        };
        let compute_classification_metrics = match s7 {
            None => None,
            Some(Field::Bool(v)) => Some(v),
            Some(_) => {
                return None;
            },
        };
        let classification_n_classes = match s8 {
            None => None,
            Some(Field::UInt(v)) => Some(v),
            Some(_) => {
                return None;
            },
        };
        let classification_positive_class = match s9 {
            None => None,
            Some(Field::Text(v)) => Some(v),
            Some(_) => {
                return None;
            },
        };
        let classification_betas = match s10 {
            None => None,
            Some(Field::Numbers(v)) => Some(v),
            Some(_) => {
                return None;
            },
        };
        let suffix = match s11 {
            None => None,
            Some(Field::Text(v)) => Some(v),
            Some(_) => {
                return None;
            },
        };
        Some(FineTune { training_file, validation_file, model, n_epochs, batch_size, learning_rate_multiplier, prompt_loss_weight, compute_classification_metrics, classification_n_classes, classification_positive_class, classification_betas, suffix })
    }
}

/// The names of the settings of a moderation configuration, in order.
pub open spec fn moderation_keys() -> Seq<Seq<char>> {
    seq!["input"@]
}

/// The values of the settings of a moderation configuration, in the order of their names;
/// `None` for an absent optional setting.
pub open spec fn moderation_values(c: Moderation) -> Seq<Option<Field>> {
    seq![
        Some(Field::Text(c.input)),
    ]
}

/// The wire form of a moderation configuration.
pub open spec fn moderation_entries(c: Moderation) -> Seq<(Seq<char>, Field)> {
    fields_to_entries(moderation_keys(), moderation_values(c))
}

/// A moderation configuration read back from entries: each setting is the first
/// entry of its name; a required setting must be there, and every setting
/// found must hold a value of its kind.
pub open spec fn moderation_of_entries(es: Seq<(Seq<char>, Field)>) -> Option<Moderation> {
    let f0 = lookup(es, "input"@);
    if (f0 is Some && f0->0 is Text) {
        Some(Moderation {
            input: f0->0->Text_0,
        })
    } else {
        None
    }
}

proof fn lemma_moderation_keys_distinct()
    ensures
        distinct_names(moderation_keys()),
{
    reveal_strlit("input");
    let ks = moderation_keys();
}

/// Reading back the wire form of a moderation configuration gives it back, and an optional
/// setting has an entry exactly when it is present.
pub proof fn lemma_moderation_round_trip(c: Moderation)
    ensures
        moderation_of_entries(moderation_entries(c)) == Some(c),
        lookup(moderation_entries(c), "input"@) is Some,
{
    lemma_moderation_keys_distinct();
    lemma_lookup_fields(moderation_keys(), moderation_values(c), 0);
}

fn moderation_key_list() -> (r: Vec<&'static str>)
    ensures
        r@.len() == 1,
        forall|j: int| 0 <= j < 1 ==> (#[trigger] r@[j])@ == moderation_keys()[j],
        distinct_keys(r@),
{
    proof {
        lemma_moderation_keys_distinct();
        reveal_strlit("input");
    }
    let mut keys: Vec<&'static str> = Vec::new();
    keys.push("input");
    assert(forall|j: int| 0 <= j < 1 ==> (#[trigger] keys@[j])@ == moderation_keys()[j]);
    assert(distinct_keys(keys@)) by {
        assert forall|i: int, j: int| 0 <= i < j < keys@.len() implies (#[trigger] keys@[i])@ != (#[trigger] keys@[j])@ by {
            assert(keys@[i]@ == moderation_keys()[i] && keys@[j]@ == moderation_keys()[j]);
        }
    }
    keys
}

impl Moderation {
    /// The wire form of this value: its settings in order, without the
    /// absent optional ones.
    pub fn into_entries(self) -> (r: Vec<Entry>)
        ensures
            entries_view(r@) == moderation_entries(self),
    {
        let ghost vs = moderation_values(self);
        let keys = moderation_key_list();
        let Moderation { input } = self;
        let mut values: Vec<Option<Field>> = Vec::new();
        values.push(Some(Field::Text(input)));
        assert(values@ =~= vs);
        assert(key_views(keys@) =~= moderation_keys()) by {
            assert forall|j: int| 0 <= j < 1 implies #[trigger] key_views(keys@)[j] == moderation_keys()[j] by {
                assert(keys@[j]@ == moderation_keys()[j]);
            }
        }
        entries_from(&keys, values)
    }

    /// The configuration that `entries` describe, if they describe one.
    pub fn from_entries(entries: Vec<Entry>) -> (r: Option<Moderation>)
        ensures
            r == moderation_of_entries(entries_view(entries@)),
    {
        let ghost view = entries_view(entries@);
        let keys = moderation_key_list();
        proof {
            reveal_strlit("input");
        }
        let mut slots = take_slots(entries, &keys);
        let ghost all = slots@;
        let s0 = slots.pop().unwrap();
        assert(s0 == all[0]);
        assert(s0 == lookup(view, "input"@));
        let input = match s0 {
            Some(Field::Text(v)) => v,
            _ => {
                return None;
            },
        };
        Some(Moderation { input })
    }
}

} // verus!
