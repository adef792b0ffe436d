//! The two commands of the log, their record text, and the decoding of a
//! record back into a command.
//!
//! A record is the JSON object `{"Set":{"key":K,"value":V}}` or
//! `{"Remove":{"key":K}}`; records follow each other with nothing between.
use vstd::prelude::*;
use vstd::string::*;
use crate::error::KvsError;
use std::collections::BTreeMap;

verus! {

/// A command as the log states it.
pub ghost enum Cmd {
    SetValue(Seq<char>, Seq<char>),
    Remove(Seq<char>),
}

impl Cmd {
    pub open spec fn key(self) -> Seq<char> {
        match self {
            Cmd::SetValue(k, _) => k,
            Cmd::Remove(k) => k,
        }
    }
}

/// One entry of the log.
#[derive(Debug)]
pub enum Command {
    SetValue { key: String, value: String },
    Remove { key: String },
}

impl View for Command {
    type V = Cmd;

    open spec fn view(&self) -> Cmd {
        match self {
            Command::SetValue { key, value } => Cmd::SetValue(key@, value@),
            Command::Remove { key } => Cmd::Remove(key@),
        }
    }
}

impl Command {
    /// The command that gives `key` the value `value`.
    pub fn set(key: String, value: String) -> (r: Command)
        ensures
            r@ == Cmd::SetValue(key@, value@),
    {
        Command::SetValue { key, value }
    }

    /// The command that deletes `key`.
    pub fn remove(key: String) -> (r: Command)
        ensures
            r@ == Cmd::Remove(key@),
    {
        Command::Remove { key }
    }
}

/// The JSON string literal (quotes and escapes included) that serde_json
/// writes for `s`.
pub uninterp spec fn json_string(s: Seq<char>) -> Seq<char>;

/// Relies on `serde_json::to_string` on a `str`: the quoted and escaped JSON
/// form of the text. Serialising a string does not fail.
#[verifier::external_body]
fn quote(s: &str) -> (r: String)
    ensures
        r@ == json_string(s@),
{
    match serde_json::to_string(s) {
        Ok(q) => q,
        Err(_) => String::new(),
    }
}

/// Record text of a command.
pub open spec fn encoding(c: Cmd) -> Seq<char> {
    match c {
        Cmd::SetValue(k, v) => "{\"Set\":{\"key\":"@ + json_string(k) + ",\"value\":"@ + json_string(v)
            + "}}"@,
        Cmd::Remove(k) => "{\"Remove\":{\"key\":"@ + json_string(k) + "}}"@,
    }
}

/// The record text that stands for `cmd` in a segment file.
pub fn encode(cmd: &Command) -> (r: String)
    ensures
        r@ == encoding(cmd@),
{
    match cmd {
        Command::SetValue { key, value } => {
            let mut out = "{\"Set\":{\"key\":".to_owned();
            out.append(quote(key.as_str()).as_str());
            out.append(",\"value\":");
            out.append(quote(value.as_str()).as_str());
            out.append("}}");
            out
        },
        Command::Remove { key } => {
            let mut out = "{\"Remove\":{\"key\":".to_owned();
            out.append(quote(key.as_str()).as_str());
            out.append("}}");
            out
        },
    }
}

/// Fields of a JSON object whose values are all strings, in key order.
pub type Fields = Vec<(String, String)>;

/// A JSON object whose values are objects of string fields.
pub type Object = Vec<(String, Fields)>;

pub open spec fn fields_view(f: Seq<(String, String)>) -> Seq<(Seq<char>, Seq<char>)> {
    f.map_values(|p: (String, String)| (p.0@, p.1@))
}

pub open spec fn object_view(o: Seq<(String, Fields)>) -> Seq<(Seq<char>, Seq<(Seq<char>, Seq<char>)>)> {
    o.map_values(|p: (String, Fields)| (p.0@, fields_view(p.1@)))
}

/// What serde_json's stream deserializer reads first from `b` as an object
/// of objects of strings: `None` when only whitespace is left; otherwise the
/// object, or `None` for text that is not one, with the offset after it.
pub uninterp spec fn json_record(b: Seq<u8>) -> Option<
    (Option<Seq<(Seq<char>, Seq<(Seq<char>, Seq<char>)>)>>, nat),
>;

/// Relies on `serde_json::StreamDeserializer::next` and `byte_offset`, on
/// the bytes from `start`: the first JSON value there, read as a map of maps
/// of strings, and the offset just after it. A value read takes at least one
/// byte and lies within the slice.
#[verifier::external_body]
fn next_record(bytes: &[u8], start: usize) -> (r: Option<(Option<Object>, usize)>)
    requires
        start <= bytes@.len(),
    ensures
        match r {
            None => json_record(bytes@.subrange(start as int, bytes@.len() as int)) is None,
            Some((o, end)) => {
                &&& json_record(bytes@.subrange(start as int, bytes@.len() as int)) == Some(
                    (
                        match o {
                            Some(v) => Some(object_view(v@)),
                            None => None,
                        },
                        (end - start) as nat,
                    ),
                )
                &&& (o is Some ==> start < end <= bytes@.len())
            },
        },
{
    let mut stream = serde_json::Deserializer::from_slice(&bytes[start..]).into_iter::<
        BTreeMap<String, BTreeMap<String, String>>,
    >();
    match stream.next() {
        None => None,
        Some(Ok(m)) => Some(
            (
                Some(m.into_iter().map(|(k, f)| (k, f.into_iter().collect())).collect()),
                start + stream.byte_offset(),
            ),
        ),
        Some(Err(_)) => Some((None, start + stream.byte_offset())),
    }
}

/// Value of the first field named `name`.
pub open spec fn field(f: Seq<(Seq<char>, Seq<char>)>, name: Seq<char>) -> Option<Seq<char>>
    decreases f.len(),
{
    if f.len() == 0 {
        None
    } else if f[0].0 == name {
        Some(f[0].1)
    } else {
        field(f.drop_first(), name)
    }
}

/// The command that a decoded object stands for: exactly one entry, tagged
/// `Set` with a `key` and a `value`, or `Remove` with a `key`.
pub open spec fn command_of(o: Seq<(Seq<char>, Seq<(Seq<char>, Seq<char>)>)>) -> Option<Cmd> {
    if o.len() != 1 {
        None
    } else if o[0].0 == "Set"@ {
        match (field(o[0].1, "key"@), field(o[0].1, "value"@)) {
            (Some(k), Some(v)) => Some(Cmd::SetValue(k, v)),
            _ => None,
        }
    } else if o[0].0 == "Remove"@ {
        match field(o[0].1, "key"@) {
            Some(k) => Some(Cmd::Remove(k)),
            None => None,
        }
    } else {
        None
    }
}

/// Looks up the first field named `name`.
fn find_field(f: &Fields, name: &String) -> (r: Option<String>)
    ensures
        match r {
            Some(v) => field(fields_view(f@), name@) == Some(v@),
            None => field(fields_view(f@), name@) is None,
        },
{
    let mut i: usize = 0;
    assert(fields_view(f@).subrange(0, f@.len() as int) =~= fields_view(f@));
    while i < f.len()
        invariant
            i <= f@.len(),
            field(fields_view(f@), name@) == field(fields_view(f@).subrange(i as int, f@.len() as int), name@),
        decreases f@.len() - i,
    {
        let ghost rest = fields_view(f@).subrange(i as int, f@.len() as int);
        assert(rest.drop_first() =~= fields_view(f@).subrange(i + 1, f@.len() as int));
        if f[i].0 == *name {
            return Some(f[i].1.clone());
        }
        i = i + 1;
    }
    assert(fields_view(f@).subrange(i as int, f@.len() as int).len() == 0);
    None
}

/// The command that a decoded object stands for, or `CorruptLog`.
pub fn command_from_object(o: &Object) -> (r: Result<Command, KvsError>)
    ensures
        match command_of(object_view(o@)) {
            Some(c) => r is Ok && r->Ok_0@ == c,
            None => r == Err::<Command, KvsError>(KvsError::CorruptLog),
        },
{
    if o.len() != 1 {
        return Err(KvsError::CorruptLog);
    }
    let tag = &o[0].0;
    let fields = &o[0].1;
    let key_name = "key".to_owned();
    if *tag == "Set".to_owned() {
        let value_name = "value".to_owned();
        match (find_field(fields, &key_name), find_field(fields, &value_name)) {
            (Some(k), Some(v)) => Ok(Command::SetValue { key: k, value: v }),
            _ => Err(KvsError::CorruptLog),
        }
    } else if *tag == "Remove".to_owned() {
        match find_field(fields, &key_name) {
            Some(k) => Ok(Command::Remove { key: k }),
            None => Err(KvsError::CorruptLog),
        }
    } else {
        Err(KvsError::CorruptLog)
    }
}

/// The first record of `b` as a command: `None` when only whitespace is
/// left, `Err(CorruptLog)` when the text there is not a command.
pub open spec fn record_at(b: Seq<u8>) -> Option<(Result<Cmd, KvsError>, nat)> {
    match json_record(b) {
        None => None,
        Some((None, end)) => Some((Err(KvsError::CorruptLog), end)),
        Some((Some(o), end)) => match command_of(o) {
            Some(c) => Some((Ok(c), end)),
            None => Some((Err(KvsError::CorruptLog), end)),
        },
    }
}

/// Decodes the record that starts at `start`, giving the command and the
/// offset just after it.
pub fn decode_at(bytes: &[u8], start: usize) -> (r: Option<(Result<Command, KvsError>, usize)>)
    requires
        start <= bytes@.len(),
    ensures
        match (record_at(bytes@.subrange(start as int, bytes@.len() as int)), r) {
            (None, None) => true,
            (Some((Ok(c), n)), Some((Ok(d), end))) => d@ == c && end == start + n && start < end
                <= bytes@.len(),
            (Some((Err(e), _)), Some((Err(f), _))) => e == f,
            _ => false,
        },
{
    match next_record(bytes, start) {
        None => None,
        Some((None, end)) => Some((Err(KvsError::CorruptLog), end)),
        Some((Some(o), end)) => Some((command_from_object(&o), end)),
    }
}

/// What a located record yields when read for a value: its value if it is
/// a `Set`, `UnexpectedCommandType` if it is a `Remove`, and `CorruptLog` if
/// it is not a command.
pub open spec fn value_of(b: Seq<u8>) -> Result<Seq<char>, KvsError> {
    match record_at(b) {
        Some((Ok(Cmd::SetValue(_, v)), _)) => Ok(v),
        Some((Ok(Cmd::Remove(_)), _)) => Err(KvsError::UnexpectedCommandType),
        _ => Err(KvsError::CorruptLog),
    }
}

/// Reads the bytes of one located record as a `Set` and gives its value.
pub fn value_of_record(bytes: &[u8]) -> (r: Result<String, KvsError>)
    ensures
        match value_of(bytes@) {
            Ok(v) => r is Ok && r->Ok_0@ == v,
            Err(e) => r == Err::<String, KvsError>(e),
        },
{
    assert(bytes@.subrange(0, bytes@.len() as int) =~= bytes@);
    match decode_at(bytes, 0) {
        Some((Ok(Command::SetValue { value, .. }), _)) => Ok(value),
        Some((Ok(Command::Remove { .. }), _)) => Err(KvsError::UnexpectedCommandType),
        _ => Err(KvsError::CorruptLog),
    }
}

} // verus!
