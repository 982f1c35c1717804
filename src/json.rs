use vstd::prelude::*;
use vstd::utf8::{decode_utf8, valid_utf8};

use crate::trace::{hex_char, resolved_trace_info, trace_info_from_ids, TraceInfo};

verus! {

/// How JSON writes one character inside a string literal.
pub open spec fn json_escape(c: char) -> Seq<char> {
    if c == '"' {
        seq!['\\', '"']
    } else if c == '\\' {
        seq!['\\', '\\']
    } else if c == '\u{8}' {
        seq!['\\', 'b']
    } else if c == '\u{c}' {
        seq!['\\', 'f']
    } else if c == '\n' {
        seq!['\\', 'n']
    } else if c == '\r' {
        seq!['\\', 'r']
    } else if c == '\t' {
        seq!['\\', 't']
    } else if (c as nat) < 0x20 {
        seq!['\\', 'u', '0', '0', hex_char(c as nat / 16), hex_char(c as nat % 16)]
    } else {
        seq![c]
    }
}

/// The characters of `s`, each escaped as in a JSON string.
pub open spec fn json_escaped(s: Seq<char>) -> Seq<char>
    decreases s.len(),
{
    if s.len() == 0 {
        Seq::empty()
    } else {
        json_escaped(s.drop_last()) + json_escape(s.last())
    }
}

/// `s` as a JSON string literal.
pub open spec fn json_str(s: Seq<char>) -> Seq<char> {
    seq!['"'] + json_escaped(s) + seq!['"']
}

/// One `"key":value` member of a JSON object; `value` is JSON text already.
pub open spec fn entry(key: Seq<char>, value: Seq<char>) -> Seq<char> {
    json_str(key) + seq![':'] + value
}

/// The parts, separated by commas.
pub open spec fn joined(parts: Seq<Seq<char>>) -> Seq<char>
    decreases parts.len(),
{
    if parts.len() == 0 {
        Seq::empty()
    } else if parts.len() == 1 {
        parts[0]
    } else {
        joined(parts.drop_last()) + seq![','] + parts.last()
    }
}

/// A compact JSON object with the given members, in order.
pub open spec fn object_text(parts: Seq<Seq<char>>) -> Seq<char> {
    seq!['{'] + joined(parts) + seq!['}']
}

/// What serde_json reads from the text `s` as a `Value`, in its compact text form: the
/// first part is 0 for an object, 1 for another value and 2 where reading fails; the
/// second is an object's members (key, compact value text) in the order the map yields
/// them; the third is a non-object value's compact text, or the error's description.
pub uninterp spec fn json_reading(s: Seq<char>) -> (nat, Seq<(Seq<char>, Seq<char>)>, Seq<char>);

/// Relies on `serde_json::to_string` on a `str`: the string literal, escaped by the
/// compact formatter (which cannot fail when writing into a `Vec`).
#[verifier::external_body]
pub(crate) fn json_string(s: &str) -> (r: String)
    ensures
        r@ == json_str(s@),
{
    serde_json::to_string(s).unwrap_or_default()
}

/// A span's recorded field blob, as read back.
#[derive(Debug, Clone, PartialEq, Eq)]
pub enum FieldRecord {
    /// The blob is a JSON object: its members, each a key and the value's compact JSON text.
    Object(Vec<(String, String)>),
    /// The blob is JSON but no object: the value's compact JSON text.
    Other(String),
    /// The blob is no JSON: the parser's description of the fault.
    Invalid(String),
}

/// Object members as text.
pub open spec fn members_view(members: Seq<(String, String)>) -> Seq<(Seq<char>, Seq<char>)> {
    members.map_values(|m: (String, String)| (m.0@, m.1@))
}

/// `r` is what serde_json reads from the blob `s`.
pub open spec fn is_reading_of(r: FieldRecord, s: Seq<char>) -> bool {
    let (kind, members, text) = json_reading(s);
    match r {
        FieldRecord::Object(m) => kind == 0 && members_view(m@) == members,
        FieldRecord::Other(v) => kind == 1 && v@ == text,
        FieldRecord::Invalid(e) => kind == 2 && e@ == text,
    }
}

/// Relies on `serde_json::from_str::<serde_json::Value>`, which fails on text it cannot
/// read (not JSON, nested too deep, a number out of range), with the error's `Display`
/// for its description, and on `Value`'s `Display` (compact JSON) for the values read.
#[verifier::external_body]
fn read_field_record(blob: &str) -> (r: FieldRecord)
    ensures
        match r {
            FieldRecord::Object(m) => json_reading(blob@).0 == 0 && members_view(m@)
                == json_reading(blob@).1,
            FieldRecord::Other(v) => json_reading(blob@).0 == 1 && v@ == json_reading(blob@).2,
            FieldRecord::Invalid(e) => json_reading(blob@).0 == 2 && e@ == json_reading(blob@).2,
        },
{
    match serde_json::from_str::<serde_json::Value>(blob) {
        Ok(serde_json::Value::Object(m)) => FieldRecord::Object(
            m.into_iter().map(|(k, v)| (k, v.to_string())).collect(),
        ),
        Ok(v) => FieldRecord::Other(v.to_string()),
        Err(e) => FieldRecord::Invalid(e.to_string()),
    }
}

impl FieldRecord {
    /// Whether the record was read as a JSON object, as a span's fields should be.
    pub fn is_object(&self) -> (r: bool)
        ensures
            r == (*self is Object),
    {
        match self {
            FieldRecord::Object(_) => true,
            _ => false,
        }
    }

    /// Reads a span's recorded field blob, which should hold a JSON object.
    pub fn parse(blob: &str) -> (r: FieldRecord)
        ensures
            is_reading_of(r, blob@),
    {
        read_field_record(blob)
    }
}

/// A span's field record that strict handling refuses.
#[derive(Debug, Clone, Copy, PartialEq, Eq)]
pub enum MalformedFields {
    /// The blob was JSON, but no object.
    NotAnObject,
    /// The blob was no JSON that could be read.
    Unreadable,
}

/// Checks a span's field record under the chosen handling: lenient handling takes every
/// record (the formatter then reports the fault inside the record); strict handling
/// refuses any record that is not an object.
pub fn check_fields(strict: bool, fields: &FieldRecord) -> (r: Result<(), MalformedFields>)
    ensures
        r is Err <==> strict && !(*fields is Object),
        r == Err::<(), MalformedFields>(MalformedFields::NotAnObject) <==> strict && *fields is Other,
        r == Err::<(), MalformedFields>(MalformedFields::Unreadable) <==> strict && *fields is Invalid,
{
    if !strict {
        return Ok(());
    }
    match fields {
        FieldRecord::Object(_) => Ok(()),
        FieldRecord::Other(_) => Err(MalformedFields::NotAnObject),
        FieldRecord::Invalid(_) => Err(MalformedFields::Unreadable),
    }
}

/// Builds one `"key":value` member.
pub(crate) fn entry_text(key: &str, value: &str) -> (r: String)
    ensures
        r@ == entry(key@, value@),
{
    let mut r = json_string(key);
    r.append(":");
    r.append(value);
    proof {
        reveal_strlit(":");
    }
    r
}

pub open spec fn views(parts: Seq<String>) -> Seq<Seq<char>> {
    parts.map_values(|p: String| p@)
}

/// Builds a compact JSON object from its members, in order.
pub fn object_of(parts: &Vec<String>) -> (r: String)
    ensures
        r@ == object_text(views(parts@)),
{
    let mut r = String::from_str("{");
    proof {
        reveal_strlit("{");
    }
    let mut i: usize = 0;
    while i < parts.len()
        invariant
            i <= parts@.len(),
            r@ == seq!['{'] + joined(views(parts@).take(i as int)),
        decreases parts@.len() - i,
    {
        let ghost before = views(parts@).take(i as int);
        let ghost after = views(parts@).take(i + 1);
        assert(after.drop_last() == before);
        assert(after.last() == parts@[i as int]@);
        if i > 0 {
            r.append(",");
            proof {
                reveal_strlit(",");
            }
            r.append(parts[i].as_str());
            assert(joined(after) == joined(before) + seq![','] + parts@[i as int]@);
            assert(r@ =~= seq!['{'] + joined(after));
        } else {
            assert(joined(before) =~= Seq::<char>::empty());
            r.append(parts[i].as_str());
            assert(joined(after) == parts@[i as int]@);
            assert(r@ =~= seq!['{'] + joined(after));
        }
        i = i + 1;
    }
    assert(views(parts@).take(parts@.len() as int) == views(parts@));
    r.append("}");
    proof {
        reveal_strlit("}");
    }
    r
}

/// The members that a span contributes: its recorded fields, flattened, then its name.
pub open spec fn span_parts(fields: FieldRecord, name: Seq<char>) -> Seq<Seq<char>> {
    let name_part = entry("name"@, json_str(name));
    match fields {
        FieldRecord::Object(members) => members@.map_values(
            |m: (String, String)| entry(m.0@, m.1@),
        ).push(name_part),
        FieldRecord::Other(v) => seq![
            entry("field"@, v@),
            entry("field_error"@, json_str("field was no a valid object"@)),
            name_part,
        ],
        FieldRecord::Invalid(e) => seq![entry("field_error"@, json_str(e@)), name_part],
    }
}

/// Serializes a span as a JSON object: its recorded fields flattened, then its name.
/// A record that is no object is kept under `field`, with a `field_error` beside it; a
/// record that is no JSON yields only a `field_error` holding the parser's description.
pub fn span_object(fields: &FieldRecord, name: &str) -> (r: String)
    ensures
        r@ == object_text(span_parts(*fields, name@)),
{
    let mut parts: Vec<String> = Vec::new();
    match fields {
        FieldRecord::Object(members) => {
            let mut i: usize = 0;
            while i < members.len()
                invariant
                    i <= members@.len(),
                    views(parts@) == members@.take(i as int).map_values(
                        |m: (String, String)| entry(m.0@, m.1@),
                    ),
                decreases members@.len() - i,
            {
                let e = entry_text(members[i].0.as_str(), members[i].1.as_str());
                let ghost prev = views(parts@);
                parts.push(e);
                assert(views(parts@) =~= prev.push(e@));
                assert(members@.take(i + 1) =~= members@.take(i as int).push(members@[i as int]));
                i = i + 1;
                assert(views(parts@) =~= members@.take(i as int).map_values(
                    |m: (String, String)| entry(m.0@, m.1@),
                ));
            }
            assert(members@.take(members@.len() as int) == members@);
        },
        FieldRecord::Other(v) => {
            parts.push(entry_text("field", v.as_str()));
            let err = json_string("field was no a valid object");
            parts.push(entry_text("field_error", err.as_str()));
        },
        FieldRecord::Invalid(e) => {
            let err = json_string(e.as_str());
            parts.push(entry_text("field_error", err.as_str()));
        },
    }
    let name_text = json_string(name);
    parts.push(entry_text("name", name_text.as_str()));
    assert(views(parts@) =~= span_parts(*fields, name@));
    object_of(&parts)
}

/// An event's severity.
#[derive(Debug, Clone, Copy, PartialEq, Eq)]
pub enum Level {
    Trace,
    Debug,
    Info,
    Warn,
    Error,
}

impl Level {
    pub open spec fn spec_name(self) -> Seq<char> {
        match self {
            Level::Trace => "TRACE"@,
            Level::Debug => "DEBUG"@,
            Level::Info => "INFO"@,
            Level::Warn => "WARN"@,
            Level::Error => "ERROR"@,
        }
    }

    /// The level's short upper-case name, as it is written in a record.
    pub fn name(&self) -> (r: &'static str)
        ensures
            r@ == self.spec_name(),
    {
        match self {
            Level::Trace => "TRACE",
            Level::Debug => "DEBUG",
            Level::Info => "INFO",
            Level::Warn => "WARN",
            Level::Error => "ERROR",
        }
    }
}

/// What a record shows of the span that is current when an event is formatted.
#[derive(Debug, Clone, PartialEq, Eq)]
pub struct SpanSnapshot {
    pub name: String,
    pub fields: FieldRecord,
    pub trace: Option<TraceInfo>,
}

/// The trace info that a span's ids yield, where the span has any.
pub open spec fn snapshot_trace_matches(
    trace: Option<TraceInfo>,
    ids: Option<(u128, u64, Option<u64>)>,
) -> bool {
    match ids {
        None => trace is None,
        Some((t, s, e)) => match (trace, resolved_trace_info(t, s, e)) {
            (None, None) => true,
            (Some(info), Some((ts, ss))) => info.trace_id@ == ts && info.span_id@ == ss,
            _ => false,
        },
    }
}

impl SpanSnapshot {
    /// Takes a span's name, its recorded field blob, and its ids where it has any: the
    /// context's trace id and span id and the span id that the export side assigned.
    pub fn new(name: String, blob: &str, ids: Option<(u128, u64, Option<u64>)>) -> (r: Self)
        ensures
            r.name@ == name@,
            is_reading_of(r.fields, blob@),
            snapshot_trace_matches(r.trace, ids),
    {
        let fields = FieldRecord::parse(blob);
        let trace = match ids {
            None => None,
            Some((t, s, e)) => trace_info_from_ids(t, s, e),
        };
        SpanSnapshot { name, fields, trace }
    }
}

/// The members of one record, in order: time, level, event fields and target, then the
/// current span and its ids where there are any.
pub open spec fn record_parts(
    timestamp: Seq<char>,
    level: Level,
    fields: Seq<char>,
    target: Seq<char>,
    span: Option<SpanSnapshot>,
) -> Seq<Seq<char>> {
    let base = seq![
        entry("timestamp"@, json_str(timestamp)),
        entry("level"@, json_str(level.spec_name())),
        entry("fields"@, fields),
        entry("target"@, json_str(target)),
    ];
    match span {
        None => base,
        Some(sp) => {
            let with_span = base.push(entry("span"@, object_text(span_parts(sp.fields, sp.name@))));
            match sp.trace {
                None => with_span,
                Some(t) => with_span.push(entry("span_id"@, json_str(t.span_id@))).push(
                    entry("trace_id"@, json_str(t.trace_id@)),
                ),
            }
        },
    }
}

/// One record: a compact JSON object and a line end.
pub open spec fn record_line(
    timestamp: Seq<char>,
    level: Level,
    fields: Seq<char>,
    target: Seq<char>,
    span: Option<SpanSnapshot>,
) -> Seq<char> {
    object_text(record_parts(timestamp, level, fields, target, span)) + seq!['\n']
}

/// Relies on chrono's `Utc::now().to_rfc3339()`: the time now, in RFC 3339. Nothing is
/// claimed of the text, which depends on the clock.
#[verifier::external_body]
fn now_rfc3339() -> (r: String) {
    chrono::Utc::now().to_rfc3339()
}

/// Formats log events as JSON lines that carry the current span and its trace ids.
#[derive(Debug, Clone, Copy, PartialEq, Eq)]
pub struct Json;

impl Json {
    /// Formats one record. `fields` is the JSON object text of the event's own fields.
    pub fn format_record(
        &self,
        timestamp: &str,
        level: Level,
        fields: &str,
        target: &str,
        span: &Option<SpanSnapshot>,
    ) -> (r: String)
        ensures
            r@ == record_line(timestamp@, level, fields@, target@, *span),
    {
        let mut parts: Vec<String> = Vec::new();
        let ts = json_string(timestamp);
        parts.push(entry_text("timestamp", ts.as_str()));
        let lv = json_string(level.name());
        parts.push(entry_text("level", lv.as_str()));
        parts.push(entry_text("fields", fields));
        let tg = json_string(target);
        parts.push(entry_text("target", tg.as_str()));
        match span {
            None => {},
            Some(sp) => {
                let obj = span_object(&sp.fields, sp.name.as_str());
                parts.push(entry_text("span", obj.as_str()));
                match &sp.trace {
                    None => {},
                    Some(t) => {
                        let sid = json_string(t.span_id.as_str());
                        parts.push(entry_text("span_id", sid.as_str()));
                        let tid = json_string(t.trace_id.as_str());
                        parts.push(entry_text("trace_id", tid.as_str()));
                    },
                }
            },
        }
        assert(views(parts@) =~= record_parts(timestamp@, level, fields@, target@, *span));
        let mut r = object_of(&parts);
        r.append("\n");
        proof {
            reveal_strlit("\n");
        }
        r
    }

    /// Formats one record stamped with the time now.
    pub fn format_event(
        &self,
        level: Level,
        fields: &str,
        target: &str,
        span: &Option<SpanSnapshot>,
    ) -> (r: String)
        ensures
            exists|ts: Seq<char>| r@ == record_line(ts, level, fields@, target@, *span),
    {
        let ts = now_rfc3339();
        let r = self.format_record(ts.as_str(), level, fields, target, span);
        assert(r@ == record_line(ts@, level, fields@, target@, *span));
        r
    }
}

/// Why a write into the adaptor was refused.
#[derive(Debug, Clone, Copy, PartialEq, Eq)]
pub enum WriteError {
    /// The bytes are not UTF-8.
    InvalidData,
}

/// Relies on `std::str::from_utf8`: the text that the bytes encode, where they are UTF-8.
#[verifier::external_body]
fn utf8_text(buf: &[u8]) -> (r: Option<&str>)
    ensures
        r is Some <==> valid_utf8(buf@),
        r matches Some(s) ==> s@ == decode_utf8(buf@),
{
    std::str::from_utf8(buf).ok()
}

/// Lets a byte-oriented JSON writer append to text, taking only UTF-8.
pub struct WriteAdaptor {
    pub text: String,
}

impl WriteAdaptor {
    /// An adaptor that appends to `text`.
    pub fn new(text: String) -> (r: Self)
        ensures
            r.text@ == text@,
    {
        WriteAdaptor { text }
    }

    /// Appends the text that `buf` encodes and reports all its bytes taken; refuses bytes
    /// that are not UTF-8 and leaves the text as it was.
    pub fn write(&mut self, buf: &[u8]) -> (r: Result<usize, WriteError>)
        ensures
            match r {
                Ok(n) => valid_utf8(buf@) && n == buf@.len() && final(self).text@ == old(
                    self,
                ).text@ + decode_utf8(buf@),
                Err(e) => !valid_utf8(buf@) && e == WriteError::InvalidData && final(self).text@
                    == old(self).text@,
            },
    {
        match utf8_text(buf) {
            Some(s) => {
                self.text.append(s);
                Ok(buf.len())
            },
            None => Err(WriteError::InvalidData),
        }
    }

    /// Nothing is held back: flushing does nothing.
    pub fn flush(&mut self) -> (r: Result<(), WriteError>)
        ensures
            r is Ok,
            final(self).text@ == old(self).text@,
    {
        Ok(())
    }

    /// The text written so far.
    pub fn into_text(self) -> (r: String)
        ensures
            r@ == self.text@,
    {
        self.text
    }
}

/// With no current span a record holds exactly time, level, event fields and target, in
/// that order, and no span, span id or trace id member.
pub proof fn law_record_without_span(
    timestamp: Seq<char>,
    level: Level,
    fields: Seq<char>,
    target: Seq<char>,
)
    ensures
        record_line(timestamp, level, fields, target, None) == seq!['{'] + entry(
            "timestamp"@,
            json_str(timestamp),
        ) + seq![','] + entry("level"@, json_str(level.spec_name())) + seq![','] + entry(
            "fields"@,
            fields,
        ) + seq![','] + entry("target"@, json_str(target)) + seq!['}', '\n'],
{
    let parts = record_parts(timestamp, level, fields, target, None);
    reveal_with_fuel(joined, 5);
    assert(parts.drop_last().drop_last().drop_last() =~= seq![parts[0]]);
    assert(parts.drop_last().drop_last() =~= seq![parts[0], parts[1]]);
    assert(parts.drop_last() =~= seq![parts[0], parts[1], parts[2]]);
    assert(record_line(timestamp, level, fields, target, None) =~= seq!['{'] + entry(
        "timestamp"@,
        json_str(timestamp),
    ) + seq![','] + entry("level"@, json_str(level.spec_name())) + seq![','] + entry(
        "fields"@,
        fields,
    ) + seq![','] + entry("target"@, json_str(target)) + seq!['}', '\n']);
}

/// A field record that is a JSON object is flattened into the span's members, followed
/// by the name and by nothing else.
pub proof fn law_object_record_flattened(members: Vec<(String, String)>, name: Seq<char>)
    ensures
        span_parts(FieldRecord::Object(members), name).len() == members@.len() + 1,
        forall|i: int|
            0 <= i < members@.len() ==> #[trigger] span_parts(
                FieldRecord::Object(members),
                name,
            )[i] == entry(members@[i].0@, members@[i].1@),
        span_parts(FieldRecord::Object(members), name).last() == entry(
            "name"@,
            json_str(name),
        ),
{
}

/// A field record that is no JSON gives a `field_error` with the parser's description,
/// then the name; the record is still one object and ends its line.
pub proof fn law_invalid_record_reported(
    error: String,
    name: String,
    timestamp: Seq<char>,
    level: Level,
    fields: Seq<char>,
    target: Seq<char>,
    trace: Option<TraceInfo>,
)
    ensures
        span_parts(FieldRecord::Invalid(error), name@) == seq![
            entry("field_error"@, json_str(error@)),
            entry("name"@, json_str(name@)),
        ],
        ({
            let line = record_line(
                timestamp,
                level,
                fields,
                target,
                Some(SpanSnapshot { name, fields: FieldRecord::Invalid(error), trace }),
            );
            line[0] == '{' && line[line.len() - 2] == '}' && line.last() == '\n'
        }),
{
    let sp = SpanSnapshot { name, fields: FieldRecord::Invalid(error), trace };
    let parts = record_parts(timestamp, level, fields, target, Some(sp));
    let o = object_text(parts);
    assert(o[0] == '{');
    assert(o.last() == '}');
    let line = o + seq!['\n'];
    assert(line[0] == o[0]);
    assert(line[line.len() - 2] == o.last());
}

/// A field record that is JSON but no object is kept under `field`, flagged by a fixed
/// `field_error`, then comes the name.
pub proof fn law_scalar_record_kept(value: String, name: Seq<char>)
    ensures
        span_parts(FieldRecord::Other(value), name) == seq![
            entry("field"@, value@),
            entry("field_error"@, json_str("field was no a valid object"@)),
            entry("name"@, json_str(name)),
        ],
{
}

/// `s` holds no line end.
pub open spec fn one_line(s: Seq<char>) -> bool {
    forall|i: int| 0 <= i < s.len() ==> #[trigger] s[i] != '\n'
}

proof fn lemma_escaped_one_line(s: Seq<char>)
    ensures
        one_line(json_escaped(s)),
    decreases s.len(),
{
    if s.len() > 0 {
        lemma_escaped_one_line(s.drop_last());
        let c = s.last();
        let e = json_escape(c);
        if (c as nat) < 0x20 && c != '\u{8}' && c != '\u{c}' && c != '\n' && c != '\r' && c
            != '\t' {
            assert(c as nat / 16 < 16 && c as nat % 16 < 16);
        }
        assert(one_line(e));
        let r = json_escaped(s.drop_last()) + e;
        assert(json_escaped(s) == r);
        assert forall|i: int| 0 <= i < r.len() implies #[trigger] r[i] != '\n' by {
            if i >= json_escaped(s.drop_last()).len() {
                assert(r[i] == e[i - json_escaped(s.drop_last()).len()]);
            }
        }
    }
}

proof fn lemma_concat_one_line(a: Seq<char>, b: Seq<char>)
    requires
        one_line(a),
        one_line(b),
    ensures
        one_line(a + b),
{
    assert forall|i: int| 0 <= i < (a + b).len() implies #[trigger] (a + b)[i] != '\n' by {
        if i >= a.len() {
            assert((a + b)[i] == b[i - a.len()]);
        } else {
            assert((a + b)[i] == a[i]);
        }
    }
}

proof fn lemma_entry_one_line(key: Seq<char>, value: Seq<char>)
    requires
        one_line(value),
    ensures
        one_line(entry(key, value)),
{
    lemma_escaped_one_line(key);
    lemma_concat_one_line(seq!['"'], json_escaped(key));
    lemma_concat_one_line(seq!['"'] + json_escaped(key), seq!['"']);
    lemma_concat_one_line(json_str(key), seq![':']);
    lemma_concat_one_line(json_str(key) + seq![':'], value);
}

proof fn lemma_json_str_one_line(s: Seq<char>)
    ensures
        one_line(json_str(s)),
{
    lemma_escaped_one_line(s);
    lemma_concat_one_line(seq!['"'], json_escaped(s));
    lemma_concat_one_line(seq!['"'] + json_escaped(s), seq!['"']);
}

/// With no current span, and event fields that hold no line end, a record is exactly one
/// line: its one line end is its last character.
pub proof fn law_record_without_span_is_one_line(
    timestamp: Seq<char>,
    level: Level,
    fields: Seq<char>,
    target: Seq<char>,
)
    requires
        one_line(fields),
    ensures
        ({
            let line = record_line(timestamp, level, fields, target, None);
            line.last() == '\n' && one_line(line.drop_last())
        }),
{
    law_record_without_span(timestamp, level, fields, target);
    lemma_json_str_one_line(timestamp);
    lemma_json_str_one_line(level.spec_name());
    lemma_json_str_one_line(target);
    let e1 = entry("timestamp"@, json_str(timestamp));
    let e2 = entry("level"@, json_str(level.spec_name()));
    let e3 = entry("fields"@, fields);
    let e4 = entry("target"@, json_str(target));
    lemma_entry_one_line("timestamp"@, json_str(timestamp));
    lemma_entry_one_line("level"@, json_str(level.spec_name()));
    lemma_entry_one_line("fields"@, fields);
    lemma_entry_one_line("target"@, json_str(target));
    let sep = seq![','];
    let a1 = seq!['{'] + e1;
    lemma_concat_one_line(seq!['{'], e1);
    lemma_concat_one_line(a1, sep);
    lemma_concat_one_line(a1 + sep, e2);
    lemma_concat_one_line(a1 + sep + e2, sep);
    lemma_concat_one_line(a1 + sep + e2 + sep, e3);
    lemma_concat_one_line(a1 + sep + e2 + sep + e3, sep);
    lemma_concat_one_line(a1 + sep + e2 + sep + e3 + sep, e4);
    let body = a1 + sep + e2 + sep + e3 + sep + e4;
    lemma_concat_one_line(body, seq!['}']);
    let line = record_line(timestamp, level, fields, target, None);
    assert(line == body + seq!['}', '\n']);
    assert(line.drop_last() =~= body + seq!['}']);
}

} // verus!
