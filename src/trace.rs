use opentelemetry::trace::TraceContextExt;
use tracing_opentelemetry::OpenTelemetrySpanExt;
use vstd::prelude::*;

use crate::json::{entry, entry_text, json_str, json_string, object_of, object_text, views};

verus! {

/// A trace id and a span id, each as lower-case hexadecimal text.
#[derive(Debug, Clone, Default, PartialEq, Eq)]
pub struct TraceInfo {
    pub trace_id: String,
    pub span_id: String,
}

/// A trace context handed in from outside the process: ids and trace flags.
#[derive(Debug, Clone, Default, PartialEq, Eq)]
pub struct RemoteTraceContext {
    pub info: TraceInfo,
    pub trace_flags: u8,
}

/// Number of hex digits of a trace id.
pub const TRACE_ID_DIGITS: usize = 32;

/// Number of hex digits of a span id.
pub const SPAN_ID_DIGITS: usize = 16;

pub open spec fn is_hex_digit(c: char) -> bool {
    ('0' <= c && c <= '9') || ('a' <= c && c <= 'f') || ('A' <= c && c <= 'F')
}

pub open spec fn is_lower_hex_digit(c: char) -> bool {
    ('0' <= c && c <= '9') || ('a' <= c && c <= 'f')
}

pub open spec fn hex_digit_value(c: char) -> nat {
    if '0' <= c && c <= '9' {
        (c as nat - '0' as nat) as nat
    } else if 'a' <= c && c <= 'f' {
        (c as nat - 'a' as nat + 10) as nat
    } else {
        (c as nat - 'A' as nat + 10) as nat
    }
}

/// The lower-case digit for a value below sixteen.
pub open spec fn hex_char(d: nat) -> char {
    if d < 10 {
        (('0' as nat) + d) as char
    } else {
        (('a' as nat) + d - 10) as char
    }
}

/// `s` holds exactly `n` hexadecimal digits, of either case.
pub open spec fn is_hex_of_len(s: Seq<char>, n: nat) -> bool {
    s.len() == n && forall|i: int| 0 <= i < s.len() ==> is_hex_digit(#[trigger] s[i])
}

/// `s` holds exactly `n` lower-case hexadecimal digits.
pub open spec fn is_lower_hex_of_len(s: Seq<char>, n: nat) -> bool {
    s.len() == n && forall|i: int| 0 <= i < s.len() ==> is_lower_hex_digit(#[trigger] s[i])
}

/// The number that the hexadecimal digits of `s` write, most significant first.
pub open spec fn hex_value(s: Seq<char>) -> nat
    decreases s.len(),
{
    if s.len() == 0 {
        0
    } else {
        hex_value(s.drop_last()) * 16 + hex_digit_value(s.last())
    }
}

/// The last `n` hexadecimal digits of `v`, lower case, padded with zeros.
pub open spec fn lower_hex(v: nat, n: nat) -> Seq<char>
    decreases n,
{
    if n == 0 {
        Seq::empty()
    } else {
        lower_hex(v / 16, (n - 1) as nat).push(hex_char(v % 16))
    }
}

/// The trace info that a span context yields: none for the all-zero trace id; otherwise
/// both ids as hex text, the span id taken from the exporter's own id where there is one.
pub open spec fn resolved_trace_info(
    trace_id: u128,
    span_id: u64,
    export_span_id: Option<u64>,
) -> Option<(Seq<char>, Seq<char>)> {
    if trace_id == 0 {
        None
    } else {
        let sid = match export_span_id {
            Some(e) => e,
            None => span_id,
        };
        Some((lower_hex(trace_id as nat, 32), lower_hex(sid as nat, 16)))
    }
}

/// Relies on opentelemetry's `TraceId::from_hex`, which is `u128::from_str_radix(_, 16)`:
/// thirty-two hex digits always parse, to the number that they write.
#[verifier::external_body]
fn trace_id_from_hex(s: &str) -> (r: Option<u128>)
    ensures
        is_hex_of_len(s@, 32) ==> r == Some(hex_value(s@) as u128),
{
    opentelemetry::trace::TraceId::from_hex(s).ok().map(|t| u128::from_be_bytes(t.to_bytes()))
}

/// Relies on opentelemetry's `SpanId::from_hex`, which is `u64::from_str_radix(_, 16)`:
/// sixteen hex digits always parse, to the number that they write.
#[verifier::external_body]
fn span_id_from_hex(s: &str) -> (r: Option<u64>)
    ensures
        is_hex_of_len(s@, 16) ==> r == Some(hex_value(s@) as u64),
{
    opentelemetry::trace::SpanId::from_hex(s).ok().map(|t| u64::from_be_bytes(t.to_bytes()))
}

/// Relies on the `Display` of opentelemetry's `TraceId`: `{:032x}` of its value.
#[verifier::external_body]
fn trace_id_text(v: u128) -> (r: String)
    ensures
        r@ == lower_hex(v as nat, 32),
{
    opentelemetry::trace::TraceId::from_bytes(v.to_be_bytes()).to_string()
}

/// Relies on the `Display` of opentelemetry's `SpanId`: `{:016x}` of its value.
#[verifier::external_body]
fn span_id_text(v: u64) -> (r: String)
    ensures
        r@ == lower_hex(v as nat, 16),
{
    opentelemetry::trace::SpanId::from_bytes(v.to_be_bytes()).to_string()
}

/// Resolves the ids to report for a span, from its context's trace id and span id and
/// the span id that the export side assigned to it, if any. The all-zero trace id is
/// "no trace"; an exporter's span id wins over the context's, the trace id stays.
pub fn trace_info_from_ids(trace_id: u128, span_id: u64, export_span_id: Option<u64>) -> (r:
    Option<TraceInfo>)
    ensures
        match (r, resolved_trace_info(trace_id, span_id, export_span_id)) {
            (None, None) => true,
            (Some(info), Some((t, s))) => info.trace_id@ == t && info.span_id@ == s,
            _ => false,
        },
{
    if trace_id == 0 {
        return None;
    }
    let sid = match export_span_id {
        Some(e) => e,
        None => span_id,
    };
    Some(TraceInfo { trace_id: trace_id_text(trace_id), span_id: span_id_text(sid) })
}

/// Why a remote trace context was refused.
#[derive(Debug, Clone, Copy, PartialEq, Eq)]
pub enum TraceContextError {
    /// The trace id is not thirty-two hexadecimal digits.
    InvalidTraceId,
    /// The span id is not sixteen hexadecimal digits.
    InvalidSpanId,
}

/// What reading a remote context gives: both ids as numbers, or the first id at fault.
pub open spec fn remote_ids_spec(ctx: RemoteTraceContext) -> Result<(u128, u64), TraceContextError> {
    if !is_hex_of_len(ctx.info.trace_id@, 32) {
        Err(TraceContextError::InvalidTraceId)
    } else if !is_hex_of_len(ctx.info.span_id@, 16) {
        Err(TraceContextError::InvalidSpanId)
    } else {
        Ok((hex_value(ctx.info.trace_id@) as u128, hex_value(ctx.info.span_id@) as u64))
    }
}

/// Whether `s` is exactly `n` hexadecimal digits.
fn is_hex_text(s: &str, n: usize) -> (r: bool)
    ensures
        r == is_hex_of_len(s@, n as nat),
{
    let len = s.unicode_len();
    if len != n {
        return false;
    }
    let mut i: usize = 0;
    while i < len
        invariant
            len == s@.len(),
            i <= len,
            forall|j: int| 0 <= j < i ==> is_hex_digit(#[trigger] s@[j]),
        decreases len - i,
    {
        let c = s.get_char(i);
        if !(('0' <= c && c <= '9') || ('a' <= c && c <= 'f') || ('A' <= c && c <= 'F')) {
            return false;
        }
        i = i + 1;
    }
    true
}

impl RemoteTraceContext {
    /// Reads the ids of this context as numbers; each must be hex digits of its fixed
    /// length, upper or lower case.
    pub fn ids(&self) -> (r: Result<(u128, u64), TraceContextError>)
        ensures
            r == remote_ids_spec(*self),
    {
        if !is_hex_text(self.info.trace_id.as_str(), TRACE_ID_DIGITS) {
            return Err(TraceContextError::InvalidTraceId);
        }
        if !is_hex_text(self.info.span_id.as_str(), SPAN_ID_DIGITS) {
            return Err(TraceContextError::InvalidSpanId);
        }
        let t = trace_id_from_hex(self.info.trace_id.as_str());
        let s = span_id_from_hex(self.info.span_id.as_str());
        match (t, s) {
            (Some(t), Some(s)) => Ok((t, s)),
            (None, _) => Err(TraceContextError::InvalidTraceId),
            (_, None) => Err(TraceContextError::InvalidSpanId),
        }
    }
}

/// tracing's span handle, carried through opaque.
#[verifier::external_type_specification]
#[verifier::external_body]
pub struct ExSpan(tracing::Span);

/// A span whose parent was set to a remote span context, with a record of that
/// context's ids and flags (trace id, span id, trace flags).
pub struct LinkedSpan {
    pub span: tracing::Span,
    pub parent: Ghost<(u128, u64, u8)>,
}

/// Relies on tracing-opentelemetry's `OpenTelemetrySpanExt::set_parent`: the span's
/// parent becomes a remote span context with the given ids and flags; the span handle
/// itself is handed back as it was.
#[verifier::external_body]
fn set_remote_parent(span: tracing::Span, trace_id: u128, span_id: u64, flags: u8) -> (r:
    LinkedSpan)
    ensures
        r.span == span,
        r.parent@ == (trace_id, span_id, flags),
{
    let cx = opentelemetry::trace::SpanContext::new(
        opentelemetry::trace::TraceId::from_bytes(trace_id.to_be_bytes()),
        opentelemetry::trace::SpanId::from_bytes(span_id.to_be_bytes()),
        opentelemetry::trace::TraceFlags::new(flags),
        true,
        Default::default(),
    );
    span.set_parent(opentelemetry::Context::new().with_remote_span_context(cx));
    LinkedSpan { span, parent: Ghost((trace_id, span_id, flags)) }
}

/// Makes `span` continue the trace of `trace_context`, as the child of a remote span
/// with its ids and flags, and hands the same span back.
pub fn remote_trace_span(span: tracing::Span, trace_context: &RemoteTraceContext) -> (r: Result<
    LinkedSpan,
    TraceContextError,
>)
    ensures
        r is Err <==> remote_ids_spec(*trace_context) is Err,
        r matches Err(e) ==> remote_ids_spec(*trace_context) == Err::<(u128, u64), _>(e),
        r matches Ok(l) ==> l.span == span && remote_ids_spec(*trace_context) == Ok::<
            (u128, u64),
            TraceContextError,
        >((l.parent@.0, l.parent@.1)) && l.parent@.2 == trace_context.trace_flags,
{
    match trace_context.ids() {
        Ok((t, s)) => Ok(set_remote_parent(span, t, s, trace_context.trace_flags)),
        Err(e) => Err(e),
    }
}

proof fn lemma_hex_digit_round_trip(c: char)
    requires
        is_lower_hex_digit(c),
    ensures
        hex_digit_value(c) < 16,
        hex_char(hex_digit_value(c)) == c,
{
}

proof fn lemma_lower_hex_of_value(s: Seq<char>)
    requires
        is_lower_hex_of_len(s, s.len()),
    ensures
        lower_hex(hex_value(s), s.len()) == s,
    decreases s.len(),
{
    if s.len() > 0 {
        let p = s.drop_last();
        assert(is_lower_hex_of_len(p, p.len())) by {
            assert forall|i: int| 0 <= i < p.len() implies is_lower_hex_digit(#[trigger] p[i]) by {
                assert(p[i] == s[i]);
            }
        }
        lemma_lower_hex_of_value(p);
        lemma_hex_digit_round_trip(s.last());
        let d = hex_digit_value(s.last());
        let v = hex_value(p) * 16 + d;
        assert(v / 16 == hex_value(p) && v % 16 == d) by {
            vstd::arithmetic::div_mod::lemma_fundamental_div_mod_converse(
                v as int,
                16,
                hex_value(p) as int,
                d as int,
            );
        }
        assert(lower_hex(v, s.len()) == lower_hex(hex_value(p), p.len()).push(s.last()));
        assert(s == p.push(s.last()));
    }
}

proof fn lemma_hex_value_bound(s: Seq<char>)
    requires
        forall|i: int| 0 <= i < s.len() ==> is_hex_digit(#[trigger] s[i]),
    ensures
        hex_value(s) < pow16(s.len()),
    decreases s.len(),
{
    if s.len() > 0 {
        let p = s.drop_last();
        assert forall|i: int| 0 <= i < p.len() implies is_hex_digit(#[trigger] p[i]) by {
            assert(p[i] == s[i]);
        }
        lemma_hex_value_bound(p);
        assert(is_hex_digit(s[s.len() - 1]));
        let a = hex_value(p);
        let b = pow16(p.len());
        assert(a * 16 + hex_digit_value(s.last()) < b * 16) by (nonlinear_arith)
            requires
                a < b,
                hex_digit_value(s.last()) < 16,
        ;
    }
}

/// Sixteen to the power `n`.
pub open spec fn pow16(n: nat) -> nat
    decreases n,
{
    if n == 0 {
        1
    } else {
        pow16((n - 1) as nat) * 16
    }
}

/// A remote context whose ids are lower-case hex of the right lengths, with a trace id
/// other than all zeros, resolves back to the very same id texts: continuing a remote
/// trace reports the trace id that was handed in.
pub proof fn law_remote_ids_resolve_back(ctx: RemoteTraceContext)
    requires
        is_lower_hex_of_len(ctx.info.trace_id@, 32),
        is_lower_hex_of_len(ctx.info.span_id@, 16),
        hex_value(ctx.info.trace_id@) != 0,
    ensures
        remote_ids_spec(ctx) matches Ok((t, s)) && resolved_trace_info(t, s, None) == Some(
            (ctx.info.trace_id@, ctx.info.span_id@),
        ),
{
    let ts = ctx.info.trace_id@;
    let ss = ctx.info.span_id@;
    assert(is_hex_of_len(ts, 32)) by {
        assert forall|i: int| 0 <= i < ts.len() implies is_hex_digit(#[trigger] ts[i]) by {
            assert(is_lower_hex_digit(ts[i]));
        }
    }
    assert(is_hex_of_len(ss, 16)) by {
        assert forall|i: int| 0 <= i < ss.len() implies is_hex_digit(#[trigger] ss[i]) by {
            assert(is_lower_hex_digit(ss[i]));
        }
    }
    lemma_hex_value_bound(ts);
    lemma_hex_value_bound(ss);
    reveal_with_fuel(pow16, 33);
    assert(pow16(16) == 0x1_0000_0000_0000_0000nat);
    assert(pow16(32) == 0x1_0000_0000_0000_0000_0000_0000_0000_0000nat);
    lemma_lower_hex_of_value(ts);
    lemma_lower_hex_of_value(ss);
}

/// A remote context whose trace id is thirty-two zeros is taken, and the span it links
/// resolves to no trace info, so its records carry no ids.
pub proof fn law_zero_remote_trace_id_gives_no_trace(ctx: RemoteTraceContext, export_span_id: Option<u64>)
    requires
        is_hex_of_len(ctx.info.trace_id@, 32),
        is_hex_of_len(ctx.info.span_id@, 16),
        hex_value(ctx.info.trace_id@) == 0,
    ensures
        remote_ids_spec(ctx) matches Ok((t, s)) && t == 0 && resolved_trace_info(
            t,
            s,
            export_span_id,
        ) is None,
{
    lemma_hex_value_bound(ctx.info.span_id@);
    reveal_with_fuel(pow16, 17);
    assert(pow16(16) == 0x1_0000_0000_0000_0000nat);
}

/// An all-zero trace id resolves to no trace info, whatever the span ids.
pub proof fn law_zero_trace_id_is_no_trace(span_id: u64, export_span_id: Option<u64>)
    ensures
        resolved_trace_info(0, span_id, export_span_id) is None,
{
}

/// A span id assigned by the export side wins over the context's span id, and leaves
/// the trace id as it was.
pub proof fn law_export_span_id_wins(trace_id: u128, span_id: u64, export_span_id: u64)
    requires
        trace_id != 0,
    ensures
        resolved_trace_info(trace_id, span_id, Some(export_span_id)) == Some(
            (lower_hex(trace_id as nat, 32), lower_hex(export_span_id as nat, 16)),
        ),
        resolved_trace_info(trace_id, span_id, Some(export_span_id)).unwrap().0
            == resolved_trace_info(trace_id, span_id, None).unwrap().0,
{
}

/// The decimal digits of `n`, without leading zeros.
pub open spec fn decimal(n: nat) -> Seq<char>
    decreases n,
{
    if n < 10 {
        seq![hex_char(n)]
    } else {
        decimal(n / 10).push(hex_char(n % 10))
    }
}

/// The decimal digit for a value below ten.
fn digit_text(d: u8) -> (r: &'static str)
    requires
        d < 10,
    ensures
        r@ == seq![hex_char(d as nat)],
{
    proof {
        reveal_strlit("0");
        reveal_strlit("1");
        reveal_strlit("2");
        reveal_strlit("3");
        reveal_strlit("4");
        reveal_strlit("5");
        reveal_strlit("6");
        reveal_strlit("7");
        reveal_strlit("8");
        reveal_strlit("9");
    }
    match d {
        0 => "0",
        1 => "1",
        2 => "2",
        3 => "3",
        4 => "4",
        5 => "5",
        6 => "6",
        7 => "7",
        8 => "8",
        _ => "9",
    }
}

/// `n` in decimal.
fn decimal_text(n: u8) -> (r: String)
    ensures
        r@ == decimal(n as nat),
{
    if n < 10 {
        String::from_str(digit_text(n))
    } else if n < 100 {
        let mut r = String::from_str(digit_text(n / 10));
        r.append(digit_text(n % 10));
        assert(decimal((n / 10) as nat) == seq![hex_char((n / 10) as nat)]);
        r
    } else {
        let mut r = String::from_str(digit_text(n / 100));
        r.append(digit_text((n / 10) % 10));
        r.append(digit_text(n % 10));
        assert(decimal((n / 100) as nat) == seq![hex_char((n / 100) as nat)]);
        assert((n / 10) as nat / 10 == (n / 100) as nat);
        assert(decimal((n / 10) as nat) == decimal((n / 100) as nat).push(
            hex_char(((n / 10) % 10) as nat),
        ));
        r
    }
}

/// The members of a remote context's JSON form, in order.
pub open spec fn remote_context_parts(ctx: RemoteTraceContext) -> Seq<Seq<char>> {
    seq![
        entry("traceId"@, json_str(ctx.info.trace_id@)),
        entry("spanId"@, json_str(ctx.info.span_id@)),
        entry("traceFlags"@, decimal(ctx.trace_flags as nat)),
    ]
}

impl RemoteTraceContext {
    /// The context as one flat JSON object: `traceId`, `spanId` and `traceFlags`.
    pub fn to_json(&self) -> (r: String)
        ensures
            r@ == object_text(remote_context_parts(*self)),
    {
        let mut parts: Vec<String> = Vec::new();
        let t = json_string(self.info.trace_id.as_str());
        parts.push(entry_text("traceId", t.as_str()));
        let s = json_string(self.info.span_id.as_str());
        parts.push(entry_text("spanId", s.as_str()));
        let f = decimal_text(self.trace_flags);
        parts.push(entry_text("traceFlags", f.as_str()));
        assert(views(parts@) =~= remote_context_parts(*self));
        object_of(&parts)
    }
}

} // verus!
