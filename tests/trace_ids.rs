use trace_json::trace::{
    remote_trace_span, trace_info_from_ids, RemoteTraceContext, TraceContextError, TraceInfo,
};

const TRACE: u128 = 0x9d96f6d506048d33796d850a09797e55;
const SPAN: u64 = 0x0db1818f6e5514ee;

fn context(trace_id: &str, span_id: &str, trace_flags: u8) -> RemoteTraceContext {
    RemoteTraceContext {
        info: TraceInfo { trace_id: trace_id.to_string(), span_id: span_id.to_string() },
        trace_flags,
    }
}

#[test]
fn ids_are_written_as_fixed_width_lower_hex() {
    let info = trace_info_from_ids(TRACE, SPAN, None).unwrap();
    assert_eq!(info.trace_id, "9d96f6d506048d33796d850a09797e55");
    assert_eq!(info.span_id, "0db1818f6e5514ee");
    let small = trace_info_from_ids(1, 2, None).unwrap();
    assert_eq!(small.trace_id, "00000000000000000000000000000001");
    assert_eq!(small.span_id, "0000000000000002");
}

#[test]
fn zero_trace_id_is_no_trace() {
    assert_eq!(trace_info_from_ids(0, SPAN, None), None);
    assert_eq!(trace_info_from_ids(0, SPAN, Some(0xbbbbbbbbbbbbbbbb)), None);
}

#[test]
fn export_span_id_wins_and_trace_id_stays() {
    let info = trace_info_from_ids(TRACE, 0xaaaaaaaaaaaaaaaa, Some(0xbbbbbbbbbbbbbbbb)).unwrap();
    assert_eq!(info.span_id, "bbbbbbbbbbbbbbbb");
    assert_eq!(info.trace_id, "9d96f6d506048d33796d850a09797e55");
    let plain = trace_info_from_ids(TRACE, 0xaaaaaaaaaaaaaaaa, None).unwrap();
    assert_eq!(plain.span_id, "aaaaaaaaaaaaaaaa");
    assert_eq!(plain.trace_id, info.trace_id);
}

#[test]
fn remote_ids_parse() {
    let ctx = context("9d96f6d506048d33796d850a09797e55", "0db1818f6e5514ee", 0);
    assert_eq!(ctx.ids(), Ok((TRACE, SPAN)));
    let upper = context("9D96F6D506048D33796D850A09797E55", "0DB1818F6E5514EE", 1);
    assert_eq!(upper.ids(), Ok((TRACE, SPAN)));
}

#[test]
fn remote_ids_refused() {
    let short = context("9d96f6d506048d33796d850a09797e5", "0db1818f6e5514ee", 0);
    assert_eq!(short.ids(), Err(TraceContextError::InvalidTraceId));
    let signed = context("+d96f6d506048d33796d850a09797e55", "0db1818f6e5514ee", 0);
    assert_eq!(signed.ids(), Err(TraceContextError::InvalidTraceId));
    let bad_span = context("9d96f6d506048d33796d850a09797e55", "0db1818f6e5514eg", 0);
    assert_eq!(bad_span.ids(), Err(TraceContextError::InvalidSpanId));
    let long_span = context("9d96f6d506048d33796d850a09797e55", "0db1818f6e5514ee0", 0);
    assert_eq!(long_span.ids(), Err(TraceContextError::InvalidSpanId));
    let both = context("", "", 0);
    assert_eq!(both.ids(), Err(TraceContextError::InvalidTraceId));
}

#[test]
fn remote_context_resolves_to_its_trace_id() {
    let ctx = context("9d96f6d506048d33796d850a09797e55", "0db1818f6e5514ee", 0);
    let (t, s) = ctx.ids().unwrap();
    let info = trace_info_from_ids(t, s, None).unwrap();
    assert_eq!(info.trace_id, "9d96f6d506048d33796d850a09797e55");
    assert_eq!(info, ctx.info);
}

#[test]
fn remote_trace_span_checks_ids() {
    let ctx = context("9d96f6d506048d33796d850a09797e55", "0db1818f6e5514ee", 0);
    let linked = remote_trace_span(tracing::Span::none(), &ctx).ok().unwrap();
    assert!(linked.span.is_none());
    let zero = context("00000000000000000000000000000000", "0db1818f6e5514ee", 1);
    assert!(remote_trace_span(tracing::Span::none(), &zero).is_ok());
    assert_eq!(zero.ids(), Ok((0, SPAN)));
    assert_eq!(trace_info_from_ids(0, SPAN, None), None);
    let bad = context("not hex", "0db1818f6e5514ee", 0);
    assert_eq!(
        remote_trace_span(tracing::Span::none(), &bad).err(),
        Some(TraceContextError::InvalidTraceId)
    );
}

#[test]
fn remote_context_json_form() {
    let ctx = context("9d96f6d506048d33796d850a09797e55", "0db1818f6e5514ee", 0);
    assert_eq!(
        ctx.to_json(),
        r#"{"traceId":"9d96f6d506048d33796d850a09797e55","spanId":"0db1818f6e5514ee","traceFlags":0}"#
    );
    assert!(context("a", "b", 7).to_json().ends_with(r#""traceFlags":7}"#));
    assert!(context("a", "b", 42).to_json().ends_with(r#""traceFlags":42}"#));
    assert!(context("a", "b", 255).to_json().ends_with(r#""traceFlags":255}"#));
}

#[test]
fn remote_context_json_round_trip() {
    let ctx = context("9d96f6d506048d33796d850a09797e55", "0db1818f6e5514ee", 0);
    let v: serde_json::Value = serde_json::from_str(&ctx.to_json()).unwrap();
    let back = context(
        v["traceId"].as_str().unwrap(),
        v["spanId"].as_str().unwrap(),
        v["traceFlags"].as_u64().unwrap() as u8,
    );
    assert_eq!(back, ctx);
    assert_eq!(v.as_object().unwrap().len(), 3);
}
