use rs2sky::common::{TimeFetcher, UnixTimeStampFetcher};
use rs2sky::propagation::{encode_propagation, ContextDecoder};
use rs2sky::segment::{KeyStringValuePair, Log, RefType, SpanLayer, SpanObject, SpanType};
use rs2sky::trace_context::{TracingContext, TracingError};
use std::sync::Arc;

struct MockTimeFetcher {}

impl TimeFetcher for MockTimeFetcher {
    fn get(&self) -> i64 {
        100
    }
}

#[test]
fn trace_context_create_span() {
    let time_fetcher = MockTimeFetcher {};
    let mut context = TracingContext::default(Arc::new(time_fetcher), "service", "instance");
    assert_eq!(context.service, "service");
    assert_eq!(context.service_instance, "instance");

    {
        let mut span1 = context.create_entry_span(String::from("op1")).unwrap();
        let mut logs = Vec::<(String, String)>::new();
        logs.push((String::from("hoge"), String::from("fuga")));
        logs.push((String::from("hoge2"), String::from("fuga2")));
        let expected_log_message: Vec<KeyStringValuePair> = logs
            .to_owned()
            .into_iter()
            .map(|v| {
                let (key, value) = v;
                KeyStringValuePair { key, value }
            })
            .collect();
        let mut expected_log = Vec::<Log>::new();
        expected_log.push(Log { time: 100, data: expected_log_message });
        span1.add_log(logs);

        let mut tags = Vec::<(String, String)>::new();
        tags.push((String::from("hoge"), String::from("fuga")));
        let expected_tags: Vec<KeyStringValuePair> = tags
            .to_owned()
            .into_iter()
            .map(|v| {
                let (key, value) = v;
                KeyStringValuePair { key, value }
            })
            .collect();
        span1.add_tag(tags[0].clone());

        let span1_expected = SpanObject {
            span_id: 0,
            parent_span_id: -1,
            start_time: 100,
            end_time: 100,
            refs: Vec::new(),
            operation_name: String::from("op1"),
            peer: String::default(),
            span_type: SpanType::Entry,
            span_layer: SpanLayer::Http,
            component_id: 11000,
            is_error: false,
            tags: expected_tags,
            logs: expected_log,
            skip_analysis: false,
        };
        context.finalize_span_for_test(&mut span1);
        assert_eq!(span1.span_object(), &span1_expected);
    }

    {
        let span2 = context.create_entry_span(String::from("op2"));
        assert_eq!(span2.is_err(), true);
    }

    {
        let mut span3 = context
            .create_exit_span(String::from("op3"), String::from("example.com/test"))
            .unwrap();
        let span3_expected = SpanObject {
            span_id: 1,
            parent_span_id: 0,
            start_time: 100,
            end_time: 100,
            refs: Vec::new(),
            operation_name: String::from("op3"),
            peer: String::from("example.com/test"),
            span_type: SpanType::Exit,
            span_layer: SpanLayer::Http,
            component_id: 11000,
            is_error: false,
            tags: Vec::new(),
            logs: Vec::new(),
            skip_analysis: false,
        };
        context.finalize_span_for_test(&mut span3);
        assert_eq!(span3.span_object(), &span3_expected);
    }

    let segment = context.convert_segment_object();
    assert_eq!(segment.trace_id.len() != 0, true);
    assert_eq!(segment.trace_segment_id.len() != 0, true);
    assert_eq!(segment.service, "service");
    assert_eq!(segment.service_instance, "instance");
    assert_eq!(segment.is_size_limited, false);
}

#[test]
fn tracing_context_create_span() {
    let time_fetcher = UnixTimeStampFetcher::new();
    let mut context = TracingContext::default(Arc::new(time_fetcher), "service", "instance");
    assert_eq!(context.service, "service");
    assert_eq!(context.service_instance, "instance");

    {
        let mut span1 = context.create_entry_span(String::from("op1")).unwrap();
        span1.span_internal.start_time = 100;
        let span1_expected = SpanObject {
            span_id: 0,
            parent_span_id: -1,
            start_time: 100,
            end_time: 0,
            refs: Vec::new(),
            operation_name: String::from("op1"),
            peer: String::default(),
            span_type: SpanType::Entry,
            span_layer: SpanLayer::Http,
            component_id: 11000,
            is_error: false,
            tags: Vec::new(),
            logs: Vec::new(),
            skip_analysis: false,
        };
        assert_eq!(span1.span_internal, span1_expected);
        context.finalize_span(span1);
    }

    assert_ne!(context.spans.last().unwrap().span_internal.end_time, 0);
    assert_eq!(context.spans.len(), 1);

    {
        let span2 = context.create_entry_span(String::from("op2"));
        assert_eq!(span2.is_err(), true);
    }

    assert_eq!(context.spans.len(), 1);

    {
        let mut span3 =
            context.create_exit_span(String::from("op3"), String::from("example.com/test")).unwrap();
        span3.span_internal.start_time = 100;
        let span3_expected = SpanObject {
            span_id: 1,
            parent_span_id: 0,
            start_time: 100,
            end_time: 0,
            refs: Vec::new(),
            operation_name: String::from("op3"),
            peer: String::from("example.com/test"),
            span_type: SpanType::Exit,
            span_layer: SpanLayer::Http,
            component_id: 11000,
            is_error: false,
            tags: Vec::new(),
            logs: Vec::new(),
            skip_analysis: false,
        };
        assert_eq!(span3.span_internal, span3_expected);
        context.finalize_span(span3);
    }

    assert_ne!(context.spans.last().unwrap().span_internal.end_time, 0);
    assert_eq!(context.spans.len(), 2);

    let segment = context.convert_segment_object();
    assert_eq!(segment.trace_id.len() != 0, true);
    assert_eq!(segment.trace_segment_id.len() != 0, true);
    assert_eq!(segment.spans.len() == 2, true);
    assert_eq!(segment.service, "service");
    assert_eq!(segment.service_instance, "instance");
    assert_eq!(segment.is_size_limited, false);
}

#[test]
fn trace_context_create_span_from_context() {
    let data = "1-MQ==-NQ==-3-bWVzaA==-aW5zdGFuY2U=-L2FwaS92MS9oZWFsdGg=-ZXhhbXBsZS5jb206ODA4MA==";
    let prop = ContextDecoder::new(data).decode().unwrap();
    let time_fetcher = MockTimeFetcher {};
    let context = TracingContext::from_propagation_context(Arc::new(time_fetcher), prop);

    let segment = context.convert_segment_object();
    assert_eq!(segment.trace_id.len() != 0, true);
    assert_eq!(segment.trace_segment_id.len() != 0, true);
    assert_eq!(segment.service, "mesh");
    assert_eq!(segment.service_instance, "instance");
    assert_eq!(segment.is_size_limited, false);
}

#[test]
fn tracing_context_create_span_from_context() {
    let data = "1-MQ==-NQ==-3-bWVzaA==-aW5zdGFuY2U=-L2FwaS92MS9oZWFsdGg=-ZXhhbXBsZS5jb206ODA4MA==";
    let decoder = ContextDecoder::new(data);
    let prop = decoder.decode().unwrap();
    let time_fetcher = UnixTimeStampFetcher::new();
    let context = TracingContext::from_propagation_context(Arc::new(time_fetcher), prop);

    let segment = context.convert_segment_object();
    assert_eq!(segment.trace_id.len() != 0, true);
    assert_eq!(segment.trace_segment_id.len() != 0, true);
    assert_eq!(segment.service, "mesh");
    assert_eq!(segment.service_instance, "instance");
    assert_eq!(segment.is_size_limited, false);
}

#[test]
fn crossprocess_test() {
    let time_fetcher1 = MockTimeFetcher {};
    let mut context1 = TracingContext::default(Arc::new(time_fetcher1), "service", "instance");
    assert_eq!(context1.service, "service");
    assert_eq!(context1.service_instance, "instance");

    let mut span1 = context1.create_entry_span(String::from("op1")).unwrap();
    context1.finalize_span_for_test(&mut span1);

    let mut span2 =
        context1.create_exit_span(String::from("op2"), String::from("remote_peer")).unwrap();
    context1.finalize_span_for_test(&mut span2);

    let enc_prop = encode_propagation(&context1, "endpoint", "address");
    let dec_prop = ContextDecoder::new(&enc_prop).decode().unwrap();

    let time_fetcher2 = MockTimeFetcher {};
    let mut context2 = TracingContext::from_propagation_context(Arc::new(time_fetcher2), dec_prop);

    let mut span3 = context2.create_entry_span(String::from("op2")).unwrap();
    context2.finalize_span_for_test(&mut span3);

    assert_eq!(span3.span_object().span_id, 0);
    assert_eq!(span3.span_object().parent_span_id, -1);
    assert_eq!(span3.span_object().refs.len(), 1);

    let reference = &span3.span_object().refs[0];
    assert_eq!(reference.ref_type, RefType::CrossProcess);
    assert_eq!(reference.trace_id, context2.trace_id);
    assert_eq!(reference.parent_trace_segment_id, context1.trace_segment_id);
    // the propagated span identifier is the last one context1 assigned
    assert_eq!(reference.parent_span_id, (context1.next_span_id - 1) as u32);
    assert_eq!(reference.parent_service, context1.service);
    assert_eq!(reference.parent_service_instance, context1.service_instance);
    assert_eq!(reference.parent_endpoint, "endpoint");
    assert_eq!(reference.network_address_used_at_peer, "address");
}

#[test]
fn fresh_context_starts_empty() {
    let mut context =
        TracingContext::default(Arc::new(MockTimeFetcher {}), "service", "instance");
    assert_eq!(context.next_span_id, 0);
    assert_eq!(context.spans.len(), 0);
    assert_eq!(context.convert_segment_object().spans.len(), 0);

    let data = "1-MQ==-NQ==-3-bWVzaA==-aW5zdGFuY2U=-L2FwaS92MS9oZWFsdGg=-ZXhhbXBsZS5jb206ODA4MA==";
    let prop = ContextDecoder::new(data).decode().unwrap();
    let linked = TracingContext::from_propagation_context(Arc::new(MockTimeFetcher {}), prop);
    assert_eq!(linked.next_span_id, 0);
    assert_eq!(linked.spans.len(), 0);
    assert_eq!(linked.trace_id, "1");

    // the error paths leave the counter alone
    let err = context.create_exit_span(String::from("op"), String::from("peer")).err().unwrap();
    assert_eq!(err, TracingError::MissingEntrySpan);
    assert_eq!(context.next_span_id, 0);
}

#[test]
fn entry_span_succeeds_exactly_once() {
    let mut context =
        TracingContext::default(Arc::new(MockTimeFetcher {}), "service", "instance");
    let span = context.create_entry_span(String::from("op1")).unwrap();
    assert_eq!(span.span_object().span_id, 0);

    // a second attempt fails whether or not the first span was finalized
    let before_finalize = context.create_entry_span(String::from("op2")).err().unwrap();
    assert_eq!(before_finalize, TracingError::DuplicateEntrySpan);

    context.finalize_span(span);
    let after_finalize = context.create_entry_span(String::from("op3")).err().unwrap();
    assert_eq!(after_finalize, TracingError::DuplicateEntrySpan);
}

#[test]
fn exit_span_needs_entry_span() {
    let mut context =
        TracingContext::default(Arc::new(MockTimeFetcher {}), "service", "instance");
    let err =
        context.create_exit_span(String::from("op"), String::from("peer")).err().unwrap();
    assert_eq!(err, TracingError::MissingEntrySpan);

    let entry = context.create_entry_span(String::from("op1")).unwrap();
    context.finalize_span(entry);
    let exit = context.create_exit_span(String::from("op2"), String::from("peer")).unwrap();
    assert_eq!(exit.span_object().span_id, 1);
}

#[test]
fn span_ids_count_up_without_gaps() {
    let mut context =
        TracingContext::default(Arc::new(MockTimeFetcher {}), "service", "instance");
    let entry = context.create_entry_span(String::from("op0")).unwrap();
    assert_eq!(entry.span_object().span_id, 0);
    assert_eq!(entry.span_object().parent_span_id, -1);

    // interleave creation, mutation and finalization; the counter is unmoved
    // by anything but creation
    let exit1 = context.create_exit_span(String::from("op1"), String::from("p1")).unwrap();
    context.finalize_span(entry);
    let mut exit2 = context.create_exit_span(String::from("op2"), String::from("p2")).unwrap();
    exit2.add_tag((String::from("k"), String::from("v")));
    context.finalize_span(exit2);
    let exit3 = context.create_exit_span(String::from("op3"), String::from("p3")).unwrap();
    context.finalize_span(exit3);
    context.finalize_span(exit1);

    assert_eq!(context.next_span_id, 4);
    let ids: Vec<i32> =
        context.convert_segment_object().spans.iter().map(|s| s.span_id).collect();
    let mut sorted = ids.clone();
    sorted.sort();
    assert_eq!(sorted, vec![0, 1, 2, 3]);
    let parents: Vec<i32> =
        context.convert_segment_object().spans.iter().map(|s| s.parent_span_id).collect();
    for (id, parent) in ids.iter().zip(parents.iter()) {
        assert_eq!(*parent, *id - 1);
    }
}

#[test]
fn linked_entry_span_carries_one_reference() {
    let data = "1-MQ==-NQ==-3-bWVzaA==-aW5zdGFuY2U=-L2FwaS92MS9oZWFsdGg=-ZXhhbXBsZS5jb206ODA4MA==";
    let prop = ContextDecoder::new(data).decode().unwrap();
    let mut context =
        TracingContext::from_propagation_context(Arc::new(MockTimeFetcher {}), prop);
    let span = context.create_entry_span(String::from("op1")).unwrap();
    context.finalize_span(span);

    let segment = context.convert_segment_object();
    assert_eq!(segment.spans.len(), 1);
    let refs = &segment.spans[0].refs;
    assert_eq!(refs.len(), 1);
    assert_eq!(refs[0].parent_service, "mesh");
    assert_eq!(refs[0].parent_service_instance, "instance");
    assert_eq!(refs[0].parent_span_id, 3);
    assert_eq!(refs[0].parent_trace_segment_id, "5");
    assert_eq!(refs[0].parent_endpoint, "/api/v1/health");
    assert_eq!(refs[0].network_address_used_at_peer, "example.com:8080");
}

#[test]
fn segment_holds_only_finalized_spans() {
    let mut context =
        TracingContext::default(Arc::new(MockTimeFetcher {}), "service", "instance");
    let entry = context.create_entry_span(String::from("op1")).unwrap();
    context.finalize_span(entry);
    // created but never finalized: it must not appear in the segment
    let _open = context.create_exit_span(String::from("op2"), String::from("p")).unwrap();

    let segment = context.convert_segment_object();
    assert_eq!(segment.spans.len(), 1);
    assert_eq!(segment.spans[0].span_id, 0);
    assert_ne!(segment.spans[0].end_time, 0);
}

#[test]
fn propagation_round_trip_through_context() {
    let mock = MockTimeFetcher {};
    let mut context = TracingContext::default(Arc::new(mock), "svc", "node-1");
    let entry = context.create_entry_span(String::from("op1")).unwrap();
    context.finalize_span(entry);
    let exit = context.create_exit_span(String::from("op2"), String::from("peer:80")).unwrap();
    context.finalize_span(exit);

    let header = encode_propagation(&context, "/endpoint", "peer:80");
    let decoded = ContextDecoder::new(&header).decode().unwrap();
    assert_eq!(decoded.do_sample, true);
    assert_eq!(decoded.parent_trace_id, context.trace_id);
    assert_eq!(decoded.parent_trace_segment_id, context.trace_segment_id);
    assert_eq!(decoded.parent_span_id, 1);
    assert_eq!(decoded.parent_service, "svc");
    assert_eq!(decoded.parent_service_instance, "node-1");
    assert_eq!(decoded.destination_endpoint, "/endpoint");
    assert_eq!(decoded.destination_address, "peer:80");
}

#[test]
fn encode_writes_the_documented_wire_form() {
    // a context pinned to known identifiers writes the reference header
    let context = TracingContext {
        trace_id: String::from("1"),
        trace_segment_id: String::from("5"),
        service: String::from("mesh"),
        service_instance: String::from("instance"),
        next_span_id: 4,
        spans: Vec::new(),
        time_fetcher: Arc::new(MockTimeFetcher {}),
        segment_link: None,
    };
    let header = encode_propagation(&context, "/api/v1/health", "example.com:8080");
    assert_eq!(
        header,
        "1-MQ==-NQ==-3-bWVzaA==-aW5zdGFuY2U=-L2FwaS92MS9oZWFsdGg=-ZXhhbXBsZS5jb206ODA4MA=="
    );
}

#[test]
fn identifiers_are_fresh_and_nonempty() {
    let a = TracingContext::default(Arc::new(MockTimeFetcher {}), "s", "i");
    let b = TracingContext::default(Arc::new(MockTimeFetcher {}), "s", "i");
    assert!(a.trace_id.len() >= 1);
    assert!(a.trace_segment_id.len() >= 1);
    assert_ne!(a.trace_id, b.trace_id);
    assert_ne!(a.trace_segment_id, b.trace_segment_id);
}

#[test]
fn unix_time_fetcher_moves_forward() {
    let fetcher = UnixTimeStampFetcher::default();
    let t = fetcher.get();
    assert!(t > 0);
}
