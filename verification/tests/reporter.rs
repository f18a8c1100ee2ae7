use rs2sky::reporter::Reporter;
use rs2sky::segment::SegmentObject;

fn segment(tag: &str) -> SegmentObject {
    SegmentObject {
        trace_id: String::from(tag),
        trace_segment_id: format!("{}-segment", tag),
        spans: Vec::new(),
        service: String::from("service"),
        service_instance: String::from("instance"),
        is_size_limited: false,
    }
}

#[test]
fn reporter_keeps_submission_order() {
    let mut reporter = Reporter::new(8);
    let names = vec!["a", "b", "c", "d", "e"];
    for name in &names {
        reporter.submit(segment(name)).unwrap();
    }
    assert_eq!(reporter.len(), 5);

    let drained = reporter.drain_all();
    assert_eq!(reporter.len(), 0);
    let drained_names: Vec<String> = drained.into_iter().map(|s| s.trace_id).collect();
    assert_eq!(drained_names, vec!["a", "b", "c", "d", "e"]);
}

#[test]
fn reporter_drains_one_at_a_time_in_order() {
    let mut reporter = Reporter::new(4);
    reporter.submit(segment("first")).unwrap();
    reporter.submit(segment("second")).unwrap();

    assert_eq!(reporter.drain_next().unwrap().trace_id, "first");
    assert_eq!(reporter.drain_next().unwrap().trace_id, "second");
    assert!(reporter.drain_next().is_none());
}

#[test]
fn full_reporter_hands_the_record_back() {
    let mut reporter = Reporter::new(1);
    reporter.submit(segment("kept")).unwrap();
    let rejected = reporter.submit(segment("refused")).err().unwrap();
    assert_eq!(rejected.trace_id, "refused");
    // the refusal leaves the queue and later submissions untouched
    assert_eq!(reporter.len(), 1);
    assert_eq!(reporter.drain_next().unwrap().trace_id, "kept");
    reporter.submit(segment("later")).unwrap();
    assert_eq!(reporter.drain_next().unwrap().trace_id, "later");
}
