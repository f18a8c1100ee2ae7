use vstd::prelude::*;

use crate::common::{fresh_id, TimeFetcher};
use crate::propagation::PropagationContext;
use crate::segment::{
    span_object_matches, KeyStringValuePair, Log, RefType, SegmentObject, SegmentReference,
    SpanLayer, SpanObject, SpanType,
};
use std::sync::Arc;

verus! {

/// Why a span could not be created.
#[derive(Clone, Copy, Debug, PartialEq, Eq, Structural)]
pub enum TracingError {
    /// An entry span was requested while the context already has one.
    DuplicateEntrySpan,
    /// An exit span was requested before any entry span exists.
    MissingEntrySpan,
}

/// The key/value pairs of a log record, in order.
pub open spec fn pairs_to_kvs(s: Seq<(String, String)>) -> Seq<KeyStringValuePair> {
    s.map_values(|p: (String, String)| KeyStringValuePair { key: p.0, value: p.1 })
}

/// One timed unit of work. It is open when created; tags and logs may be
/// appended while it is open; closing it records the end time and is final.
pub struct Span<T: TimeFetcher> {
    pub span_internal: SpanObject,
    /// True once the span has been closed; a closed span is immutable.
    pub closed: bool,
    pub time_fetcher: Arc<T>,
}

impl<T: TimeFetcher> Span<T> {
    /// A fresh open span. The start time is taken from the time source; the
    /// end time stays 0 until the span closes.
    pub fn new(
        parent_span_id: i32,
        operation_name: String,
        remote_peer: String,
        span_type: SpanType,
        span_layer: SpanLayer,
        skip_analysis: bool,
        time_fetcher: Arc<T>,
    ) -> (r: Span<T>)
        requires
            parent_span_id < i32::MAX,
        ensures
            r.span_internal.span_id == parent_span_id + 1,
            r.span_internal.parent_span_id == parent_span_id,
            r.span_internal.end_time == 0,
            r.span_internal.refs@.len() == 0,
            r.span_internal.operation_name == operation_name,
            r.span_internal.peer == remote_peer,
            r.span_internal.span_type == span_type,
            r.span_internal.span_layer == span_layer,
            r.span_internal.component_id == 11000,
            r.span_internal.is_error == false,
            r.span_internal.tags@.len() == 0,
            r.span_internal.logs@.len() == 0,
            r.span_internal.skip_analysis == skip_analysis,
            !r.closed,
            r.time_fetcher == time_fetcher,
    {
        let start_time = time_fetcher.get();
        let span_internal = SpanObject {
            span_id: parent_span_id + 1,
            parent_span_id,
            start_time,
            end_time: 0,
            refs: Vec::<SegmentReference>::new(),
            operation_name,
            peer: remote_peer,
            span_type,
            span_layer,
            component_id: 11000,
            is_error: false,
            tags: Vec::<KeyStringValuePair>::new(),
            logs: Vec::<Log>::new(),
            skip_analysis,
        };
        Span { span_internal, closed: false, time_fetcher }
    }

    /// Closes the span: records the end time from the time source. A span
    /// closes exactly once; afterwards it is immutable.
    pub fn close(&mut self)
        requires
            !old(self).closed,
        ensures
            final(self).closed,
            final(self).time_fetcher == old(self).time_fetcher,
            final(self).span_internal == (SpanObject {
                end_time: final(self).span_internal.end_time,
                ..old(self).span_internal
            }),
    {
        self.span_internal.end_time = self.time_fetcher.get();
        self.closed = true;
    }

    /// The record this span has accumulated so far.
    pub fn span_object(&self) -> (r: &SpanObject)
        ensures
            *r == self.span_internal,
    {
        &self.span_internal
    }

    /// Appends one timestamped set of key/value pairs to the open span.
    pub fn add_log(&mut self, message: Vec<(String, String)>)
        requires
            !old(self).closed,
        ensures
            !final(self).closed,
            final(self).time_fetcher == old(self).time_fetcher,
            final(self).span_internal == (SpanObject {
                logs: final(self).span_internal.logs,
                ..old(self).span_internal
            }),
            final(self).span_internal.logs@.len() == old(self).span_internal.logs@.len() + 1,
            final(self).span_internal.logs@.drop_last() == old(self).span_internal.logs@,
            final(self).span_internal.logs@.last().data@ == pairs_to_kvs(message@),
    {
        let time = self.time_fetcher.get();
        let mut data: Vec<KeyStringValuePair> = Vec::new();
        let mut i: usize = 0;
        while i < message.len()
            invariant
                i <= message.len(),
                data@ =~= pairs_to_kvs(message@).subrange(0, i as int),
            decreases message.len() - i,
        {
            let pair = &message[i];
            data.push(KeyStringValuePair { key: pair.0.clone(), value: pair.1.clone() });
            i = i + 1;
        }
        proof {
            assert(data@ =~= pairs_to_kvs(message@));
        }
        let log = Log { time, data };
        self.span_internal.logs.push(log);
        proof {
            assert(self.span_internal.logs@.drop_last() =~= old(self).span_internal.logs@);
        }
    }

    /// Appends one key/value tag to the open span.
    pub fn add_tag(&mut self, tag: (String, String))
        requires
            !old(self).closed,
        ensures
            !final(self).closed,
            final(self).time_fetcher == old(self).time_fetcher,
            final(self).span_internal == (SpanObject {
                tags: final(self).span_internal.tags,
                ..old(self).span_internal
            }),
            final(self).span_internal.tags@ == old(self).span_internal.tags@.push(
                KeyStringValuePair { key: tag.0, value: tag.1 },
            ),
    {
        let (key, value) = tag;
        self.span_internal.tags.push(KeyStringValuePair { key, value });
    }

    /// Attaches the cross-process reference to the open span.
    pub(crate) fn add_segment_reference(&mut self, segment_reference: SegmentReference)
        requires
            !old(self).closed,
        ensures
            !final(self).closed,
            final(self).time_fetcher == old(self).time_fetcher,
            final(self).span_internal == (SpanObject {
                refs: final(self).span_internal.refs,
                ..old(self).span_internal
            }),
            final(self).span_internal.refs@ == old(self).span_internal.refs@.push(
                segment_reference,
            ),
    {
        self.span_internal.refs.push(segment_reference);
    }
}

/// The per-request unit of work: it numbers spans, keeps the cross-process
/// link, and accumulates finalized spans until the segment is assembled.
pub struct TracingContext<T: TimeFetcher> {
    pub trace_id: String,
    pub trace_segment_id: String,
    pub service: String,
    pub service_instance: String,
    /// The span identifier the next created span will receive.
    pub next_span_id: i32,
    /// The finalized (closed) spans, in finalize order.
    pub spans: Vec<Span<T>>,
    pub time_fetcher: Arc<T>,
    /// The inbound propagation context, when this context continues an
    /// upstream trace.
    pub segment_link: Option<PropagationContext>,
}

impl<T: TimeFetcher> TracingContext<T> {
    /// The context's invariant: the span counter never goes negative and the
    /// finalized list holds closed spans only.
    pub open spec fn wf(&self) -> bool {
        &&& self.next_span_id >= 0
        &&& forall|i: int| 0 <= i < self.spans@.len() ==> (#[trigger] self.spans@[i]).closed
    }

    /// The span records the assembled segment will carry, in finalize order.
    pub open spec fn segment_spans(&self) -> Seq<SpanObject> {
        self.spans@.map_values(|sp: Span<T>| sp.span_internal)
    }

    /// The single cross-process reference an entry span of this context
    /// carries: one link built from the inbound propagation context, or none.
    pub open spec fn entry_span_refs(&self) -> Seq<SegmentReference> {
        match self.segment_link {
            None => Seq::<SegmentReference>::empty(),
            Some(link) => seq![
                SegmentReference {
                    ref_type: RefType::CrossProcess,
                    trace_id: self.trace_id,
                    parent_trace_segment_id: link.parent_trace_segment_id,
                    parent_span_id: link.parent_span_id,
                    parent_service: link.parent_service,
                    parent_service_instance: link.parent_service_instance,
                    parent_endpoint: link.destination_endpoint,
                    network_address_used_at_peer: link.destination_address,
                },
            ],
        }
    }

    /// A fresh context for a new trace: fresh trace and segment identifiers,
    /// no spans, no upstream link.
    pub fn default(
        time_fetcher: Arc<T>,
        service_name: &'static str,
        instance_name: &'static str,
    ) -> (r: TracingContext<T>)
        ensures
            r.wf(),
            r.trace_id@.len() >= 1,
            r.trace_segment_id@.len() >= 1,
            r.service@ == service_name@,
            r.service_instance@ == instance_name@,
            r.next_span_id == 0,
            r.spans@.len() == 0,
            r.segment_link is None,
            r.time_fetcher == time_fetcher,
    {
        TracingContext {
            trace_id: fresh_id(),
            trace_segment_id: fresh_id(),
            service: String::from_str(service_name),
            service_instance: String::from_str(instance_name),
            next_span_id: 0,
            spans: Vec::new(),
            time_fetcher,
            segment_link: None,
        }
    }

    /// A context that continues the trace described by a decoded propagation
    /// header: the trace identifier is inherited, the segment identifier is
    /// fresh, and the caller's declared identity is carried over. Callers
    /// that want to report their own identity overwrite `service` and
    /// `service_instance` after construction.
    pub fn from_propagation_context(
        time_fetcher: Arc<T>,
        context: PropagationContext,
    ) -> (r: TracingContext<T>)
        ensures
            r.wf(),
            r.trace_id == context.parent_trace_id,
            r.trace_segment_id@.len() >= 1,
            r.service == context.parent_service,
            r.service_instance == context.parent_service_instance,
            r.next_span_id == 0,
            r.spans@.len() == 0,
            r.segment_link == Some(context),
            r.time_fetcher == time_fetcher,
    {
        let trace_id = context.parent_trace_id.clone();
        let parent_service = context.parent_service.clone();
        let parent_service_instance = context.parent_service_instance.clone();
        TracingContext {
            trace_id,
            trace_segment_id: fresh_id(),
            service: parent_service,
            service_instance: parent_service_instance,
            next_span_id: 0,
            spans: Vec::new(),
            time_fetcher,
            segment_link: Some(context),
        }
    }

    /// Creates the entry span, the initiator of the segment. It succeeds
    /// exactly once per context: the first call receives span identifier 0
    /// with parent -1; any later call fails with `DuplicateEntrySpan` and
    /// leaves the context unchanged. When the context continues an upstream
    /// trace, the span carries the single cross-process reference.
    pub fn create_entry_span(&mut self, operation_name: String) -> (r: Result<Span<T>, TracingError>)
        requires
            old(self).wf(),
        ensures
            final(self).wf(),
            *final(self) == (TracingContext { next_span_id: final(self).next_span_id, ..*old(self) }),
            r is Ok <==> old(self).next_span_id == 0,
            final(self).next_span_id as int == counter_after(
                old(self).next_span_id as int,
                ContextOp::CreateEntry,
            ),
            (match r {
                Ok(span) => Some(span.span_internal.span_id as int),
                Err(_) => None::<int>,
            }) == id_assigned(old(self).next_span_id as int, ContextOp::CreateEntry),
            r matches Err(e) ==> e == TracingError::DuplicateEntrySpan && final(self).next_span_id
                == old(self).next_span_id,
            r matches Ok(span) ==> {
                &&& final(self).next_span_id == 1
                &&& !span.closed
                &&& span.time_fetcher == old(self).time_fetcher
                &&& span.span_internal.span_id == 0
                &&& span.span_internal.parent_span_id == -1
                &&& span.span_internal.end_time == 0
                &&& span.span_internal.operation_name == operation_name
                &&& span.span_internal.peer@ == Seq::<char>::empty()
                &&& span.span_internal.span_type == SpanType::Entry
                &&& span.span_internal.span_layer == SpanLayer::Http
                &&& span.span_internal.component_id == 11000
                &&& !span.span_internal.is_error
                &&& !span.span_internal.skip_analysis
                &&& span.span_internal.tags@.len() == 0
                &&& span.span_internal.logs@.len() == 0
                &&& span.span_internal.refs@ == old(self).entry_span_refs()
            },
    {
        if self.next_span_id >= 1 {
            return Err(TracingError::DuplicateEntrySpan);
        }
        let parent_span_id = self.next_span_id - 1;
        let mut span = Span::new(
            parent_span_id,
            operation_name,
            String::new(),
            SpanType::Entry,
            SpanLayer::Http,
            false,
            self.time_fetcher.clone(),
        );
        match &self.segment_link {
            Some(link) => {
                let reference = SegmentReference {
                    ref_type: RefType::CrossProcess,
                    trace_id: self.trace_id.clone(),
                    parent_trace_segment_id: link.parent_trace_segment_id.clone(),
                    parent_span_id: link.parent_span_id,
                    parent_service: link.parent_service.clone(),
                    parent_service_instance: link.parent_service_instance.clone(),
                    parent_endpoint: link.destination_endpoint.clone(),
                    network_address_used_at_peer: link.destination_address.clone(),
                };
                span.add_segment_reference(reference);
                proof {
                    assert(span.span_internal.refs@ =~= old(self).entry_span_refs());
                }
            },
            None => {
                proof {
                    assert(span.span_internal.refs@ =~= old(self).entry_span_refs());
                }
            },
        }
        self.next_span_id = self.next_span_id + 1;
        Ok(span)
    }

    /// Creates an exit span around an outbound call to `remote_peer`. It
    /// fails with `MissingEntrySpan` while no entry span exists; otherwise it
    /// assigns the next span identifier in sequence, with the previous one as
    /// parent, and increments the counter.
    pub fn create_exit_span(&mut self, operation_name: String, remote_peer: String) -> (r: Result<
        Span<T>,
        TracingError,
    >)
        requires
            old(self).wf(),
            old(self).next_span_id < i32::MAX,
        ensures
            final(self).wf(),
            *final(self) == (TracingContext { next_span_id: final(self).next_span_id, ..*old(self) }),
            r is Ok <==> old(self).next_span_id >= 1,
            final(self).next_span_id as int == counter_after(
                old(self).next_span_id as int,
                ContextOp::CreateExit,
            ),
            (match r {
                Ok(span) => Some(span.span_internal.span_id as int),
                Err(_) => None::<int>,
            }) == id_assigned(old(self).next_span_id as int, ContextOp::CreateExit),
            r matches Err(e) ==> e == TracingError::MissingEntrySpan && final(self).next_span_id
                == old(self).next_span_id,
            r matches Ok(span) ==> {
                &&& final(self).next_span_id == old(self).next_span_id + 1
                &&& !span.closed
                &&& span.time_fetcher == old(self).time_fetcher
                &&& span.span_internal.span_id == old(self).next_span_id
                &&& span.span_internal.parent_span_id == old(self).next_span_id - 1
                &&& span.span_internal.end_time == 0
                &&& span.span_internal.operation_name == operation_name
                &&& span.span_internal.peer == remote_peer
                &&& span.span_internal.span_type == SpanType::Exit
                &&& span.span_internal.span_layer == SpanLayer::Http
                &&& span.span_internal.component_id == 11000
                &&& !span.span_internal.is_error
                &&& !span.span_internal.skip_analysis
                &&& span.span_internal.tags@.len() == 0
                &&& span.span_internal.logs@.len() == 0
                &&& span.span_internal.refs@.len() == 0
            },
    {
        if self.next_span_id == 0 {
            return Err(TracingError::MissingEntrySpan);
        }
        let parent_span_id = self.next_span_id - 1;
        let span = Span::new(
            parent_span_id,
            operation_name,
            remote_peer,
            SpanType::Exit,
            SpanLayer::Http,
            false,
            self.time_fetcher.clone(),
        );
        self.next_span_id = self.next_span_id + 1;
        Ok(span)
    }

    /// Closes the span if it is still open and appends it to the finalized
    /// list. This is the only path by which a span becomes part of the
    /// eventual segment.
    pub fn finalize_span(&mut self, span: Span<T>)
        requires
            old(self).wf(),
        ensures
            final(self).wf(),
            *final(self) == (TracingContext { spans: final(self).spans, ..*old(self) }),
            final(self).spans@.len() == old(self).spans@.len() + 1,
            final(self).spans@.drop_last() == old(self).spans@,
            final(self).spans@.last().closed,
            final(self).spans@.last().span_internal == (SpanObject {
                end_time: final(self).spans@.last().span_internal.end_time,
                ..span.span_internal
            }),
            span.closed ==> final(self).spans@.last() == span,
    {
        let mut span = span;
        if !span.closed {
            span.close();
        }
        self.spans.push(span);
        proof {
            assert(self.spans@.drop_last() =~= old(self).spans@);
        }
    }

    /// Closes a span in place without appending it, so its record can be
    /// inspected while the caller still owns it.
    pub fn finalize_span_for_test(&self, span: &mut Span<T>)
        requires
            !old(span).closed,
        ensures
            final(span).closed,
            final(span).time_fetcher == old(span).time_fetcher,
            final(span).span_internal == (SpanObject {
                end_time: final(span).span_internal.end_time,
                ..old(span).span_internal
            }),
    {
        span.close();
    }

    /// Assembles the transport-ready segment from the context identity and
    /// the finalized spans, in finalize order. Pure: the context is left
    /// untouched and the call can be repeated.
    pub fn convert_segment_object(&self) -> (r: SegmentObject)
        ensures
            r.trace_id == self.trace_id,
            r.trace_segment_id == self.trace_segment_id,
            r.service == self.service,
            r.service_instance == self.service_instance,
            !r.is_size_limited,
            r.spans@.len() == self.segment_spans().len(),
            forall|i: int| 0 <= i < r.spans@.len() ==> span_object_matches(
                #[trigger] r.spans@[i],
                self.segment_spans()[i],
            ),
    {
        let mut objects: Vec<SpanObject> = Vec::new();
        let mut i: usize = 0;
        while i < self.spans.len()
            invariant
                i <= self.spans.len(),
                objects@.len() == i,
                forall|j: int| 0 <= j < i ==> span_object_matches(
                    #[trigger] objects@[j],
                    self.spans@[j].span_internal,
                ),
            decreases self.spans.len() - i,
        {
            let sp = &self.spans[i];
            objects.push(sp.span_internal.duplicate());
            i = i + 1;
        }
        SegmentObject {
            trace_id: self.trace_id.clone(),
            trace_segment_id: self.trace_segment_id.clone(),
            spans: objects,
            service: self.service.clone(),
            service_instance: self.service_instance.clone(),
            is_size_limited: false,
        }
    }
}

// ---------------------------------------------------------------------------
// The span-numbering discipline, over the operations that touch a context
// ---------------------------------------------------------------------------
/// The ways a context is touched, at the specification level.
pub ghost enum ContextOp {
    CreateEntry,
    CreateExit,
    FinalizeSpan,
    AddTag,
    AddLog,
    ConvertSegment,
}

/// The span counter after one operation: only a successful span creation
/// moves it, by exactly one. This mirrors the ensures of the methods above:
/// an entry span is created only at counter 0, an exit span only from
/// counter 1 on, and nothing else touches the counter.
pub open spec fn counter_after(next: int, op: ContextOp) -> int {
    match op {
        ContextOp::CreateEntry => if next == 0 {
            next + 1
        } else {
            next
        },
        ContextOp::CreateExit => if next >= 1 {
            next + 1
        } else {
            next
        },
        ContextOp::FinalizeSpan => next,
        ContextOp::AddTag => next,
        ContextOp::AddLog => next,
        ContextOp::ConvertSegment => next,
    }
}

/// The span identifier an operation assigns, when it creates a span: the
/// counter's current value.
pub open spec fn id_assigned(next: int, op: ContextOp) -> Option<int> {
    match op {
        ContextOp::CreateEntry => if next == 0 {
            Some(next)
        } else {
            None::<int>
        },
        ContextOp::CreateExit => if next >= 1 {
            Some(next)
        } else {
            None::<int>
        },
        ContextOp::FinalizeSpan => None::<int>,
        ContextOp::AddTag => None::<int>,
        ContextOp::AddLog => None::<int>,
        ContextOp::ConvertSegment => None::<int>,
    }
}

/// The counter after a sequence of operations, oldest first.
pub open spec fn counter_after_all(next: int, ops: Seq<ContextOp>) -> int
    decreases ops.len(),
{
    if ops.len() == 0 {
        next
    } else {
        counter_after_all(counter_after(next, ops.first()), ops.drop_first())
    }
}

/// The span identifiers a sequence of operations assigns, in order.
pub open spec fn ids_assigned(next: int, ops: Seq<ContextOp>) -> Seq<int>
    decreases ops.len(),
{
    if ops.len() == 0 {
        Seq::<int>::empty()
    } else {
        let head = match id_assigned(next, ops.first()) {
            Some(id) => seq![id],
            None => Seq::<int>::empty(),
        };
        head + ids_assigned(counter_after(next, ops.first()), ops.drop_first())
    }
}

/// How many entry spans a sequence of operations creates.
pub open spec fn entry_successes(next: int, ops: Seq<ContextOp>) -> int
    decreases ops.len(),
{
    if ops.len() == 0 {
        0
    } else {
        let this: int = if ops.first() == ContextOp::CreateEntry && next == 0 {
            1
        } else {
            0
        };
        this + entry_successes(counter_after(next, ops.first()), ops.drop_first())
    }
}

/// Law: a context creates its entry span at most once. From a fresh counter
/// at most one entry-span request ever succeeds, and from a counter that has
/// already moved none does, however creations, finalizations and reads
/// interleave.
pub proof fn lemma_entry_span_at_most_once(next: int, ops: Seq<ContextOp>)
    requires
        next >= 0,
    ensures
        next == 0 ==> entry_successes(next, ops) <= 1,
        next >= 1 ==> entry_successes(next, ops) == 0,
    decreases ops.len(),
{
    if ops.len() > 0 {
        lemma_entry_span_at_most_once(counter_after(next, ops.first()), ops.drop_first());
    }
}

/// Law: before any entry span exists, every exit-span request fails. A
/// sequence of operations with no entry-span creation assigns no span
/// identifier at all from a fresh counter.
pub proof fn lemma_exit_needs_entry(ops: Seq<ContextOp>)
    requires
        forall|i: int| 0 <= i < ops.len() ==> ops[i] != ContextOp::CreateEntry,
    ensures
        ids_assigned(0, ops) == Seq::<int>::empty(),
    decreases ops.len(),
{
    if ops.len() > 0 {
        assert(ops.first() != ContextOp::CreateEntry);
        assert(counter_after(0, ops.first()) == 0);
        assert(forall|i: int| 0 <= i < ops.drop_first().len() ==> ops.drop_first()[i] != ContextOp::CreateEntry);
        lemma_exit_needs_entry(ops.drop_first());
        assert(ids_assigned(0, ops) =~= Seq::<int>::empty());
    }
}

/// Law: span identifiers form a strictly increasing, gap-free sequence. The
/// identifiers assigned from a counter are the consecutive values counting
/// up from it - from a fresh context 0, 1, 2, ... - regardless of span kind,
/// of failed requests in between, and of how opening and closing interleave.
pub proof fn lemma_span_ids_gap_free(next: int, ops: Seq<ContextOp>)
    requires
        next >= 0,
    ensures
        forall|i: int| 0 <= i < ids_assigned(next, ops).len() ==> #[trigger] ids_assigned(
            next,
            ops,
        )[i] == next + i,
    decreases ops.len(),
{
    if ops.len() > 0 {
        let after = counter_after(next, ops.first());
        lemma_span_ids_gap_free(after, ops.drop_first());
        let rest = ids_assigned(after, ops.drop_first());
        match id_assigned(next, ops.first()) {
            Some(id) => {
                assert(id == next && after == next + 1);
                assert(ids_assigned(next, ops) == seq![id] + rest);
                assert forall|i: int| 0 <= i < ids_assigned(next, ops).len() implies #[trigger] ids_assigned(
                    next,
                    ops,
                )[i] == next + i by {
                    if i > 0 {
                        assert(ids_assigned(next, ops)[i] == rest[i - 1]);
                    }
                }
            },
            None => {
                assert(after == next);
                assert(ids_assigned(next, ops) =~= rest);
            },
        }
    }
}

/// Law: the assembled segment holds only finalized spans. Every span record
/// of a well-formed context's segment is the record of a span that was
/// closed before it entered the context; an open span never appears.
pub proof fn lemma_segment_spans_all_closed<T: TimeFetcher>(ctx: TracingContext<T>)
    requires
        ctx.wf(),
    ensures
        forall|i: int| 0 <= i < ctx.segment_spans().len() ==> {
            &&& (#[trigger] ctx.segment_spans()[i]) == ctx.spans@[i].span_internal
            &&& ctx.spans@[i].closed
        },
{
}

} // verus!

