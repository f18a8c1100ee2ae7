use vstd::prelude::*;

verus! {

/// The kind of work a span stands for.
#[derive(Clone, Copy, Debug, PartialEq, Eq, Structural)]
pub enum SpanType {
    /// A span opened for an inbound call; it initiates the segment.
    Entry,
    /// A span that wraps an outbound call to a remote peer.
    Exit,
}

impl SpanType {
    /// The integer tag this kind carries on the wire.
    pub fn wire_value(&self) -> (r: i32)
        ensures
            r == match self {
                SpanType::Entry => 0i32,
                SpanType::Exit => 1i32,
            },
    {
        match self {
            SpanType::Entry => 0,
            SpanType::Exit => 1,
        }
    }
}

/// The protocol layer a span is tagged with; this core always uses Http.
#[derive(Clone, Copy, Debug, PartialEq, Eq, Structural)]
pub enum SpanLayer {
    Http,
}

impl SpanLayer {
    /// The integer tag this layer carries on the wire.
    pub fn wire_value(&self) -> (r: i32)
        ensures
            r == 3i32,
    {
        3
    }
}

/// The kind of a cross-segment reference; only cross-process links exist here.
#[derive(Clone, Copy, Debug, PartialEq, Eq, Structural)]
pub enum RefType {
    CrossProcess,
}

impl RefType {
    /// The integer tag this reference kind carries on the wire.
    pub fn wire_value(&self) -> (r: i32)
        ensures
            r == 0i32,
    {
        0
    }
}

/// One key/value tag attached to a span or to a log record.
#[derive(Debug, PartialEq, Eq)]
pub struct KeyStringValuePair {
    pub key: String,
    pub value: String,
}

impl KeyStringValuePair {
    /// An exact copy.
    pub fn duplicate(&self) -> (r: KeyStringValuePair)
        ensures
            r == *self,
    {
        KeyStringValuePair { key: self.key.clone(), value: self.value.clone() }
    }
}

/// One timestamped set of key/value pairs recorded on a span.
#[derive(Debug, PartialEq, Eq)]
pub struct Log {
    pub time: i64,
    pub data: Vec<KeyStringValuePair>,
}

/// Two log records carry the same time and the same pairs in the same order.
pub open spec fn log_matches(a: Log, b: Log) -> bool {
    a.time == b.time && a.data@ == b.data@
}

impl Log {
    /// An exact copy.
    pub fn duplicate(&self) -> (r: Log)
        ensures
            log_matches(r, *self),
    {
        Log { time: self.time, data: duplicate_pairs(&self.data) }
    }
}

/// An exact copy of a list of key/value pairs.
pub fn duplicate_pairs(v: &Vec<KeyStringValuePair>) -> (r: Vec<KeyStringValuePair>)
    ensures
        r@ == v@,
{
    let mut out: Vec<KeyStringValuePair> = Vec::new();
    let mut i: usize = 0;
    while i < v.len()
        invariant
            i <= v.len(),
            out@ =~= v@.subrange(0, i as int),
        decreases v.len() - i,
    {
        out.push(v[i].duplicate());
        i = i + 1;
    }
    assert(out@ =~= v@);
    out
}

/// A link from an entry span to the exit span of the upstream caller.
#[derive(Debug, PartialEq, Eq)]
pub struct SegmentReference {
    pub ref_type: RefType,
    pub trace_id: String,
    pub parent_trace_segment_id: String,
    pub parent_span_id: u32,
    pub parent_service: String,
    pub parent_service_instance: String,
    pub parent_endpoint: String,
    pub network_address_used_at_peer: String,
}

impl SegmentReference {
    /// An exact copy.
    pub fn duplicate(&self) -> (r: SegmentReference)
        ensures
            r == *self,
    {
        SegmentReference {
            ref_type: self.ref_type,
            trace_id: self.trace_id.clone(),
            parent_trace_segment_id: self.parent_trace_segment_id.clone(),
            parent_span_id: self.parent_span_id,
            parent_service: self.parent_service.clone(),
            parent_service_instance: self.parent_service_instance.clone(),
            parent_endpoint: self.parent_endpoint.clone(),
            network_address_used_at_peer: self.network_address_used_at_peer.clone(),
        }
    }
}

/// The transport-ready record of one span.
#[derive(Debug, PartialEq, Eq)]
pub struct SpanObject {
    pub span_id: i32,
    pub parent_span_id: i32,
    pub start_time: i64,
    /// 0 while the span is open; set once when the span closes.
    pub end_time: i64,
    pub refs: Vec<SegmentReference>,
    pub operation_name: String,
    pub peer: String,
    pub span_type: SpanType,
    pub span_layer: SpanLayer,
    pub component_id: i32,
    pub is_error: bool,
    pub tags: Vec<KeyStringValuePair>,
    pub logs: Vec<Log>,
    pub skip_analysis: bool,
}

/// Two span records carry the same fields; list fields are compared by their
/// contents in order.
pub open spec fn span_object_matches(a: SpanObject, b: SpanObject) -> bool {
    &&& a.span_id == b.span_id
    &&& a.parent_span_id == b.parent_span_id
    &&& a.start_time == b.start_time
    &&& a.end_time == b.end_time
    &&& a.refs@ == b.refs@
    &&& a.operation_name == b.operation_name
    &&& a.peer == b.peer
    &&& a.span_type == b.span_type
    &&& a.span_layer == b.span_layer
    &&& a.component_id == b.component_id
    &&& a.is_error == b.is_error
    &&& a.tags@ == b.tags@
    &&& a.logs@.len() == b.logs@.len()
    &&& forall|j: int| 0 <= j < a.logs@.len() ==> log_matches(#[trigger] a.logs@[j], b.logs@[j])
}

/// An exact copy of a list of cross-segment references.
pub fn duplicate_refs(v: &Vec<SegmentReference>) -> (r: Vec<SegmentReference>)
    ensures
        r@ == v@,
{
    let mut out: Vec<SegmentReference> = Vec::new();
    let mut i: usize = 0;
    while i < v.len()
        invariant
            i <= v.len(),
            out@ =~= v@.subrange(0, i as int),
        decreases v.len() - i,
    {
        out.push(v[i].duplicate());
        i = i + 1;
    }
    assert(out@ =~= v@);
    out
}

/// An exact copy of a list of log records.
pub fn duplicate_logs(v: &Vec<Log>) -> (r: Vec<Log>)
    ensures
        r@.len() == v@.len(),
        forall|j: int| 0 <= j < v@.len() ==> log_matches(#[trigger] r@[j], v@[j]),
{
    let mut out: Vec<Log> = Vec::new();
    let mut i: usize = 0;
    while i < v.len()
        invariant
            i <= v.len(),
            out@.len() == i,
            forall|j: int| 0 <= j < i ==> log_matches(#[trigger] out@[j], v@[j]),
        decreases v.len() - i,
    {
        out.push(v[i].duplicate());
        i = i + 1;
    }
    out
}

impl SpanObject {
    /// An exact copy.
    pub fn duplicate(&self) -> (r: SpanObject)
        ensures
            span_object_matches(r, *self),
    {
        SpanObject {
            span_id: self.span_id,
            parent_span_id: self.parent_span_id,
            start_time: self.start_time,
            end_time: self.end_time,
            refs: duplicate_refs(&self.refs),
            operation_name: self.operation_name.clone(),
            peer: self.peer.clone(),
            span_type: self.span_type,
            span_layer: self.span_layer,
            component_id: self.component_id,
            is_error: self.is_error,
            tags: duplicate_pairs(&self.tags),
            logs: duplicate_logs(&self.logs),
            skip_analysis: self.skip_analysis,
        }
    }
}

/// The transport-ready record of one finished segment.
#[derive(Debug, PartialEq, Eq)]
pub struct SegmentObject {
    pub trace_id: String,
    pub trace_segment_id: String,
    pub spans: Vec<SpanObject>,
    pub service: String,
    pub service_instance: String,
    pub is_size_limited: bool,
}

/// Two segment records carry the same fields and the same spans in order.
pub open spec fn segment_object_matches(a: SegmentObject, b: SegmentObject) -> bool {
    &&& a.trace_id == b.trace_id
    &&& a.trace_segment_id == b.trace_segment_id
    &&& a.service == b.service
    &&& a.service_instance == b.service_instance
    &&& a.is_size_limited == b.is_size_limited
    &&& a.spans@.len() == b.spans@.len()
    &&& forall|j: int| 0 <= j < a.spans@.len()
        ==> span_object_matches(#[trigger] a.spans@[j], b.spans@[j])
}

} // verus!
