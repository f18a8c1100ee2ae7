use vstd::prelude::*;

use crate::base64::{
    b64_decode, b64_encode, b64_decode_spec, b64_encode_spec, lemma_b64_encode_no_dash,
    lemma_b64_round_trip,
};
use crate::codec::{
    dec_digits, dec_value, join_fields, lemma_dec_digits_value, lemma_dec_value_nonneg,
    lemma_digits_not_dash, lemma_split_join, parse_u32_chars, parses_to_u32, split_chars,
    split_fields, str_chars, u32_to_chars, views_of,
};
use crate::common::TimeFetcher;
use crate::trace_context::TracingContext;
use vstd::string::StrSliceExecFns;
use vstd::utf8::{decode_utf8, encode_utf8, encode_utf8_decode_utf8, encode_utf8_valid_utf8,
    valid_utf8};

verus! {

/// Why an inbound propagation header was refused.
#[derive(Clone, Copy, Debug, PartialEq, Eq, Structural)]
pub enum DecodeError {
    /// The header does not hold exactly eight fields.
    MalformedHeader,
    /// The sample flag is neither "0" nor "1".
    InvalidSampleFlag,
    /// The span identifier is not a decimal number within range.
    InvalidSpanId,
    /// A text field is not canonical base64 over valid text.
    InvalidEncoding,
}

/// The decoded form of an inbound propagation header: the identity of the
/// upstream caller and of the call it made. Immutable once decoded; consumed
/// once to build a continuing tracing context.
pub struct PropagationContext {
    /// Whether the upstream caller asks for this trace to be reported.
    pub do_sample: bool,
    /// The trace identifier shared across the whole distributed trace.
    pub parent_trace_id: String,
    /// The segment identifier of the caller's own segment.
    pub parent_trace_segment_id: String,
    /// The span identifier of the caller's span that issued the call.
    pub parent_span_id: u32,
    /// The service name the caller declares for itself.
    pub parent_service: String,
    /// The service instance name the caller declares for itself.
    pub parent_service_instance: String,
    /// The endpoint the caller addressed on this service.
    pub destination_endpoint: String,
    /// The network address the caller used to reach this service.
    pub destination_address: String,
}

impl PropagationContext {
    pub fn new(
        do_sample: bool,
        parent_trace_id: String,
        parent_trace_segment_id: String,
        parent_span_id: u32,
        parent_service: String,
        parent_service_instance: String,
        destination_endpoint: String,
        destination_address: String,
    ) -> (r: PropagationContext)
        ensures
            r == (PropagationContext {
                do_sample,
                parent_trace_id,
                parent_trace_segment_id,
                parent_span_id,
                parent_service,
                parent_service_instance,
                destination_endpoint,
                destination_address,
            }),
    {
        PropagationContext {
            do_sample,
            parent_trace_id,
            parent_trace_segment_id,
            parent_span_id,
            parent_service,
            parent_service_instance,
            destination_endpoint,
            destination_address,
        }
    }
}

// ---------------------------------------------------------------------------
// The wire model
// ---------------------------------------------------------------------------
/// The field values a propagation header carries, at the specification level.
pub ghost struct PropagationFields {
    pub do_sample: bool,
    pub parent_trace_id: Seq<char>,
    pub parent_trace_segment_id: Seq<char>,
    pub parent_span_id: u32,
    pub parent_service: Seq<char>,
    pub parent_service_instance: Seq<char>,
    pub destination_endpoint: Seq<char>,
    pub destination_address: Seq<char>,
}

/// A decoded context carries exactly these field values.
pub open spec fn fields_match(ctx: PropagationContext, f: PropagationFields) -> bool {
    &&& ctx.do_sample == f.do_sample
    &&& ctx.parent_trace_id@ == f.parent_trace_id
    &&& ctx.parent_trace_segment_id@ == f.parent_trace_segment_id
    &&& ctx.parent_span_id == f.parent_span_id
    &&& ctx.parent_service@ == f.parent_service
    &&& ctx.parent_service_instance@ == f.parent_service_instance
    &&& ctx.destination_endpoint@ == f.destination_endpoint
    &&& ctx.destination_address@ == f.destination_address
}

/// The wire form of one text field: base64 over its UTF-8 bytes.
pub open spec fn text_field(s: Seq<char>) -> Seq<char> {
    b64_encode_spec(encode_utf8(s))
}

/// Reading one text field back: strict base64, then strict UTF-8.
pub open spec fn text_field_decode(piece: Seq<char>) -> Option<Seq<char>> {
    match b64_decode_spec(piece) {
        Some(bytes) => if valid_utf8(bytes) {
            Some(decode_utf8(bytes))
        } else {
            None::<Seq<char>>
        },
        None => None::<Seq<char>>,
    }
}

/// The eight header fields, in wire order: the sample flag, the two
/// identifiers, the caller's span number in decimal, and the four remaining
/// names.
pub open spec fn header_pieces(f: PropagationFields) -> Seq<Seq<char>> {
    seq![
        if f.do_sample {
            seq!['1']
        } else {
            seq!['0']
        },
        text_field(f.parent_trace_id),
        text_field(f.parent_trace_segment_id),
        dec_digits(f.parent_span_id as int),
        text_field(f.parent_service),
        text_field(f.parent_service_instance),
        text_field(f.destination_endpoint),
        text_field(f.destination_address),
    ]
}

/// The wire form of a propagation header: the eight fields joined with '-'.
pub open spec fn encode_model(f: PropagationFields) -> Seq<char> {
    join_fields(header_pieces(f), '-')
}

/// What decoding a header yields: the field values, or the first failure in
/// the order the fields are read - the field count, the sample flag, the two
/// identifiers, the span number, then the remaining text fields.
pub open spec fn decode_model(s: Seq<char>) -> Result<PropagationFields, DecodeError> {
    let pieces = split_fields(s, '-');
    if pieces.len() != 8 {
        Err(DecodeError::MalformedHeader)
    } else if pieces[0] != seq!['0'] && pieces[0] != seq!['1'] {
        Err(DecodeError::InvalidSampleFlag)
    } else if text_field_decode(pieces[1]) is None {
        Err(DecodeError::InvalidEncoding)
    } else if text_field_decode(pieces[2]) is None {
        Err(DecodeError::InvalidEncoding)
    } else if !parses_to_u32(pieces[3]) {
        Err(DecodeError::InvalidSpanId)
    } else if text_field_decode(pieces[4]) is None {
        Err(DecodeError::InvalidEncoding)
    } else if text_field_decode(pieces[5]) is None {
        Err(DecodeError::InvalidEncoding)
    } else if text_field_decode(pieces[6]) is None {
        Err(DecodeError::InvalidEncoding)
    } else if text_field_decode(pieces[7]) is None {
        Err(DecodeError::InvalidEncoding)
    } else {
        Ok(
            PropagationFields {
                do_sample: pieces[0] == seq!['1'],
                parent_trace_id: text_field_decode(pieces[1]).unwrap(),
                parent_trace_segment_id: text_field_decode(pieces[2]).unwrap(),
                parent_span_id: dec_value(pieces[3]) as u32,
                parent_service: text_field_decode(pieces[4]).unwrap(),
                parent_service_instance: text_field_decode(pieces[5]).unwrap(),
                destination_endpoint: text_field_decode(pieces[6]).unwrap(),
                destination_address: text_field_decode(pieces[7]).unwrap(),
            },
        )
    }
}

// ---------------------------------------------------------------------------
// Trusted boundary to std
// ---------------------------------------------------------------------------
/// Relies on String::from_utf8: it succeeds exactly on valid UTF-8 and
/// returns the text those bytes spell, as vstd's valid_utf8 and decode_utf8
/// state it.
#[verifier::external_body]
fn string_from_utf8(bytes: Vec<u8>) -> (r: Option<String>)
    ensures
        r is Some <==> valid_utf8(bytes@),
        r matches Some(t) ==> t@ == decode_utf8(bytes@),
{
    String::from_utf8(bytes).ok()
}

/// Relies on String::from_iter over characters: the string spelled by
/// exactly the given characters, in order.
#[verifier::external_body]
fn chars_to_string(v: &Vec<char>) -> (r: String)
    ensures
        r@ == v@,
{
    v.iter().collect()
}

// ---------------------------------------------------------------------------
// Encoding
// ---------------------------------------------------------------------------
/// The fields a context propagates on an outbound call: always sampled, this
/// context's identifiers and identity, the last assigned span identifier,
/// and the call's destination.
pub open spec fn propagation_fields<T: TimeFetcher>(
    context: TracingContext<T>,
    endpoint: Seq<char>,
    address: Seq<char>,
) -> PropagationFields {
    PropagationFields {
        do_sample: true,
        parent_trace_id: context.trace_id@,
        parent_trace_segment_id: context.trace_segment_id@,
        parent_span_id: (context.next_span_id - 1) as u32,
        parent_service: context.service@,
        parent_service_instance: context.service_instance@,
        destination_endpoint: endpoint,
        destination_address: address,
    }
}

/// A header is the eight fields with '-' between them, written out.
proof fn lemma_join_eight(p: Seq<Seq<char>>, sep: char)
    requires
        p.len() == 8,
    ensures
        join_fields(p, sep) == p[0] + seq![sep] + p[1] + seq![sep] + p[2] + seq![sep] + p[3]
            + seq![sep] + p[4] + seq![sep] + p[5] + seq![sep] + p[6] + seq![sep] + p[7],
{
    let t1 = p.drop_first();
    let t2 = t1.drop_first();
    let t3 = t2.drop_first();
    let t4 = t3.drop_first();
    let t5 = t4.drop_first();
    let t6 = t5.drop_first();
    let t7 = t6.drop_first();
    assert(t1[0] == p[1] && t2[0] == p[2] && t3[0] == p[3] && t4[0] == p[4] && t5[0] == p[5]
        && t6[0] == p[6] && t7[0] == p[7]);
    assert(t7.len() == 1);
    assert(join_fields(p, sep) == p[0] + seq![sep] + join_fields(t1, sep));
    assert(join_fields(t1, sep) == t1[0] + seq![sep] + join_fields(t2, sep));
    assert(join_fields(t2, sep) == t2[0] + seq![sep] + join_fields(t3, sep));
    assert(join_fields(t3, sep) == t3[0] + seq![sep] + join_fields(t4, sep));
    assert(join_fields(t4, sep) == t4[0] + seq![sep] + join_fields(t5, sep));
    assert(join_fields(t5, sep) == t5[0] + seq![sep] + join_fields(t6, sep));
    assert(join_fields(t6, sep) == t6[0] + seq![sep] + join_fields(t7, sep));
    assert(join_fields(t7, sep) == t7[0]);
    assert(join_fields(p, sep) =~= p[0] + seq![sep] + p[1] + seq![sep] + p[2] + seq![sep] + p[3]
        + seq![sep] + p[4] + seq![sep] + p[5] + seq![sep] + p[6] + seq![sep] + p[7]);
}

/// Appends the wire form of one text field.
fn push_text_field(out: &mut Vec<char>, s: &str)
    ensures
        final(out)@ == old(out)@ + text_field(s@),
{
    let bytes = s.as_bytes_vec();
    let mut enc = b64_encode(&bytes);
    out.append(&mut enc);
}

/// Writes the propagation header this context hands to an outbound call:
/// the sample flag "1", the base64 trace and segment identifiers, the last
/// assigned span identifier in decimal, and the base64 service, instance,
/// endpoint and address fields, joined with '-'. The context must have
/// created at least one span: the span that issues the outbound call.
pub fn encode_propagation<T: TimeFetcher>(
    context: &TracingContext<T>,
    endpoint: &str,
    address: &str,
) -> (r: String)
    requires
        context.next_span_id >= 1,
    ensures
        r@ == encode_model(propagation_fields(*context, endpoint@, address@)),
{
    let ghost f = propagation_fields(*context, endpoint@, address@);
    let mut chars: Vec<char> = Vec::new();
    chars.push('1');
    chars.push('-');
    push_text_field(&mut chars, context.trace_id.as_str());
    chars.push('-');
    push_text_field(&mut chars, context.trace_segment_id.as_str());
    chars.push('-');
    let mut digits = u32_to_chars((context.next_span_id - 1) as u32);
    chars.append(&mut digits);
    chars.push('-');
    push_text_field(&mut chars, context.service.as_str());
    chars.push('-');
    push_text_field(&mut chars, context.service_instance.as_str());
    chars.push('-');
    push_text_field(&mut chars, endpoint);
    chars.push('-');
    push_text_field(&mut chars, address);
    proof {
        lemma_join_eight(header_pieces(f), '-');
        assert(chars@ =~= encode_model(f));
    }
    chars_to_string(&chars)
}

// ---------------------------------------------------------------------------
// Decoding
// ---------------------------------------------------------------------------
/// Reads one text field: strict base64, then strict UTF-8.
fn decode_text_field(piece: &Vec<char>) -> (r: Option<String>)
    ensures
        r is Some <==> text_field_decode(piece@) is Some,
        r matches Some(t) ==> Some(t@) == text_field_decode(piece@),
{
    match b64_decode(piece) {
        None => None,
        Some(bytes) => string_from_utf8(bytes),
    }
}

/// Reads a propagation header back into its fields.
pub struct ContextDecoder<'a> {
    pub header_value: &'a str,
}

impl<'a> ContextDecoder<'a> {
    pub fn new(header_value: &str) -> (r: ContextDecoder<'_>)
        ensures
            r.header_value@ == header_value@,
    {
        ContextDecoder { header_value }
    }

    /// Decodes the header. It succeeds exactly on the strings the wire model
    /// accepts and yields exactly the modeled field values; each refusal
    /// carries the modeled error. Decoding is total: no input aborts it.
    pub fn decode(&self) -> (r: Result<PropagationContext, DecodeError>)
        ensures
            r is Ok <==> decode_model(self.header_value@) is Ok,
            r matches Ok(ctx) ==> fields_match(ctx, decode_model(self.header_value@)->Ok_0),
            r matches Err(e) ==> decode_model(self.header_value@) == Err::<
                PropagationFields,
                DecodeError,
            >(e),
    {
        let ghost model_pieces = split_fields(self.header_value@, '-');
        let chars = str_chars(self.header_value);
        let pieces = split_chars(&chars, '-');
        proof {
            assert(views_of(pieces@) == model_pieces);
            assert(pieces@.len() == model_pieces.len());
        }
        if pieces.len() != 8 {
            return Err(DecodeError::MalformedHeader);
        }
        proof {
            assert forall|k: int| 0 <= k < 8 implies #[trigger] pieces@[k]@ == model_pieces[k] by {
                assert(views_of(pieces@)[k] == pieces@[k]@);
            }
        }
        let p0 = &pieces[0];
        let do_sample: bool;
        if p0.len() == 1 && p0[0] == '1' {
            do_sample = true;
            proof {
                assert(model_pieces[0] =~= seq!['1']);
            }
        } else if p0.len() == 1 && p0[0] == '0' {
            do_sample = false;
            proof {
                assert(model_pieces[0] =~= seq!['0']);
                assert('0' != '1');
                assert(model_pieces[0] != seq!['1']);
            }
        } else {
            proof {
                assert(seq!['0'].len() == 1 && seq!['1'].len() == 1);
                assert(seq!['0'][0] == '0' && seq!['1'][0] == '1');
                assert(model_pieces[0] != seq!['0'] && model_pieces[0] != seq!['1']);
            }
            return Err(DecodeError::InvalidSampleFlag);
        }
        let parent_trace_id = match decode_text_field(&pieces[1]) {
            Some(t) => t,
            None => {
                return Err(DecodeError::InvalidEncoding);
            },
        };
        let parent_trace_segment_id = match decode_text_field(&pieces[2]) {
            Some(t) => t,
            None => {
                return Err(DecodeError::InvalidEncoding);
            },
        };
        let parent_span_id = match parse_u32_chars(&pieces[3]) {
            Some(v) => v,
            None => {
                return Err(DecodeError::InvalidSpanId);
            },
        };
        let parent_service = match decode_text_field(&pieces[4]) {
            Some(t) => t,
            None => {
                return Err(DecodeError::InvalidEncoding);
            },
        };
        let parent_service_instance = match decode_text_field(&pieces[5]) {
            Some(t) => t,
            None => {
                return Err(DecodeError::InvalidEncoding);
            },
        };
        let destination_endpoint = match decode_text_field(&pieces[6]) {
            Some(t) => t,
            None => {
                return Err(DecodeError::InvalidEncoding);
            },
        };
        let destination_address = match decode_text_field(&pieces[7]) {
            Some(t) => t,
            None => {
                return Err(DecodeError::InvalidEncoding);
            },
        };
        proof {
            lemma_dec_value_nonneg(model_pieces[3]);
        }
        Ok(
            PropagationContext::new(
                do_sample,
                parent_trace_id,
                parent_trace_segment_id,
                parent_span_id,
                parent_service,
                parent_service_instance,
                destination_endpoint,
                destination_address,
            ),
        )
    }
}

// ---------------------------------------------------------------------------
// The round trip
// ---------------------------------------------------------------------------
/// One encoded text field reads back to exactly the text it was built from.
proof fn lemma_text_field_round_trip(s: Seq<char>)
    ensures
        text_field_decode(text_field(s)) == Some(s),
        forall|j: int| 0 <= j < text_field(s).len() ==> #[trigger] text_field(s)[j] != '-',
{
    lemma_b64_round_trip(encode_utf8(s));
    encode_utf8_valid_utf8(s);
    encode_utf8_decode_utf8(s);
    lemma_b64_encode_no_dash(encode_utf8(s));
}

/// Law: decoding inverts encoding. For every combination of sample flag,
/// identifiers, span number and names, the written header reads back to
/// exactly the fields it was written from.
pub proof fn lemma_propagation_round_trip(f: PropagationFields)
    ensures
        decode_model(encode_model(f)) == Ok::<PropagationFields, DecodeError>(f),
{
    let pieces = header_pieces(f);
    let flag = if f.do_sample {
        seq!['1']
    } else {
        seq!['0']
    };
    assert('0' as u32 == 48 && '1' as u32 == 49 && '-' as u32 == 45);
    lemma_text_field_round_trip(f.parent_trace_id);
    lemma_text_field_round_trip(f.parent_trace_segment_id);
    lemma_text_field_round_trip(f.parent_service);
    lemma_text_field_round_trip(f.parent_service_instance);
    lemma_text_field_round_trip(f.destination_endpoint);
    lemma_text_field_round_trip(f.destination_address);
    lemma_dec_digits_value(f.parent_span_id as int);
    lemma_digits_not_dash(dec_digits(f.parent_span_id as int));
    assert forall|i: int, j: int|
        0 <= i < pieces.len() && 0 <= j < pieces[i].len() implies #[trigger] pieces[i][j]
        != '-' by {
        if i == 0 {
            assert(pieces[0] == flag);
            assert(flag[j] == '0' || flag[j] == '1');
        }
    }
    lemma_split_join(pieces, '-');
    let s = encode_model(f);
    assert(split_fields(s, '-') == pieces);
    if f.do_sample {
        assert(pieces[0] == seq!['1']);
    } else {
        assert(pieces[0] == seq!['0']);
        assert(seq!['0'][0] == '0' && seq!['1'][0] == '1');
        assert(pieces[0] != seq!['1']);
    }
    assert(parses_to_u32(pieces[3]));
    assert(dec_value(pieces[3]) == f.parent_span_id as int);
    assert(decode_model(s) == Ok::<PropagationFields, DecodeError>(f));
}

} // verus!
