use rs2sky::propagation::{ContextDecoder, DecodeError};

#[test]
fn propagation_basic() {
    let data = "1-MQ==-NQ==-3-bWVzaA==-aW5zdGFuY2U=-L2FwaS92MS9oZWFsdGg=-ZXhhbXBsZS5jb206ODA4MA==";
    let decoder = ContextDecoder::new(data);
    let res = decoder.decode().unwrap();

    assert_eq!(res.do_sample, true);
    assert_eq!(res.parent_trace_id, "1");
    assert_eq!(res.parent_trace_segment_id, "5");
    assert_eq!(res.parent_span_id, 3);
    assert_eq!(res.parent_service, "mesh");
    assert_eq!(res.parent_service_instance, "instance");
    assert_eq!(res.destination_endpoint, "/api/v1/health");
    assert_eq!(res.destination_address, "example.com:8080");
}

#[test]
fn propagation_less_field() {
    let data = "1-MQ==-NQ==-3-bWVzaA==-aW5zdGFuY2U=-L2FwaS92MS9oZWFsdGg=";
    let decoder = ContextDecoder::new(data);
    let res = decoder.decode();

    assert_eq!(res.is_err(), true);
}

#[test]
fn propagation_more_field() {
    let data = "1-MQ==-NQ==-3-bWVzaA==-aW5zdGFuY2U=-L2FwaS92MS9oZWFsdGg=-ZXhhbXBsZS5jb206ODA4MA==-hogehoge";
    let decoder = ContextDecoder::new(data);
    let res = decoder.decode();

    assert_eq!(res.is_err(), true);
}

#[test]
fn propagation_invalid_sample() {
    let data = "3-MQ==-NQ==-3-bWVzaA==-aW5zdGFuY2U=-L2FwaS92MS9oZWFsdGg=-ZXhhbXBsZS5jb206ODA4MA==";
    let decoder = ContextDecoder::new(data);
    let res = decoder.decode();

    assert_eq!(res.is_err(), true);
}

#[test]
fn propagation_error_variants() {
    let less = "1-MQ==-NQ==-3-bWVzaA==-aW5zdGFuY2U=-L2FwaS92MS9oZWFsdGg=";
    assert_eq!(ContextDecoder::new(less).decode().err().unwrap(), DecodeError::MalformedHeader);

    let more = "1-MQ==-NQ==-3-bWVzaA==-aW5zdGFuY2U=-L2FwaS92MS9oZWFsdGg=-ZXhhbXBsZS5jb206ODA4MA==-hogehoge";
    assert_eq!(ContextDecoder::new(more).decode().err().unwrap(), DecodeError::MalformedHeader);

    let bad_flag = "3-MQ==-NQ==-3-bWVzaA==-aW5zdGFuY2U=-L2FwaS92MS9oZWFsdGg=-ZXhhbXBsZS5jb206ODA4MA==";
    assert_eq!(ContextDecoder::new(bad_flag).decode().err().unwrap(), DecodeError::InvalidSampleFlag);

    let bad_span = "1-MQ==-NQ==-x3-bWVzaA==-aW5zdGFuY2U=-L2FwaS92MS9oZWFsdGg=-ZXhhbXBsZS5jb206ODA4MA==";
    assert_eq!(ContextDecoder::new(bad_span).decode().err().unwrap(), DecodeError::InvalidSpanId);

    let huge_span = "1-MQ==-NQ==-99999999999-bWVzaA==-aW5zdGFuY2U=-L2FwaS92MS9oZWFsdGg=-ZXhhbXBsZS5jb206ODA4MA==";
    assert_eq!(ContextDecoder::new(huge_span).decode().err().unwrap(), DecodeError::InvalidSpanId);

    let bad_b64 = "1-M!==-NQ==-3-bWVzaA==-aW5zdGFuY2U=-L2FwaS92MS9oZWFsdGg=-ZXhhbXBsZS5jb206ODA4MA==";
    assert_eq!(ContextDecoder::new(bad_b64).decode().err().unwrap(), DecodeError::InvalidEncoding);

    // "/w==" is the byte 0xff, which is not valid text
    let bad_text = "1-/w==-NQ==-3-bWVzaA==-aW5zdGFuY2U=-L2FwaS92MS9oZWFsdGg=-ZXhhbXBsZS5jb206ODA4MA==";
    assert_eq!(ContextDecoder::new(bad_text).decode().err().unwrap(), DecodeError::InvalidEncoding);

    // non-canonical trailing bits are refused: "MR==" carries the bits of "1"
    // plus trailing noise
    let sloppy = "1-MR==-NQ==-3-bWVzaA==-aW5zdGFuY2U=-L2FwaS92MS9oZWFsdGg=-ZXhhbXBsZS5jb206ODA4MA==";
    assert_eq!(ContextDecoder::new(sloppy).decode().err().unwrap(), DecodeError::InvalidEncoding);

    let empty = "";
    assert_eq!(ContextDecoder::new(empty).decode().err().unwrap(), DecodeError::MalformedHeader);
}

#[test]
fn base64_agrees_with_reference_crate() {
    let samples: Vec<&[u8]> = vec![
        b"",
        b"f",
        b"fo",
        b"foo",
        b"foob",
        b"fooba",
        b"foobar",
        b"example.com:8080",
        b"\x00\xff\x10\x80",
    ];
    for sample in samples {
        let mine: String = rs2sky::base64::b64_encode(&sample.to_vec()).into_iter().collect();
        let reference = base64::encode(sample);
        assert_eq!(mine, reference);

        let back = rs2sky::base64::b64_decode(&reference.chars().collect::<Vec<char>>()).unwrap();
        assert_eq!(back, sample.to_vec());
    }
}

#[test]
fn base64_rejects_what_it_cannot_read_back() {
    assert!(rs2sky::base64::b64_decode(&"A".chars().collect::<Vec<char>>()).is_none());
    assert!(rs2sky::base64::b64_decode(&"AB".chars().collect::<Vec<char>>()).is_none());
    assert!(rs2sky::base64::b64_decode(&"ABC".chars().collect::<Vec<char>>()).is_none());
    assert!(rs2sky::base64::b64_decode(&"====".chars().collect::<Vec<char>>()).is_none());
    assert!(rs2sky::base64::b64_decode(&"A===".chars().collect::<Vec<char>>()).is_none());
    assert!(rs2sky::base64::b64_decode(&"ABCDE".chars().collect::<Vec<char>>()).is_none());
    assert!(rs2sky::base64::b64_decode(&"ab-d".chars().collect::<Vec<char>>()).is_none());
    assert!(rs2sky::base64::b64_decode(&"MR==".chars().collect::<Vec<char>>()).is_none());
}

#[test]
fn span_id_boundary_values() {
    // the largest span identifier that fits is read back exactly
    let max = "1-MQ==-NQ==-4294967295-bWVzaA==-aW5zdGFuY2U=-L2FwaS92MS9oZWFsdGg=-ZXhhbXBsZS5jb206ODA4MA==";
    let res = ContextDecoder::new(max).decode().unwrap();
    assert_eq!(res.parent_span_id, u32::MAX);

    // one past it is refused
    let over = "1-MQ==-NQ==-4294967296-bWVzaA==-aW5zdGFuY2U=-L2FwaS92MS9oZWFsdGg=-ZXhhbXBsZS5jb206ODA4MA==";
    assert_eq!(ContextDecoder::new(over).decode().err().unwrap(), DecodeError::InvalidSpanId);

    // leading zeros are still a decimal numeral
    let zeros = "0-MQ==-NQ==-007-bWVzaA==-aW5zdGFuY2U=-L2FwaS92MS9oZWFsdGg=-ZXhhbXBsZS5jb206ODA4MA==";
    let res = ContextDecoder::new(zeros).decode().unwrap();
    assert_eq!(res.do_sample, false);
    assert_eq!(res.parent_span_id, 7);
}

#[test]
fn empty_text_fields_decode_to_empty_strings() {
    let header = "0---0----";
    let res = ContextDecoder::new(header).decode().unwrap();
    assert_eq!(res.do_sample, false);
    assert_eq!(res.parent_trace_id, "");
    assert_eq!(res.parent_trace_segment_id, "");
    assert_eq!(res.parent_span_id, 0);
    assert_eq!(res.parent_service, "");
    assert_eq!(res.parent_service_instance, "");
    assert_eq!(res.destination_endpoint, "");
    assert_eq!(res.destination_address, "");
}
