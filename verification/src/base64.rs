use vstd::prelude::*;

use vstd::arithmetic::div_mod::{
    lemma_fundamental_div_mod, lemma_fundamental_div_mod_converse, lemma_remainder_lower,
    lemma_remainder_upper,
};

verus! {

// ---------------------------------------------------------------------------
// The alphabet
// ---------------------------------------------------------------------------
/// The character standing for one six-bit value of the standard alphabet.
pub open spec fn b64_char(v: int) -> char {
    if v < 26 {
        ((65 + v) as u8) as char
    } else if v < 52 {
        ((97 + (v - 26)) as u8) as char
    } else if v < 62 {
        ((48 + (v - 52)) as u8) as char
    } else if v == 62 {
        '+'
    } else {
        '/'
    }
}

/// The six-bit value of one alphabet character, or -1 when the character is
/// not in the alphabet.
pub open spec fn b64_val(c: char) -> int {
    if 65 <= c as u32 <= 90 {
        c as u32 - 65
    } else if 97 <= c as u32 <= 122 {
        c as u32 - 97 + 26
    } else if 48 <= c as u32 <= 57 {
        c as u32 - 48 + 52
    } else if c as u32 == 43 {
        62
    } else if c as u32 == 47 {
        63
    } else {
        -1
    }
}

/// The alphabet is read back to the value it stands for, and never collides
/// with the padding or the header field separator.
pub proof fn lemma_b64_char_val(v: int)
    requires
        0 <= v < 64,
    ensures
        b64_val(b64_char(v)) == v,
        b64_char(v) != '=',
        b64_char(v) != '-',
{
    assert('=' as u32 == 61);
    assert('-' as u32 == 45);
    assert('+' as u32 == 43);
    assert('/' as u32 == 47);
    if v < 26 {
        assert(b64_char(v) as u32 == 65 + v);
    } else if v < 52 {
        assert(b64_char(v) as u32 == 97 + (v - 26));
    } else if v < 62 {
        assert(b64_char(v) as u32 == 48 + (v - 52));
    }
}

/// An alphabet value never reaches 64.
pub proof fn lemma_b64_val_bound(c: char)
    ensures
        b64_val(c) < 64,
{
}

// ---------------------------------------------------------------------------
// Arithmetic helpers
// ---------------------------------------------------------------------------
/// Packing a value above a remainder and unpacking it again.
proof fn lemma_pack_unpack(x: int, r: int, m: int)
    requires
        0 <= x,
        0 <= r < m,
        0 < m,
    ensures
        (x * m + r) / m == x,
        (x * m + r) % m == r,
{
    lemma_fundamental_div_mod_converse(x * m + r, m, x, r);
}

/// The quotients and remainders a byte contributes to its six-bit groups.
proof fn lemma_byte_parts(b: int)
    requires
        0 <= b < 256,
    ensures
        0 <= b / 4 < 64,
        0 <= b % 4 < 4,
        0 <= b / 16 < 16,
        0 <= b % 16 < 16,
        0 <= b / 64 < 4,
        0 <= b % 64 < 64,
        (b / 4) * 4 + b % 4 == b,
        (b / 16) * 16 + b % 16 == b,
        (b / 64) * 64 + b % 64 == b,
{
    lemma_fundamental_div_mod(b, 4);
    lemma_remainder_lower(b, 4);
    lemma_remainder_upper(b, 4);
    lemma_fundamental_div_mod(b, 16);
    lemma_remainder_lower(b, 16);
    lemma_remainder_upper(b, 16);
    lemma_fundamental_div_mod(b, 64);
    lemma_remainder_lower(b, 64);
    lemma_remainder_upper(b, 64);
}

// ---------------------------------------------------------------------------
// Encoding
// ---------------------------------------------------------------------------
/// The standard encoding of a byte string: six-bit groups mapped through the
/// alphabet, the last group padded with '=' up to four characters.
pub open spec fn b64_encode_spec(bytes: Seq<u8>) -> Seq<char>
    decreases bytes.len(),
{
    if bytes.len() == 0 {
        Seq::<char>::empty()
    } else {
        let b0 = bytes[0] as int;
        if bytes.len() == 1 {
            seq![b64_char(b0 / 4), b64_char((b0 % 4) * 16), '=', '=']
        } else {
            let b1 = bytes[1] as int;
            if bytes.len() == 2 {
                seq![
                    b64_char(b0 / 4),
                    b64_char((b0 % 4) * 16 + b1 / 16),
                    b64_char((b1 % 16) * 4),
                    '=',
                ]
            } else {
                let b2 = bytes[2] as int;
                seq![
                    b64_char(b0 / 4),
                    b64_char((b0 % 4) * 16 + b1 / 16),
                    b64_char((b1 % 16) * 4 + b2 / 64),
                    b64_char(b2 % 64),
                ] + b64_encode_spec(bytes.skip(3))
            }
        }
    }
}

// ---------------------------------------------------------------------------
// Decoding
// ---------------------------------------------------------------------------
/// The bytes the final four-character group stands for: one byte under two
/// padding characters, two bytes under one, three bytes under none. Trailing
/// bits that cannot round-trip are refused, so only canonical encodings pass.
pub open spec fn b64_decode_last_group(c0: char, c1: char, c2: char, c3: char) -> Option<Seq<u8>> {
    let v0 = b64_val(c0);
    let v1 = b64_val(c1);
    if v0 < 0 || v1 < 0 {
        None::<Seq<u8>>
    } else if c2 == '=' {
        if c3 == '=' && v1 % 16 == 0 {
            Some(seq![(v0 * 4 + v1 / 16) as u8])
        } else {
            None::<Seq<u8>>
        }
    } else {
        let v2 = b64_val(c2);
        if v2 < 0 {
            None::<Seq<u8>>
        } else if c3 == '=' {
            if v2 % 4 == 0 {
                Some(seq![(v0 * 4 + v1 / 16) as u8, ((v1 % 16) * 16 + v2 / 4) as u8])
            } else {
                None::<Seq<u8>>
            }
        } else {
            let v3 = b64_val(c3);
            if v3 < 0 {
                None::<Seq<u8>>
            } else {
                Some(
                    seq![
                        (v0 * 4 + v1 / 16) as u8,
                        ((v1 % 16) * 16 + v2 / 4) as u8,
                        ((v2 % 4) * 64 + v3) as u8,
                    ],
                )
            }
        }
    }
}

/// The bytes a character string stands for, or nothing when the string is
/// not a canonical standard encoding with padding.
pub open spec fn b64_decode_spec(s: Seq<char>) -> Option<Seq<u8>>
    decreases s.len(),
{
    if s.len() == 0 {
        Some(Seq::<u8>::empty())
    } else if s.len() < 4 {
        None::<Seq<u8>>
    } else if s.len() == 4 {
        b64_decode_last_group(s[0], s[1], s[2], s[3])
    } else {
        let v0 = b64_val(s[0]);
        let v1 = b64_val(s[1]);
        let v2 = b64_val(s[2]);
        let v3 = b64_val(s[3]);
        if v0 < 0 || v1 < 0 || v2 < 0 || v3 < 0 {
            None::<Seq<u8>>
        } else {
            match b64_decode_spec(s.skip(4)) {
                Some(rest) => Some(
                    seq![
                        (v0 * 4 + v1 / 16) as u8,
                        ((v1 % 16) * 16 + v2 / 4) as u8,
                        ((v2 % 4) * 64 + v3) as u8,
                    ] + rest,
                ),
                None => None::<Seq<u8>>,
            }
        }
    }
}

// ---------------------------------------------------------------------------
// Laws
// ---------------------------------------------------------------------------
/// Unpacking the first two six-bit values of a group gives the first byte
/// back.
proof fn lemma_group_first_byte(b0: int, next: int)
    requires
        0 <= b0 < 256,
        0 <= next < 16,
    ensures
        ((b0 % 4) * 16 + next) / 16 == b0 % 4,
        ((b0 % 4) * 16 + next) % 16 == next,
        (b0 / 4) * 4 + b0 % 4 == b0,
        0 <= (b0 % 4) * 16 + next < 64,
        0 <= b0 / 4 < 64,
{
    lemma_byte_parts(b0);
    lemma_pack_unpack(b0 % 4, next, 16);
}

/// Unpacking the middle six-bit values of a group gives the second byte back.
proof fn lemma_group_second_byte(b1: int, next: int)
    requires
        0 <= b1 < 256,
        0 <= next < 4,
    ensures
        ((b1 % 16) * 4 + next) / 4 == b1 % 16,
        ((b1 % 16) * 4 + next) % 4 == next,
        (b1 / 16) * 16 + b1 % 16 == b1,
        0 <= (b1 % 16) * 4 + next < 64,
        0 <= b1 / 16 < 16,
{
    lemma_byte_parts(b1);
    lemma_pack_unpack(b1 % 16, next, 4);
}

/// Law: decoding inverts encoding. Every byte string is read back exactly
/// from its standard encoding.
pub proof fn lemma_b64_round_trip(bytes: Seq<u8>)
    ensures
        b64_decode_spec(b64_encode_spec(bytes)) == Some(bytes),
    decreases bytes.len(),
{
    let s = b64_encode_spec(bytes);
    if bytes.len() == 0 {
        assert(s.len() == 0);
        assert(bytes =~= Seq::<u8>::empty());
    } else if bytes.len() == 1 {
        let b0 = bytes[0] as int;
        lemma_group_first_byte(b0, 0);
        let c0 = b64_char(b0 / 4);
        let c1 = b64_char((b0 % 4) * 16);
        lemma_b64_char_val(b0 / 4);
        lemma_b64_char_val((b0 % 4) * 16);
        assert(s == seq![c0, c1, '=', '=']);
        assert(s.len() == 4);
        assert(b64_decode_last_group(c0, c1, '=', '=') == Some(seq![bytes[0]]));
        assert(seq![bytes[0]] =~= bytes);
    } else if bytes.len() == 2 {
        let b0 = bytes[0] as int;
        let b1 = bytes[1] as int;
        lemma_group_first_byte(b0, b1 / 16);
        lemma_group_second_byte(b1, 0);
        let c0 = b64_char(b0 / 4);
        let c1 = b64_char((b0 % 4) * 16 + b1 / 16);
        let c2 = b64_char((b1 % 16) * 4);
        lemma_b64_char_val(b0 / 4);
        lemma_b64_char_val((b0 % 4) * 16 + b1 / 16);
        lemma_b64_char_val((b1 % 16) * 4);
        assert(s == seq![c0, c1, c2, '=']);
        assert(s.len() == 4);
        assert(b64_decode_last_group(c0, c1, c2, '=') == Some(seq![bytes[0], bytes[1]]));
        assert(seq![bytes[0], bytes[1]] =~= bytes);
    } else {
        let b0 = bytes[0] as int;
        let b1 = bytes[1] as int;
        let b2 = bytes[2] as int;
        lemma_byte_parts(b2);
        lemma_group_first_byte(b0, b1 / 16);
        lemma_group_second_byte(b1, b2 / 64);
        let c0 = b64_char(b0 / 4);
        let c1 = b64_char((b0 % 4) * 16 + b1 / 16);
        let c2 = b64_char((b1 % 16) * 4 + b2 / 64);
        let c3 = b64_char(b2 % 64);
        lemma_b64_char_val(b0 / 4);
        lemma_b64_char_val((b0 % 4) * 16 + b1 / 16);
        lemma_b64_char_val((b1 % 16) * 4 + b2 / 64);
        lemma_b64_char_val(b2 % 64);
        let group = seq![c0, c1, c2, c3];
        let rest = b64_encode_spec(bytes.skip(3));
        assert(s == group + rest);
        lemma_b64_round_trip(bytes.skip(3));
        let front = seq![bytes[0], bytes[1], bytes[2]];
        if bytes.len() == 3 {
            assert(bytes.skip(3) =~= Seq::<u8>::empty());
            assert(rest.len() == 0);
            assert(s =~= group);
            assert(s.len() == 4);
            assert(b64_decode_last_group(c0, c1, c2, c3) == Some(front));
            assert(front =~= bytes);
        } else {
            assert(rest.len() >= 4);
            assert(s.len() > 4);
            assert(s[0] == c0 && s[1] == c1 && s[2] == c2 && s[3] == c3);
            assert(s.skip(4) =~= rest);
            assert(b64_decode_spec(s) == Some(front + bytes.skip(3)));
            assert(front + bytes.skip(3) =~= bytes);
        }
    }
}

/// An encoding never holds the header field separator.
pub proof fn lemma_b64_encode_no_dash(bytes: Seq<u8>)
    ensures
        forall|i: int|
            0 <= i < b64_encode_spec(bytes).len() ==> #[trigger] b64_encode_spec(bytes)[i] != '-',
    decreases bytes.len(),
{
    let s = b64_encode_spec(bytes);
    assert('=' as u32 == 61);
    assert('-' as u32 == 45);
    if bytes.len() == 0 {
    } else {
        let b0 = bytes[0] as int;
        lemma_byte_parts(b0);
        if bytes.len() == 1 {
            lemma_group_first_byte(b0, 0);
            lemma_b64_char_val(b0 / 4);
            lemma_b64_char_val((b0 % 4) * 16);
        } else {
            let b1 = bytes[1] as int;
            lemma_byte_parts(b1);
            if bytes.len() == 2 {
                lemma_group_first_byte(b0, b1 / 16);
                lemma_group_second_byte(b1, 0);
                lemma_b64_char_val(b0 / 4);
                lemma_b64_char_val((b0 % 4) * 16 + b1 / 16);
                lemma_b64_char_val((b1 % 16) * 4);
            } else {
                let b2 = bytes[2] as int;
                lemma_byte_parts(b2);
                lemma_group_first_byte(b0, b1 / 16);
                lemma_group_second_byte(b1, b2 / 64);
                lemma_b64_char_val(b0 / 4);
                lemma_b64_char_val((b0 % 4) * 16 + b1 / 16);
                lemma_b64_char_val((b1 % 16) * 4 + b2 / 64);
                lemma_b64_char_val(b2 % 64);
                lemma_b64_encode_no_dash(bytes.skip(3));
                let rest = b64_encode_spec(bytes.skip(3));
                assert forall|i: int| 0 <= i < s.len() implies #[trigger] s[i] != '-' by {
                    if i >= 4 {
                        assert(s[i] == rest[i - 4]);
                    }
                }
            }
        }
    }
}

// ---------------------------------------------------------------------------
// Executable encoder and decoder
// ---------------------------------------------------------------------------
/// The alphabet character for one six-bit value.
fn b64_char_exec(v: u8) -> (r: char)
    requires
        v < 64,
    ensures
        r == b64_char(v as int),
{
    if v < 26 {
        (65 + v) as char
    } else if v < 52 {
        (97 + (v - 26)) as char
    } else if v < 62 {
        (48 + (v - 52)) as char
    } else if v == 62 {
        '+'
    } else {
        '/'
    }
}

/// The six-bit value of one character, or -1 outside the alphabet.
fn b64_val_exec(c: char) -> (r: i32)
    ensures
        r as int == b64_val(c),
{
    let u = c as u32;
    if 65 <= u && u <= 90 {
        (u - 65) as i32
    } else if 97 <= u && u <= 122 {
        (u - 97 + 26) as i32
    } else if 48 <= u && u <= 57 {
        (u - 48 + 52) as i32
    } else if u == 43 {
        62
    } else if u == 47 {
        63
    } else {
        -1
    }
}

/// The standard encoding of the bytes from position `i` on.
fn b64_encode_from(bytes: &Vec<u8>, i: usize) -> (r: Vec<char>)
    requires
        i <= bytes.len(),
    ensures
        r@ == b64_encode_spec(bytes@.skip(i as int)),
    decreases bytes.len() - i,
{
    let ghost suf = bytes@.skip(i as int);
    let n = bytes.len() - i;
    if n == 0 {
        let out: Vec<char> = Vec::new();
        proof {
            assert(suf =~= Seq::<u8>::empty());
        }
        out
    } else {
        let b0 = bytes[i];
        proof {
            assert(suf[0] == bytes@[i as int]);
            lemma_byte_parts(b0 as int);
        }
        let mut out: Vec<char> = Vec::new();
        if n == 1 {
            proof {
                lemma_group_first_byte(b0 as int, 0);
            }
            out.push(b64_char_exec(b0 / 4));
            out.push(b64_char_exec((b0 % 4) * 16));
            out.push('=');
            out.push('=');
            proof {
                assert(out@ =~= b64_encode_spec(suf));
            }
            out
        } else {
            let b1 = bytes[i + 1];
            proof {
                assert(suf[1] == bytes@[i as int + 1]);
                lemma_byte_parts(b1 as int);
                lemma_group_first_byte(b0 as int, b1 as int / 16);
            }
            if n == 2 {
                proof {
                    lemma_group_second_byte(b1 as int, 0);
                }
                out.push(b64_char_exec(b0 / 4));
                out.push(b64_char_exec((b0 % 4) * 16 + b1 / 16));
                out.push(b64_char_exec((b1 % 16) * 4));
                out.push('=');
                proof {
                    assert(out@ =~= b64_encode_spec(suf));
                }
                out
            } else {
                let b2 = bytes[i + 2];
                proof {
                    assert(suf[2] == bytes@[i as int + 2]);
                    lemma_byte_parts(b2 as int);
                    lemma_group_second_byte(b1 as int, b2 as int / 64);
                }
                out.push(b64_char_exec(b0 / 4));
                out.push(b64_char_exec((b0 % 4) * 16 + b1 / 16));
                out.push(b64_char_exec((b1 % 16) * 4 + b2 / 64));
                out.push(b64_char_exec(b2 % 64));
                let mut rest = b64_encode_from(bytes, i + 3);
                proof {
                    assert(suf.skip(3) =~= bytes@.skip(i as int + 3));
                }
                out.append(&mut rest);
                proof {
                    assert(out@ =~= b64_encode_spec(suf));
                }
                out
            }
        }
    }
}

/// The standard encoding of a byte string, as characters.
pub fn b64_encode(bytes: &Vec<u8>) -> (r: Vec<char>)
    ensures
        r@ == b64_encode_spec(bytes@),
{
    let out = b64_encode_from(bytes, 0);
    proof {
        assert(bytes@.skip(0) =~= bytes@);
    }
    out
}

/// The bytes read from the characters at position `i` on.
fn b64_decode_from(s: &Vec<char>, i: usize) -> (r: Option<Vec<u8>>)
    requires
        i <= s.len(),
    ensures
        r is Some <==> b64_decode_spec(s@.skip(i as int)) is Some,
        r matches Some(v) ==> Some(v@) == b64_decode_spec(s@.skip(i as int)),
    decreases s.len() - i,
{
    let ghost suf = s@.skip(i as int);
    let n = s.len() - i;
    if n == 0 {
        proof {
            assert(suf.len() == 0);
        }
        Some(Vec::new())
    } else if n < 4 {
        None
    } else {
        let c0 = s[i];
        let c1 = s[i + 1];
        let c2 = s[i + 2];
        let c3 = s[i + 3];
        proof {
            assert(suf[0] == c0 && suf[1] == c1 && suf[2] == c2 && suf[3] == c3);
        }
        let v0 = b64_val_exec(c0);
        let v1 = b64_val_exec(c1);
        proof {
            lemma_b64_val_bound(c0);
            lemma_b64_val_bound(c1);
            lemma_b64_val_bound(c2);
            lemma_b64_val_bound(c3);
        }
        if n == 4 {
            if v0 < 0 || v1 < 0 {
                return None;
            }
            if c2 == '=' {
                if c3 == '=' && v1 % 16 == 0 {
                    let byte0 = (v0 * 4 + v1 / 16) as u8;
                    let mut out: Vec<u8> = Vec::new();
                    out.push(byte0);
                    proof {
                        assert(out@ =~= b64_decode_last_group(c0, c1, c2, c3).unwrap());
                    }
                    Some(out)
                } else {
                    None
                }
            } else {
                let v2 = b64_val_exec(c2);
                if v2 < 0 {
                    return None;
                }
                if c3 == '=' {
                    if v2 % 4 == 0 {
                        let mut out: Vec<u8> = Vec::new();
                        out.push((v0 * 4 + v1 / 16) as u8);
                        out.push(((v1 % 16) * 16 + v2 / 4) as u8);
                        proof {
                            assert(out@ =~= b64_decode_last_group(c0, c1, c2, c3).unwrap());
                        }
                        Some(out)
                    } else {
                        None
                    }
                } else {
                    let v3 = b64_val_exec(c3);
                    if v3 < 0 {
                        return None;
                    }
                    let mut out: Vec<u8> = Vec::new();
                    out.push((v0 * 4 + v1 / 16) as u8);
                    out.push(((v1 % 16) * 16 + v2 / 4) as u8);
                    out.push(((v2 % 4) * 64 + v3) as u8);
                    proof {
                        assert(out@ =~= b64_decode_last_group(c0, c1, c2, c3).unwrap());
                    }
                    Some(out)
                }
            }
        } else {
            let v2 = b64_val_exec(c2);
            let v3 = b64_val_exec(c3);
            if v0 < 0 || v1 < 0 || v2 < 0 || v3 < 0 {
                return None;
            }
            match b64_decode_from(s, i + 4) {
                None => {
                    proof {
                        assert(suf.skip(4) =~= s@.skip(i as int + 4));
                    }
                    None
                },
                Some(rest) => {
                    let mut out: Vec<u8> = Vec::new();
                    out.push((v0 * 4 + v1 / 16) as u8);
                    out.push(((v1 % 16) * 16 + v2 / 4) as u8);
                    out.push(((v2 % 4) * 64 + v3) as u8);
                    let mut rest = rest;
                    proof {
                        assert(suf.skip(4) =~= s@.skip(i as int + 4));
                    }
                    out.append(&mut rest);
                    proof {
                        assert(out@ =~= b64_decode_spec(suf).unwrap());
                    }
                    Some(out)
                },
            }
        }
    }
}

/// The bytes a character string stands for, when it is a canonical standard
/// encoding with padding; nothing otherwise.
pub fn b64_decode(s: &Vec<char>) -> (r: Option<Vec<u8>>)
    ensures
        r is Some <==> b64_decode_spec(s@) is Some,
        r matches Some(v) ==> Some(v@) == b64_decode_spec(s@),
{
    let out = b64_decode_from(s, 0);
    proof {
        assert(s@.skip(0) =~= s@);
    }
    out
}

} // verus!
