use vstd::prelude::*;

use vstd::string::StrSliceExecFns;

verus! {

// ---------------------------------------------------------------------------
// Characters of a string
// ---------------------------------------------------------------------------
/// The characters of a string, in order.
pub fn str_chars(s: &str) -> (r: Vec<char>)
    ensures
        r@ == s@,
{
    let n = s.unicode_len();
    let mut out: Vec<char> = Vec::new();
    let mut i: usize = 0;
    while i < n
        invariant
            i <= n,
            n == s@.len(),
            out@ =~= s@.subrange(0, i as int),
        decreases n - i,
    {
        out.push(s.get_char(i));
        i = i + 1;
    }
    proof {
        assert(out@ =~= s@);
    }
    out
}

// ---------------------------------------------------------------------------
// Splitting and joining on a separator
// ---------------------------------------------------------------------------
/// The fields of `s` split on `sep`: separators are dropped, empty fields are
/// kept, and a string without any separator is a single field.
pub open spec fn split_fields(s: Seq<char>, sep: char) -> Seq<Seq<char>>
    decreases s.len(),
{
    if s.len() == 0 {
        seq![Seq::<char>::empty()]
    } else if s[0] == sep {
        seq![Seq::<char>::empty()] + split_fields(s.drop_first(), sep)
    } else {
        let rest = split_fields(s.drop_first(), sep);
        seq![seq![s[0]] + rest[0]] + rest.drop_first()
    }
}

/// The fields joined back into one string, with `sep` between them.
pub open spec fn join_fields(pieces: Seq<Seq<char>>, sep: char) -> Seq<char>
    decreases pieces.len(),
{
    if pieces.len() <= 1 {
        if pieces.len() == 0 {
            Seq::<char>::empty()
        } else {
            pieces[0]
        }
    } else {
        pieces[0] + seq![sep] + join_fields(pieces.drop_first(), sep)
    }
}

/// Splitting always yields at least one field.
pub proof fn lemma_split_fields_nonempty(s: Seq<char>, sep: char)
    ensures
        split_fields(s, sep).len() >= 1,
    decreases s.len(),
{
    if s.len() > 0 {
        lemma_split_fields_nonempty(s.drop_first(), sep);
    }
}

/// A string free of the separator splits into itself alone.
pub proof fn lemma_split_fields_whole(s: Seq<char>, sep: char)
    requires
        forall|i: int| 0 <= i < s.len() ==> s[i] != sep,
    ensures
        split_fields(s, sep) == seq![s],
    decreases s.len(),
{
    if s.len() == 0 {
        assert(split_fields(s, sep) =~~= seq![s]);
    } else {
        lemma_split_fields_whole(s.drop_first(), sep);
        assert(seq![s[0]] + s.drop_first() =~= s);
        assert(split_fields(s, sep) =~~= seq![s]);
    }
}

/// Splitting off one leading separator-free field.
pub proof fn lemma_split_fields_prepend(a: Seq<char>, b: Seq<char>, sep: char)
    requires
        forall|i: int| 0 <= i < a.len() ==> a[i] != sep,
    ensures
        split_fields(a + seq![sep] + b, sep) == seq![a] + split_fields(b, sep),
    decreases a.len(),
{
    let s = a + seq![sep] + b;
    lemma_split_fields_nonempty(b, sep);
    if a.len() == 0 {
        assert(s[0] == sep);
        assert(s.drop_first() =~= b);
        assert(a =~= Seq::<char>::empty());
        assert(split_fields(s, sep) =~~= seq![a] + split_fields(b, sep));
    } else {
        assert(s[0] == a[0]);
        assert(s.drop_first() =~= a.drop_first() + seq![sep] + b);
        lemma_split_fields_prepend(a.drop_first(), b, sep);
        let rest = split_fields(s.drop_first(), sep);
        assert(rest == seq![a.drop_first()] + split_fields(b, sep));
        assert(rest[0] == a.drop_first());
        assert(rest.drop_first() =~= split_fields(b, sep));
        assert(seq![s[0]] + rest[0] =~= a);
        assert(split_fields(s, sep) =~~= seq![a] + split_fields(b, sep));
    }
}

/// Splitting inverts joining when no field holds the separator.
pub proof fn lemma_split_join(pieces: Seq<Seq<char>>, sep: char)
    requires
        pieces.len() >= 1,
        forall|i: int, j: int|
            0 <= i < pieces.len() && 0 <= j < pieces[i].len() ==> #[trigger] pieces[i][j] != sep,
    ensures
        split_fields(join_fields(pieces, sep), sep) == pieces,
    decreases pieces.len(),
{
    if pieces.len() == 1 {
        lemma_split_fields_whole(pieces[0], sep);
        assert(split_fields(join_fields(pieces, sep), sep) =~~= pieces);
    } else {
        let tail = pieces.drop_first();
        assert(forall|i: int, j: int|
            0 <= i < tail.len() && 0 <= j < tail[i].len() ==> #[trigger] tail[i][j] != sep);
        lemma_split_join(tail, sep);
        lemma_split_fields_prepend(pieces[0], join_fields(tail, sep), sep);
        assert(split_fields(join_fields(pieces, sep), sep) =~~= pieces);
    }
}

/// The views of a list of character buffers.
pub open spec fn views_of(pieces: Seq<Vec<char>>) -> Seq<Seq<char>> {
    pieces.map_values(|p: Vec<char>| p@)
}

/// The first field extended on the left.
pub open spec fn prepend_to_first(prefix: Seq<char>, pieces: Seq<Seq<char>>) -> Seq<Seq<char>>
    recommends
        pieces.len() >= 1,
{
    seq![prefix + pieces[0]] + pieces.drop_first()
}

/// The fields of `s` split on `sep`, as executable buffers.
pub fn split_chars(s: &Vec<char>, sep: char) -> (r: Vec<Vec<char>>)
    ensures
        views_of(r@) == split_fields(s@, sep),
{
    let n = s.len();
    let mut done: Vec<Vec<char>> = Vec::new();
    let mut cur: Vec<char> = Vec::new();
    let mut i: usize = 0;
    proof {
        assert(s@.skip(0) =~= s@);
        lemma_split_fields_nonempty(s@, sep);
        assert(views_of(done@) =~= Seq::<Seq<char>>::empty());
        assert(split_fields(s@, sep) =~~= views_of(done@) + prepend_to_first(
            cur@,
            split_fields(s@.skip(0), sep),
        ));
    }
    while i < n
        invariant
            i <= n,
            n == s@.len(),
            split_fields(s@, sep) == views_of(done@) + prepend_to_first(
                cur@,
                split_fields(s@.skip(i as int), sep),
            ),
        decreases n - i,
    {
        let ghost done0 = done@;
        let ghost cur0 = cur@;
        let ghost suffix = s@.skip(i as int);
        proof {
            assert(suffix.len() > 0);
            assert(suffix[0] == s@[i as int]);
            assert(suffix.drop_first() =~= s@.skip(i as int + 1));
            lemma_split_fields_nonempty(s@.skip(i as int + 1), sep);
        }
        let c = s[i];
        if c == sep {
            done.push(cur);
            cur = Vec::new();
            proof {
                let rest = split_fields(s@.skip(i as int + 1), sep);
                assert(split_fields(suffix, sep) == seq![Seq::<char>::empty()] + rest);
                assert(views_of(done@) =~= views_of(done0).push(cur0));
                assert(prepend_to_first(cur0, seq![Seq::<char>::empty()] + rest)
                    =~~= seq![cur0] + rest);
                assert(prepend_to_first(cur@, rest)[0] =~= rest[0]);
                assert(views_of(done0) + (seq![cur0] + rest) =~~= views_of(done@)
                    + prepend_to_first(cur@, rest));
            }
        } else {
            cur.push(c);
            proof {
                let rest = split_fields(s@.skip(i as int + 1), sep);
                let inner = split_fields(suffix, sep);
                assert(inner == seq![seq![suffix[0]] + rest[0]] + rest.drop_first());
                assert(prepend_to_first(cur0, inner)[0] =~= (cur0 + seq![suffix[0]]) + rest[0]);
                assert(cur@ =~= cur0 + seq![suffix[0]]);
                assert(prepend_to_first(cur0, inner) =~~= prepend_to_first(cur@, rest));
            }
        }
        i = i + 1;
    }
    done.push(cur);
    proof {
        assert(s@.skip(n as int) =~= Seq::<char>::empty());
        assert(split_fields(s@.skip(n as int), sep) =~~= seq![Seq::<char>::empty()]);
        assert(views_of(done@) =~~= split_fields(s@, sep));
    }
    done
}

// ---------------------------------------------------------------------------
// Decimal numerals
// ---------------------------------------------------------------------------
/// Whether `c` is a decimal digit.
pub open spec fn is_digit(c: char) -> bool {
    48 <= c as u32 <= 57
}

/// The numeric value of a digit.
pub open spec fn digit_val(c: char) -> int {
    c as u32 - 48
}

/// The digit standing for a value below ten.
pub open spec fn digit_char(d: int) -> char {
    ((48 + d) as u8) as char
}

/// The decimal digits of `n`, most significant first.
pub open spec fn dec_digits(n: int) -> Seq<char>
    decreases n,
{
    if n < 10 {
        seq![digit_char(n)]
    } else {
        dec_digits(n / 10) + seq![digit_char(n % 10)]
    }
}

/// Whether every character of `s` is a decimal digit.
pub open spec fn all_digits(s: Seq<char>) -> bool {
    forall|i: int| 0 <= i < s.len() ==> is_digit(#[trigger] s[i])
}

/// The value of a digit string, most significant digit first.
pub open spec fn dec_value(s: Seq<char>) -> int
    decreases s.len(),
{
    if s.len() == 0 {
        0
    } else {
        dec_value(s.drop_last()) * 10 + digit_val(s.last())
    }
}

/// Whether `s` is a decimal numeral whose value fits an unsigned 32-bit
/// integer: nonempty, digits only, value within range.
pub open spec fn parses_to_u32(s: Seq<char>) -> bool {
    s.len() >= 1 && all_digits(s) && dec_value(s) <= u32::MAX
}

/// A digit string's value never goes negative.
pub proof fn lemma_dec_value_nonneg(s: Seq<char>)
    requires
        all_digits(s),
    ensures
        dec_value(s) >= 0,
    decreases s.len(),
{
    if s.len() > 0 {
        assert(all_digits(s.drop_last()));
        lemma_dec_value_nonneg(s.drop_last());
    }
}

/// Extending a digit string on the right never lowers its value.
pub proof fn lemma_dec_value_prefix(s: Seq<char>, i: int)
    requires
        all_digits(s),
        0 <= i <= s.len(),
    ensures
        dec_value(s.subrange(0, i)) <= dec_value(s),
    decreases s.len() - i,
{
    if i < s.len() {
        let p = s.subrange(0, i + 1);
        assert(all_digits(p));
        assert(p.drop_last() =~= s.subrange(0, i));
        lemma_dec_value_nonneg(s.subrange(0, i));
        assert(dec_value(s.subrange(0, i)) <= dec_value(p));
        lemma_dec_value_prefix(s, i + 1);
        assert(s.subrange(0, s.len() as int) =~= s);
    } else {
        assert(s.subrange(0, i) =~= s);
    }
}

/// The printed digits of `n` are digits, never empty, and stand for `n`.
pub proof fn lemma_dec_digits_value(n: int)
    requires
        n >= 0,
    ensures
        all_digits(dec_digits(n)),
        dec_value(dec_digits(n)) == n,
        dec_digits(n).len() >= 1,
    decreases n,
{
    if n < 10 {
        assert(digit_char(n) as u32 == 48 + n);
        assert(dec_digits(n) =~= seq![digit_char(n)]);
        assert(dec_digits(n).drop_last() =~= Seq::<char>::empty());
        assert(dec_value(Seq::<char>::empty()) == 0);
    } else {
        lemma_dec_digits_value(n / 10);
        let s = dec_digits(n);
        assert(s =~= dec_digits(n / 10) + seq![digit_char(n % 10)]);
        assert(s.drop_last() =~= dec_digits(n / 10));
        assert(s.last() == digit_char(n % 10));
        assert(digit_char(n % 10) as u32 == 48 + n % 10);
        assert(dec_value(s) == (n / 10) * 10 + n % 10);
        assert((n / 10) * 10 + n % 10 == n) by {
            vstd::arithmetic::div_mod::lemma_fundamental_div_mod(n, 10);
        }
    }
}

/// A digit is not the field separator.
pub proof fn lemma_digits_not_dash(s: Seq<char>)
    requires
        all_digits(s),
    ensures
        forall|i: int| 0 <= i < s.len() ==> s[i] != '-',
{
    assert forall|i: int| 0 <= i < s.len() implies s[i] != '-' by {
        assert(is_digit(s[i]));
        assert('-' as u32 == 45);
    }
}

/// The numeral printed for an unsigned 32-bit value.
pub fn u32_to_chars(n: u32) -> (r: Vec<char>)
    ensures
        r@ == dec_digits(n as int),
    decreases n,
{
    if n < 10 {
        let d = 48 + n as u8;
        let mut out: Vec<char> = Vec::new();
        out.push(d as char);
        proof {
            assert(out@ =~= dec_digits(n as int));
        }
        out
    } else {
        let mut out = u32_to_chars(n / 10);
        let d = 48 + (n % 10) as u8;
        out.push(d as char);
        proof {
            assert(out@ =~= dec_digits(n as int));
        }
        out
    }
}

/// Reads an unsigned 32-bit value from a decimal numeral. It succeeds on
/// exactly the strings that are nonempty, all digits, and within range.
pub fn parse_u32_chars(s: &Vec<char>) -> (r: Option<u32>)
    ensures
        r is Some <==> parses_to_u32(s@),
        r matches Some(v) ==> v as int == dec_value(s@),
{
    if s.len() == 0 {
        return None;
    }
    let mut acc: u64 = 0;
    let mut i: usize = 0;
    while i < s.len()
        invariant
            i <= s.len(),
            s@.len() >= 1,
            acc <= u32::MAX,
            all_digits(s@.subrange(0, i as int)),
            acc as int == dec_value(s@.subrange(0, i as int)),
        decreases s.len() - i,
    {
        let c = s[i];
        let u = c as u32;
        if u < 48 || u > 57 {
            proof {
                assert(!is_digit(s@[i as int]));
                assert(!all_digits(s@));
            }
            return None;
        }
        let d = (u - 48) as u64;
        proof {
            assert(s@.subrange(0, i as int + 1).drop_last() =~= s@.subrange(0, i as int));
            assert(all_digits(s@.subrange(0, i as int + 1)));
        }
        acc = acc * 10 + d;
        i = i + 1;
        if acc > u32::MAX as u64 {
            proof {
                if all_digits(s@) {
                    assert(s@.subrange(0, i as int) =~= s@.subrange(0, i as int));
                    lemma_dec_value_prefix(s@, i as int);
                }
            }
            return None;
        }
    }
    proof {
        assert(s@.subrange(0, s@.len() as int) =~= s@);
    }
    Some(acc as u32)
}

} // verus!
