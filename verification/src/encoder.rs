//! Framing of an outgoing message: a `Content-Length` header, a blank-line
//! separator, then the body bytes verbatim.

use vstd::prelude::*;

use crate::decoder::{
    all_digits, content_length_spec, digits_val, is_digit_byte, lemma_find_last_colon,
    lemma_trim_bytes_end, lemma_trim_bytes_start, trim_bytes, trim_bytes_start,
    ParseJsonRPCMessageErrors,
};

verus! {

/// The decimal digits of a non-negative number, most significant first.
pub open spec fn dec_digits(n: int) -> Seq<u8>
    decreases n,
{
    if n < 10 {
        seq![(48 + if n >= 0 {
            n
        } else {
            0
        }) as u8]
    } else {
        dec_digits(n / 10) + seq![(48 + n % 10) as u8]
    }
}

/// The ASCII bytes of `Content-Length: `, the header field every frame
/// carries.
pub open spec fn header_prefix() -> Seq<u8> {
    seq![67u8, 111u8, 110u8, 116u8, 101u8, 110u8, 116u8, 45u8, 76u8, 101u8, 110u8, 103u8, 116u8, 104u8, 58u8, 32u8]
}

/// The full frame of a body: the header with the body's exact byte count,
/// the blank-line separator, then the body itself, with nothing after it.
pub open spec fn frame_spec(body: Seq<u8>) -> Seq<u8> {
    header_prefix() + dec_digits(body.len() as int) + seq![13u8, 10u8, 13u8, 10u8] + body
}

/// Appends the decimal digits of `n`.
fn push_digits(out: &mut Vec<u8>, n: usize)
    ensures
        final(out)@ == old(out)@ + dec_digits(n as int),
    decreases n,
{
    if n < 10 {
        out.push(48 + (n as u8));
        assert(final(out)@ =~= old(out)@ + dec_digits(n as int));
    } else {
        assert(n / 10 < n);
        push_digits(out, n / 10);
        out.push(48 + ((n % 10) as u8));
        assert(final(out)@ =~= old(out)@ + dec_digits(n as int));
    }
}

/// Every byte of a number's decimal spelling is a digit, and there is at
/// least one.
pub proof fn lemma_dec_digits_are_digits(n: int)
    requires
        n >= 0,
    ensures
        dec_digits(n).len() >= 1,
        all_digits(dec_digits(n)),
    decreases n,
{
    if n >= 10 {
        lemma_dec_digits_are_digits(n / 10);
        assert forall|i: int| 0 <= i < dec_digits(n).len() implies is_digit_byte(
            dec_digits(n)[i],
        ) by {
            if i < dec_digits(n / 10).len() {
                assert(dec_digits(n)[i] == dec_digits(n / 10)[i]);
            }
        }
    }
}

/// Reading a number's decimal spelling gives the number back.
pub proof fn lemma_dec_digits_val(n: int)
    requires
        n >= 0,
    ensures
        digits_val(dec_digits(n)) == n,
    decreases n,
{
    if n < 10 {
        let d = dec_digits(n);
        assert(d.drop_last() =~= Seq::<u8>::empty());
        assert(d.last() == (48 + n) as u8);
        assert((48 + n) as u8 == 48 + n);
        assert(digits_val(d) == 10 * digits_val(d.drop_last()) + (d.last() - 48));
        assert(digits_val(Seq::<u8>::empty()) == 0);
    } else {
        lemma_dec_digits_val(n / 10);
        let d = dec_digits(n);
        assert(d.drop_last() =~= dec_digits(n / 10));
        assert(d.last() == (48 + n % 10) as u8);
        assert(0 <= n % 10 < 10);
        assert((48 + n % 10) as u8 == 48 + n % 10);
        assert(digits_val(d) == 10 * digits_val(d.drop_last()) + (d.last() - 48));
        assert(n == 10 * (n / 10) + n % 10);
    }
}

/// Framing round trip: in the frame of any body, the first newline closes
/// the header line, that line parses back to exactly the body's length,
/// and after the blank separator the body follows unchanged. Decoding what
/// was encoded therefore yields the body bytes untouched.
pub proof fn lemma_frame_round_trip(body: Seq<u8>)
    requires
        body.len() <= usize::MAX,
    ensures
        ({
            let m = frame_spec(body);
            let hl = header_prefix() + dec_digits(body.len() as int) + seq![13u8, 10u8];
            &&& m.len() == hl.len() + 2 + body.len()
            &&& m.take(hl.len() as int) == hl
            &&& forall|j: int| 0 <= j < hl.len() - 1 ==> m[j] != 10
            &&& m[hl.len() - 1 as int] == 10
            &&& content_length_spec(hl) == Ok::<int, ParseJsonRPCMessageErrors>(body.len() as int)
            &&& m.skip(hl.len() + 2 as int) == body
        }),
{
    let n = body.len() as int;
    let d = dec_digits(n);
    let m = frame_spec(body);
    let hl = header_prefix() + d + seq![13u8, 10u8];
    lemma_dec_digits_are_digits(n);
    lemma_dec_digits_val(n);

    assert(m.take(hl.len() as int) =~= hl);
    assert(m.skip(hl.len() + 2 as int) =~= body);
    assert forall|j: int| 0 <= j < hl.len() - 1 implies m[j] != 10 by {
        if j < 16 {
        } else if j < 16 + d.len() {
            assert(m[j] == d[j - 16]);
            assert(is_digit_byte(d[j - 16]));
        } else {
            assert(m[j] == 13);
        }
    }
    assert(m[hl.len() - 1 as int] == 10);

    // The header line parses back to the length: its last colon sits at
    // the end of the field name, and the trimmed value is the digits.
    assert(hl[14] == 58);
    assert forall|j: int| 14 < j < hl.len() implies hl[j] != 58 by {
        if j == 15 {
            assert(hl[j] == 32);
        } else if j < 16 + d.len() {
            assert(hl[j] == d[j - 16]);
            assert(is_digit_byte(d[j - 16]));
        } else if j == 16 + d.len() {
            assert(hl[j] == 13);
        } else {
            assert(hl[j] == 10);
        }
    }
    lemma_find_last_colon(hl, 14);
    let v = hl.skip(15);
    assert(v[0] == 32);
    assert(v.len() == d.len() + 3);
    assert forall|j: int| 1 <= j < 1 + d.len() implies v[j] == d[j - 1] && is_digit_byte(
        v[j],
    ) by {
        assert(v[j] == hl[j + 15]);
        assert(hl[j + 15] == d[j - 1]);
    }
    assert(v[(d.len() + 1) as int] == 13 && v[(d.len() + 2) as int] == 10);
    lemma_trim_bytes_start(v, 1);
    assert(trim_bytes_start(v) == v.skip(1));
    lemma_trim_bytes_end(v.skip(1), d.len() as int);
    assert(v.skip(1).take(d.len() as int) =~= d);
    assert(trim_bytes(v) == d);
    assert(content_length_spec(hl) == Ok::<int, ParseJsonRPCMessageErrors>(n));
}

/// Encodes a message body according to the wire format: the header names
/// the body's exact byte length, and the body follows the separator
/// unchanged.
pub fn encode_message(body: &Vec<u8>) -> (out: Vec<u8>)
    ensures
        out@ == frame_spec(body@),
{
    let mut out: Vec<u8> = Vec::new();
    out.push(67);
    out.push(111);
    out.push(110);
    out.push(116);
    out.push(101);
    out.push(110);
    out.push(116);
    out.push(45);
    out.push(76);
    out.push(101);
    out.push(110);
    out.push(103);
    out.push(116);
    out.push(104);
    out.push(58);
    out.push(32);
    assert(out@ =~= header_prefix());
    push_digits(&mut out, body.len());
    out.push(13);
    out.push(10);
    out.push(13);
    out.push(10);
    let ghost head = out@;
    assert(head =~= header_prefix() + dec_digits(body@.len() as int) + seq![13u8, 10u8, 13u8, 10u8]);
    let mut i: usize = 0;
    while i < body.len()
        invariant
            i <= body@.len(),
            out@ == head + body@.take(i as int),
        decreases body@.len() - i,
    {
        out.push(body[i]);
        assert(out@ =~= head + body@.take(i + 1));
        i = i + 1;
    }
    proof {
        assert(body@.take(body@.len() as int) =~= body@);
        assert(out@ =~= frame_spec(body@));
    }
    out
}

} // verus!
