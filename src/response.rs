//! The reply sent once a request has been framed.
use vstd::prelude::*;

use crate::framing::terminator;

verus! {

/// Status line, content type, and the name of the content-length header:
/// `HTTP/1.1 200 OK\r\nContent-Type: text/plain\r\nContent-Length: `.
pub open spec fn header_lead() -> Seq<u8> {
    seq![
        72u8, 84u8, 84u8, 80u8, 47u8, 49u8, 46u8, 49u8,
        32u8, 50u8, 48u8, 48u8, 32u8, 79u8, 75u8, 13u8,
        10u8, 67u8, 111u8, 110u8, 116u8, 101u8, 110u8, 116u8,
        45u8, 84u8, 121u8, 112u8, 101u8, 58u8, 32u8, 116u8,
        101u8, 120u8, 116u8, 47u8, 112u8, 108u8, 97u8, 105u8,
        110u8, 13u8, 10u8, 67u8, 111u8, 110u8, 116u8, 101u8,
        110u8, 116u8, 45u8, 76u8, 101u8, 110u8, 103u8, 116u8,
        104u8, 58u8, 32u8,
    ]
}

/// The text that starts every body, ahead of the echoed request: `You sent `.
pub open spec fn body_prefix() -> Seq<u8> {
    seq![
        89u8, 111u8, 117u8, 32u8, 115u8, 101u8, 110u8, 116u8,
        32u8,
    ]
}

/// The ASCII digit for `d`, which is below ten.
pub open spec fn digit(d: nat) -> u8 {
    (48 + d) as u8
}

/// `n` written in base ten, most significant digit first, without leading zeros.
pub open spec fn decimal(n: nat) -> Seq<u8>
    decreases n,
{
    if n < 10 {
        seq![digit(n)]
    } else {
        decimal(n / 10).push(digit(n % 10))
    }
}

/// The number that the ASCII digits `d` spell in base ten.
pub open spec fn decimal_value(d: Seq<u8>) -> nat
    decreases d.len(),
{
    if d.len() == 0 {
        0
    } else {
        10 * decimal_value(d.drop_last()) + (d.last() - 48) as nat
    }
}

/// Every byte of `d` is an ASCII digit.
pub open spec fn all_digits(d: Seq<u8>) -> bool {
    forall|i: int| 0 <= i < d.len() ==> 48 <= #[trigger] d[i] <= 57
}

/// The body that echoes the decoded request `text`.
pub open spec fn body(text: Seq<u8>) -> Seq<u8> {
    body_prefix() + text
}

/// The whole reply for the decoded request `text`: header block, blank line, body.
/// The content-length header holds the byte length of the body.
pub open spec fn response(text: Seq<u8>) -> Seq<u8> {
    header_lead() + decimal(body(text).len()) + terminator() + body(text)
}

/// Appends the bytes of `src` to `out`.
fn append_bytes(out: &mut Vec<u8>, src: &[u8])
    ensures
        final(out)@ == old(out)@ + src@,
{
    let n = src.len();
    let mut i: usize = 0;
    while i < n
        invariant
            n == src@.len(),
            i <= n,
            out@ == old(out)@ + src@.subrange(0, i as int),
        decreases n - i,
    {
        out.push(src[i]);
        assert(src@.subrange(0, i + 1) =~= src@.subrange(0, i as int).push(src@[i as int]));
        i = i + 1;
    }
    assert(src@.subrange(0, n as int) =~= src@);
}

/// Appends the base-ten digits of `n` to `out`.
fn append_decimal(out: &mut Vec<u8>, n: usize)
    ensures
        final(out)@ == old(out)@ + decimal(n as nat),
    decreases n,
{
    if n >= 10 {
        append_decimal(out, n / 10);
    }
    out.push(48u8 + (n % 10) as u8);
    assert(out@ =~= old(out)@ + decimal(n as nat));
}

/// Builds the reply whose body echoes `text`, the request already decoded.
pub fn build_response(text: &[u8]) -> (r: Vec<u8>)
    ensures
        r@ == response(text@),
{
    let prefix: [u8; 9] = [
        89u8, 111u8, 117u8, 32u8, 115u8, 101u8, 110u8, 116u8,
        32u8,
    ];
    let lead: [u8; 59] = [
        72u8, 84u8, 84u8, 80u8, 47u8, 49u8, 46u8, 49u8,
        32u8, 50u8, 48u8, 48u8, 32u8, 79u8, 75u8, 13u8,
        10u8, 67u8, 111u8, 110u8, 116u8, 101u8, 110u8, 116u8,
        45u8, 84u8, 121u8, 112u8, 101u8, 58u8, 32u8, 116u8,
        101u8, 120u8, 116u8, 47u8, 112u8, 108u8, 97u8, 105u8,
        110u8, 13u8, 10u8, 67u8, 111u8, 110u8, 116u8, 101u8,
        110u8, 116u8, 45u8, 76u8, 101u8, 110u8, 103u8, 116u8,
        104u8, 58u8, 32u8,
    ];
    let blank: [u8; 4] = [13u8, 10u8, 13u8, 10u8];
    assert(prefix@ =~= body_prefix());
    assert(lead@ =~= header_lead());
    assert(blank@ =~= terminator());
    let mut body_bytes: Vec<u8> = Vec::new();
    append_bytes(&mut body_bytes, prefix.as_slice());
    append_bytes(&mut body_bytes, text);
    let mut out: Vec<u8> = Vec::new();
    append_bytes(&mut out, lead.as_slice());
    append_decimal(&mut out, body_bytes.len());
    append_bytes(&mut out, blank.as_slice());
    append_bytes(&mut out, body_bytes.as_slice());
    assert(out@ =~= response(text@));
    out
}

/// The UTF-8 bytes of the text that lossy decoding makes of `b`: every ill-formed
/// sequence becomes U+FFFD, the rest stays as it is.
pub uninterp spec fn lossy_utf8(b: Seq<u8>) -> Seq<u8>;

/// Every byte of `b` is below 128, which makes `b` well-formed UTF-8.
pub open spec fn is_ascii_bytes(b: Seq<u8>) -> bool {
    forall|i: int| 0 <= i < b.len() ==> #[trigger] b[i] < 128
}

/// Relies on `String::from_utf8_lossy`: the result depends on the bytes alone, and
/// well-formed UTF-8 input, ASCII among it, comes back unchanged.
#[verifier::external_body]
fn decode_lossy(b: &[u8]) -> (r: Vec<u8>)
    ensures
        r@ == lossy_utf8(b@),
        is_ascii_bytes(b@) ==> r@ == b@,
{
    String::from_utf8_lossy(b).into_owned().into_bytes()
}

/// Decodes `request` leniently and builds the reply that echoes it.
pub fn respond(request: &[u8]) -> (r: Vec<u8>)
    ensures
        r@ == response(lossy_utf8(request@)),
        is_ascii_bytes(request@) ==> r@ == response(request@),
{
    let text = decode_lossy(request);
    build_response(text.as_slice())
}

proof fn lemma_decimal(n: nat)
    ensures
        all_digits(decimal(n)),
        decimal(n).len() > 0,
        decimal_value(decimal(n)) == n,
    decreases n,
{
    if n >= 10 {
        lemma_decimal(n / 10);
        let d = decimal(n);
        assert(d.drop_last() =~= decimal(n / 10));
        assert(d.last() == digit(n % 10));
        assert((d.last() - 48) as nat == n % 10);
        assert(decimal_value(d) == 10 * decimal_value(decimal(n / 10)) + n % 10);
        assert(10 * (n / 10) + n % 10 == n) by (nonlinear_arith);
    } else {
        let d = decimal(n);
        assert(d.drop_last() =~= Seq::<u8>::empty());
        assert(d.last() == digit(n));
        assert((d.last() - 48) as nat == n);
        assert(decimal_value(d) == 10 * decimal_value(d.drop_last()) + n);
    }
}

/// The reply is the header block, a blank line, and the body `You sent ` followed by
/// `text`; the content-length header is a run of decimal digits whose value is the
/// number of bytes that follow the blank line.
pub proof fn lemma_content_length_counts_body(text: Seq<u8>)
    ensures
        ({
            let d = decimal(body(text).len());
            let r = response(text);
            &&& r == header_lead() + d + terminator() + body_prefix() + text
            &&& all_digits(d)
            &&& decimal_value(d) == r.len() - (header_lead().len() + d.len() + 4)
            &&& decimal_value(d) == 9 + text.len()
        }),
{
    let d = decimal(body(text).len());
    lemma_decimal(body(text).len());
    assert(response(text) =~= header_lead() + d + terminator() + body_prefix() + text);
}

} // verus!
