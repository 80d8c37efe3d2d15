//! `Content-Length` framing of adapter messages.
//!
//! A frame is the header `Content-Length: `, the body's length in decimal
//! without leading zeros, a blank line (`\r\n\r\n`), and the body itself.
//! The encoder writes exactly that form and the decoder accepts exactly
//! that form, so the two are inverse to each other.

use vstd::prelude::*;

verus! {

/// The bytes of `Content-Length: `.
pub open spec fn header() -> Seq<u8> {
    seq![
        67u8, 111u8, 110u8, 116u8, 101u8, 110u8, 116u8, 45u8,
        76u8, 101u8, 110u8, 103u8, 116u8, 104u8, 58u8, 32u8,
    ]
}

/// The bytes of `\r\n\r\n`.
pub open spec fn separator() -> Seq<u8> {
    seq![13u8, 10u8, 13u8, 10u8]
}

/// Whether `b` is an ASCII decimal digit.
pub open spec fn is_digit(b: u8) -> bool {
    48 <= b <= 57
}

/// `n` in decimal, most significant digit first, without leading zeros.
pub open spec fn decimal(n: nat) -> Seq<u8>
    decreases n,
{
    if n < 10 {
        seq![(48 + n) as u8]
    } else {
        decimal(n / 10).push((48 + n % 10) as u8)
    }
}

/// The number that a run of decimal digits denotes.
pub open spec fn digits_value(s: Seq<u8>) -> nat
    decreases s.len(),
{
    if s.len() == 0 {
        0
    } else {
        digits_value(s.drop_last()) * 10 + (s.last() - 48) as nat
    }
}

/// A non-empty run of digits that has no leading zero, unless it is `0`.
pub open spec fn canonical(s: Seq<u8>) -> bool {
    &&& s.len() >= 1
    &&& forall|i: int| 0 <= i < s.len() ==> is_digit(#[trigger] s[i])
    &&& (s[0] == 48 ==> s.len() == 1)
}

/// The frame that carries `body`.
pub open spec fn frame(body: Seq<u8>) -> Seq<u8> {
    header() + decimal(body.len()) + separator() + body
}

/// `input` begins with the whole frame of `body`.
pub open spec fn starts_with_frame(input: Seq<u8>, body: Seq<u8>) -> bool {
    body.len() <= usize::MAX && frame(body).is_prefix_of(input)
}

/// `input` is the beginning of the frame of `body`, and not all of it.
pub open spec fn begins_frame(input: Seq<u8>, body: Seq<u8>) -> bool {
    body.len() <= usize::MAX && input.len() < frame(body).len() && input.is_prefix_of(
        frame(body),
    )
}

/// Why no frame was taken from the input.
#[derive(Clone, Copy, Debug, PartialEq, Eq)]
pub enum FrameError {
    /// The input is the beginning of a frame: more bytes are needed.
    Incomplete,
    /// No frame begins like the input.
    Malformed,
}

/// What a decoder makes of `input`: the body of the frame that it begins
/// with and that frame's length, or the reason why there is none.
pub open spec fn parse_frame(input: Seq<u8>) -> Result<(Seq<u8>, nat), FrameError> {
    if exists|body: Seq<u8>| starts_with_frame(input, body) {
        let body = choose|body: Seq<u8>| starts_with_frame(input, body);
        Ok((body, frame(body).len()))
    } else if exists|body: Seq<u8>| begins_frame(input, body) {
        Err(FrameError::Incomplete)
    } else {
        Err(FrameError::Malformed)
    }
}

/// The two sequences hold the same byte wherever both have one.
pub open spec fn agree(a: Seq<u8>, b: Seq<u8>) -> bool {
    forall|i: int| 0 <= i < a.len() && i < b.len() ==> a[i] == b[i]
}

pub proof fn lemma_decimal_canonical(n: nat)
    ensures
        canonical(decimal(n)),
        decimal(n)[0] == 48 <==> n == 0,
    decreases n,
{
    if n >= 10 {
        lemma_decimal_canonical(n / 10);
        let shorter = decimal(n / 10);
        let last = (48 + n % 10) as u8;
        assert(decimal(n) == shorter.push(last));
        assert forall|i: int| 0 <= i < decimal(n).len() implies is_digit(
            #[trigger] decimal(n)[i],
        ) by {
            if i < shorter.len() {
                assert(decimal(n)[i] == shorter[i]);
            }
        }
        assert(decimal(n)[0] == shorter[0]);
    }
}

pub proof fn lemma_value_of_decimal(n: nat)
    ensures
        digits_value(decimal(n)) == n,
    decreases n,
{
    if n < 10 {
        let s = decimal(n);
        assert(s.drop_last().len() == 0);
        assert(digits_value(s.drop_last()) == 0);
    } else {
        lemma_value_of_decimal(n / 10);
        let shorter = decimal(n / 10);
        let last = (48 + n % 10) as u8;
        assert(decimal(n).drop_last() =~= shorter);
        assert(decimal(n).last() == last);
    }
}

pub proof fn lemma_decimal_of_value(s: Seq<u8>)
    requires
        canonical(s),
    ensures
        decimal(digits_value(s)) == s,
        s[0] != 48 ==> digits_value(s) >= 1,
    decreases s.len(),
{
    if s.len() == 1 {
        assert(s.drop_last().len() == 0);
        assert(digits_value(s.drop_last()) == 0);
        assert(is_digit(s[0]));
        assert(decimal(digits_value(s)) =~= s);
    } else {
        let shorter = s.drop_last();
        assert(shorter[0] == s[0]);
        assert(canonical(shorter)) by {
            assert forall|i: int| 0 <= i < shorter.len() implies is_digit(
                #[trigger] shorter[i],
            ) by {
                assert(shorter[i] == s[i]);
            }
        }
        lemma_decimal_of_value(shorter);
        let v = digits_value(shorter);
        let d = (s.last() - 48) as nat;
        assert(is_digit(s[s.len() - 1]));
        assert(digits_value(s) == v * 10 + d);
        assert((v * 10 + d) / 10 == v && (v * 10 + d) % 10 == d) by (nonlinear_arith)
            requires
                d < 10,
        ;
        assert(decimal(digits_value(s)) =~= s);
    }
}

/// A run of digits denotes at least what any of its beginnings denotes.
pub proof fn lemma_value_of_prefix(s: Seq<u8>, k: int)
    requires
        0 <= k <= s.len(),
        forall|i: int| 0 <= i < s.len() ==> is_digit(#[trigger] s[i]),
    ensures
        digits_value(s.subrange(0, k)) <= digits_value(s),
    decreases s.len() - k,
{
    if k == s.len() {
        assert(s.subrange(0, k) =~= s);
    } else {
        let shorter = s.drop_last();
        assert forall|i: int| 0 <= i < shorter.len() implies is_digit(#[trigger] shorter[i]) by {
            assert(shorter[i] == s[i]);
        }
        lemma_value_of_prefix(shorter, k);
        assert(shorter.subrange(0, k) =~= s.subrange(0, k));
        assert(is_digit(s[s.len() - 1]));
    }
}

/// Where the parts of a frame stand in it.
pub proof fn lemma_frame_layout(body: Seq<u8>)
    ensures
        frame(body).len() == 20 + decimal(body.len()).len() + body.len(),
        forall|i: int| 0 <= i < 16 ==> #[trigger] frame(body)[i] == header()[i],
        forall|i: int|
            16 <= i < 16 + decimal(body.len()).len() ==> #[trigger] frame(body)[i] == decimal(
                body.len(),
            )[i - 16],
        forall|i: int|
            16 + decimal(body.len()).len() <= i < 20 + decimal(body.len()).len()
                ==> #[trigger] frame(body)[i] == separator()[i - 16 - decimal(body.len()).len()],
        forall|i: int|
            20 + decimal(body.len()).len() <= i < frame(body).len() ==> #[trigger] frame(body)[i]
                == body[i - 20 - decimal(body.len()).len()],
{
}

/// If the input agrees with a frame and holds digits from the header's end
/// up to `end`, they are the beginning of the frame's length.
pub proof fn lemma_digits_begin_length(input: Seq<u8>, body: Seq<u8>, end: int)
    requires
        agree(input, frame(body)),
        16 <= end <= input.len(),
        forall|i: int| 16 <= i < end ==> is_digit(#[trigger] input[i]),
    ensures
        decimal(body.len()).len() >= end - 16,
        decimal(body.len()).subrange(0, end - 16) == input.subrange(16, end),
{
    let digits = decimal(body.len());
    lemma_frame_layout(body);
    lemma_decimal_canonical(body.len());
    if digits.len() < end - 16 {
        let p: int = 16 + digits.len() as int;
        assert(frame(body)[p] == separator()[0]);
        assert(is_digit(input[p]));
    }
    assert forall|i: int| 0 <= i < end - 16 implies digits[i] == input[16 + i] by {
        assert(frame(body)[16 + i] == digits[i]);
    }
    assert(digits.subrange(0, end - 16) =~= input.subrange(16, end));
}

/// If, moreover, a byte that is no digit follows at `end`, the digits are
/// the frame's whole length.
pub proof fn lemma_digits_are_length(input: Seq<u8>, body: Seq<u8>, end: int)
    requires
        agree(input, frame(body)),
        16 <= end < input.len(),
        forall|i: int| 16 <= i < end ==> is_digit(#[trigger] input[i]),
        !is_digit(input[end]),
    ensures
        decimal(body.len()) == input.subrange(16, end),
{
    let digits = decimal(body.len());
    lemma_frame_layout(body);
    lemma_decimal_canonical(body.len());
    lemma_digits_begin_length(input, body, end);
    if digits.len() > end - 16 {
        assert(frame(body)[16 + (end - 16)] == digits[end - 16]);
        assert(is_digit(digits[end - 16]));
    }
    assert(digits.subrange(0, end - 16) =~= digits);
}

/// Two frames that agree are the same frame.
pub proof fn lemma_agreeing_frames(a: Seq<u8>, b: Seq<u8>)
    requires
        agree(frame(a), frame(b)),
        frame(a).len() <= frame(b).len(),
    ensures
        a == b,
{
    let da = decimal(a.len());
    lemma_frame_layout(a);
    lemma_frame_layout(b);
    lemma_decimal_canonical(a.len());
    lemma_decimal_canonical(b.len());
    let end: int = 16 + da.len() as int;
    assert forall|i: int| 16 <= i < end implies is_digit(#[trigger] frame(a)[i]) by {
        assert(frame(a)[i] == da[i - 16]);
    }
    assert(frame(a)[end] == separator()[0]);
    lemma_digits_are_length(frame(a), b, end);
    assert(frame(a).subrange(16, end) =~= da);
    lemma_value_of_decimal(a.len());
    lemma_value_of_decimal(b.len());
    assert(a.len() == b.len());
    assert forall|i: int| 0 <= i < a.len() implies a[i] == b[i] by {
        assert(frame(a)[20 + da.len() + i] == a[i]);
        assert(frame(b)[20 + da.len() + i] == b[i]);
    }
    assert(a =~= b);
}

/// At most one frame stands at the beginning of an input.
pub proof fn lemma_frame_unique(input: Seq<u8>, a: Seq<u8>, b: Seq<u8>)
    requires
        starts_with_frame(input, a),
        starts_with_frame(input, b),
    ensures
        a == b,
{
    if frame(a).len() <= frame(b).len() {
        lemma_agreeing_frames(a, b);
    } else {
        lemma_agreeing_frames(b, a);
    }
}

/// An input that holds a whole frame is not the beginning of any frame.
pub proof fn lemma_frame_prefix_free(input: Seq<u8>, whole: Seq<u8>, begun: Seq<u8>)
    requires
        starts_with_frame(input, whole),
    ensures
        !begins_frame(input, begun),
{
    if begins_frame(input, begun) {
        lemma_agreeing_frames(whole, begun);
    }
}

/// An input that agrees with no frame is malformed.
proof fn lemma_malformed(input: Seq<u8>)
    requires
        forall|body: Seq<u8>| body.len() <= usize::MAX ==> !agree(input, #[trigger] frame(body)),
    ensures
        parse_frame(input) == Err::<(Seq<u8>, nat), FrameError>(FrameError::Malformed),
{
    assert forall|body: Seq<u8>| !starts_with_frame(input, body) && !begins_frame(
        input,
        body,
    ) by {
        if starts_with_frame(input, body) || begins_frame(input, body) {
            assert(agree(input, frame(body)));
        }
    }
}

/// An input that is the beginning of a frame is incomplete.
proof fn lemma_incomplete(input: Seq<u8>, begun: Seq<u8>)
    requires
        begins_frame(input, begun),
    ensures
        parse_frame(input) == Err::<(Seq<u8>, nat), FrameError>(FrameError::Incomplete),
{
    assert forall|body: Seq<u8>| !starts_with_frame(input, body) by {
        if starts_with_frame(input, body) {
            lemma_frame_prefix_free(input, body, begun);
        }
    }
}

/// An input that begins with a frame is parsed as that frame.
proof fn lemma_complete(input: Seq<u8>, body: Seq<u8>)
    requires
        starts_with_frame(input, body),
    ensures
        parse_frame(input) == Ok::<(Seq<u8>, nat), FrameError>((body, frame(body).len())),
{
    let chosen = choose|b: Seq<u8>| starts_with_frame(input, b);
    lemma_frame_unique(input, chosen, body);
}

proof fn lemma_bad_header(input: Seq<u8>, at: int)
    requires
        0 <= at < 16,
        at < input.len(),
        input[at] != header()[at],
    ensures
        parse_frame(input) == Err::<(Seq<u8>, nat), FrameError>(FrameError::Malformed),
{
    assert forall|body: Seq<u8>| body.len() <= usize::MAX implies !agree(
        input,
        #[trigger] frame(body),
    ) by {
        lemma_frame_layout(body);
        assert(frame(body)[at] == header()[at]);
    }
    lemma_malformed(input);
}

proof fn lemma_no_digit(input: Seq<u8>)
    requires
        input.len() > 16,
        !is_digit(input[16]),
    ensures
        parse_frame(input) == Err::<(Seq<u8>, nat), FrameError>(FrameError::Malformed),
{
    assert forall|body: Seq<u8>| body.len() <= usize::MAX implies !agree(
        input,
        #[trigger] frame(body),
    ) by {
        lemma_frame_layout(body);
        lemma_decimal_canonical(body.len());
        assert(frame(body)[16] == decimal(body.len())[0]);
    }
    lemma_malformed(input);
}

proof fn lemma_leading_zero(input: Seq<u8>, end: int)
    requires
        18 <= end <= input.len(),
        forall|i: int| 16 <= i < end ==> is_digit(#[trigger] input[i]),
        input[16] == 48,
    ensures
        parse_frame(input) == Err::<(Seq<u8>, nat), FrameError>(FrameError::Malformed),
{
    assert forall|body: Seq<u8>| body.len() <= usize::MAX implies !agree(
        input,
        #[trigger] frame(body),
    ) by {
        if agree(input, frame(body)) {
            lemma_digits_begin_length(input, body, end);
            lemma_decimal_canonical(body.len());
            let digits = decimal(body.len());
            assert(digits.subrange(0, end - 16)[0] == input.subrange(16, end)[0]);
        }
    }
    lemma_malformed(input);
}

proof fn lemma_length_too_large(input: Seq<u8>, end: int)
    requires
        16 <= end <= input.len(),
        forall|i: int| 16 <= i < end ==> is_digit(#[trigger] input[i]),
        digits_value(input.subrange(16, end)) > usize::MAX,
    ensures
        parse_frame(input) == Err::<(Seq<u8>, nat), FrameError>(FrameError::Malformed),
{
    assert forall|body: Seq<u8>| body.len() <= usize::MAX implies !agree(
        input,
        #[trigger] frame(body),
    ) by {
        if agree(input, frame(body)) {
            lemma_digits_begin_length(input, body, end);
            lemma_decimal_canonical(body.len());
            lemma_value_of_decimal(body.len());
            lemma_value_of_prefix(decimal(body.len()), end - 16);
        }
    }
    lemma_malformed(input);
}

proof fn lemma_bad_separator(input: Seq<u8>, end: int, at: int)
    requires
        16 <= end < input.len(),
        forall|i: int| 16 <= i < end ==> is_digit(#[trigger] input[i]),
        !is_digit(input[end]),
        0 <= at < 4,
        end + at < input.len(),
        input[end + at] != separator()[at],
    ensures
        parse_frame(input) == Err::<(Seq<u8>, nat), FrameError>(FrameError::Malformed),
{
    assert forall|body: Seq<u8>| body.len() <= usize::MAX implies !agree(
        input,
        #[trigger] frame(body),
    ) by {
        if agree(input, frame(body)) {
            lemma_digits_are_length(input, body, end);
            lemma_frame_layout(body);
            assert(decimal(body.len()).len() == end - 16);
            assert(frame(body)[end + at] == separator()[at]);
        }
    }
    lemma_malformed(input);
}

proof fn lemma_header_begun(input: Seq<u8>)
    requires
        input.len() <= 16,
        forall|i: int| 0 <= i < input.len() ==> input[i] == header()[i],
    ensures
        parse_frame(input) == Err::<(Seq<u8>, nat), FrameError>(FrameError::Incomplete),
{
    let empty = Seq::<u8>::empty();
    lemma_frame_layout(empty);
    assert(input =~= frame(empty).subrange(0, input.len() as int));
    lemma_incomplete(input, empty);
}

/// The body that completes an input which ends inside a frame of length
/// `n`: what the input holds of it, then zeros.
spec fn completed_body(input: Seq<u8>, start: int, n: nat) -> Seq<u8> {
    Seq::new(
        n,
        |i: int|
            if start + i < input.len() {
                input[start + i]
            } else {
                0u8
            },
    )
}

proof fn lemma_frame_begun(input: Seq<u8>, end: int, n: nat)
    requires
        16 < end <= input.len(),
        forall|i: int| 0 <= i < 16 ==> input[i] == header()[i],
        canonical(input.subrange(16, end)),
        digits_value(input.subrange(16, end)) == n,
        n <= usize::MAX,
        forall|i: int|
            0 <= i < 4 && end + i < input.len() ==> #[trigger] input[end + i] == separator()[i],
        input.len() < end + 4 + n,
    ensures
        parse_frame(input) == Err::<(Seq<u8>, nat), FrameError>(FrameError::Incomplete),
{
    let body = completed_body(input, end + 4, n);
    let digits = input.subrange(16, end);
    lemma_decimal_of_value(digits);
    lemma_frame_layout(body);
    assert forall|i: int| 0 <= i < input.len() implies input[i] == frame(body)[i] by {
        if i < 16 {
        } else if i < end {
            assert(frame(body)[i] == digits[i - 16]);
        } else if i < end + 4 {
            assert(input[end + (i - end)] == separator()[i - end]);
            assert(frame(body)[i] == separator()[i - end]);
        } else {
            assert(frame(body)[i] == body[i - end - 4]);
        }
    }
    assert(input =~= frame(body).subrange(0, input.len() as int));
    lemma_incomplete(input, body);
}

proof fn lemma_frame_found(input: Seq<u8>, end: int, body: Seq<u8>)
    requires
        16 < end,
        end + 4 + body.len() <= input.len(),
        forall|i: int| 0 <= i < 16 ==> input[i] == header()[i],
        canonical(input.subrange(16, end)),
        digits_value(input.subrange(16, end)) == body.len(),
        body.len() <= usize::MAX,
        forall|i: int| 0 <= i < 4 ==> #[trigger] input[end + i] == separator()[i],
        body == input.subrange(end + 4, end + 4 + body.len()),
    ensures
        parse_frame(input) == Ok::<(Seq<u8>, nat), FrameError>(
            (body, (end + 4 + body.len()) as nat),
        ),
{
    let digits = input.subrange(16, end);
    lemma_decimal_of_value(digits);
    lemma_frame_layout(body);
    let whole = frame(body);
    assert forall|i: int| 0 <= i < whole.len() implies whole[i] == input[i] by {
        if i < 16 {
        } else if i < end {
            assert(whole[i] == digits[i - 16]);
        } else if i < end + 4 {
            assert(input[end + (i - end)] == separator()[i - end]);
            assert(whole[i] == separator()[i - end]);
        } else {
            assert(whole[i] == body[i - end - 4]);
        }
    }
    assert(whole =~= input.subrange(0, whole.len() as int));
    lemma_complete(input, body);
}

/// Appends the bytes of `bytes` from `from` up to `to`.
fn push_range(out: &mut Vec<u8>, bytes: &[u8], from: usize, to: usize)
    requires
        from <= to <= bytes@.len(),
    ensures
        final(out)@ == old(out)@ + bytes@.subrange(from as int, to as int),
{
    let mut i: usize = from;
    while i < to
        invariant
            from <= i <= to <= bytes@.len(),
            out@ == old(out)@ + bytes@.subrange(from as int, i as int),
        decreases to - i,
    {
        out.push(bytes[i]);
        i += 1;
        assert(out@ =~= old(out)@ + bytes@.subrange(from as int, i as int));
    }
}

/// Appends `n` in decimal.
fn push_decimal(out: &mut Vec<u8>, n: usize)
    ensures
        final(out)@ == old(out)@ + decimal(n as nat),
    decreases n,
{
    if n >= 10 {
        push_decimal(out, n / 10);
    }
    let digit: u8 = (n % 10) as u8;
    out.push(48 + digit);
    assert(out@ =~= old(out)@ + decimal(n as nat));
}

/// Frames `body` for the wire.
pub fn encode_frame(body: &[u8]) -> (out: Vec<u8>)
    ensures
        out@ == frame(body@),
{
    let head: [u8; 16] = [67, 111, 110, 116, 101, 110, 116, 45, 76, 101, 110, 103, 116, 104, 58, 32];
    let blank: [u8; 4] = [13, 10, 13, 10];
    assert(head@ =~= header());
    assert(blank@ =~= separator());
    let mut out: Vec<u8> = Vec::new();
    push_range(&mut out, head.as_slice(), 0, 16);
    push_decimal(&mut out, body.len());
    push_range(&mut out, blank.as_slice(), 0, 4);
    push_range(&mut out, body, 0, body.len());
    assert(out@ =~= frame(body@));
    out
}

/// Takes the frame at the beginning of `input`: its body and the number
/// of bytes that the frame occupies. Bytes after the frame are left alone.
pub fn decode_frame(input: &[u8]) -> (r: Result<(Vec<u8>, usize), FrameError>)
    ensures
        match r {
            Ok((body, used)) => parse_frame(input@) == Ok::<(Seq<u8>, nat), FrameError>(
                (body@, used as nat),
            ),
            Err(e) => parse_frame(input@) == Err::<(Seq<u8>, nat), FrameError>(e),
        },
{
    let head: [u8; 16] = [67, 111, 110, 116, 101, 110, 116, 45, 76, 101, 110, 103, 116, 104, 58, 32];
    let blank: [u8; 4] = [13, 10, 13, 10];
    assert(head@ =~= header());
    assert(blank@ =~= separator());
    let len: usize = input.len();
    let mut i: usize = 0;
    while i < 16
        invariant
            i <= 16,
            i <= len,
            len == input@.len(),
            head@ == header(),
            forall|k: int| 0 <= k < i ==> input@[k] == header()[k],
        decreases 16 - i,
    {
        if i >= len {
            proof {
                lemma_header_begun(input@);
            }
            return Err(FrameError::Incomplete);
        }
        if input[i] != head[i] {
            proof {
                lemma_bad_header(input@, i as int);
            }
            return Err(FrameError::Malformed);
        }
        i += 1;
    }
    let mut end: usize = 16;
    let mut n: usize = 0;
    while end < len && 48 <= input[end] && input[end] <= 57
        invariant
            16 <= end <= len,
            len == input@.len(),
            forall|k: int| 16 <= k < end ==> is_digit(#[trigger] input@[k]),
            digits_value(input@.subrange(16, end as int)) == n,
            end > 16 ==> canonical(input@.subrange(16, end as int)),
            end > 16 ==> (n == 0 <==> input@[16] == 48),
        decreases len - end,
    {
        let digit: usize = (input[end] - 48) as usize;
        if end > 16 && n == 0 {
            proof {
                lemma_leading_zero(input@, end + 1);
            }
            return Err(FrameError::Malformed);
        }
        let ghost longer = input@.subrange(16, end + 1);
        proof {
            assert(longer.drop_last() =~= input@.subrange(16, end as int));
            assert(longer.last() == input@[end as int]);
            assert(digits_value(longer) == n * 10 + digit);
        }
        if n > (usize::MAX - digit) / 10 {
            proof {
                lemma_length_too_large(input@, end + 1);
            }
            return Err(FrameError::Malformed);
        }
        n = n * 10 + digit;
        end += 1;
        proof {
            assert forall|k: int| 0 <= k < longer.len() implies is_digit(#[trigger] longer[k]) by {
                assert(longer[k] == input@[16 + k]);
            }
            assert(longer[0] == input@[16]);
        }
    }
    if end == len {
        proof {
            if end == 16 {
                lemma_header_begun(input@);
            } else {
                lemma_frame_begun(input@, end as int, n as nat);
            }
        }
        return Err(FrameError::Incomplete);
    }
    if end == 16 {
        proof {
            lemma_no_digit(input@);
        }
        return Err(FrameError::Malformed);
    }
    let mut k: usize = 0;
    while k < 4 && end + k < len
        invariant
            k <= 4,
            16 < end < len,
            end + k <= len,
            len == input@.len(),
            blank@ == separator(),
            forall|j: int| 0 <= j < k ==> #[trigger] input@[end + j] == separator()[j],
            forall|j: int| 16 <= j < end ==> is_digit(#[trigger] input@[j]),
            !is_digit(input@[end as int]),
        decreases 4 - k,
    {
        if input[end + k] != blank[k] {
            proof {
                lemma_bad_separator(input@, end as int, k as int);
            }
            return Err(FrameError::Malformed);
        }
        k += 1;
    }
    if k < 4 || len - (end + 4) < n {
        proof {
            lemma_frame_begun(input@, end as int, n as nat);
        }
        return Err(FrameError::Incomplete);
    }
    let start: usize = end + 4;
    let mut body: Vec<u8> = Vec::new();
    push_range(&mut body, input, start, start + n);
    proof {
        assert(body@ =~= input@.subrange(start as int, start + n));
        lemma_frame_found(input@, end as int, body@);
    }
    Ok((body, start + n))
}

/// Decoding undoes encoding: a frame, followed by anything, is parsed as
/// its own body and length.
pub proof fn lemma_decode_encode(body: Seq<u8>, rest: Seq<u8>)
    requires
        body.len() <= usize::MAX,
    ensures
        parse_frame(frame(body) + rest) == Ok::<(Seq<u8>, nat), FrameError>(
            (body, frame(body).len()),
        ),
{
    let input = frame(body) + rest;
    assert(frame(body) =~= input.subrange(0, frame(body).len() as int));
    lemma_complete(input, body);
}

/// Encoding undoes decoding: an input that is parsed as one frame, with
/// nothing left over, is the frame of the body that came out.
pub proof fn lemma_encode_decode(input: Seq<u8>, body: Seq<u8>)
    requires
        parse_frame(input) == Ok::<(Seq<u8>, nat), FrameError>((body, input.len())),
    ensures
        frame(body) == input,
{
    let chosen = choose|b: Seq<u8>| starts_with_frame(input, b);
    assert(starts_with_frame(input, chosen));
    assert(chosen == body);
    assert(frame(body) =~= input.subrange(0, frame(body).len() as int));
    assert(input.subrange(0, input.len() as int) =~= input);
}

} // verus!
