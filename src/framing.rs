use vstd::prelude::*;
use vstd::slice::{slice_subrange, slice_to_vec};
use vstd::string::StringSliceAdditionalSpecFns;
use vstd::utf8::{decode_utf8, encode_utf8, encode_utf8_decode_utf8, encode_utf8_valid_utf8, valid_utf8};

verus! {

/// Why reading one frame failed.
#[derive(Debug, Clone, Copy, PartialEq, Eq, Structural)]
pub enum FrameError {
    /// A header line did not end in `\r\n`, or had no `": "` separator.
    MalformedHeader,
    /// The `Content-Length` value is not a decimal number that fits a `usize`.
    BadContentLength,
    /// The header block ended without a `Content-Length` header.
    MissingContentLength,
    /// The stream ended before the whole payload was read.
    UnexpectedEof,
    /// The payload is not valid UTF-8.
    InvalidUtf8,
}

pub open spec fn ascii_lower(b: u8) -> u8 {
    if 65 <= b && b <= 90 { (b + 32) as u8 } else { b }
}

pub open spec fn eq_ignore_ascii_case(a: Seq<u8>, b: Seq<u8>) -> bool {
    a.len() == b.len() && forall|i: int| 0 <= i < a.len() ==> ascii_lower(a[i]) == ascii_lower(b[i])
}

/// The bytes of `Content-Length`.
pub open spec fn content_length_key() -> Seq<u8> {
    seq![67u8, 111, 110, 116, 101, 110, 116, 45, 76, 101, 110, 103, 116, 104]
}

pub open spec fn is_digit(b: u8) -> bool {
    48 <= b && b <= 57
}

pub open spec fn all_digits(s: Seq<u8>) -> bool {
    forall|i: int| 0 <= i < s.len() ==> is_digit(#[trigger] s[i])
}

/// The number that a string of decimal digits stands for.
pub open spec fn digits_value(s: Seq<u8>) -> nat
    decreases s.len(),
{
    if s.len() == 0 {
        0
    } else {
        digits_value(s.drop_last()) * 10 + (s.last() - 48) as nat
    }
}

/// `s` without one leading `+`, if it has one.
pub open spec fn without_plus(s: Seq<u8>) -> Seq<u8> {
    if s.len() > 0 && s[0] == 43u8 {
        s.drop_first()
    } else {
        s
    }
}

/// What `usize::from_str` accepts: an optional `+`, then one or more digits,
/// whose value fits a `usize`.
pub open spec fn parse_usize(s: Seq<u8>) -> Option<nat> {
    let d = without_plus(s);
    if d.len() > 0 && all_digits(d) && digits_value(d) <= usize::MAX {
        Some(digits_value(d))
    } else {
        None
    }
}

/// The decimal digits of `n`, most significant first, without leading zeros.
pub open spec fn decimal_digits(n: nat) -> Seq<u8>
    decreases n,
{
    if n < 10 {
        seq![(48 + n) as u8]
    } else {
        decimal_digits(n / 10).push((48 + n % 10) as u8)
    }
}


/// Index of the first `\n` in `s` at or after `i`, or `s.len()` when none follows.
pub open spec fn newline_from(s: Seq<u8>, i: int) -> int
    decreases s.len() - i,
{
    if i >= s.len() {
        s.len() as int
    } else if s[i] == 10u8 {
        i
    } else {
        newline_from(s, i + 1)
    }
}

/// Index of the first `": "` in `c` at or after `i`, or `c.len()` when none follows.
pub open spec fn separator_from(c: Seq<u8>, i: int) -> int
    decreases c.len() - i,
{
    if i + 1 >= c.len() {
        c.len() as int
    } else if c[i] == 58u8 && c[i + 1] == 32u8 {
        i
    } else {
        separator_from(c, i + 1)
    }
}

/// Reads the header lines of `s` from `pos` on, `size` being the last
/// `Content-Length` seen so far. Gives the position where the payload starts
/// together with the `Content-Length` seen, `None` where the stream ends
/// before the blank line, or the error that stops the read.
pub open spec fn headers_from(s: Seq<u8>, pos: int, size: Option<nat>) -> Result<
    Option<(int, Option<nat>)>,
    FrameError,
>
    decreases s.len() - pos,
{
    if pos < 0 || pos >= s.len() {
        Ok(None)
    } else {
        let e = newline_from(s, pos);
        if e >= s.len() || e <= pos || s[e - 1] != 13u8 {
            Err(FrameError::MalformedHeader)
        } else {
            let line = s.subrange(pos, e - 1);
            if line.len() == 0 {
                Ok(Some((e + 1, size)))
            } else {
                let k = separator_from(line, 0);
                if k >= line.len() {
                    Err(FrameError::MalformedHeader)
                } else if eq_ignore_ascii_case(line.subrange(0, k), content_length_key()) {
                    match parse_usize(line.subrange(k + 2, line.len() as int)) {
                        Some(n) => headers_from(s, e + 1, Some(n)),
                        None => Err(FrameError::BadContentLength),
                    }
                } else {
                    headers_from(s, e + 1, size)
                }
            }
        }
    }
}

/// One frame read from the start of `s`: its payload bytes and the number of
/// bytes that the frame takes, `None` at a clean end of stream, or the error.
pub open spec fn frame_of(s: Seq<u8>) -> Result<Option<(Seq<u8>, int)>, FrameError> {
    match headers_from(s, 0, None) {
        Err(e) => Err(e),
        Ok(None) => Ok(None),
        Ok(Some((p, None))) => Err(FrameError::MissingContentLength),
        Ok(Some((p, Some(n)))) => if p + n > s.len() {
            Err(FrameError::UnexpectedEof)
        } else {
            Ok(Some((s.subrange(p, p + n), p + n)))
        },
    }
}

/// `frame_of`, with the payload decoded as UTF-8 text.
pub open spec fn text_frame_of(s: Seq<u8>) -> Result<Option<(Seq<char>, int)>, FrameError> {
    match frame_of(s) {
        Ok(Some((b, n))) => if valid_utf8(b) {
            Ok(Some((decode_utf8(b), n)))
        } else {
            Err(FrameError::InvalidUtf8)
        },
        Ok(None) => Ok(None),
        Err(e) => Err(e),
    }
}

/// The text of one frame and the number of input bytes that the frame took.
pub struct Frame {
    pub text: String,
    pub consumed: usize,
}

pub open spec fn size_view(size: Option<usize>) -> Option<nat> {
    match size {
        Some(n) => Some(n as nat),
        None => None,
    }
}

pub open spec fn frame_view(r: Result<Option<Frame>, FrameError>) -> Result<
    Option<(Seq<char>, int)>,
    FrameError,
> {
    match r {
        Ok(Some(f)) => Ok(Some((f.text@, f.consumed as int))),
        Ok(None) => Ok(None),
        Err(e) => Err(e),
    }
}

/// Relies on `String::from_utf8`: `Ok` exactly for valid UTF-8, holding the
/// decoded text.
#[verifier::external_body]
fn string_from_utf8(b: Vec<u8>) -> (r: Option<String>)
    ensures
        r.is_some() == valid_utf8(b@),
        r matches Some(t) ==> t@ == decode_utf8(b@),
{
    String::from_utf8(b).ok()
}

fn find_newline(s: &[u8], from: usize) -> (e: usize)
    requires
        from <= s.len(),
    ensures
        e as int == newline_from(s@, from as int),
        from <= e <= s.len(),
{
    let mut i: usize = from;
    while i < s.len()
        invariant
            from <= i <= s.len(),
            newline_from(s@, i as int) == newline_from(s@, from as int),
        decreases s.len() - i,
    {
        if s[i] == 10u8 {
            return i;
        }
        i = i + 1;
    }
    i
}

fn find_separator(c: &[u8]) -> (k: usize)
    ensures
        k as int == separator_from(c@, 0),
        k <= c.len(),
        k < c.len() ==> k + 1 < c.len(),
{
    let mut i: usize = 0;
    while i < c.len() && i + 1 < c.len()
        invariant
            i <= c.len(),
            separator_from(c@, i as int) == separator_from(c@, 0),
        decreases c.len() - i,
    {
        if c[i] == 58u8 && c[i + 1] == 32u8 {
            return i;
        }
        i = i + 1;
    }
    c.len()
}

fn to_ascii_lower(b: u8) -> (r: u8)
    ensures
        r == ascii_lower(b),
{
    if 65 <= b && b <= 90 {
        b + 32
    } else {
        b
    }
}

/// Whether a header name is `Content-Length`, in any case.
pub fn is_content_length(name: &[u8]) -> (r: bool)
    ensures
        r == eq_ignore_ascii_case(name@, content_length_key()),
{
    let key: [u8; 14] = [67u8, 111, 110, 116, 101, 110, 116, 45, 76, 101, 110, 103, 116, 104];
    assert(key@ == content_length_key());
    if name.len() != 14 {
        return false;
    }
    let mut i: usize = 0;
    while i < 14
        invariant
            name@.len() == 14,
            key@ == content_length_key(),
            i <= 14,
            forall|j: int| 0 <= j < i ==> ascii_lower(name@[j]) == ascii_lower(key@[j]),
        decreases 14 - i,
    {
        if to_ascii_lower(name[i]) != to_ascii_lower(key[i]) {
            return false;
        }
        i = i + 1;
    }
    true
}


proof fn lemma_digits_prefix_le(s: Seq<u8>, j: int)
    requires
        all_digits(s),
        0 <= j <= s.len(),
    ensures
        digits_value(s.take(j)) <= digits_value(s),
    decreases s.len(),
{
    if j < s.len() {
        let t = s.drop_last();
        assert(all_digits(t));
        lemma_digits_prefix_le(t, j);
        assert(t.take(j) == s.take(j));
    } else {
        assert(s.take(j) == s);
    }
}

/// Parses a header value as `usize::from_str` does.
pub fn parse_usize_bytes(s: &[u8]) -> (r: Option<usize>)
    ensures
        match parse_usize(s@) {
            Some(n) => r == Some(n as usize),
            None => r is None,
        },
{
    let start: usize = if s.len() > 0 && s[0] == 43u8 {
        1
    } else {
        0
    };
    let d = slice_subrange(s, start, s.len());
    assert(d@ == without_plus(s@));
    if d.len() == 0 {
        return None;
    }
    let mut acc: usize = 0;
    let mut i: usize = 0;
    while i < d.len()
        invariant
            i <= d@.len(),
            d@ == without_plus(s@),
            all_digits(d@.take(i as int)),
            acc as nat == digits_value(d@.take(i as int)),
        decreases d.len() - i,
    {
        let b = d[i];
        if b < 48u8 || b > 57u8 {
            assert(!is_digit(d@[i as int]));
            assert(!all_digits(d@));
            return None;
        }
        let v: usize = (b - 48u8) as usize;
        assert(d@.take(i + 1).drop_last() == d@.take(i as int));
        assert(d@.take(i + 1).last() == b);
        assert(digits_value(d@.take(i + 1)) == acc * 10 + v);
        assert(all_digits(d@.take(i + 1))) by {
            assert forall|j: int| 0 <= j < i + 1 implies is_digit(#[trigger] d@.take(i + 1)[j]) by {
                if j < i {
                    assert(d@.take(i + 1)[j] == d@.take(i as int)[j]);
                }
            }
        }
        if acc > (usize::MAX - v) / 10 {
            assert(acc * 10 + v > usize::MAX) by (nonlinear_arith)
                requires
                    acc > (usize::MAX - v) / 10,
                    v <= 9,
            ;
            proof {
                if all_digits(d@) {
                    lemma_digits_prefix_le(d@, i + 1);
                }
            }
            return None;
        }
        assert(acc * 10 + v <= usize::MAX) by (nonlinear_arith)
            requires
                acc <= (usize::MAX - v) / 10,
                v <= 9,
        ;
        acc = acc * 10 + v;
        i = i + 1;
    }
    assert(d@.take(d@.len() as int) == d@);
    Some(acc)
}

/// The header block of `s` closes at `pos`, with `size` the last
/// `Content-Length` seen.
pub open spec fn headers_end_at(s: Seq<u8>, pos: int, size: Option<nat>) -> bool {
    headers_from(s, 0, None) == Ok::<Option<(int, Option<nat>)>, FrameError>(Some((pos, size)))
}

/// `r` is what reading the header block of `s` gives.
pub open spec fn headers_agree(s: Seq<u8>, r: Result<Option<(usize, usize)>, FrameError>) -> bool {
    let h = headers_from(s, 0, None);
    match r {
        Ok(Some((p, n))) => headers_end_at(s, p as int, Some(n as nat)) && p <= s.len(),
        Ok(None) => h == Ok::<Option<(int, Option<nat>)>, FrameError>(None),
        Err(FrameError::MissingContentLength) => h matches Ok(Some((_, None))),
        Err(e) => h == Err::<Option<(int, Option<nat>)>, FrameError>(e),
    }
}

/// Whether a line read from the stream (up to and including its `\n`, or
/// to the end of the stream) is the last one a header block can hold: the
/// blank line, or one that does not end in `\r\n`.
pub fn ends_header_block(line: &[u8]) -> (r: bool)
    ensures
        r == (line@.len() < 2 || line@[line@.len() - 2] != 13u8 || line@[line@.len() - 1] != 10u8
            || line@.len() == 2),
{
    let n = line.len();
    n < 2 || line[n - 2] != 13u8 || line[n - 1] != 10u8 || n == 2
}

/// Reads the header block at the start of `inp`: where the payload starts
/// and the `Content-Length` that it declares, `None` where the input ends
/// before the blank line that closes the block, or the error.
pub fn read_headers(inp: &[u8]) -> (r: Result<Option<(usize, usize)>, FrameError>)
    ensures
        headers_agree(inp@, r),
{
    let mut pos: usize = 0;
    let mut size: Option<usize> = None;
    loop
        invariant_except_break
            headers_from(inp@, pos as int, size_view(size)) == headers_from(inp@, 0, None),
        invariant
            pos <= inp.len(),
        ensures
            headers_end_at(inp@, pos as int, size_view(size)),
        decreases inp.len() - pos,
    {
        if pos == inp.len() {
            return Ok(None);
        }
        let e = find_newline(inp, pos);
        if e == inp.len() || e == pos || inp[e - 1] != 13u8 {
            return Err(FrameError::MalformedHeader);
        }
        let line = slice_subrange(inp, pos, e - 1);
        if line.len() == 0 {
            pos = e + 1;
            break;
        }
        let k = find_separator(line);
        if k == line.len() {
            return Err(FrameError::MalformedHeader);
        }
        let name = slice_subrange(line, 0, k);
        if is_content_length(name) {
            let value = slice_subrange(line, k + 2, line.len());
            match parse_usize_bytes(value) {
                Some(n) => {
                    size = Some(n);
                },
                None => {
                    return Err(FrameError::BadContentLength);
                },
            }
        }
        pos = e + 1;
    }
    let n: usize = match size {
        Some(n) => n,
        None => {
            return Err(FrameError::MissingContentLength);
        },
    };
    Ok(Some((pos, n)))
}

/// Reads one frame from the start of `inp`: header lines ending in `\r\n`
/// up to a blank line, then as many payload bytes as `Content-Length` says,
/// which must be UTF-8 text. An input that ends before a header line gives
/// `Ok(None)`. Bytes after the payload are left alone.
pub fn read_msg_text(inp: &[u8]) -> (r: Result<Option<Frame>, FrameError>)
    ensures
        frame_view(r) == text_frame_of(inp@),
        r matches Ok(Some(f)) ==> f.consumed <= inp.len(),
{
    let (pos, n) = match read_headers(inp) {
        Ok(Some(h)) => h,
        Ok(None) => {
            return Ok(None);
        },
        Err(e) => {
            return Err(e);
        },
    };
    if n > inp.len() - pos {
        return Err(FrameError::UnexpectedEof);
    }
    let payload = slice_to_vec(slice_subrange(inp, pos, pos + n));
    match string_from_utf8(payload) {
        Some(text) => Ok(Some(Frame { text, consumed: pos + n })),
        None => Err(FrameError::InvalidUtf8),
    }
}


/// The bytes `Content-Length: ` that open a frame.
pub open spec fn header_prefix() -> Seq<u8> {
    content_length_key() + seq![58u8, 32u8]
}

/// The frame that carries `payload`: `Content-Length: <N>\r\n\r\n` followed
/// by the `N` bytes of the payload.
pub open spec fn frame_bytes(payload: Seq<u8>) -> Seq<u8> {
    header_prefix() + decimal_digits(payload.len()) + seq![13u8, 10u8, 13u8, 10u8] + payload
}

fn push_decimal(out: &mut Vec<u8>, n: usize)
    ensures
        final(out)@ == old(out)@ + decimal_digits(n as nat),
    decreases n,
{
    if n >= 10 {
        push_decimal(out, n / 10);
    }
    out.push((48 + n % 10) as u8);
    assert(final(out)@ == old(out)@ + decimal_digits(n as nat));
}

fn push_all(out: &mut Vec<u8>, b: &[u8])
    ensures
        final(out)@ == old(out)@ + b@,
{
    let mut i: usize = 0;
    while i < b.len()
        invariant
            i <= b.len(),
            out@ == old(out)@ + b@.take(i as int),
        decreases b.len() - i,
    {
        out.push(b[i]);
        assert(b@.take(i + 1) == b@.take(i as int).push(b@[i as int]));
        i = i + 1;
    }
    assert(b@.take(b.len() as int) == b@);
}

/// The frame that carries the text `msg`, ready to be written out.
pub fn write_msg_text(msg: &str) -> (r: Vec<u8>)
    ensures
        r@ == frame_bytes(msg.spec_bytes()),
{
    let b = msg.as_bytes();
    let prefix: [u8; 16] = [67u8, 111, 110, 116, 101, 110, 116, 45, 76, 101, 110, 103, 116, 104, 58, 32];
    assert(prefix@ == header_prefix());
    let mut out: Vec<u8> = Vec::new();
    push_all(&mut out, &prefix);
    push_decimal(&mut out, b.len());
    let end: [u8; 4] = [13u8, 10, 13, 10];
    push_all(&mut out, &end);
    push_all(&mut out, b);
    assert(end@ == seq![13u8, 10u8, 13u8, 10u8]);
    out
}


pub(crate) proof fn lemma_decimal_digits(n: nat)
    ensures
        decimal_digits(n).len() >= 1,
        all_digits(decimal_digits(n)),
        digits_value(decimal_digits(n)) == n,
    decreases n,
{
    let d = decimal_digits(n);
    if n >= 10 {
        lemma_decimal_digits(n / 10);
        let h = decimal_digits(n / 10);
        assert(d.drop_last() == h);
        assert(d.last() == (48 + n % 10) as u8);
        assert(digits_value(d) == digits_value(h) * 10 + n % 10);
        assert((n / 10) * 10 + n % 10 == n);
        assert forall|i: int| 0 <= i < d.len() implies is_digit(#[trigger] d[i]) by {
            if i < h.len() {
                assert(d[i] == h[i]);
            }
        }
    } else {
        assert(d.drop_last() =~= Seq::<u8>::empty());
        assert(digits_value(d.drop_last()) == 0);
    }
}

proof fn lemma_newline_at(s: Seq<u8>, i: int, j: int)
    requires
        0 <= i <= j < s.len(),
        s[j] == 10u8,
        forall|k: int| i <= k < j ==> s[k] != 10u8,
    ensures
        newline_from(s, i) == j,
    decreases j - i,
{
    if i < j {
        lemma_newline_at(s, i + 1, j);
    }
}

proof fn lemma_separator_at(c: Seq<u8>, i: int, j: int)
    requires
        0 <= i <= j,
        j + 1 < c.len(),
        c[j] == 58u8 && c[j + 1] == 32u8,
        forall|k: int| i <= k < j ==> c[k] != 58u8,
    ensures
        separator_from(c, i) == j,
    decreases j - i,
{
    if i < j {
        lemma_separator_at(c, i + 1, j);
    }
}

/// Reading back a frame that was written for `payload` gives `payload`, and
/// takes exactly the frame's bytes, whatever follows it in the stream.
pub proof fn lemma_frame_round_trip(payload: Seq<u8>, rest: Seq<u8>)
    requires
        payload.len() <= usize::MAX,
    ensures
        frame_of(frame_bytes(payload) + rest) == Ok::<Option<(Seq<u8>, int)>, FrameError>(
            Some((payload, frame_bytes(payload).len() as int)),
        ),
{
    let n = payload.len();
    let digits = decimal_digits(n);
    lemma_decimal_digits(n);
    let f = frame_bytes(payload);
    let s = f + rest;
    let dl = digits.len() as int;
    let h = 16 + dl;
    assert(f.len() == h + 4 + n);
    assert forall|k: int| 0 <= k < h implies s[k] != 10u8 && s[k] != 13u8 by {
        if k < 16 {
            assert(s[k] == header_prefix()[k]);
        } else {
            assert(s[k] == digits[k - 16]);
            assert(is_digit(digits[k - 16]));
        }
    }
    assert(s[h] == 13u8);
    assert(s[h + 1] == 10u8);
    assert(s[h + 2] == 13u8);
    assert(s[h + 3] == 10u8);
    lemma_newline_at(s, 0, h + 1);
    let line = s.subrange(0, h);
    assert forall|k: int| 0 <= k < 14 implies line[k] != 58u8 by {
        assert(line[k] == content_length_key()[k]);
    }
    assert(line[14] == 58u8 && line[15] == 32u8);
    lemma_separator_at(line, 0, 14);
    assert(line.subrange(0, 14) =~= content_length_key());
    let value = line.subrange(16, line.len() as int);
    assert(value =~= digits);
    assert(is_digit(digits[0]));
    assert(without_plus(value) == value);
    assert(parse_usize(value) == Some(n));
    lemma_newline_at(s, h + 2, h + 3);
    assert(s.subrange(h + 2, h + 2) =~= Seq::<u8>::empty());
    assert(headers_from(s, h + 2, Some(n)) == Ok::<Option<(int, Option<nat>)>, FrameError>(
        Some((h + 4, Some(n))),
    ));
    assert(headers_from(s, 0, None) == Ok::<Option<(int, Option<nat>)>, FrameError>(
        Some((h + 4, Some(n))),
    ));
    assert(s.subrange(h + 4, h + 4 + n) =~= payload);
}


/// Reading a frame fails for good where its first header line does not end
/// in `\r\n`, and where the header block closes without a `Content-Length`;
/// an input with no bytes at all is a clean end of the stream.
pub proof fn lemma_read_failures(s: Seq<u8>, pos: int)
    ensures
        s.len() > 0 && (newline_from(s, 0) >= s.len() || newline_from(s, 0) == 0 || s[newline_from(s, 0) - 1]
            != 13u8) ==> text_frame_of(s) == Err::<Option<(Seq<char>, int)>, FrameError>(
            FrameError::MalformedHeader,
        ),
        headers_end_at(s, pos, None) ==> text_frame_of(s) == Err::<
            Option<(Seq<char>, int)>,
            FrameError,
        >(FrameError::MissingContentLength),
        s.len() == 0 ==> text_frame_of(s) == Ok::<Option<(Seq<char>, int)>, FrameError>(None),
{
}

proof fn lemma_newline_facts(s: Seq<u8>, i: int)
    requires
        0 <= i <= s.len(),
    ensures
        i <= newline_from(s, i) <= s.len(),
        newline_from(s, i) < s.len() ==> s[newline_from(s, i)] == 10u8,
        forall|k: int| i <= k < newline_from(s, i) ==> s[k] != 10u8,
    decreases s.len() - i,
{
    if i < s.len() && s[i] != 10u8 {
        lemma_newline_facts(s, i + 1);
    }
}

proof fn lemma_headers_end_after(s: Seq<u8>, pos: int, size: Option<nat>)
    requires
        0 <= pos,
        headers_from(s, pos, size) is Ok,
        headers_from(s, pos, size)->Ok_0 is Some,
    ensures
        pos < headers_from(s, pos, size)->Ok_0->Some_0.0 <= s.len(),
    decreases s.len() - pos,
{
    if pos < s.len() {
        let e = newline_from(s, pos);
        if !(e >= s.len() || e <= pos || s[e - 1] != 13u8) {
            let line = s.subrange(pos, e - 1);
            if line.len() != 0 {
                let k = separator_from(line, 0);
                if k < line.len() {
                    if eq_ignore_ascii_case(line.subrange(0, k), content_length_key()) {
                        if let Some(n) = parse_usize(line.subrange(k + 2, line.len() as int)) {
                            lemma_headers_end_after(s, e + 1, Some(n));
                        }
                    } else {
                        lemma_headers_end_after(s, e + 1, size);
                    }
                }
            }
        }
    }
}

proof fn lemma_headers_prefix(s: Seq<u8>, t: Seq<u8>, pos: int, size: Option<nat>)
    requires
        0 <= pos,
        headers_from(s, pos, size) is Ok,
        headers_from(s, pos, size)->Ok_0 is Some,
        headers_from(s, pos, size)->Ok_0->Some_0.0 <= t.len(),
        forall|i: int| 0 <= i < headers_from(s, pos, size)->Ok_0->Some_0.0 ==> s[i] == t[i],
    ensures
        headers_from(t, pos, size) == headers_from(s, pos, size),
    decreases s.len() - pos,
{
    lemma_headers_end_after(s, pos, size);
    let p = headers_from(s, pos, size)->Ok_0->Some_0.0;
    let e = newline_from(s, pos);
    lemma_newline_facts(s, pos);
    assert(e < p) by {
        if e + 1 > p {
            let line = s.subrange(pos, e - 1);
            if line.len() != 0 {
                let k = separator_from(line, 0);
                if eq_ignore_ascii_case(line.subrange(0, k), content_length_key()) {
                    let n = parse_usize(line.subrange(k + 2, line.len() as int))->Some_0;
                    lemma_headers_end_after(s, e + 1, Some(n));
                } else {
                    lemma_headers_end_after(s, e + 1, size);
                }
            }
        }
    }
    lemma_newline_at(t, pos, e);
    let line = s.subrange(pos, e - 1);
    assert(t.subrange(pos, e - 1) =~= line);
    if line.len() != 0 {
        let k = separator_from(line, 0);
        if eq_ignore_ascii_case(line.subrange(0, k), content_length_key()) {
            let n = parse_usize(line.subrange(k + 2, line.len() as int))->Some_0;
            lemma_headers_prefix(s, t, e + 1, Some(n));
        } else {
            lemma_headers_prefix(s, t, e + 1, size);
        }
    }
}

/// A frame reads the same whatever follows it: where `s` starts with a
/// frame that takes `n` bytes, the first `n` bytes of `s` followed by any
/// other bytes give the same frame, and the read takes exactly those `n`.
pub proof fn lemma_frame_ignores_rest(s: Seq<u8>, rest: Seq<u8>)
    requires
        frame_of(s) is Ok,
        frame_of(s)->Ok_0 is Some,
    ensures
        frame_of(s.take(frame_of(s)->Ok_0->Some_0.1) + rest) == frame_of(s),
        text_frame_of(s.take(frame_of(s)->Ok_0->Some_0.1) + rest) == text_frame_of(s),
{
    let n_end = frame_of(s)->Ok_0->Some_0.1;
    let t = s.take(n_end) + rest;
    let p = headers_from(s, 0, None)->Ok_0->Some_0.0;
    lemma_headers_end_after(s, 0, None);
    assert forall|i: int| 0 <= i < p implies s[i] == t[i] by {}
    lemma_headers_prefix(s, t, 0, None);
    assert(t.subrange(p, n_end) =~= s.subrange(p, n_end));
}

/// Text written as a frame reads back as the same text, and the read takes
/// exactly the frame's bytes, whatever follows it.
pub proof fn lemma_text_round_trip(text: Seq<char>, rest: Seq<u8>)
    requires
        encode_utf8(text).len() <= usize::MAX,
    ensures
        text_frame_of(frame_bytes(encode_utf8(text)) + rest) == Ok::<
            Option<(Seq<char>, int)>,
            FrameError,
        >(Some((text, frame_bytes(encode_utf8(text)).len() as int))),
{
    lemma_frame_round_trip(encode_utf8(text), rest);
    encode_utf8_valid_utf8(text);
    encode_utf8_decode_utf8(text);
}

/// The payload that goes out for a message: what the transcoder gave where
/// it succeeded, else the message's JSON text. A failed transcoding never
/// stops the write.
pub fn choose_payload(encoded: Result<String, String>, json_text: String) -> (r: String)
    ensures
        match encoded {
            Ok(b) => r == b,
            Err(_) => r == json_text,
        },
{
    match encoded {
        Ok(b) => b,
        Err(_) => json_text,
    }
}

/// The frame that goes out for a message, from the transcoder's outcome and
/// the message's JSON text.
pub fn outgoing_frame(encoded: Result<String, String>, json_text: String) -> (r: Vec<u8>)
    ensures
        match encoded {
            Ok(b) => r@ == frame_bytes(encode_utf8(b@)),
            Err(_) => r@ == frame_bytes(encode_utf8(json_text@)),
        },
{
    let payload = choose_payload(encoded, json_text);
    write_msg_text(payload.as_str())
}

} // verus!
