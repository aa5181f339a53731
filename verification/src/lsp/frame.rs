//! Messages one behind the other in a stream of bytes.

use vstd::prelude::*;
#[allow(unused_imports)]
use vstd::utf8::{
    decode_utf8, encode_utf8, encode_utf8_decode_utf8, encode_utf8_valid_utf8, is_ascii_chars,
    is_ascii_chars_encode_utf8, valid_utf8,
};

#[allow(unused_imports)]
use crate::lsp::{header, header_line, law_header_read_back, Fault, HeaderLine};
use crate::lsp::{message_header, Header, LspError};
#[allow(unused_imports)]
use crate::text::{decimal, is_digit, lemma_decimal};
use crate::text::text_from;

verus! {

/// A message as it is sent: a header that tells its length, and its bytes.
pub open spec fn framed(body: Seq<u8>) -> Seq<u8> {
    encode_utf8(header(body.len())) + body
}

/// A message as it is sent.
pub fn frame(body: &Vec<u8>) -> (r: Vec<u8>)
    ensures
        r@ == framed(body@),
{
    let header = message_header(body.len());
    let mut out: Vec<u8> = Vec::new();
    out.extend_from_slice(header.as_str().as_bytes());
    out.extend_from_slice(body.as_slice());
    assert(out@ =~= framed(body@));
    out
}

/// What the bytes that have come from the server hold first.
#[derive(Debug, PartialEq, Eq)]
pub enum Taken {
    /// No whole message yet.
    More,
    /// No message any more.
    Closed,
    /// A message, which takes up this many bytes with its header.
    Message { body: Vec<u8>, used: usize },
    /// No message, for this reason.
    Fault(LspError),
}

/// What the bytes that have come from the server hold first.
pub enum Taking {
    More,
    Closed,
    Message { body: Seq<u8>, used: int },
    Fault(Fault),
}

impl View for Taken {
    type V = Taking;

    open spec fn view(&self) -> Taking {
        match self {
            Taken::More => Taking::More,
            Taken::Closed => Taking::Closed,
            Taken::Message { body, used } => Taking::Message { body: body@, used: *used as int },
            Taken::Fault(error) => Taking::Fault(error@),
        }
    }
}

/// The place behind the line that begins at `at`: behind its line feed, or at the end
/// of the bytes where it has none.
pub open spec fn line_end(bytes: Seq<u8>, at: int) -> int
    decreases bytes.len() - at,
{
    if at >= bytes.len() {
        bytes.len() as int
    } else if bytes[at] == 10u8 {
        at + 1
    } else {
        line_end(bytes, at + 1)
    }
}

/// A line goes on for at least one byte.
pub proof fn lemma_line_end(bytes: Seq<u8>, at: int)
    requires
        at < bytes.len(),
    ensures
        at < line_end(bytes, at) <= bytes.len(),
    decreases bytes.len() - at,
{
    reveal_with_fuel(line_end, 2);
    if bytes[at] != 10u8 && at + 1 < bytes.len() {
        lemma_line_end(bytes, at + 1);
    }
}

/// What bytes hold from `at` on, where a header has told the length `len` so far.
/// `ended` tells that no more bytes come.
pub open spec fn taken_from(bytes: Seq<u8>, at: int, len: Option<usize>, ended: bool) -> Taking
    decreases bytes.len() - at,
{
    let end = line_end(bytes, at);
    if at >= bytes.len() {
        if ended {
            Taking::Closed
        } else {
            Taking::More
        }
    } else if bytes[end - 1] != 10u8 && !ended {
        Taking::More
    } else if !valid_utf8(bytes.subrange(at, end)) {
        Taking::Fault(Fault::NotText)
    } else {
        proof {
            lemma_line_end(bytes, at);
        }
        match header_line(decode_utf8(bytes.subrange(at, end))) {
            HeaderLine::Length(n) => taken_from(bytes, end, Some(n as usize), ended),
            HeaderLine::Other => taken_from(bytes, end, len, ended),
            HeaderLine::Invalid(text) => Taking::Fault(Fault::InvalidLength(text)),
            HeaderLine::End => match len {
                None => Taking::Fault(Fault::MissingLength),
                Some(n) => if end + n <= bytes.len() {
                    Taking::Message { body: bytes.subrange(end, end + n), used: end + n }
                } else if ended {
                    Taking::Fault(Fault::CutOff)
                } else {
                    Taking::More
                },
            },
        }
    }
}

/// What bytes hold first.
pub open spec fn taken(bytes: Seq<u8>, ended: bool) -> Taking {
    taken_from(bytes, 0, None, ended)
}

fn end_of_line(bytes: &Vec<u8>, at: usize) -> (r: usize)
    requires
        at < bytes@.len(),
    ensures
        r == line_end(bytes@, at as int),
        at < r <= bytes@.len(),
{
    let mut i: usize = at;
    while i < bytes.len() && bytes[i] != 10u8
        invariant
            at <= i <= bytes@.len(),
            line_end(bytes@, at as int) == line_end(bytes@, i as int),
        decreases bytes@.len() - i,
    {
        i = i + 1;
    }
    proof {
        lemma_line_end(bytes@, at as int);
    }
    if i < bytes.len() {
        i + 1
    } else {
        i
    }
}

fn copy_bytes(bytes: &Vec<u8>, from: usize, to: usize) -> (r: Vec<u8>)
    requires
        from <= to <= bytes@.len(),
    ensures
        r@ == bytes@.subrange(from as int, to as int),
{
    let mut out: Vec<u8> = Vec::new();
    let mut i: usize = from;
    while i < to
        invariant
            from <= i <= to <= bytes@.len(),
            out@ == bytes@.subrange(from as int, i as int),
        decreases to - i,
    {
        out.push(bytes[i]);
        i = i + 1;
        assert(out@ =~= bytes@.subrange(from as int, i as int));
    }
    out
}

/// Takes the first message of the bytes that have come from the server. `ended` tells
/// that no more bytes come.
pub fn read_message(bytes: &Vec<u8>, ended: bool) -> (r: Taken)
    ensures
        r@ == taken(bytes@, ended),
{
    let mut header = Header::new();
    let mut at: usize = 0;
    while at < bytes.len()
        invariant
            at <= bytes@.len(),
            taken(bytes@, ended) == taken_from(bytes@, at as int, header.content_len, ended),
        decreases bytes@.len() - at,
    {
        let end = end_of_line(bytes, at);
        if bytes[end - 1] != 10u8 && !ended {
            return Taken::More;
        }
        let Some(line) = text_from(copy_bytes(bytes, at, end)) else {
            return Taken::Fault(LspError::NotText);
        };
        match header.read_line(line.as_str()) {
            Err(error) => {
                return Taken::Fault(error);
            },
            Ok(None) => {},
            Ok(Some(len)) => {
                return if len <= bytes.len() - end {
                    Taken::Message { body: copy_bytes(bytes, end, end + len), used: end + len }
                } else if ended {
                    Taken::Fault(LspError::CutOff)
                } else {
                    Taken::More
                };
            },
        }
        at = end;
    }
    if ended {
        Taken::Closed
    } else {
        Taken::More
    }
}

/// A line of characters that take one byte each ends where its line feed is.
proof fn lemma_first_line(bytes: Seq<u8>, at: int, end: int)
    requires
        0 <= at < end <= bytes.len(),
        bytes[end - 1] == 10u8,
        forall|i: int| at <= i < end - 1 ==> bytes[i] != 10u8,
    ensures
        line_end(bytes, at) == end,
    decreases end - at,
{
    if at < end - 1 {
        lemma_first_line(bytes, at + 1, end);
    }
}

/// A framed message at the begin of some bytes is taken whole, whatever its bytes are
/// and whatever follows it.
pub proof fn law_frame_is_taken(body: Seq<u8>, rest: Seq<u8>, ended: bool)
    requires
        body.len() <= usize::MAX,
    ensures
        taken(framed(body) + rest, ended) == (Taking::Message {
            body,
            used: framed(body).len() as int,
        }),
{
    reveal_strlit("Content-Length: ");
    reveal_strlit("\r\n\r\n");
    reveal_strlit("\r\n");
    let n = body.len();
    let text = header(n);
    let first = "Content-Length: "@ + decimal(n) + "\r\n"@;
    let second = "\r\n"@;
    law_header_read_back(n);
    lemma_decimal(n);
    assert(text =~= first + second);
    assert(is_ascii_chars(text)) by {
        assert forall|i: int| 0 <= i < text.len() implies '\0' <= #[trigger] text[i]
            <= '\u{7f}' by {
            if 16 <= i < 16 + decimal(n).len() {
                assert(text[i] == decimal(n)[i - 16]);
                assert(is_digit(decimal(n)[i - 16]));
            }
        }
    }
    assert(is_ascii_chars(first)) by {
        assert forall|i: int| 0 <= i < first.len() implies '\0' <= #[trigger] first[i]
            <= '\u{7f}' by {
            assert(first[i] == text[i]);
        }
    }
    assert(is_ascii_chars(second));
    is_ascii_chars_encode_utf8(text);
    is_ascii_chars_encode_utf8(first);
    is_ascii_chars_encode_utf8(second);
    encode_utf8_valid_utf8(first);
    encode_utf8_valid_utf8(second);
    encode_utf8_decode_utf8(first);
    encode_utf8_decode_utf8(second);
    let bytes = framed(body) + rest;
    let a = first.len() as int;
    let b = text.len() as int;
    assert forall|i: int| 0 <= i < b implies #[trigger] bytes[i] == text[i] as u8 by {
        assert(bytes[i] == encode_utf8(text)[i]);
    }
    assert forall|i: int| 0 <= i < a - 1 implies bytes[i] != 10u8 by {
        assert(bytes[i] == text[i] as u8);
        if 16 <= i < 16 + decimal(n).len() {
            assert(text[i] == decimal(n)[i - 16]);
            assert(is_digit(decimal(n)[i - 16]));
        }
    }
    assert(bytes[a - 1] == text[a - 1] as u8);
    assert(bytes[a] == text[a] as u8);
    assert(bytes[b - 1] == text[b - 1] as u8);
    lemma_first_line(bytes, 0, a);
    lemma_first_line(bytes, a, b);
    assert(bytes.subrange(0, a) =~= encode_utf8(first)) by {
        assert forall|i: int| 0 <= i < a implies bytes.subrange(0, a)[i] == encode_utf8(
            first,
        )[i] by {
            assert(bytes[i] == text[i] as u8 && first[i] == text[i]);
        }
    }
    assert(bytes.subrange(a, b) =~= encode_utf8(second)) by {
        assert forall|i: int| 0 <= i < b - a implies bytes.subrange(a, b)[i] == encode_utf8(
            second,
        )[i] by {
            assert(bytes[a + i] == text[a + i] as u8 && second[i] == text[a + i]);
        }
    }
    assert(taken_from(bytes, a, Some(n as usize), ended) == (Taking::Message {
        body: bytes.subrange(b, b + n),
        used: b + n,
    }));
    assert(bytes.subrange(b, b + n) =~= body);
}

/// Two messages one behind the other are read back in turn, and then there is no more.
pub proof fn law_frames_read_back(a: Seq<u8>, b: Seq<u8>)
    requires
        a.len() <= usize::MAX,
        b.len() <= usize::MAX,
    ensures
        ({
            let stream = framed(a) + framed(b);
            let behind = stream.skip(framed(a).len() as int);
            let last = behind.skip(framed(b).len() as int);
            &&& taken(stream, true) == (Taking::Message { body: a, used: framed(a).len() as int })
            &&& taken(behind, true) == (Taking::Message { body: b, used: framed(b).len() as int })
            &&& taken(last, true) == Taking::Closed
        }),
{
    let stream = framed(a) + framed(b);
    law_frame_is_taken(a, framed(b), true);
    law_frame_is_taken(b, Seq::empty(), true);
    assert(stream.skip(framed(a).len() as int) =~= framed(b) + Seq::<u8>::empty());
}

} // verus!
