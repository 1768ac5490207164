//! Assembling a response from what a finished transfer left behind: the
//! status code, the raw header block and the raw body.

use crate::http::{HttpResponse, HttpResponseView};
use vstd::prelude::*;
use vstd::string::StringSliceAdditionalSpecFns;
use vstd::utf8::*;

verus! {

/// Why the bytes of a finished transfer are not a response.
#[derive(Clone, Debug, PartialEq, Eq)]
pub enum DecodeError {
    /// The header block is not UTF-8 text; the description of the defect.
    Headers(String),
    /// The body is not UTF-8 text; the description of the defect.
    Body(String),
}

impl DecodeError {
    /// The description of the defect.
    pub fn message(&self) -> (text: String)
        ensures
            text@ == match self {
                DecodeError::Headers(m) => m@,
                DecodeError::Body(m) => m@,
            },
    {
        match self {
            DecodeError::Headers(m) => m.clone(),
            DecodeError::Body(m) => m.clone(),
        }
    }
}

/// A carriage return directly followed by a line feed stands at `i`.
pub open spec fn break_at(bytes: Seq<u8>, i: int) -> bool {
    0 <= i && i + 1 < bytes.len() && bytes[i] == 13u8 && bytes[i + 1] == 10u8
}

/// The position of the first line break at or after `from`, or the length of
/// `bytes` where none follows.
pub open spec fn next_break(bytes: Seq<u8>, from: int) -> int
    decreases bytes.len() - from,
{
    if from < 0 || from + 1 >= bytes.len() {
        bytes.len() as int
    } else if break_at(bytes, from) {
        from
    } else {
        next_break(bytes, from + 1)
    }
}

/// The pieces between the line breaks of `bytes`, from left to right. A
/// break at either end, or two in a row, leaves an empty piece.
pub open spec fn segments(bytes: Seq<u8>) -> Seq<Seq<u8>>
    decreases bytes.len(),
{
    let stop = next_break(bytes, 0);
    if 0 <= stop && stop + 2 <= bytes.len() {
        seq![bytes.subrange(0, stop)] + segments(bytes.subrange(stop + 2, bytes.len() as int))
    } else {
        seq![bytes]
    }
}

/// The header lines that a raw header block holds: its pieces between line
/// breaks, without the empty ones, each read as UTF-8 text.
pub open spec fn header_lines(bytes: Seq<u8>) -> Seq<Seq<char>> {
    segments(bytes).filter(|piece: Seq<u8>| piece.len() > 0).map_values(
        |piece: Seq<u8>| decode_utf8(piece),
    )
}

/// What `next_break` finds is the leftmost line break that is not before
/// `from`.
pub proof fn lemma_next_break(bytes: Seq<u8>, from: int)
    requires
        0 <= from,
    ensures
        from <= next_break(bytes, from) || next_break(bytes, from) == bytes.len(),
        next_break(bytes, from) < bytes.len() ==> break_at(bytes, next_break(bytes, from)),
        forall|i: int| from <= i < next_break(bytes, from) ==> !break_at(bytes, i),
    decreases bytes.len() - from,
{
    if from + 1 >= bytes.len() {
    } else if break_at(bytes, from) {
    } else {
        lemma_next_break(bytes, from + 1);
    }
}

/// The pieces put together again, with a line break between neighbours.
pub open spec fn joined(pieces: Seq<Seq<u8>>) -> Seq<u8>
    decreases pieces.len(),
{
    if pieces.len() == 0 {
        Seq::empty()
    } else if pieces.len() == 1 {
        pieces[0]
    } else {
        pieces[0] + seq![13u8, 10u8] + joined(pieces.drop_first())
    }
}

/// Cutting a block at its line breaks loses nothing and leaves no break
/// behind: the pieces, joined by line breaks, are the block, and no piece
/// holds a line break.
pub proof fn lemma_segments_rejoin(bytes: Seq<u8>)
    ensures
        segments(bytes).len() >= 1,
        joined(segments(bytes)) == bytes,
        forall|k: int, i: int|
            0 <= k < segments(bytes).len() ==> !(#[trigger] break_at(segments(bytes)[k], i)),
    decreases bytes.len(),
{
    lemma_next_break(bytes, 0);
    let stop = next_break(bytes, 0);
    if 0 <= stop && stop + 2 <= bytes.len() {
        let head = bytes.subrange(0, stop);
        let tail = bytes.subrange(stop + 2, bytes.len() as int);
        lemma_segments_rejoin(tail);
        let pieces = seq![head] + segments(tail);
        assert(pieces.drop_first() =~= segments(tail));
        assert(head + seq![13u8, 10u8] + tail =~= bytes);
        assert forall|k: int, i: int| 0 <= k < pieces.len() implies !(#[trigger] break_at(
            pieces[k],
            i,
        )) by {
            if k == 0 {
                if break_at(head, i) {
                    assert(break_at(bytes, i));
                }
            } else {
                assert(pieces[k] == segments(tail)[k - 1]);
            }
        }
    } else {
        assert forall|i: int| !(#[trigger] break_at(bytes, i)) by {
            if break_at(bytes, i) {
                assert(0 <= i < stop);
            }
        }
    }
}

/// The header lines of a block, by its first line break: without a break the
/// block is one line, or none if it is empty; with one, the piece before it
/// is the first line unless it is empty, and the lines of what follows the
/// break come after.
pub proof fn lemma_header_lines_unfold(bytes: Seq<u8>)
    ensures
        header_lines(bytes) == ({
            let stop = next_break(bytes, 0);
            if 0 <= stop && stop + 2 <= bytes.len() {
                let rest = header_lines(bytes.subrange(stop + 2, bytes.len() as int));
                if stop > 0 {
                    seq![decode_utf8(bytes.subrange(0, stop))] + rest
                } else {
                    rest
                }
            } else if bytes.len() > 0 {
                seq![decode_utf8(bytes)]
            } else {
                Seq::<Seq<char>>::empty()
            }
        }),
{
    let keep = |piece: Seq<u8>| piece.len() > 0;
    let read = |piece: Seq<u8>| decode_utf8(piece);
    let stop = next_break(bytes, 0);
    reveal_with_fuel(Seq::filter, 2);
    if 0 <= stop && stop + 2 <= bytes.len() {
        let head = bytes.subrange(0, stop);
        let tail = bytes.subrange(stop + 2, bytes.len() as int);
        assert(segments(bytes) == seq![head] + segments(tail));
        Seq::filter_distributes_over_add(seq![head], segments(tail), keep);
        assert(seq![head].drop_last() =~= Seq::<Seq<u8>>::empty());
        if stop > 0 {
            assert(seq![head].filter(keep) =~= seq![head]);
            assert((seq![head] + segments(tail).filter(keep)).map_values(read) =~= seq![
                decode_utf8(head),
            ] + segments(tail).filter(keep).map_values(read));
        } else {
            assert(seq![head].filter(keep) =~= Seq::<Seq<u8>>::empty());
            assert(Seq::<Seq<u8>>::empty() + segments(tail).filter(keep) =~= segments(
                tail,
            ).filter(keep));
        }
    } else {
        assert(segments(bytes) == seq![bytes]);
        assert(seq![bytes].drop_last() =~= Seq::<Seq<u8>>::empty());
        if bytes.len() > 0 {
            assert(seq![bytes].filter(keep) =~= seq![bytes]);
            assert(seq![bytes].map_values(read) =~= seq![decode_utf8(bytes)]);
        } else {
            assert(seq![bytes].filter(keep) =~= Seq::<Seq<u8>>::empty());
            assert(Seq::<Seq<u8>>::empty().map_values(read) =~= Seq::<Seq<char>>::empty());
        }
    }
}

/// Finds the first line break of `bytes`.
fn first_break(bytes: &[u8]) -> (stop: usize)
    ensures
        stop == next_break(bytes@, 0),
{
    let len: usize = bytes.len();
    if len < 2 {
        return len;
    }
    let mut i: usize = 0;
    while i < len - 1
        invariant
            len == bytes@.len(),
            2 <= len,
            i <= len - 1,
            next_break(bytes@, 0) == next_break(bytes@, i as int),
        decreases len - i,
    {
        if bytes[i] == 13u8 && bytes[i + 1] == 10u8 {
            return i;
        }
        i = i + 1;
    }
    len
}

/// In UTF-8 text, a line break is a pair of characters of its own: the text
/// can be cut before it and after it.
proof fn lemma_break_is_boundary(bytes: Seq<u8>, stop: int)
    requires
        valid_utf8(bytes),
        break_at(bytes, stop),
    ensures
        is_char_boundary(bytes, stop),
        valid_utf8(bytes.subrange(stop, bytes.len() as int)),
        is_char_boundary(bytes.subrange(stop, bytes.len() as int), 2),
{
    is_char_boundary_iff_not_is_continuation_byte(bytes, stop);
    valid_utf8_split(bytes, stop);
    let tail = bytes.subrange(stop, bytes.len() as int);
    assert(tail[0] == 13u8 && tail[1] == 10u8);
    assert(is_leading_byte_width_1(tail[0]));
    let after_cr = pop_first_scalar(tail);
    assert(after_cr =~= tail.subrange(1, tail.len() as int));
    assert(valid_utf8(after_cr));
    assert(is_leading_byte_width_1(after_cr[0]));
    let after_lf = pop_first_scalar(after_cr);
    assert(valid_utf8(after_lf));
    assert(is_char_boundary(after_lf, 0));
    assert(is_char_boundary(after_cr, 1));
    assert(is_char_boundary(tail, 2));
}

/// UTF-8 text that is not empty holds at least one character.
proof fn lemma_text_not_empty(bytes: Seq<u8>)
    requires
        valid_utf8(bytes),
        bytes.len() > 0,
    ensures
        decode_utf8(bytes).len() > 0,
{
}

/// No header line of a block of UTF-8 text is empty.
pub proof fn lemma_header_lines_not_empty(bytes: Seq<u8>)
    requires
        valid_utf8(bytes),
    ensures
        forall|i: int|
            0 <= i < header_lines(bytes).len() ==> (#[trigger] header_lines(bytes)[i]).len() > 0,
    decreases bytes.len(),
{
    lemma_header_lines_unfold(bytes);
    lemma_next_break(bytes, 0);
    let stop = next_break(bytes, 0);
    if 0 <= stop && stop + 2 <= bytes.len() {
        let tail = bytes.subrange(stop, bytes.len() as int);
        let rest = bytes.subrange(stop + 2, bytes.len() as int);
        lemma_break_is_boundary(bytes, stop);
        valid_utf8_split(bytes, stop);
        valid_utf8_split(tail, 2);
        assert(tail.subrange(2, tail.len() as int) =~= rest);
        lemma_header_lines_not_empty(rest);
        if stop > 0 {
            lemma_text_not_empty(bytes.subrange(0, stop));
        }
    } else if bytes.len() > 0 {
        lemma_text_not_empty(bytes);
    }
}

/// Cuts a header block into its lines.
pub fn split_header_lines(block: &str) -> (lines: Vec<String>)
    ensures
        lines.deep_view() == header_lines(block.spec_bytes()),
        forall|i: int| 0 <= i < lines@.len() ==> (#[trigger] lines@[i])@.len() > 0,
{
    let mut lines: Vec<String> = Vec::new();
    let mut rest: &str = block;
    assert(lines.deep_view() =~= Seq::<Seq<char>>::empty());
    loop
        invariant_except_break
            header_lines(block.spec_bytes()) == lines.deep_view() + header_lines(
                rest.spec_bytes(),
            ),
            forall|i: int| 0 <= i < lines@.len() ==> (#[trigger] lines@[i])@.len() > 0,
        ensures
            lines.deep_view() == header_lines(block.spec_bytes()),
            forall|i: int| 0 <= i < lines@.len() ==> (#[trigger] lines@[i])@.len() > 0,
        decreases rest.spec_bytes().len(),
    {
        let bytes = rest.as_bytes();
        let stop: usize = first_break(bytes);
        let ghost before = lines.deep_view();
        proof {
            lemma_header_lines_unfold(bytes@);
            lemma_next_break(bytes@, 0);
            encode_utf8_valid_utf8(rest@);
            encode_utf8_decode_utf8(rest@);
        }
        if stop >= bytes.len() {
            if bytes.len() > 0 {
                lines.push(rest.to_owned());
                assert(lines.deep_view() =~= before + seq![decode_utf8(bytes@)]);
            } else {
                assert(before + Seq::<Seq<char>>::empty() =~= before);
            }
            break ;
        }
        proof {
            lemma_break_is_boundary(bytes@, stop as int);
        }
        let (line, tail) = rest.split_at(stop);
        proof {
            encode_utf8_decode_utf8(line@);
        }
        if stop > 0 {
            lines.push(line.to_owned());
            assert(lines.deep_view() =~= before + seq![decode_utf8(bytes@.subrange(0, stop as int))]);
        }
        let (_, after) = tail.split_at(2);
        assert(after.spec_bytes() =~= bytes@.subrange(stop + 2, bytes@.len() as int));
        assert(lines.deep_view() + header_lines(after.spec_bytes()) =~= before + header_lines(
            bytes@,
        ));
        rest = after;
    }
    lines
}

/// The response that a finished transfer amounts to. It amounts to none
/// where the header block or the body is not UTF-8 text.
pub open spec fn response_of(status: u32, raw_headers: Seq<u8>, raw_body: Seq<u8>) -> Option<
    HttpResponseView,
> {
    if valid_utf8(raw_headers) && valid_utf8(raw_body) {
        Some(
            HttpResponseView {
                status,
                headers: header_lines(raw_headers),
                body: decode_utf8(raw_body),
            },
        )
    } else {
        None
    }
}

impl HttpResponse {
    /// Assembles the response from the status code, the header block and the
    /// body that a transfer has received. The header block is looked at
    /// first: where both are defective, the error names the headers.
    pub fn from_transfer(status: u32, raw_headers: Vec<u8>, raw_body: Vec<u8>) -> (outcome: Result<
        HttpResponse,
        DecodeError,
    >)
        ensures
            match outcome {
                Ok(response) => response_of(status, raw_headers@, raw_body@) == Some(response@),
                Err(DecodeError::Headers(_)) => !valid_utf8(raw_headers@),
                Err(DecodeError::Body(_)) => valid_utf8(raw_headers@) && !valid_utf8(raw_body@),
            },
            outcome matches Ok(response) ==> forall|i: int|
                0 <= i < response.headers@.len() ==> (#[trigger] response.headers@[i])@.len() > 0,
    {
        let block = match String::from_utf8(raw_headers) {
            Ok(text) => text,
            Err(defect) => {
                return Err(DecodeError::Headers(defect.to_string()));
            },
        };
        proof {
            decode_utf8_encode_utf8(raw_headers@);
        }
        let headers = split_header_lines(block.as_str());
        match String::from_utf8(raw_body) {
            Ok(body) => Ok(HttpResponse { status, headers, body }),
            Err(defect) => Err(DecodeError::Body(defect.to_string())),
        }
    }
}

} // verus!
