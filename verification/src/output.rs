//! The captured output of a terminal: what is kept of it, and what is shown.
//!
//! A terminal may have a byte limit. What is shown then fits the limit, starts at
//! the start of a character and never holds a part of one.

use crate::text::{from_utf8_lossy, lossy_text};
use vstd::prelude::*;
use vstd::utf8::{
    decode_utf8, decode_utf8_encode_utf8, encode_scalar, encode_utf8, encode_utf8_decode_utf8,
    encode_utf8_first_scalar, encode_utf8_valid_utf8, is_char_boundary,
    is_char_boundary_iff_not_is_continuation_byte, is_char_boundary_start_end_of_seq,
    is_continuation_byte, length_of_first_scalar, partial_valid_partial_invalid_utf8,
    pop_first_scalar, utf8_byte_ranges_bitwise, valid_utf8,
};

verus! {

/// The last `max` bytes, or all of them where there are fewer.
pub open spec fn last_bytes(bytes: Seq<u8>, max: int) -> Seq<u8> {
    if bytes.len() <= max {
        bytes
    } else {
        bytes.skip(bytes.len() - max)
    }
}

/// Bytes without the continuation bytes that they start with.
pub open spec fn from_char_start(bytes: Seq<u8>) -> Seq<u8>
    decreases bytes.len(),
{
    if bytes.len() > 0 && is_continuation_byte(bytes[0]) {
        from_char_start(bytes.drop_first())
    } else {
        bytes
    }
}

/// Whether the first `n` bytes are the longest start of the bytes that is valid
/// UTF-8.
pub open spec fn is_valid_up_to(bytes: Seq<u8>, n: int) -> bool {
    &&& 0 <= n <= bytes.len()
    &&& valid_utf8(bytes.take(n))
    &&& forall|m: int| n < m <= bytes.len() ==> !valid_utf8(#[trigger] bytes.take(m))
}

/// The length of the longest start of the bytes that is valid UTF-8.
pub open spec fn valid_up_to(bytes: Seq<u8>) -> int {
    choose|n: int| is_valid_up_to(bytes, n)
}

/// Whether the bytes are the start of the encoding of a character, but not all of
/// it.
pub open spec fn starts_char(bytes: Seq<u8>) -> bool {
    exists|c: char|
        0 < bytes.len() < encode_scalar(c as u32).len() && bytes == (
        #[trigger] encode_scalar(c as u32)).take(bytes.len() as int)
}

/// Whether the bytes are valid UTF-8 up to a last character that is not complete.
pub open spec fn cut_off(bytes: Seq<u8>) -> bool {
    !valid_utf8(bytes) && starts_char(bytes.skip(valid_up_to(bytes)))
}

/// The longest end of a text whose encoding has at most `max` bytes.
pub open spec fn suffix_within(text: Seq<char>, max: int) -> Seq<char>
    decreases text.len(),
{
    if text.len() == 0 || encode_utf8(text).len() <= max {
        text
    } else {
        suffix_within(text.drop_first(), max)
    }
}

/// What is shown of bytes under a limit of `max` bytes: the text that they end in.
/// A character that is cut off at either end is left out. Invalid bytes are shown
/// as replacement characters, within the limit too.
pub open spec fn rendered(bytes: Seq<u8>, max: int) -> Seq<char> {
    let tail = from_char_start(last_bytes(bytes, max));
    if valid_utf8(tail) {
        decode_utf8(tail)
    } else if cut_off(tail) {
        decode_utf8(tail.take(valid_up_to(tail)))
    } else {
        suffix_within(lossy_text(tail), max)
    }
}

/// `std::str::from_utf8`. It succeeds on valid UTF-8 and on nothing else, and gives
/// the text that the bytes encode. Its error carries `Utf8Error::valid_up_to`, the
/// length of the longest start that is valid, and `Utf8Error::error_len`, which is
/// `None` exactly if what follows is the start of a character that the bytes end
/// in the middle of. The length that `error_len` gives otherwise is left unsaid.
#[verifier::external_body]
fn check_utf8(bytes: &[u8]) -> (checked: Result<&str, (usize, Option<usize>)>)
    ensures
        checked is Ok <==> valid_utf8(bytes@),
        checked matches Ok(text) ==> text@ == decode_utf8(bytes@),
        checked matches Err(stop) ==> is_valid_up_to(bytes@, stop.0 as int),
        checked matches Err(stop) ==> (stop.1 is None <==> starts_char(
            bytes@.skip(stop.0 as int),
        )),
{
    std::str::from_utf8(bytes).map_err(|error| (error.valid_up_to(), error.error_len()))
}

proof fn lemma_from_char_start_suffix(bytes: Seq<u8>)
    ensures
        from_char_start(bytes).len() <= bytes.len(),
        from_char_start(bytes) == bytes.skip(bytes.len() - from_char_start(bytes).len()),
    decreases bytes.len(),
{
    if bytes.len() > 0 && is_continuation_byte(bytes[0]) {
        lemma_from_char_start_suffix(bytes.drop_first());
        let rest = from_char_start(bytes.drop_first());
        assert(bytes.drop_first().skip(bytes.len() - 1 - rest.len()) =~= bytes.skip(
            bytes.len() - rest.len(),
        ));
    } else {
        assert(bytes.skip(0) =~= bytes);
    }
}

proof fn lemma_suffix_within_fits(text: Seq<char>, max: int)
    requires
        max >= 0,
    ensures
        encode_utf8(suffix_within(text, max)).len() <= max,
    decreases text.len(),
{
    if text.len() == 0 || encode_utf8(text).len() <= max {
    } else {
        lemma_suffix_within_fits(text.drop_first(), max);
    }
}

/// What is shown never has more bytes than the limit.
pub proof fn law_rendered_fits(bytes: Seq<u8>, max: int)
    requires
        max >= 0,
    ensures
        encode_utf8(rendered(bytes, max)).len() <= max,
{
    let tail = from_char_start(last_bytes(bytes, max));
    lemma_from_char_start_suffix(last_bytes(bytes, max));
    if valid_utf8(tail) {
        decode_utf8_encode_utf8(tail);
    } else if cut_off(tail) {
        lemma_valid_up_to_exists(tail);
        decode_utf8_encode_utf8(tail.take(valid_up_to(tail)));
    } else {
        lemma_suffix_within_fits(lossy_text(tail), max);
    }
}

/// There is a longest start that is valid UTF-8: the empty one is valid.
proof fn lemma_valid_up_to_exists(bytes: Seq<u8>)
    ensures
        is_valid_up_to(bytes, valid_up_to(bytes)),
{
    lemma_longest_valid_below(bytes, bytes.len() as int);
}

proof fn lemma_longest_valid_below(bytes: Seq<u8>, top: int)
    requires
        0 <= top <= bytes.len(),
        forall|m: int| top < m <= bytes.len() ==> !valid_utf8(#[trigger] bytes.take(m)),
    ensures
        exists|n: int| is_valid_up_to(bytes, n),
    decreases top,
{
    if valid_utf8(bytes.take(top)) {
        assert(is_valid_up_to(bytes, top));
    } else {
        assert(bytes.take(0) =~= Seq::empty());
        assert(top > 0);
        lemma_longest_valid_below(bytes, top - 1);
    }
}

proof fn lemma_valid_up_to_is(bytes: Seq<u8>, n: int)
    requires
        is_valid_up_to(bytes, n),
    ensures
        valid_up_to(bytes) == n,
{
    let m = valid_up_to(bytes);
    assert(is_valid_up_to(bytes, m));
    if m < n {
        assert(!valid_utf8(bytes.take(n)));
    } else if n < m {
        assert(!valid_utf8(bytes.take(m)));
    }
}

/// Cutting the encoding of a text at the first character boundary that leaves at
/// most `max` bytes gives the longest end of the text that fits.
proof fn lemma_suffix_at_boundary(text: Seq<char>, max: int, at: int)
    requires
        0 <= max,
        0 <= at <= encode_utf8(text).len(),
        encode_utf8(text).len() - max <= at,
        is_char_boundary(encode_utf8(text), at),
        forall|j: int|
            0 <= j < at && encode_utf8(text).len() - max <= j ==> !#[trigger] is_char_boundary(
                encode_utf8(text),
                j,
            ),
    ensures
        encode_utf8(text).skip(at) == encode_utf8(suffix_within(text, max)),
    decreases text.len(),
{
    let bytes = encode_utf8(text);
    encode_utf8_valid_utf8(text);
    if text.len() == 0 || bytes.len() <= max {
        if at > 0 {
            assert(is_char_boundary(bytes, 0));
        }
        assert(bytes.skip(0) =~= bytes);
    } else {
        let rest = encode_utf8(text.drop_first());
        encode_utf8_first_scalar(text);
        encode_utf8_valid_utf8(text.drop_first());
        let width = length_of_first_scalar(bytes);
        assert(pop_first_scalar(bytes) =~= rest);
        assert(at > 0);
        assert(is_char_boundary(rest, at - width));
        assert(at >= width) by {
            reveal_with_fuel(is_char_boundary, 2);
        }
        assert forall|j: int| 0 <= j < at - width && rest.len() - max
            <= j implies !#[trigger] is_char_boundary(rest, j) by {
            assert(is_char_boundary(bytes, j + width) == is_char_boundary(rest, j));
        }
        lemma_suffix_at_boundary(text.drop_first(), max, at - width);
        assert(bytes.skip(at) =~= rest.skip(at - width));
    }
}

/// Shows the end of some bytes within a limit.
pub fn render_utf8_suffix_with_byte_limit(bytes: &[u8], max: usize) -> (shown: String)
    ensures
        shown@ == rendered(bytes@, max as int),
        encode_utf8(shown@).len() <= max,
{
    proof {
        law_rendered_fits(bytes@, max as int);
    }
    let mut start: usize = bytes.len().saturating_sub(max);
    assert(last_bytes(bytes@, max as int) =~= bytes@.skip(start as int));
    while start < bytes.len() && bytes[start] & 0b1100_0000 == 0b1000_0000
        invariant
            start <= bytes.len(),
            from_char_start(bytes@.skip(start as int)) == from_char_start(
                last_bytes(bytes@, max as int),
            ),
        decreases bytes.len() - start,
    {
        proof {
            utf8_byte_ranges_bitwise(bytes@[start as int]);
            assert(bytes@.skip(start as int).drop_first() =~= bytes@.skip(start + 1));
        }
        start = start + 1;
    }
    let (_, tail) = bytes.split_at(start);
    proof {
        assert(tail@ =~= bytes@.skip(start as int));
        if start < bytes.len() {
            utf8_byte_ranges_bitwise(bytes@[start as int]);
        }
        assert(tail@ == from_char_start(last_bytes(bytes@, max as int)));
        lemma_from_char_start_suffix(last_bytes(bytes@, max as int));
    }
    match check_utf8(tail) {
        Ok(text) => text.to_owned(),
        Err((valid_end, None)) => {
            let (valid, _) = tail.split_at(valid_end);
            proof {
                lemma_valid_up_to_is(tail@, valid_end as int);
                assert(valid@ =~= tail@.take(valid_end as int));
            }
            from_utf8_lossy(valid)
        },
        Err((valid_end, Some(_))) => {
            proof {
                lemma_valid_up_to_is(tail@, valid_end as int);
            }
            let text = from_utf8_lossy(tail);
            end_within(text.as_str(), max)
        },
    }
}

/// The longest end of a text whose encoding has at most `max` bytes.
fn end_within(text: &str, max: usize) -> (end: String)
    ensures
        end@ == suffix_within(text@, max as int),
{
    let ghost bytes = encode_utf8(text@);
    proof {
        encode_utf8_valid_utf8(text@);
        is_char_boundary_start_end_of_seq(bytes);
    }
    let len: usize = text.as_bytes().len();
    let mut start: usize = len.saturating_sub(max);
    while !text.is_char_boundary(start)
        invariant
            bytes == encode_utf8(text@),
            len == bytes.len(),
            len - max <= start <= len,
            is_char_boundary(bytes, bytes.len() as int),
            forall|j: int|
                0 <= j < start && bytes.len() - max <= j ==> !#[trigger] is_char_boundary(
                    bytes,
                    j,
                ),
        decreases len - start,
    {
        start = start + 1;
    }
    let (_, end) = text.split_at(start);
    proof {
        lemma_suffix_at_boundary(text@, max as int, start as int);
        assert(bytes.subrange(start as int, bytes.len() as int) =~= bytes.skip(start as int));
        encode_utf8_decode_utf8(end@);
        encode_utf8_decode_utf8(suffix_within(text@, max as int));
    }
    end.to_owned()
}

proof fn lemma_from_char_start_keeps_end(front: Seq<u8>, end: Seq<u8>)
    requires
        end.len() == 0 || !is_continuation_byte(end[0]),
    ensures
        from_char_start(front + end) == from_char_start(front) + end,
    decreases front.len(),
{
    if front.len() == 0 {
        assert(front + end =~= end);
    } else if is_continuation_byte(front[0]) {
        assert((front + end).drop_first() =~= front.drop_first() + end);
        lemma_from_char_start_keeps_end(front.drop_first(), end);
    }
}

proof fn lemma_continuation_bytes_dropped(bytes: Seq<u8>)
    requires
        forall|i: int| 0 <= i < bytes.len() ==> is_continuation_byte(#[trigger] bytes[i]),
    ensures
        from_char_start(bytes) == Seq::<u8>::empty(),
    decreases bytes.len(),
{
    if bytes.len() > 0 {
        lemma_continuation_bytes_dropped(bytes.drop_first());
    } else {
        assert(bytes =~= Seq::<u8>::empty());
    }
}

/// The start of a character opens with a byte that is no continuation byte, goes
/// on with continuation bytes, and is itself no valid text.
proof fn lemma_starts_char_shape(part: Seq<u8>)
    requires
        starts_char(part),
    ensures
        part.len() > 0,
        !is_continuation_byte(part[0]),
        forall|i: int| 0 < i < part.len() ==> is_continuation_byte(#[trigger] part[i]),
        forall|n: int| 0 < n <= part.len() ==> !valid_utf8(#[trigger] part.take(n)),
{
    let c = choose|c: char|
        0 < part.len() < encode_scalar(c as u32).len() && part == (
        #[trigger] encode_scalar(c as u32)).take(part.len() as int);
    let one = seq![c];
    assert(one.drop_first() =~= Seq::empty());
    assert(encode_utf8(one.drop_first()) =~= Seq::empty());
    assert(encode_utf8(one) =~= encode_scalar(c as u32));
    encode_utf8_first_scalar(one);
    assert forall|n: int| 0 < n <= part.len() implies !valid_utf8(#[trigger] part.take(n)) by {
        assert(part.take(n)[0] == encode_utf8(one)[0]);
    }
}

/// The bytes of a text, cut where the first character starts that is within the
/// limit, are the longest end of the text that fits.
proof fn lemma_char_start_of_text(text: Seq<char>, max: int)
    requires
        max >= 0,
    ensures
        from_char_start(last_bytes(encode_utf8(text), max)) == encode_utf8(
            suffix_within(text, max),
        ),
{
    let bytes = encode_utf8(text);
    encode_utf8_valid_utf8(text);
    is_char_boundary_start_end_of_seq(bytes);
    let start = if bytes.len() <= max {
        0
    } else {
        bytes.len() - max
    };
    assert(last_bytes(bytes, max) =~= bytes.skip(start));
    lemma_first_boundary(bytes, start);
    let at = bytes.len() - from_char_start(bytes.skip(start)).len();
    lemma_suffix_at_boundary(text, max, at);
}

/// Dropping continuation bytes leads to the next character boundary.
proof fn lemma_first_boundary(bytes: Seq<u8>, start: int)
    requires
        valid_utf8(bytes),
        0 <= start <= bytes.len(),
    ensures
        ({
            let at = bytes.len() - from_char_start(bytes.skip(start)).len();
            &&& start <= at <= bytes.len()
            &&& is_char_boundary(bytes, at)
            &&& from_char_start(bytes.skip(start)) == bytes.skip(at)
            &&& forall|j: int| start <= j < at ==> !#[trigger] is_char_boundary(bytes, j)
        }),
    decreases bytes.len() - start,
{
    is_char_boundary_start_end_of_seq(bytes);
    if start < bytes.len() {
        is_char_boundary_iff_not_is_continuation_byte(bytes, start);
        if is_continuation_byte(bytes[start]) {
            assert(bytes.skip(start).drop_first() =~= bytes.skip(start + 1));
            lemma_first_boundary(bytes, start + 1);
        }
    }
}

/// A text whose last character is still arriving shows as the longest end of the
/// complete characters that fits beside the bytes that have arrived. No character
/// is shown in part, and none is replaced.
pub proof fn law_rendered_text_in_progress(text: Seq<char>, part: Seq<u8>, max: int)
    requires
        max >= 0,
        part.len() == 0 || starts_char(part),
    ensures
        rendered(encode_utf8(text) + part, max) == suffix_within(
            text,
            if part.len() <= max {
                max - part.len()
            } else {
                0
            },
        ),
{
    let bytes = encode_utf8(text);
    let whole = bytes + part;
    if part.len() > 0 {
        lemma_starts_char_shape(part);
    }
    if part.len() <= max {
        let room = max - part.len();
        let shown = suffix_within(text, room);
        let front = last_bytes(bytes, room);
        assert(last_bytes(whole, max) =~= front + part);
        lemma_from_char_start_keeps_end(front, part);
        lemma_char_start_of_text(text, room);
        let tail = encode_utf8(shown) + part;
        assert(from_char_start(last_bytes(whole, max)) == tail);
        encode_utf8_valid_utf8(shown);
        encode_utf8_decode_utf8(shown);
        let n = encode_utf8(shown).len() as int;
        assert(tail.take(n) =~= encode_utf8(shown));
        assert(tail.skip(n) =~= part);
        if part.len() == 0 {
            assert(tail =~= encode_utf8(shown));
        } else {
            assert forall|m: int| n < m <= tail.len() implies !valid_utf8(
                #[trigger] tail.take(m),
            ) by {
                let cut = tail.take(m);
                assert(cut.subrange(0, n) =~= encode_utf8(shown));
                assert(cut.subrange(n, cut.len() as int) =~= part.take(m - n));
                partial_valid_partial_invalid_utf8(cut, n);
            }
            assert(tail.take(tail.len() as int) =~= tail);
            lemma_valid_up_to_is(tail, n);
        }
    } else {
        assert(last_bytes(whole, max) =~= part.skip(part.len() - max));
        lemma_continuation_bytes_dropped(part.skip(part.len() - max));
        lemma_suffix_within_fits(text, 0);
        let shown = suffix_within(text, 0);
        if shown.len() > 0 {
            encode_utf8_first_scalar(shown);
        }
        assert(shown =~= Seq::empty());
    }
}

/// A text shows as its longest end that fits the limit.
pub proof fn law_rendered_text(text: Seq<char>, max: int)
    requires
        max >= 0,
    ensures
        rendered(encode_utf8(text), max) == suffix_within(text, max),
{
    law_rendered_text_in_progress(text, Seq::empty(), max);
    assert(encode_utf8(text) + Seq::<u8>::empty() =~= encode_utf8(text));
}

/// What is kept of all the bytes that a terminal has put out.
pub open spec fn retained(stream: Seq<u8>, limit: Option<u64>) -> Seq<u8> {
    match limit {
        None => stream,
        Some(max) => if max == 0 {
            Seq::empty()
        } else {
            last_bytes(stream, max + 3)
        },
    }
}

/// Whether anything that a terminal has put out is no longer kept.
pub open spec fn dropped(stream: Seq<u8>, limit: Option<u64>) -> bool {
    retained(stream, limit).len() < stream.len()
}

/// A number of bytes as a length in memory, the largest one where it is too large.
pub(crate) fn byte_count(max: u64) -> (count: usize)
    ensures
        max <= usize::MAX ==> count == max,
        max > usize::MAX ==> count == usize::MAX,
{
    if max > usize::MAX as u64 {
        usize::MAX
    } else {
        max as usize
    }
}

/// Takes in a chunk of output.
pub fn append_terminal_output(
    output: &mut Vec<u8>,
    truncated: &mut bool,
    chunk: &[u8],
    limit: Option<u64>,
)
    ensures
        final(output)@ == retained(old(output)@ + chunk@, limit),
        *final(truncated) == (*old(truncated) || dropped(old(output)@ + chunk@, limit)),
{
    let ghost stream = output@ + chunk@;
    output.extend_from_slice(chunk);
    assert(output@ =~= stream);
    if let Some(max) = limit {
        let max: usize = byte_count(max);
        let kept: usize = max.saturating_add(3);
        if max == 0 {
            if output.len() > 0 {
                *truncated = true;
            }
            output.clear();
            assert(output@ =~= Seq::empty());
        } else if output.len() > kept {
            let drop_len: usize = output.len() - kept;
            let rest = output.split_off(drop_len);
            assert(rest@ =~= last_bytes(stream, limit->0 + 3));
            *output = rest;
            *truncated = true;
        }
    }
}

/// Keeping a part first and the rest later comes to the same as keeping all at
/// once, both in the bytes and in whether any were dropped.
pub proof fn law_retained_in_steps(stream: Seq<u8>, chunk: Seq<u8>, limit: Option<u64>)
    ensures
        retained(retained(stream, limit) + chunk, limit) == retained(stream + chunk, limit),
        (dropped(stream, limit) || dropped(retained(stream, limit) + chunk, limit)) == dropped(
            stream + chunk,
            limit,
        ),
{
    assert(retained(retained(stream, limit) + chunk, limit) =~= retained(stream + chunk, limit));
}

/// Chunks put one after the other.
pub open spec fn all_bytes(chunks: Seq<Seq<u8>>) -> Seq<u8>
    decreases chunks.len(),
{
    if chunks.len() == 0 {
        Seq::empty()
    } else {
        all_bytes(chunks.drop_last()) + chunks.last()
    }
}

/// The kept bytes and the mark for dropped ones, after chunks that came one by one.
pub open spec fn captured(chunks: Seq<Seq<u8>>, limit: Option<u64>) -> (Seq<u8>, bool)
    decreases chunks.len(),
{
    if chunks.len() == 0 {
        (Seq::empty(), false)
    } else {
        let before = captured(chunks.drop_last(), limit);
        (
            retained(before.0 + chunks.last(), limit),
            before.1 || dropped(before.0 + chunks.last(), limit),
        )
    }
}

/// However the output is cut into chunks, the capture depends on the bytes alone.
pub proof fn law_capture_ignores_chunking(chunks: Seq<Seq<u8>>, limit: Option<u64>)
    ensures
        captured(chunks, limit).0 == retained(all_bytes(chunks), limit),
        captured(chunks, limit).1 == dropped(all_bytes(chunks), limit),
    decreases chunks.len(),
{
    if chunks.len() == 0 {
        assert(retained(Seq::empty(), limit) =~= Seq::empty());
    } else {
        law_capture_ignores_chunking(chunks.drop_last(), limit);
        law_retained_in_steps(all_bytes(chunks.drop_last()), chunks.last(), limit);
    }
}

/// What is kept under a limit is enough: within the limit it shows as all of the output
/// would.
pub proof fn law_retained_shows_as_stream(stream: Seq<u8>, limit: u64, max: int)
    requires
        0 <= max <= limit,
    ensures
        rendered(retained(stream, Some(limit)), max) == rendered(stream, max),
{
    assert(last_bytes(retained(stream, Some(limit)), max) =~= last_bytes(stream, max));
}

/// Output is reported as truncated exactly if there was more of it than the limit.
pub proof fn law_truncation_reported(stream: Seq<u8>, max: u64)
    ensures
        (dropped(stream, Some(max)) || retained(stream, Some(max)).len() > max) == (stream.len()
            > max),
{
}

/// The end of a text within a limit fits the limit, and is the longest that does.
pub proof fn law_end_within_is_the_longest(text: Seq<char>, max: int)
    requires
        max >= 0,
    ensures
        suffix_within(text, max).len() <= text.len(),
        suffix_within(text, max) == text.skip(text.len() - suffix_within(text, max).len()),
        encode_utf8(suffix_within(text, max)).len() <= max,
        forall|n: int|
            0 <= n < text.len() - suffix_within(text, max).len() ==> encode_utf8(
                #[trigger] text.skip(n),
            ).len() > max,
    decreases text.len(),
{
    assert(text.skip(0) =~= text);
    if text.len() > 0 && encode_utf8(text).len() > max {
        let rest = text.drop_first();
        law_end_within_is_the_longest(rest, max);
        let kept = suffix_within(rest, max).len() as int;
        assert(rest.skip(rest.len() - kept) =~= text.skip(text.len() - kept));
        assert forall|n: int| 0 <= n < text.len() - kept implies encode_utf8(
            #[trigger] text.skip(n),
        ).len() > max by {
            if n > 0 {
                assert(rest.skip(n - 1) =~= text.skip(n));
            }
        }
    }
}

/// The last bytes are an end of the bytes, as long as asked for or as there are.
pub proof fn law_last_bytes_are_the_end(bytes: Seq<u8>, max: int)
    requires
        max >= 0,
    ensures
        bytes.len() <= max ==> last_bytes(bytes, max) == bytes,
        bytes.len() > max ==> last_bytes(bytes, max).len() == max,
        last_bytes(bytes, max) == bytes.skip(bytes.len() - last_bytes(bytes, max).len()),
{
    assert(bytes.skip(0) =~= bytes);
    assert(bytes.len() > max ==> bytes.skip(bytes.len() - max).len() == max);
}

/// From the start of the first character on, an end of the bytes is left, and nothing
/// but continuation bytes is left out.
pub proof fn law_char_start(bytes: Seq<u8>)
    ensures
        from_char_start(bytes).len() <= bytes.len(),
        from_char_start(bytes) == bytes.skip(bytes.len() - from_char_start(bytes).len()),
        from_char_start(bytes).len() > 0 ==> !is_continuation_byte(from_char_start(bytes)[0]),
        forall|i: int|
            0 <= i < bytes.len() - from_char_start(bytes).len() ==> is_continuation_byte(
                #[trigger] bytes[i],
            ),
    decreases bytes.len(),
{
    lemma_from_char_start_suffix(bytes);
    if bytes.len() > 0 && is_continuation_byte(bytes[0]) {
        let rest = bytes.drop_first();
        law_char_start(rest);
        assert forall|i: int| 0 <= i < bytes.len() - from_char_start(bytes).len() implies
            is_continuation_byte(#[trigger] bytes[i]) by {
            if i > 0 {
                assert(rest[i - 1] == bytes[i]);
            }
        }
    }
}

/// Bytes that are no text, and not only for a character that is still arriving, are
/// shown with replacement characters, as the longest end of that which fits.
pub proof fn law_invalid_bytes_are_replaced(bytes: Seq<u8>, max: int)
    requires
        max >= 0,
        !valid_utf8(from_char_start(last_bytes(bytes, max))),
        !starts_char(
            from_char_start(last_bytes(bytes, max)).skip(
                valid_up_to(from_char_start(last_bytes(bytes, max))),
            ),
        ),
    ensures
        rendered(bytes, max) == suffix_within(
            lossy_text(from_char_start(last_bytes(bytes, max))),
            max,
        ),
{
}

/// Without a limit all output is kept. Under a limit of zero none is, and under any other
/// the limit and three bytes more at the end. It is dropped if any is not kept.
pub proof fn law_kept_output(stream: Seq<u8>, max: u64)
    ensures
        retained(stream, None) == stream,
        !dropped(stream, None),
        retained(stream, Some(0)).len() == 0,
        max > 0 && stream.len() <= max + 3 ==> retained(stream, Some(max)) == stream && !dropped(
            stream,
            Some(max),
        ),
        max > 0 && stream.len() > max + 3 ==> retained(stream, Some(max)) == stream.skip(
            stream.len() - max - 3,
        ) && dropped(stream, Some(max)),
{
}

} // verus!
