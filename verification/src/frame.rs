//! Frames: messages on a byte stream, each behind its length in four bytes.

use vstd::prelude::*;

use crate::bytes_le::{
    law_le_read_back, law_le_written_back, law_places, le, le_value, lemma_le_len, lemma_le_ranges,
    u32_from_le, u32_to_le,
};

verus! {

/// How many bytes of a frame stand before its message.
pub const HEADER_LEN: usize = 4;

/// The header of a frame around `message`: its length as an unsigned 32-bit number, least
/// significant byte first. A longer message keeps the low 32 bits of its length.
pub open spec fn header(message: Seq<u8>) -> Seq<u8> {
    le((message.len() as u32) as int, 4)
}

/// `message` as it stands on the stream.
pub open spec fn frame(message: Seq<u8>) -> Seq<u8> {
    header(message) + message
}

/// The message of the first frame of `stream`, once it has come in whole.
pub open spec fn first_message(stream: Seq<u8>) -> Option<Seq<u8>> {
    if stream.len() < HEADER_LEN {
        None
    } else {
        let len = le_value(stream.take(4));
        if stream.len() < HEADER_LEN + len {
            None
        } else {
            Some(stream.subrange(4, 4 + len))
        }
    }
}

/// `stream` without its first frame, whose message is `message`.
pub open spec fn after_message(stream: Seq<u8>, message: Seq<u8>) -> Seq<u8> {
    stream.skip((HEADER_LEN + message.len()) as int)
}

pub proof fn lemma_first_message_fits(stream: Seq<u8>)
    ensures
        first_message(stream) matches Some(m) ==> HEADER_LEN + m.len() <= stream.len(),
{
    if stream.len() >= HEADER_LEN {
        law_le_written_back(stream.take(4));
    }
}

/// The messages of the frames that `stream` starts with, up to the first that is not whole.
pub open spec fn messages(stream: Seq<u8>) -> Seq<Seq<u8>>
    decreases stream.len(),
{
    match first_message(stream) {
        Some(m) if HEADER_LEN + m.len() <= stream.len() => seq![m] + messages(
            after_message(stream, m),
        ),
        _ => seq![],
    }
}

/// What is left of `stream` behind its whole frames.
pub open spec fn leftover(stream: Seq<u8>) -> Seq<u8>
    decreases stream.len(),
{
    match first_message(stream) {
        Some(m) if HEADER_LEN + m.len() <= stream.len() => leftover(after_message(stream, m)),
        _ => stream,
    }
}

/// All of `messages`, one frame after the other.
pub open spec fn framed(messages: Seq<Seq<u8>>) -> Seq<u8>
    decreases messages.len(),
{
    if messages.len() == 0 {
        seq![]
    } else {
        frame(messages[0]) + framed(messages.drop_first())
    }
}

/// A message is read back from the front of its frame, whatever follows, and what follows is
/// what is left.
pub proof fn law_frame_read_back(message: Seq<u8>, rest: Seq<u8>)
    requires
        message.len() <= u32::MAX,
    ensures
        first_message(frame(message) + rest) == Some(message),
        after_message(frame(message) + rest, message) == rest,
{
    let stream = frame(message) + rest;
    lemma_le_ranges();
    law_le_read_back(message.len() as int, 4);
    assert(stream.take(4) =~= header(message));
    assert(stream.subrange(4, 4 + message.len() as int) =~= message);
    assert(after_message(stream, message) =~= rest);
}

/// A stream of frames gives back the messages that were written, in order, and nothing is left.
pub proof fn law_stream_read_back(written: Seq<Seq<u8>>)
    requires
        forall|i: int| 0 <= i < written.len() ==> (#[trigger] written[i]).len() <= u32::MAX,
    ensures
        messages(framed(written)) == written,
        leftover(framed(written)) == Seq::<u8>::empty(),
    decreases written.len(),
{
    if written.len() > 0 {
        let m = written[0];
        let rest = written.drop_first();
        assert(m.len() <= u32::MAX);
        assert forall|i: int| 0 <= i < rest.len() implies (#[trigger] rest[i]).len() <= u32::MAX by {
            assert(rest[i] == written[i + 1]);
        }
        law_stream_read_back(rest);
        law_frame_read_back(m, framed(rest));
        lemma_le_len((m.len() as u32) as int, 4);
        assert(messages(framed(written)) =~= seq![m] + messages(framed(rest)));
        assert(written =~= seq![m] + rest);
    } else {
        assert(messages(framed(written)) =~= written);
    }
}

/// A frame that has come in whole stays the first frame when more comes in.
proof fn lemma_first_message_stays(stream: Seq<u8>, more: Seq<u8>)
    requires
        first_message(stream) is Some,
    ensures
        first_message(stream + more) == first_message(stream),
        after_message(stream + more, first_message(stream)->0) == after_message(
            stream,
            first_message(stream)->0,
        ) + more,
{
    let m = first_message(stream)->0;
    lemma_first_message_fits(stream);
    assert((stream + more).take(4) =~= stream.take(4));
    law_le_written_back(stream.take(4));
    let len = le_value(stream.take(4));
    assert((stream + more).subrange(4, 4 + len) =~= stream.subrange(4, 4 + len));
    assert(after_message(stream + more, m) =~= after_message(stream, m) + more);
}

/// It makes no difference where a stream is cut: the messages of the first part, and then those
/// of what was left of it with the second part, are the messages of the whole.
pub proof fn law_cuts_make_no_difference(first: Seq<u8>, second: Seq<u8>)
    ensures
        messages(first + second) == messages(first) + messages(leftover(first) + second),
        leftover(first + second) == leftover(leftover(first) + second),
    decreases first.len(),
{
    lemma_first_message_fits(first);
    match first_message(first) {
        Some(m) => {
            lemma_first_message_stays(first, second);
            law_cuts_make_no_difference(after_message(first, m), second);
            assert(messages(first + second) =~= messages(first) + messages(
                leftover(first) + second,
            ));
        },
        None => {
            assert(messages(first + second) =~= messages(first) + messages(
                leftover(first) + second,
            ));
        },
    }
}

/// The pieces of a stream, put together again.
pub open spec fn joined(pieces: Seq<Seq<u8>>) -> Seq<u8>
    decreases pieces.len(),
{
    if pieces.len() == 0 {
        seq![]
    } else {
        pieces[0] + joined(pieces.drop_first())
    }
}

/// The messages that come out when `pieces` come in one by one behind `unread`, and each time all
/// whole frames are taken off.
pub open spec fn messages_of_pieces(unread: Seq<u8>, pieces: Seq<Seq<u8>>) -> Seq<Seq<u8>>
    decreases pieces.len(),
{
    if pieces.len() == 0 {
        seq![]
    } else {
        let stream = unread + pieces[0];
        messages(stream) + messages_of_pieces(leftover(stream), pieces.drop_first())
    }
}

/// However a stream is cut into pieces, the messages that come out are those of the stream.
pub proof fn law_pieces_make_no_difference(unread: Seq<u8>, pieces: Seq<Seq<u8>>)
    requires
        pieces.len() > 0 || first_message(unread) is None,
    ensures
        messages_of_pieces(unread, pieces) == messages(unread + joined(pieces)),
    decreases pieces.len(),
{
    if pieces.len() == 0 {
        assert(unread + joined(pieces) =~= unread);
    } else {
        let stream = unread + pieces[0];
        let rest = pieces.drop_first();
        law_leftover_is_incomplete(stream);
        law_pieces_make_no_difference(leftover(stream), rest);
        law_cuts_make_no_difference(stream, joined(rest));
        assert(unread + joined(pieces) =~= stream + joined(rest));
    }
}

/// What is left holds no whole frame.
pub proof fn law_leftover_is_incomplete(stream: Seq<u8>)
    ensures
        first_message(leftover(stream)) is None,
    decreases stream.len(),
{
    lemma_first_message_fits(stream);
    match first_message(stream) {
        Some(m) => law_leftover_is_incomplete(after_message(stream, m)),
        None => {},
    }
}

/// The header of a frame around `message`.
pub fn frame_header(message: &[u8]) -> (bytes: Vec<u8>)
    ensures
        bytes@ == header(message@),
{
    let len: u32 = #[verifier::truncate]
    (message.len() as u32);
    u32_to_le(len)
}

/// The length of the message of the first frame of `stream[at..]`, once it has come in whole.
pub fn whole_frame(stream: &[u8], at: usize) -> (len: Option<usize>)
    requires
        at <= stream@.len(),
    ensures
        match len {
            Some(len) => {
                &&& at + HEADER_LEN + len <= stream@.len() <= usize::MAX
                &&& first_message(stream@.skip(at as int)) == Some(
                    stream@.subrange(at + HEADER_LEN, at + HEADER_LEN + len),
                )
            },
            None => first_message(stream@.skip(at as int)) is None,
        },
{
    let ghost rest = stream@.skip(at as int);
    if stream.len() - at < HEADER_LEN {
        return None;
    }
    let len: usize = u32_from_le(stream, at) as usize;
    assert(rest.take(4) =~= stream@.subrange(at as int, at + 4));
    if stream.len() - at - HEADER_LEN < len {
        return None;
    }
    assert(rest.subrange(4, 4 + len) =~= stream@.subrange(
        at + HEADER_LEN,
        at + HEADER_LEN + len,
    ));
    Some(len)
}

/// The header is the length of the message in four bytes, the first of which counts ones. Of a
/// length that four bytes cannot spell it is what is left over when 2^32 is taken off as often as
/// possible.
pub proof fn law_header_spells_the_length(message: Seq<u8>)
    requires
        message.len() <= u64::MAX,
    ensures
        header(message).len() == 4,
        header(message)[0] + 0x100 * header(message)[1] + 0x1_0000 * header(message)[2]
            + 0x100_0000 * header(message)[3] == message.len() % 0x1_0000_0000,
{
    let len = message.len() as u64;
    assert((len as u32) == len % 0x1_0000_0000) by (bit_vector);
    assert((message.len() as u32) == (len as u32));
    lemma_le_ranges();
    law_le_read_back((message.len() as u32) as int, 4);
    law_places(header(message));
}

/// A message is taken off a stream exactly where its header and then the message itself stand at
/// the front of the stream, and what is left then is what stands behind them.
pub proof fn law_message_is_taken_off_the_front(stream: Seq<u8>, message: Seq<u8>)
    ensures
        first_message(stream) == Some(message) <==> message.len() <= u32::MAX && (header(message)
            + message).is_prefix_of(stream),
        first_message(stream) == Some(message) ==> stream == header(message) + message
            + after_message(stream, message),
{
    lemma_le_ranges();
    if first_message(stream) == Some(message) {
        law_le_written_back(stream.take(4));
        lemma_first_message_fits(stream);
        assert(header(message) =~= stream.take(4));
        assert(header(message) + message =~= stream.take(4 + message.len() as int));
        assert(stream =~= header(message) + message + after_message(stream, message));
    }
    if message.len() <= u32::MAX && (header(message) + message).is_prefix_of(stream) {
        let front = header(message) + message;
        let rest = stream.skip(front.len() as int);
        assert(stream =~= frame(message) + rest);
        law_frame_read_back(message, rest);
    }
}

/// A stream is its whole frames, one after the other, and then what is left, which holds no whole
/// frame.
pub proof fn law_stream_is_its_frames_and_the_rest(stream: Seq<u8>)
    ensures
        stream == framed(messages(stream)) + leftover(stream),
        first_message(leftover(stream)) is None,
    decreases stream.len(),
{
    lemma_first_message_fits(stream);
    law_leftover_is_incomplete(stream);
    match first_message(stream) {
        Some(m) => {
            let rest = after_message(stream, m);
            law_stream_is_its_frames_and_the_rest(rest);
            law_message_is_taken_off_the_front(stream, m);
            assert((seq![m] + messages(rest)).drop_first() =~= messages(rest));
            assert(stream =~= framed(messages(stream)) + leftover(stream));
        },
        None => {
            assert(stream =~= framed(messages(stream)) + leftover(stream));
        },
    }
}

/// One more message is one more frame at the end.
pub proof fn law_frames_follow_one_another(first: Seq<Seq<u8>>, message: Seq<u8>)
    ensures
        framed(Seq::empty()) == Seq::<u8>::empty(),
        framed(first.push(message)) == framed(first) + header(message) + message,
    decreases first.len(),
{
    let all = first.push(message);
    if first.len() > 0 {
        law_frames_follow_one_another(first.drop_first(), message);
        assert(all.drop_first() =~= first.drop_first().push(message));
        assert(all[0] == first[0]);
        assert(framed(all) =~= frame(all[0]) + framed(all.drop_first()));
    } else {
        assert(all.drop_first() =~= Seq::<Seq<u8>>::empty());
        assert(all[0] == message);
        assert(framed(all.drop_first()) =~= Seq::<u8>::empty());
    }
    assert(framed(all) =~= framed(first) + header(message) + message);
}

} // verus!
