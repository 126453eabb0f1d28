//! Decisions of the connection actor: what the read task does with the bytes it
//! receives, and how the outcomes of the read and write tasks combine.
use crate::frame::{buffer_contents, frame_lines, frame_rest, is_empty_buffer, split_frames};
use crate::message::{parse_line, spec_parse_line, Message, MessageView};
use bytes::BytesMut;
use vstd::prelude::*;

verus! {

/// What `String::from_utf8_lossy` makes of a byte sequence.
pub uninterp spec fn utf8_lossy(b: Seq<u8>) -> Seq<char>;

/// Relies on `String::from_utf8_lossy`: the text depends on the bytes alone,
/// malformed sequences being replaced rather than refused.
#[verifier::external_body]
fn decode_lossy(b: &[u8]) -> (r: String)
    ensures
        r@ == utf8_lossy(b@),
{
    String::from_utf8_lossy(b).into_owned()
}

/// The messages that the lines decode to, in order; lines that do not decode
/// are left out.
pub open spec fn decoded_messages(lines: Seq<Seq<u8>>) -> Seq<MessageView>
    decreases lines.len(),
{
    if lines.len() == 0 {
        seq![]
    } else {
        let before = decoded_messages(lines.drop_last());
        match spec_parse_line(utf8_lossy(lines.last())) {
            Ok(m) => before.push(m),
            Err(_) => before,
        }
    }
}

pub open spec fn messages_view(ms: Seq<Message>) -> Seq<MessageView> {
    ms.map_values(|m: Message| m@)
}

/// Takes every complete line out of `src` and decodes it, skipping the lines
/// that do not decode; the trailing partial line stays buffered.
pub fn process_buf(src: &mut BytesMut) -> (res: Vec<Message>)
    ensures
        messages_view(res@) == decoded_messages(frame_lines(buffer_contents(*old(src)))),
        buffer_contents(*final(src)) == frame_rest(buffer_contents(*old(src))),
{
    let lines = split_frames(src);
    let ghost lv = lines@.map_values(|l: Vec<u8>| l@);
    let mut res: Vec<Message> = Vec::new();
    for i in 0..lines.len()
        invariant
            lv == lines@.map_values(|l: Vec<u8>| l@),
            messages_view(res@) == decoded_messages(lv.take(i as int)),
    {
        let ghost before = res@;
        let text = decode_lossy(lines[i].as_slice());
        proof {
            assert(lv.take(i + 1 as int).drop_last() =~= lv.take(i as int));
            assert(lv.take(i + 1 as int).last() == lines@[i as int]@);
        }
        match parse_line(text.as_str()) {
            Ok(msg) => {
                res.push(msg);
                proof {
                    assert(messages_view(res@) =~= messages_view(before).push(msg@));
                }
            },
            Err(_) => {},
        }
    }
    proof {
        assert(lv.take(lines@.len() as int) =~= lv);
    }
    res
}

/// Why a connection ended in failure.
#[derive(Clone, Copy, Debug, PartialEq, Eq)]
pub enum ConnectionError {
    /// The peer closed the connection in the middle of a line.
    TruncatedLine,
    /// Connecting, the secure handshake, or a read or a write failed.
    Transport,
    /// A message queued for sending cannot be sent.
    ReplyOnlyCommand,
}

/// How the read task ended.
#[derive(Clone, Copy, Debug, PartialEq, Eq)]
pub enum ReadEnd {
    /// The peer closed the connection between lines.
    PeerClosed,
    Failed(ConnectionError),
}

/// How the write task ended.
#[derive(Clone, Copy, Debug, PartialEq, Eq)]
pub enum WriteEnd {
    /// The task stopped without error: its queue closed, or it was cancelled.
    Stopped,
    Failed(ConnectionError),
}

/// One round of the read task, after a read into the buffer.
pub enum ReadStep {
    /// The messages that the newly completed lines decode to.
    Received(Vec<Message>),
    /// The task ends.
    End(ReadEnd),
}

/// How the read task ends when a read returns no bytes with `pending` buffered.
pub open spec fn end_on_close(pending: Seq<u8>) -> ReadEnd {
    if pending.len() == 0 {
        ReadEnd::PeerClosed
    } else {
        ReadEnd::Failed(ConnectionError::TruncatedLine)
    }
}

/// Decides one round of the read task: `n_read` is the number of bytes the last
/// read appended to `buffer`, zero when the peer closed the connection.
pub fn receive_step(buffer: &mut BytesMut, n_read: usize) -> (r: ReadStep)
    ensures
        n_read == 0 ==> r == ReadStep::End(end_on_close(buffer_contents(*old(buffer))))
            && buffer_contents(*final(buffer)) == buffer_contents(*old(buffer)),
        n_read > 0 ==> (r matches ReadStep::Received(ms) && messages_view(ms@) == decoded_messages(
            frame_lines(buffer_contents(*old(buffer))),
        )) && buffer_contents(*final(buffer)) == frame_rest(buffer_contents(*old(buffer))),
{
    if n_read == 0 {
        if is_empty_buffer(buffer) {
            ReadStep::End(ReadEnd::PeerClosed)
        } else {
            ReadStep::End(ReadEnd::Failed(ConnectionError::TruncatedLine))
        }
    } else {
        ReadStep::Received(process_buf(buffer))
    }
}

/// The outcome of the whole connection once both tasks have ended: a failure
/// of either is fatal, the read task's first; otherwise the connection closed
/// cleanly.
pub open spec fn spec_connection_outcome(read: ReadEnd, write: WriteEnd) -> Result<(), ConnectionError> {
    match read {
        ReadEnd::Failed(e) => Err(e),
        ReadEnd::PeerClosed => match write {
            WriteEnd::Failed(e) => Err(e),
            WriteEnd::Stopped => Ok(()),
        },
    }
}

/// Combines how the read and the write task ended into the connection's outcome.
pub fn connection_outcome(read: ReadEnd, write: WriteEnd) -> (r: Result<(), ConnectionError>)
    ensures
        r == spec_connection_outcome(read, write),
{
    match read {
        ReadEnd::Failed(e) => Err(e),
        ReadEnd::PeerClosed => match write {
            WriteEnd::Failed(e) => Err(e),
            WriteEnd::Stopped => Ok(()),
        },
    }
}

/// When the peer closes the connection, the connection ends cleanly if nothing
/// was left buffered and the write side did not fail; with a partial line left
/// buffered it ends in a fatal error, whatever the write side did.
pub proof fn lemma_close_outcome(pending: Seq<u8>, write: WriteEnd)
    ensures
        pending.len() == 0 && write == WriteEnd::Stopped ==> spec_connection_outcome(
            end_on_close(pending),
            write,
        ) == Ok::<(), ConnectionError>(()),
        pending.len() > 0 ==> spec_connection_outcome(end_on_close(pending), write) == Err::<
            (),
            ConnectionError,
        >(ConnectionError::TruncatedLine),
{
}

} // verus!
