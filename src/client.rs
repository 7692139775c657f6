//! The caller's side of a connection: command frames, the reading of the
//! service's acknowledgment, and the accumulation buffer for uploads.

use vstd::prelude::*;
use vstd::utf8::*;
use vstd::string::*;
use bytes::{Bytes, BytesMut};
use crate::buffers::{buffered, frame_bytes};
use crate::protocol::{
    Acknowledgment, AckModel, Command, CommandModel, ParseError, ParseErrorModel, ack_bytes,
    command_bytes, error_text, lemma_ack_round_trip, parse_ack,
};
use crate::text::{joined, utf8_text};

verus! {

broadcast use group_utf8_lib;

/// The capacity that a connection's buffer is created with (2^24 bytes).
pub const BUFFER_CAPACITY: usize = 16777216;

/// Once the buffer holds this many bytes (2^23), they go out as one frame.
pub const FLUSH_THRESHOLD: usize = 8388608;

/// Why a command was not acknowledged with `OK`.
#[derive(Debug, PartialEq, Eq)]
pub enum HandshakeError {
    /// The service closed the connection before a reply came.
    NoResponse,
    /// The reply is not UTF-8 text.
    NotText,
    /// The reply is text but no acknowledgment.
    Malformed(ParseError),
    /// The service refused the command, for the reason given.
    Refused { message: String },
}

/// What a failed handshake is, in terms of the reply's content.
pub enum HandshakeErrorModel {
    NoResponse,
    NotText,
    Malformed(ParseErrorModel),
    Refused(Seq<char>),
}

impl View for HandshakeError {
    type V = HandshakeErrorModel;

    open spec fn view(&self) -> HandshakeErrorModel {
        match self {
            HandshakeError::NoResponse => HandshakeErrorModel::NoResponse,
            HandshakeError::NotText => HandshakeErrorModel::NotText,
            HandshakeError::Malformed(e) => HandshakeErrorModel::Malformed(e@),
            HandshakeError::Refused { message } => HandshakeErrorModel::Refused(message@),
        }
    }
}

/// What a command comes to when `reply` is the first frame back, or `None`
/// when none came.
pub open spec fn handshake(reply: Option<Seq<u8>>) -> Result<(), HandshakeErrorModel> {
    match reply {
        None => Err(HandshakeErrorModel::NoResponse),
        Some(b) => if !valid_utf8(b) {
            Err(HandshakeErrorModel::NotText)
        } else {
            match parse_ack(b) {
                Err(e) => Err(HandshakeErrorModel::Malformed(e)),
                Ok(AckModel::Rejected(m)) => Err(HandshakeErrorModel::Refused(m)),
                Ok(AckModel::Accepted) => Ok(()),
            }
        },
    }
}

pub open spec fn handshake_view(r: Result<(), HandshakeError>) -> Result<(), HandshakeErrorModel> {
    match r {
        Ok(()) => Ok(()),
        Err(e) => Err(e@),
    }
}

/// The text that says why a handshake failed.
pub open spec fn handshake_text(e: HandshakeErrorModel) -> Seq<char> {
    match e {
        HandshakeErrorModel::NoResponse => "There is no response from video service"@,
        HandshakeErrorModel::NotText => "the response is not UTF-8 text"@,
        HandshakeErrorModel::Malformed(p) => error_text(p),
        HandshakeErrorModel::Refused(m) => m,
    }
}

impl HandshakeError {
    /// The text that says why the handshake failed.
    pub fn message(&self) -> (r: String)
        ensures
            r@ == handshake_text(self@),
    {
        match self {
            HandshakeError::NoResponse => String::from_str("There is no response from video service"),
            HandshakeError::NotText => String::from_str("the response is not UTF-8 text"),
            HandshakeError::Malformed(p) => p.message(),
            HandshakeError::Refused { message } => message.clone(),
        }
    }
}

/// The client reads the service's replies as they were meant: `OK ` lets the
/// command go ahead, and `ERROR <message>` fails it with that message.
pub proof fn handshake_reads_replies(message: Seq<char>)
    ensures
        handshake(Some(ack_bytes(AckModel::Accepted))) == Ok::<(), HandshakeErrorModel>(()),
        handshake(Some(ack_bytes(AckModel::Rejected(message)))) == Err::<(), HandshakeErrorModel>(
            HandshakeErrorModel::Refused(message),
        ),
{
    lemma_ack_round_trip(AckModel::Accepted);
    lemma_ack_round_trip(AckModel::Rejected(message));
}

/// The buffer that holds `pending` after `data` is handed to it, and the frame
/// that goes out, if the threshold was reached.
pub open spec fn after_send(pending: Seq<u8>, data: Seq<u8>) -> (Seq<u8>, Option<Seq<u8>>) {
    let all = pending + data;
    if all.len() >= FLUSH_THRESHOLD {
        (Seq::<u8>::empty(), Some(all))
    } else {
        (all, None)
    }
}

pub open spec fn frame_view(f: Option<Bytes>) -> Option<Seq<u8>> {
    match f {
        Some(b) => Some(frame_bytes(b)),
        None => None,
    }
}

/// The buffer's contents, and the frames that went out, after each of
/// `sends` is handed in turn to a buffer that held `pending`.
pub open spec fn send_all(pending: Seq<u8>, sends: Seq<Seq<u8>>) -> (Seq<u8>, Seq<Seq<u8>>)
    decreases sends.len(),
{
    if sends.len() == 0 {
        (pending, seq![])
    } else {
        let before = send_all(pending, sends.drop_last());
        let step = after_send(before.0, sends.last());
        (
            step.0,
            match step.1 {
                Some(f) => before.1.push(f),
                None => before.1,
            },
        )
    }
}

proof fn lemma_send_all(pending: Seq<u8>, sends: Seq<Seq<u8>>)
    ensures
        joined(send_all(pending, sends).1) + send_all(pending, sends).0 == pending + joined(sends),
    decreases sends.len(),
{
    if sends.len() == 0 {
        assert(Seq::<u8>::empty() + pending =~= pending + Seq::<u8>::empty());
    } else {
        lemma_send_all(pending, sends.drop_last());
        let before = send_all(pending, sends.drop_last());
        let all = before.0 + sends.last();
        if all.len() >= FLUSH_THRESHOLD {
            assert(before.1.push(all).drop_last() =~= before.1);
            assert(joined(before.1) + all + Seq::<u8>::empty() =~= pending + joined(
                sends.drop_last(),
            ) + sends.last());
        } else {
            assert(joined(before.1) + all =~= pending + joined(sends.drop_last()) + sends.last());
        }
    }
}

/// Whatever the sizes of the slices handed to `buffered_send`, and wherever
/// the threshold splits them into frames, the frames sent and the final flush
/// carry exactly those slices, one after another, in the order of the calls.
pub proof fn buffering_keeps_bytes_in_order(sends: Seq<Seq<u8>>)
    ensures
        joined(send_all(Seq::<u8>::empty(), sends).1.push(send_all(Seq::<u8>::empty(), sends).0))
            == joined(sends),
{
    let (rest, frames) = send_all(Seq::<u8>::empty(), sends);
    lemma_send_all(Seq::<u8>::empty(), sends);
    assert(frames.push(rest).drop_last() =~= frames);
    assert(Seq::<u8>::empty() + joined(sends) =~= joined(sends));
}

/// One call of `buffered_send` loses, repeats and reorders nothing: if the
/// frames sent so far followed by the buffer were the slices handed in so
/// far, then after one more slice the frames sent followed by the buffer are
/// those slices followed by the new one.
pub proof fn buffered_send_keeps_bytes(sent_frames: Seq<Seq<u8>>, pending: Seq<u8>, data: Seq<u8>)
    ensures
        ({
            let (rest, out) = after_send(pending, data);
            let frames = match out {
                Some(f) => sent_frames.push(f),
                None => sent_frames,
            };
            joined(frames) + rest == joined(sent_frames) + pending + data
        }),
{
    let all = pending + data;
    if all.len() >= FLUSH_THRESHOLD {
        assert(sent_frames.push(all).drop_last() =~= sent_frames);
        assert(joined(sent_frames) + all + Seq::<u8>::empty() =~= joined(sent_frames) + pending
            + data);
    } else {
        assert(joined(sent_frames) + all =~= joined(sent_frames) + pending + data);
    }
}

/// How the bytes are sliced into `buffered_send` calls changes only where
/// frames begin and end: two ways of handing in the same bytes put the same
/// bytes on the wire once flushed.
pub proof fn buffering_ignores_partition(a: Seq<Seq<u8>>, b: Seq<Seq<u8>>)
    requires
        joined(a) == joined(b),
    ensures
        joined(send_all(Seq::<u8>::empty(), a).1.push(send_all(Seq::<u8>::empty(), a).0))
            == joined(send_all(Seq::<u8>::empty(), b).1.push(send_all(Seq::<u8>::empty(), b).0)),
{
    buffering_keeps_bytes_in_order(a);
    buffering_keeps_bytes_in_order(b);
}

proof fn lemma_send_all_sizes(pending: Seq<u8>, sends: Seq<Seq<u8>>)
    requires
        pending.len() < FLUSH_THRESHOLD,
    ensures
        send_all(pending, sends).0.len() < FLUSH_THRESHOLD,
        forall|i: int|
            0 <= i < send_all(pending, sends).1.len() ==> (#[trigger] send_all(
                pending,
                sends,
            ).1[i]).len() >= FLUSH_THRESHOLD,
    decreases sends.len(),
{
    if sends.len() > 0 {
        lemma_send_all_sizes(pending, sends.drop_last());
    }
}

proof fn lemma_joined_len(frames: Seq<Seq<u8>>)
    requires
        forall|i: int| 0 <= i < frames.len() ==> (#[trigger] frames[i]).len() >= FLUSH_THRESHOLD,
    ensures
        joined(frames).len() >= frames.len() * FLUSH_THRESHOLD,
    decreases frames.len(),
{
    if frames.len() > 0 {
        let prev = frames.drop_last();
        assert forall|i: int| 0 <= i < prev.len() implies (#[trigger] prev[i]).len()
            >= FLUSH_THRESHOLD by {
            assert(prev[i] == frames[i]);
        }
        lemma_joined_len(prev);
        assert(frames.last() == frames[frames.len() - 1]);
    }
}

/// An upload of 10 MiB, however it is sliced into `buffered_send` calls,
/// goes out as exactly one frame of at least the threshold from a
/// `buffered_send`, then the flush's frame; the two together are the bytes
/// handed in.
pub proof fn ten_mebibytes_go_out_in_two_frames(sends: Seq<Seq<u8>>)
    requires
        joined(sends).len() == 10485760,
    ensures
        ({
            let (rest, frames) = send_all(Seq::<u8>::empty(), sends);
            &&& frames.len() == 1
            &&& frames[0].len() >= FLUSH_THRESHOLD
            &&& frames[0] + rest == joined(sends)
        }),
{
    let (rest, frames) = send_all(Seq::<u8>::empty(), sends);
    lemma_send_all(Seq::<u8>::empty(), sends);
    lemma_send_all_sizes(Seq::<u8>::empty(), sends);
    lemma_joined_len(frames);
    assert(Seq::<u8>::empty() + joined(sends) =~= joined(sends));
    if frames.len() == 0 {
        assert(joined(frames) =~= Seq::<u8>::empty());
    } else {
        assert(frames.len() == 1) by (nonlinear_arith)
            requires
                frames.len() >= 1,
                joined(frames).len() >= frames.len() * FLUSH_THRESHOLD,
                joined(frames).len() <= 10485760,
        ;
        assert(frames.drop_last() =~= Seq::<Seq<u8>>::empty());
        assert(frames.last() == frames[0]);
        assert(joined(frames.drop_last()) =~= Seq::<u8>::empty());
        assert(joined(frames) =~= frames[0]);
    }
}

/// The caller's state for one connection to the service: the bytes handed
/// to `buffered_send` that have not gone out yet.
pub struct VideoConnection {
    buffer: BytesMut,
}

impl View for VideoConnection {
    type V = Seq<u8>;

    closed spec fn view(&self) -> Seq<u8> {
        buffered(self.buffer)
    }
}

impl VideoConnection {
    /// The buffer never holds a whole frame's worth: reaching the threshold sends it.
    pub open spec fn wf(&self) -> bool {
        self@.len() < FLUSH_THRESHOLD
    }

    /// A connection with an empty buffer.
    pub fn new() -> (r: VideoConnection)
        ensures
            r@ == Seq::<u8>::empty(),
            r.wf(),
    {
        VideoConnection { buffer: BytesMut::with_capacity(BUFFER_CAPACITY) }
    }

    /// The frame that asks the service to store `filename`.
    pub fn start_uploading(&self, filename: &str) -> (r: Vec<u8>)
        ensures
            r@ == command_bytes(CommandModel::Upload(filename@)),
    {
        Command::Upload { filename: filename.to_owned() }.encode()
    }

    /// The frame that asks the service for `filename`.
    pub fn start_recieving(&self, filename: &str) -> (r: Vec<u8>)
        ensures
            r@ == command_bytes(CommandModel::Get(filename@)),
    {
        Command::Get { filename: filename.to_owned() }.encode()
    }

    /// Reads the service's reply to a command: `Ok` exactly when it is `OK`.
    pub fn get_response(reply: Option<&[u8]>) -> (r: Result<(), HandshakeError>)
        ensures
            handshake_view(r) == handshake(
                match reply {
                    Some(b) => Some(b@),
                    None => None,
                },
            ),
    {
        match reply {
            None => Err(HandshakeError::NoResponse),
            Some(b) => match utf8_text(b) {
                None => Err(HandshakeError::NotText),
                Some(text) => match Acknowledgment::parse(text) {
                    Err(e) => Err(HandshakeError::Malformed(e)),
                    Ok(Acknowledgment::Rejected { message }) => Err(HandshakeError::Refused { message }),
                    Ok(Acknowledgment::Accepted) => Ok(()),
                },
            },
        }
    }

    /// Adds `bytes` to the buffer; once it holds the threshold or more, all of
    /// it is returned as one frame to send, and the buffer is emptied.
    pub fn buffered_send(&mut self, bytes: Bytes) -> (r: Option<Bytes>)
        requires
            old(self).wf(),
            frame_bytes(bytes).len() <= isize::MAX - FLUSH_THRESHOLD,
        ensures
            final(self).wf(),
            (final(self)@, frame_view(r)) == after_send(old(self)@, frame_bytes(bytes)),
    {
        let data: &[u8] = &bytes;
        self.buffer.extend_from_slice(data);
        if self.buffer.len() >= FLUSH_THRESHOLD {
            let frame = Bytes::copy_from_slice(&self.buffer);
            self.buffer.clear();
            Some(frame)
        } else {
            None
        }
    }

    /// Returns all that the buffer holds, even nothing, as one frame to send,
    /// and empties it.
    pub fn flush(&mut self) -> (r: Bytes)
        ensures
            frame_bytes(r) == old(self)@,
            final(self)@ == Seq::<u8>::empty(),
            final(self).wf(),
    {
        let frame = Bytes::copy_from_slice(&self.buffer);
        self.buffer.clear();
        frame
    }
}

} // verus!
