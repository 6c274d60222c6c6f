//! The forwarding of one relay stream as a state machine: the task around
//! the library performs the socket work and hands each outcome to
//! `StreamForwarder::step`, which says what to write to the local server and
//! which messages to send back to the relay.

use vstd::prelude::*;

use crate::cli::{host_port_text, LocalTarget};
use crate::error::{forward_error_text, LocalForwardError};
use crate::forward::{
    body_step, error_response, error_response_parts, head_ends_at, head_step, header_pair,
    http_response_parse, parse_response_head, response_head_outcome, response_opening,
    stops_response, BodyStep, MAX_HEADER_BUF,
};
use crate::protocol::{Message, Payload, ResponseErrorCode, StreamMessage, PROTOCOL_VERSION};

verus! {

/// Where the forwarding of a stream stands.
#[derive(Debug, Clone, Copy, PartialEq, Eq, Structural)]
pub enum ForwardPhase {
    /// Passing the request body from the relay to the local server.
    SendingBody,
    /// Reading the head of the local server's response.
    ReadingHead,
    /// Passing the response body back to the relay.
    StreamingBody,
    /// Nothing more is sent for this stream.
    Finished,
}

/// The outcome of the last piece of outside work.
pub enum ForwardEvent {
    /// The relay's next message for the stream (`None`: its channel closed).
    Relay(Option<StreamMessage>),
    /// A read from the local server returned these bytes (empty at its end).
    Read(Vec<u8>),
    /// Connecting to, writing to or reading from the local server failed.
    Failed(LocalForwardError),
}

/// What to do after a step: the messages to send to the relay, bytes to
/// write to the local server, and whether to close the writing half.
pub struct ForwardStep {
    pub send: Vec<Message>,
    pub write: Option<Vec<u8>>,
    pub close_write: bool,
}

/// The forwarding of one stream to the local target.
pub struct StreamForwarder {
    pub stream_id: u64,
    pub target: LocalTarget,
    pub phase: ForwardPhase,
    /// The bytes of the response head read so far.
    pub head: Vec<u8>,
}

/// The payloads of a list of messages.
pub open spec fn payloads(ms: Seq<Message>) -> Seq<Payload> {
    ms.map_values(|m: Message| m.payload)
}

/// Whether every message speaks this protocol version.
pub open spec fn all_current(ms: Seq<Message>) -> bool {
    forall|i: int| 0 <= i < ms.len() ==> (#[trigger] ms[i]).version == PROTOCOL_VERSION
}

/// Whether `p` is a response message of stream `id`.
pub open spec fn of_stream(p: Payload, id: u64) -> bool {
    match p {
        Payload::ResponseStart { stream_id, .. } => stream_id == id,
        Payload::ResponseChunk { stream_id, .. } => stream_id == id,
        Payload::ResponseEnd { stream_id } => stream_id == id,
        Payload::ResponseError { stream_id, .. } => stream_id == id,
        _ => false,
    }
}

/// Whether `p` is the `ResponseError` of stream `id` with the message `text`
/// and the code for any error other than a refused connection.
pub open spec fn is_io_error_reply(p: Payload, id: u64, text: Seq<char>) -> bool {
    p matches Payload::ResponseError { stream_id, code, message } && stream_id == id && code
        == ResponseErrorCode::LocalIoError && message@ == text
}

/// What the step after `Failed(e)` sends: the error reply for `e`.
pub open spec fn is_error_reply(p: Payload, id: u64, e: LocalForwardError) -> bool {
    p matches Payload::ResponseError { stream_id, code, message } && stream_id == id && (
    code,
    message@,
    ) == error_response_parts(e)
}

/// The text of a `ResponseParse` error on `label` for `why`.
pub open spec fn parse_error_text(label: Seq<char>, why: Seq<char>) -> Seq<char> {
    "failed to parse local HTTP response from "@ + label + ": "@ + why
}

/// The phases a step may move between, with the kinds of the messages it
/// sends on the way, all of them for stream `id`.
pub open spec fn forward_transition(
    from: ForwardPhase,
    to: ForwardPhase,
    sent: Seq<Payload>,
    id: u64,
) -> bool {
    &&& forall|i: int| 0 <= i < sent.len() ==> of_stream(#[trigger] sent[i], id)
    &&& match from {
        ForwardPhase::SendingBody => ((to is SendingBody || to is ReadingHead) && sent.len() == 0)
            || (to is Finished && (sent.len() == 0 || (sent.len() == 1
            && sent[0] is ResponseError))),
        ForwardPhase::ReadingHead => (to is ReadingHead && sent.len() == 0) || (to is Finished
            && sent.len() == 1 && sent[0] is ResponseError) || (to is StreamingBody && 1
            <= sent.len() <= 2 && sent[0] is ResponseStart && (sent.len() == 2
            ==> sent[1] is ResponseChunk)),
        ForwardPhase::StreamingBody => (to is StreamingBody && (sent.len() == 0 || (sent.len()
            == 1 && sent[0] is ResponseChunk))) || (to is Finished && (sent.len() == 0 || (
        sent.len() == 1 && (sent[0] is ResponseEnd || sent[0] is ResponseError)))),
        ForwardPhase::Finished => to is Finished && sent.len() == 0,
    }
}

impl StreamForwarder {
    fn read_head(&mut self, chunk: Vec<u8>, out: &mut ForwardStep)
        requires
            old(self).phase is ReadingHead,
            old(out).send@.len() == 0,
            old(out).write is None,
            !old(out).close_write,
        ensures
            final(self).stream_id == old(self).stream_id,
            final(self).target == old(self).target,
            final(out).write is None,
            !final(out).close_write,
            all_current(final(out).send@),
            forward_transition(
                ForwardPhase::ReadingHead,
                final(self).phase,
                payloads(final(out).send@),
                old(self).stream_id,
            ),
            ({
                        let label = host_port_text(old(self).target.host@, old(self).target.port);
                        let raw = final(self).head@;
                        if chunk@.len() == 0 {
                            final(self).phase is Finished && final(out).send@.len() == 1
                                && is_io_error_reply(
                                final(out).send@[0].payload,
                                old(self).stream_id,
                                "unexpected local stream end on "@ + label,
                            )
                        } else {
                            &&& raw == old(self).head@ + chunk@
                            &&& (forall|j: int| !head_ends_at(raw, j)) && raw.len()
                                <= MAX_HEADER_BUF ==> final(self).phase is ReadingHead
                                && final(out).send@.len() == 0
                            &&& (forall|j: int| !head_ends_at(raw, j)) && raw.len()
                                > MAX_HEADER_BUF ==> final(self).phase is Finished
                                && final(out).send@.len() == 1 && is_io_error_reply(
                                final(out).send@[0].payload,
                                old(self).stream_id,
                                parse_error_text(label, "HTTP response headers exceed 8 KiB limit"@),
                            )
                            &&& forall|e: int|
                                head_ends_at(raw, e) && (forall|j: int|
                                    0 <= j < e ==> !head_ends_at(raw, j)) ==> match
                                    #[trigger] response_head_outcome(
                                    http_response_parse(raw.subrange(0, e)),
                                    raw,
                                    e,
                                ) {
                                    Ok((code, hs, body)) => {
                                        &&& final(self).phase is StreamingBody
                                        &&& final(out).send@.len() == (if body.len() > 0 {
                                            2int
                                        } else {
                                            1int
                                        })
                                        &&& final(out).send@[0].payload matches Payload::ResponseStart {
                                            stream_id,
                                            status_code,
                                            headers,
                                        } && stream_id == old(self).stream_id && status_code
                                            == code && headers@.map_values(
                                            |h: crate::protocol::Header| header_pair(h),
                                        ) == hs
                                        &&& body.len() > 0 ==> (
                                        final(out).send@[1].payload matches Payload::ResponseChunk {
                                            stream_id,
                                            data,
                                        } && stream_id == old(self).stream_id && data@ == body)
                                    },
                                    Err(why) => final(self).phase is Finished && final(out).send@.len()
                                        == 1 && is_io_error_reply(
                                        final(out).send@[0].payload,
                                        old(self).stream_id,
                                        parse_error_text(label, why),
                                    ),
                                }
                        }
                                }),
    {
        let id = self.stream_id;
        match head_step(&mut self.head, chunk.as_slice(), &self.target) {
            Err(e) => {
                out.send.push(error_response(id, &e));
                self.phase = ForwardPhase::Finished;
            },
            Ok(None) => {},
            Ok(Some(end)) => {
                let ghost raw = self.head@;
                assert forall|e: int|
                    head_ends_at(raw, e) && (forall|j: int| 0 <= j < e ==> !head_ends_at(raw, j))
                        implies e == end by {
                    if e < end {
                        assert(!head_ends_at(raw, e));
                    }
                    if e > end {
                        assert(!head_ends_at(raw, end as int));
                    }
                }
                match parse_response_head(self.head.as_slice(), end, &self.target) {
                    Err(e) => {
                        out.send.push(error_response(id, &e));
                        self.phase = ForwardPhase::Finished;
                    },
                    Ok((code, hs, body)) => {
                        out.send = response_opening(id, code, hs, body);
                        self.phase = ForwardPhase::StreamingBody;
                    },
                }
            },
        }
    }

    /// A stream that starts with its request body.
    pub fn new(stream_id: u64, target: LocalTarget) -> (f: Self)
        ensures
            f.stream_id == stream_id,
            f.target == target,
            f.phase == ForwardPhase::SendingBody,
            f.head@.len() == 0,
    {
        StreamForwarder { stream_id, target, phase: ForwardPhase::SendingBody, head: Vec::new() }
    }

    /// Takes the outcome of the last piece of outside work and decides the
    /// next one.
    ///
    /// - While the body is sent, each relay message is handled as
    ///   `body_step` says: a chunk is written, the end closes the writing
    ///   half and the response head is read next, a reset, a cancel or a
    ///   closed channel ends the stream silently.
    /// - Each read of the head is handled as `head_step` says; a complete
    ///   head is parsed, and its status, headers and the body bytes read with
    ///   it are sent back, or the parse error.
    /// - Each read of the body is sent back as a chunk; the end of the body
    ///   sends `ResponseEnd`. A reset or a cancel ends the stream silently.
    /// - A failure of the outside work sends the one `ResponseError`.
    /// - Once finished, nothing more happens.
    pub fn step(&mut self, event: ForwardEvent) -> (s: ForwardStep)
        ensures
            final(self).stream_id == old(self).stream_id,
            final(self).target == old(self).target,
            all_current(s.send@),
            forward_transition(
                old(self).phase,
                final(self).phase,
                payloads(s.send@),
                old(self).stream_id,
            ),
            old(self).phase is Finished ==> s.send@.len() == 0 && s.write is None
                && !s.close_write,
            (s.write is Some || s.close_write) ==> old(self).phase is SendingBody,
            old(self).phase !is Finished ==> match event {
                ForwardEvent::Failed(e) => final(self).phase is Finished && s.send@.len() == 1
                    && is_error_reply(s.send@[0].payload, old(self).stream_id, e),
                ForwardEvent::Relay(m) => match old(self).phase {
                    ForwardPhase::SendingBody => s.send@.len() == 0 && match m {
                        Some(StreamMessage::Payload(Payload::RequestChunk { data, .. })) => (
                        s.write matches Some(d) && d@ == data@) && !s.close_write
                            && final(self).phase is SendingBody,
                        Some(StreamMessage::Payload(Payload::RequestEnd { .. })) => s.write is None
                            && s.close_write && final(self).phase is ReadingHead,
                        Some(StreamMessage::Payload(Payload::StreamReset { .. }))
                        | Some(StreamMessage::Cancel)
                        | None => s.write is None && !s.close_write
                            && final(self).phase is Finished,
                        _ => s.write is None && !s.close_write && final(self).phase is SendingBody,
                    },
                    ForwardPhase::StreamingBody => s.send@.len() == 0 && match m {
                        Some(msg) => (final(self).phase is Finished) == (msg is Cancel || (
                        msg matches StreamMessage::Payload(Payload::StreamReset { .. })))
                            && (final(self).phase is Finished || final(self).phase
                            is StreamingBody),
                        None => final(self).phase is StreamingBody,
                    },
                    _ => s.send@.len() == 0 && final(self).phase == old(self).phase,
                },
                ForwardEvent::Read(chunk) => match old(self).phase {
                    ForwardPhase::StreamingBody => if chunk@.len() == 0 {
                        final(self).phase is Finished && s.send@.len() == 1 && (
                        s.send@[0].payload matches Payload::ResponseEnd { stream_id }
                            && stream_id == old(self).stream_id)
                    } else {
                        final(self).phase is StreamingBody && s.send@.len() == 1 && (
                        s.send@[0].payload matches Payload::ResponseChunk { stream_id, data }
                            && stream_id == old(self).stream_id && data@ == chunk@)
                    },
                    ForwardPhase::ReadingHead => {
                        let label = host_port_text(old(self).target.host@, old(self).target.port);
                        let raw = final(self).head@;
                        if chunk@.len() == 0 {
                            final(self).phase is Finished && s.send@.len() == 1
                                && is_io_error_reply(
                                s.send@[0].payload,
                                old(self).stream_id,
                                "unexpected local stream end on "@ + label,
                            )
                        } else {
                            &&& raw == old(self).head@ + chunk@
                            &&& (forall|j: int| !head_ends_at(raw, j)) && raw.len()
                                <= MAX_HEADER_BUF ==> final(self).phase is ReadingHead
                                && s.send@.len() == 0
                            &&& (forall|j: int| !head_ends_at(raw, j)) && raw.len()
                                > MAX_HEADER_BUF ==> final(self).phase is Finished
                                && s.send@.len() == 1 && is_io_error_reply(
                                s.send@[0].payload,
                                old(self).stream_id,
                                parse_error_text(label, "HTTP response headers exceed 8 KiB limit"@),
                            )
                            &&& forall|e: int|
                                head_ends_at(raw, e) && (forall|j: int|
                                    0 <= j < e ==> !head_ends_at(raw, j)) ==> match
                                    #[trigger] response_head_outcome(
                                    http_response_parse(raw.subrange(0, e)),
                                    raw,
                                    e,
                                ) {
                                    Ok((code, hs, body)) => {
                                        &&& final(self).phase is StreamingBody
                                        &&& s.send@.len() == (if body.len() > 0 {
                                            2int
                                        } else {
                                            1int
                                        })
                                        &&& s.send@[0].payload matches Payload::ResponseStart {
                                            stream_id,
                                            status_code,
                                            headers,
                                        } && stream_id == old(self).stream_id && status_code
                                            == code && headers@.map_values(
                                            |h: crate::protocol::Header| header_pair(h),
                                        ) == hs
                                        &&& body.len() > 0 ==> (
                                        s.send@[1].payload matches Payload::ResponseChunk {
                                            stream_id,
                                            data,
                                        } && stream_id == old(self).stream_id && data@ == body)
                                    },
                                    Err(why) => final(self).phase is Finished && s.send@.len()
                                        == 1 && is_io_error_reply(
                                        s.send@[0].payload,
                                        old(self).stream_id,
                                        parse_error_text(label, why),
                                    ),
                                }
                        }
                    },
                    _ => s.send@.len() == 0 && final(self).phase == old(self).phase,
                },
            },
    {
        let id = self.stream_id;
        let mut out = ForwardStep { send: Vec::new(), write: None, close_write: false };
        match self.phase {
            ForwardPhase::Finished => {
                return out;
            },
            _ => {},
        }
        match event {
            ForwardEvent::Failed(e) => {
                out.send.push(error_response(id, &e));
                self.phase = ForwardPhase::Finished;
            },
            ForwardEvent::Relay(m) => {
                match self.phase {
                    ForwardPhase::SendingBody => {
                        match body_step(m) {
                            BodyStep::Write(d) => {
                                out.write = Some(d);
                            },
                            BodyStep::Finish => {
                                out.close_write = true;
                                self.phase = ForwardPhase::ReadingHead;
                            },
                            BodyStep::Abort => {
                                self.phase = ForwardPhase::Finished;
                            },
                            BodyStep::Skip => {},
                        }
                    },
                    ForwardPhase::StreamingBody => {
                        match &m {
                            Some(msg) => {
                                if stops_response(msg) {
                                    self.phase = ForwardPhase::Finished;
                                }
                            },
                            None => {},
                        }
                    },
                    _ => {},
                }
            },
            ForwardEvent::Read(chunk) => {
                match self.phase {
                    ForwardPhase::StreamingBody => {
                        if chunk.len() == 0 {
                            out.send.push(Message::new(Payload::ResponseEnd { stream_id: id }));
                            self.phase = ForwardPhase::Finished;
                        } else {
                            out.send.push(
                                Message::new(Payload::ResponseChunk { stream_id: id, data: chunk }),
                            );
                        }
                    },
                    ForwardPhase::ReadingHead => {
                        self.read_head(chunk, &mut out);
                    },
                    _ => {},
                }
            },
        }
        out
    }
}

/// The messages sent for a stream, batch after batch.
pub open spec fn all_sent(batches: Seq<Seq<Payload>>) -> Seq<Payload>
    decreases batches.len(),
{
    if batches.len() == 0 {
        Seq::empty()
    } else {
        all_sent(batches.drop_last()) + batches.last()
    }
}

/// The shape of what a stream has sent back in each phase: nothing before the
/// response head; then `ResponseStart` and chunks; once finished, also
/// either nothing at all, a lone `ResponseError`, or the start and chunks
/// closed by at most one `ResponseEnd` or `ResponseError`.
pub open spec fn reply_shape(phase: ForwardPhase, ps: Seq<Payload>, id: u64) -> bool {
    let streamed = ps.len() >= 1 && ps[0] is ResponseStart && forall|i: int|
        1 <= i < ps.len() ==> (#[trigger] ps[i]) is ResponseChunk;
    let closed = ps.len() >= 2 && ps[0] is ResponseStart && (forall|i: int|
        1 <= i < ps.len() - 1 ==> (#[trigger] ps[i]) is ResponseChunk) && (ps.last() is ResponseEnd
        || ps.last() is ResponseError);
    &&& forall|i: int| 0 <= i < ps.len() ==> of_stream(#[trigger] ps[i], id)
    &&& match phase {
        ForwardPhase::SendingBody | ForwardPhase::ReadingHead => ps.len() == 0,
        ForwardPhase::StreamingBody => streamed,
        ForwardPhase::Finished => ps.len() == 0 || (ps.len() == 1 && ps[0] is ResponseError)
            || streamed || closed,
    }
}

proof fn lemma_reply_step(
    from: ForwardPhase,
    to: ForwardPhase,
    before: Seq<Payload>,
    sent: Seq<Payload>,
    id: u64,
)
    requires
        reply_shape(from, before, id),
        forward_transition(from, to, sent, id),
    ensures
        reply_shape(to, before + sent, id),
{
    let all = before + sent;
    assert forall|i: int| 0 <= i < all.len() implies of_stream(#[trigger] all[i], id) by {
        if i < before.len() {
            assert(all[i] == before[i]);
        } else {
            assert(all[i] == sent[i - before.len()]);
        }
    }
    if sent.len() == 0 {
        assert(all =~= before);
    } else {
        assert forall|i: int| 0 <= i < sent.len() implies all[before.len() + i] == sent[i] by {}
        assert(all.last() == sent.last());
        if before.len() > 0 {
            assert(all[0] == before[0]);
        }
        assert forall|i: int| 1 <= i < before.len() implies all[i] == before[i] by {}
    }
}

/// Whatever happens to a stream, the messages it sends back to the relay
/// keep their order: `ResponseStart`, then body chunks, then at most one of
/// `ResponseEnd` and `ResponseError`, which ends the reply; or a lone
/// `ResponseError`; or nothing when the relay cancels before the response.
/// Every message carries the stream's id, and once the stream is finished
/// nothing more is sent. `phases` are the phases a forwarder passes through
/// from its start and `batches` what its steps sent on the way, each step
/// keeping to `forward_transition` as `StreamForwarder::step` promises.
pub proof fn lemma_stream_reply_order(
    phases: Seq<ForwardPhase>,
    batches: Seq<Seq<Payload>>,
    id: u64,
)
    requires
        phases.len() == batches.len() + 1,
        phases[0] == ForwardPhase::SendingBody,
        forall|i: int|
            0 <= i < batches.len() ==> forward_transition(
                phases[i],
                phases[i + 1],
                #[trigger] batches[i],
                id,
            ),
    ensures
        reply_shape(phases.last(), all_sent(batches), id),
    decreases batches.len(),
{
    if batches.len() == 0 {
        assert(all_sent(batches) =~= Seq::<Payload>::empty());
    } else {
        let n = batches.len() - 1;
        let ps = phases.drop_last();
        let bs = batches.drop_last();
        assert forall|i: int| 0 <= i < bs.len() implies forward_transition(
            ps[i],
            ps[i + 1],
            #[trigger] bs[i],
            id,
        ) by {
            assert(bs[i] == batches[i]);
            assert(ps[i] == phases[i] && ps[i + 1] == phases[i + 1]);
        }
        lemma_stream_reply_order(ps, bs, id);
        assert(ps.last() == phases[n]);
        assert(forward_transition(phases[n], phases[n + 1], batches[n], id));
        lemma_reply_step(phases[n], phases[n + 1], all_sent(bs), batches[n], id);
    }
}

} // verus!
