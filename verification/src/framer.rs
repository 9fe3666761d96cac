//! The transport framer: one request/response exchange over a freshly
//! opened serial connection, with the retry policy in one place. The
//! framer itself performs no I/O — the caller opens the port, writes the
//! line the framer hands out, and feeds read outcomes back in; the framer
//! decides what happens next.
//!
//! Policy: a failed port open gives up at once; an undecodable reply is a
//! protocol mismatch and gives up at once; a failed read is retried until
//! `MAX_READ_ATTEMPTS` reads have failed in all.

use vstd::prelude::*;
use crate::wire::{
    enc_request, encode_request, spec_decode_response, decode_response, resp_opt_view, Request,
    RespView, Response,
};

verus! {

broadcast use vstd::string::group_string_axioms;

/// Total read attempts on one exchange before the framer gives up.
pub const MAX_READ_ATTEMPTS: u32 = 2;

/// Symbol rate of every connection the framer describes.
pub const BAUD_RATE: u32 = 115200;

/// Read timeout the caller should configure, in milliseconds.
pub const READ_TIMEOUT_MS: u64 = 5000;

/// What the framer waits for next.
#[derive(Clone, Copy, Debug, PartialEq, Eq, Structural)]
pub enum FramerState {
    /// The connection is being opened.
    Opening,
    /// The request was written; a reply line is awaited.
    AwaitingReply,
    /// The exchange ended, successfully or not.
    Finished,
}

/// One request/response exchange in progress.
pub struct TransportFramer {
    request_line: String,
    state: FramerState,
    failed_reads: u32,
    reply: Option<Response>,
}

impl TransportFramer {
    /// The line to write once the connection is open: the encoded request
    /// and its terminator.
    pub closed spec fn line(self) -> Seq<char> {
        self.request_line@
    }

    pub closed spec fn state(self) -> FramerState {
        self.state
    }

    /// How many reads have failed so far.
    pub closed spec fn failed_reads(self) -> int {
        self.failed_reads as int
    }

    /// The decoded reply of a finished exchange, `None` on any failure.
    pub closed spec fn reply(self) -> Option<Response> {
        self.reply
    }

    /// The reply's mathematical shape.
    pub open spec fn reply_view(self) -> Option<RespView> {
        resp_opt_view(self.reply())
    }

    /// The exchange one more failed read leads to: below the attempt
    /// budget the framer keeps waiting, at the budget it gives up with no
    /// reply.
    pub closed spec fn after_read_failure(self) -> TransportFramer {
        if self.failed_reads + 1 >= MAX_READ_ATTEMPTS {
            TransportFramer {
                state: FramerState::Finished,
                failed_reads: (self.failed_reads + 1) as u32,
                ..self
            }
        } else {
            TransportFramer { failed_reads: (self.failed_reads + 1) as u32, ..self }
        }
    }

    /// A fresh exchange for one request: nothing read, nothing decided.
    pub fn new(request: &Request) -> (f: Self)
        ensures
            f.state() is Opening,
            f.failed_reads() == 0,
            f.reply() is None,
            f.line() == enc_request(request@).push('\n'),
    {
        proof {
            reveal_strlit("\n");
        }
        let mut line = encode_request(request);
        line.append("\n");
        proof {
            assert(line@ =~= enc_request(request@).push('\n'));
        }
        TransportFramer {
            request_line: line,
            state: FramerState::Opening,
            failed_reads: 0,
            reply: None,
        }
    }

    /// The line the caller writes after opening the connection.
    pub fn line_to_send(&self) -> (r: &str)
        ensures
            r@ == self.line(),
    {
        self.request_line.as_str()
    }

    /// The port could not be opened: give up at once, no retry.
    pub fn on_open_failed(&mut self)
        requires
            old(self).state() is Opening,
        ensures
            final(self).state() is Finished,
            final(self).reply() is None,
            final(self).failed_reads() == old(self).failed_reads(),
    {
        self.reply = None;
        self.state = FramerState::Finished;
    }

    /// The port opened and the request line was written: await the reply.
    pub fn on_sent(&mut self)
        requires
            old(self).state() is Opening,
        ensures
            final(self).state() is AwaitingReply,
            final(self).reply() == old(self).reply(),
            final(self).failed_reads() == old(self).failed_reads(),
    {
        self.state = FramerState::AwaitingReply;
    }

    /// A reply line arrived: decode it and finish. An undecodable line is
    /// a protocol mismatch, not a transient fault — it is not retried.
    pub fn on_reply_line(&mut self, line: &str)
        requires
            old(self).state() is AwaitingReply,
        ensures
            final(self).state() is Finished,
            final(self).reply_view() == spec_decode_response(line@),
            final(self).failed_reads() == old(self).failed_reads(),
    {
        self.reply = decode_response(line);
        self.state = FramerState::Finished;
    }

    /// A read timed out or failed: count it, and give up once the budget
    /// of `MAX_READ_ATTEMPTS` is spent.
    pub fn on_read_failed(&mut self)
        requires
            old(self).state() is AwaitingReply,
            old(self).failed_reads() < MAX_READ_ATTEMPTS,
        ensures
            *final(self) == old(self).after_read_failure(),
            final(self).failed_reads() == old(self).failed_reads() + 1,
            final(self).reply() == old(self).reply(),
            final(self).state() == if old(self).failed_reads() + 1 >= MAX_READ_ATTEMPTS {
                FramerState::Finished
            } else {
                FramerState::AwaitingReply
            },
    {
        self.failed_reads = self.failed_reads + 1;
        if self.failed_reads >= MAX_READ_ATTEMPTS {
            self.state = FramerState::Finished;
        }
    }

    /// Whether the exchange has ended.
    pub fn is_finished(&self) -> (r: bool)
        ensures
            r == (self.state() is Finished),
    {
        match self.state {
            FramerState::Finished => true,
            _ => false,
        }
    }

    /// The reply of a finished exchange; `None` stands for every failure:
    /// an unopenable port, an exhausted read budget, an undecodable reply.
    pub fn into_reply(self) -> (r: Option<Response>)
        requires
            self.state() is Finished,
        ensures
            r == self.reply(),
    {
        self.reply
    }
}

/// A port that never answers exhausts the framer after exactly two failed
/// reads: after the first it still awaits a reply, after the second it
/// has given up, and the exchange yields no response.
pub proof fn lemma_silent_port_gives_up_after_two_reads(f: TransportFramer)
    requires
        f.state() is AwaitingReply,
        f.failed_reads() == 0,
        f.reply() is None,
    ensures
        f.after_read_failure().state() is AwaitingReply,
        f.after_read_failure().after_read_failure().state() is Finished,
        f.after_read_failure().after_read_failure().reply() is None,
{
}

} // verus!
