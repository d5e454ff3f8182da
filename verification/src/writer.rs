//! Bookkeeping for the send loop that drains response bytes through a sink
//! that may accept only part of the data on each call.
//!
//! The loop itself performs the socket writes and flushes, so it lives with
//! the I/O code around the library; this module holds the loop's verified
//! state: how much of the payload has been sent, how much remains, and the
//! report produced when a write or a flush fails.

use crate::digits::{decimal_chars, decimal_string};
use vstd::prelude::*;
use vstd::string::StringExecFns;

verus! {

/// The progress of one response through the send loop.
pub struct SendProgress {
    pub total: usize,
    pub sent: usize,
}

impl SendProgress {
    /// The state is meaningful while no more than the payload was sent.
    pub open spec fn wf(self) -> bool {
        self.sent <= self.total
    }

    /// Starts a send of `total` bytes.
    pub fn new(total: usize) -> (r: SendProgress)
        ensures
            r.wf(),
            r.total == total,
            r.sent == 0,
    {
        SendProgress { total, sent: 0 }
    }

    /// How many bytes still wait to be written; each write call offers the
    /// unsent suffix, whose length is exactly this.
    pub fn remaining(&self) -> (r: usize)
        requires
            self.wf(),
        ensures
            r == self.total - self.sent,
    {
        self.total - self.sent
    }

    /// True once every byte has been handed to the sink.
    pub fn is_done(&self) -> (r: bool)
        ensures
            r == (self.sent == self.total),
    {
        self.sent == self.total
    }

    /// Accounts for one successful write of `n` bytes.  A write can never
    /// report more bytes than it was offered, so `n` is bounded by what
    /// remained.
    pub fn record_write(&mut self, n: usize)
        requires
            old(self).wf(),
            n <= old(self).total - old(self).sent,
        ensures
            final(self).wf(),
            final(self).total == old(self).total,
            final(self).sent == old(self).sent + n,
    {
        self.sent = self.sent + n;
    }

    /// The report for an aborted send: how many bytes of the total made it
    /// out, and the sink's own account of what went wrong.
    pub fn failure_message(&self, error: &str) -> (r: String)
        ensures
            r@ == "Failed to send data, sent "@ + decimal_chars(self.sent as nat) + "/"@
                + decimal_chars(self.total as nat) + " bytes. Error: "@ + error@,
    {
        let mut s = String::from_str("Failed to send data, sent ");
        let a = decimal_string(self.sent);
        s.append(a.as_str());
        s.append("/");
        let b = decimal_string(self.total);
        s.append(b.as_str());
        s.append(" bytes. Error: ");
        s.append(error);
        proof {
            assert(s@ =~= "Failed to send data, sent "@ + decimal_chars(self.sent as nat) + "/"@
                + decimal_chars(self.total as nat) + " bytes. Error: "@ + error@);
        }
        s
    }
}

/// How many bytes a schedule of per-call write results moves in all.
pub open spec fn counts_total(counts: Seq<nat>) -> nat
    decreases counts.len(),
{
    if counts.len() == 0 {
        0
    } else {
        counts[0] + counts_total(counts.drop_first())
    }
}

/// The bytes a sink receives from the send loop: on each round the loop
/// offers the unsent suffix of `data` and the sink takes the next
/// `counts[k]` bytes of it.
pub open spec fn received_bytes(data: Seq<u8>, sent: nat, counts: Seq<nat>) -> Seq<u8>
    decreases counts.len(),
{
    if counts.len() == 0 {
        Seq::<u8>::empty()
    } else {
        data.subrange(sent as int, (sent + counts[0]) as int) + received_bytes(
            data,
            sent + counts[0],
            counts.drop_first(),
        )
    }
}

/// Whatever sizes the sink accepts call by call, the chunks the loop hands
/// it are consecutive pieces of the payload: once the accepted counts sum to
/// what remained past `sent`, their concatenation is exactly that remainder.
/// Started at zero, the sink has received the whole payload, byte for byte.
pub proof fn lemma_chunks_reassemble_the_payload(data: Seq<u8>, sent: nat, counts: Seq<nat>)
    requires
        sent + counts_total(counts) == data.len(),
    ensures
        received_bytes(data, sent, counts) == data.skip(sent as int),
    decreases counts.len(),
{
    if counts.len() == 0 {
        assert(data.skip(sent as int) =~= Seq::<u8>::empty());
        assert(received_bytes(data, sent, counts) =~= data.skip(sent as int));
    } else {
        let c = counts[0];
        lemma_chunks_reassemble_the_payload(data, sent + c, counts.drop_first());
        assert(data.subrange(sent as int, (sent + c) as int) + data.skip((sent + c) as int)
            =~= data.skip(sent as int));
        assert(received_bytes(data, sent, counts) =~= data.skip(sent as int));
    }
}

/// How much of a `total`-byte payload has been sent after `k` rounds against
/// a sink that takes at most `cap` bytes per call: every round moves `cap`
/// bytes, or whatever remains when that is less.
pub open spec fn sent_after_calls(total: nat, cap: nat, k: nat) -> nat
    decreases k,
{
    if k == 0 {
        0
    } else {
        let prev = sent_after_calls(total, cap, (k - 1) as nat);
        if prev + cap >= total {
            total
        } else {
            prev + cap
        }
    }
}

/// A sink that accepts at least one byte per call still receives the whole
/// payload: the sent count never passes the total, grows by at least one
/// byte per round until done, and reaches the total after at most `total`
/// rounds.
pub proof fn lemma_partial_writes_deliver_everything(total: nat, cap: nat, k: nat)
    requires
        1 <= cap,
    ensures
        sent_after_calls(total, cap, k) <= total,
        sent_after_calls(total, cap, k) >= if k <= total {
            k
        } else {
            total
        },
        k >= total ==> sent_after_calls(total, cap, k) == total,
    decreases k,
{
    if k > 0 {
        lemma_partial_writes_deliver_everything(total, cap, (k - 1) as nat);
    }
}

} // verus!
