//! Notification relay decisions.
//!
//! Producers hand notification messages to the relay without ever
//! blocking; a forwarding stage decides, message by message, whether to
//! attempt delivery or to drop.  Text messages carrying the transient
//! network-failure marker are flood-suppressed: only every Nth one is
//! forwarded.  All other messages are always attempted; when the
//! bounded hand-off toward the slow delivery worker times out, the
//! caller drops that single message and moves on.  This module holds
//! the decisions; queues, threads and the delivery transport stay with
//! the caller.

use vstd::prelude::*;
use crate::tool::{contains_seq, contains_str};

verus! {

/// A notification message.
#[derive(Debug)]
pub enum SendType {
    /// Plain text.
    Msg(String),
    /// A file, by path.
    File(String),
    /// A file with an optional caption.
    FileWarpMsg((String, Option<String>)),
    /// Several files with an optional caption on the last one.
    FilesWarpMsg(Vec<String>, Option<String>),
}

/// How many marker messages pass silently before one is forwarded.
pub const DEFAULT_SUPPRESSION_THRESHOLD: u64 = 100;

/// The text marker of a transient network failure; notifications that
/// carry it recur far faster than an operator needs to hear of them.
pub open spec fn transient_marker() -> Seq<char> {
    "timed out"@
}

/// Whether a message is flood-suppressed text: plain text carrying the
/// transient-failure marker.
pub open spec fn is_marker_text(message: SendType) -> bool {
    match message {
        SendType::Msg(body) => contains_seq(body@, transient_marker()),
        _ => false,
    }
}

/// One suppression decision: a non-marker message always goes through
/// and leaves the counter alone; a marker message bumps the counter,
/// and only the one that reaches the threshold is forwarded, resetting
/// the counter.  The result is the new counter and whether to forward.
pub open spec fn filter_step(suppressed: u64, threshold: u64, marker: bool) -> (u64, bool)
    recommends
        suppressed < threshold,
{
    if !marker {
        (suppressed, true)
    } else if suppressed + 1 >= threshold {
        (0u64, true)
    } else {
        ((suppressed + 1) as u64, false)
    }
}

/// Flood-suppression state of the forwarding stage.
pub struct RelayFilter {
    /// Marker messages dropped since the last forwarded one.
    pub suppressed: u64,
    /// Every `threshold`-th marker message is forwarded.
    pub threshold: u64,
}

impl RelayFilter {
    /// The counter always stays below the threshold.
    pub open spec fn wf(self) -> bool {
        self.suppressed < self.threshold
    }

    /// A fresh filter forwarding every `threshold`-th marker message.
    pub fn new(threshold: u64) -> (f: RelayFilter)
        requires
            threshold >= 1,
        ensures
            f.threshold == threshold,
            f.suppressed == 0,
            f.wf(),
    {
        RelayFilter { suppressed: 0, threshold }
    }

    /// A fresh filter with the default threshold.
    pub fn standard() -> (f: RelayFilter)
        ensures
            f.threshold == DEFAULT_SUPPRESSION_THRESHOLD,
            f.suppressed == 0,
            f.wf(),
    {
        RelayFilter { suppressed: 0, threshold: DEFAULT_SUPPRESSION_THRESHOLD }
    }

    /// Decide whether to attempt delivery of `message`.  Files and
    /// non-marker text are always attempted; marker text is forwarded
    /// only once per `threshold` occurrences.  The counter survives
    /// idle gaps: it resets only when a marker message is forwarded.
    pub fn should_forward(&mut self, message: &SendType) -> (forward: bool)
        requires
            old(self).wf(),
        ensures
            final(self).threshold == old(self).threshold,
            final(self).wf(),
            (final(self).suppressed, forward) == filter_step(
                old(self).suppressed,
                old(self).threshold,
                is_marker_text(*message),
            ),
    {
        match message {
            SendType::Msg(body) => {
                if contains_str(body.as_str(), "timed out") {
                    if self.suppressed + 1 >= self.threshold {
                        self.suppressed = 0;
                        true
                    } else {
                        self.suppressed = self.suppressed + 1;
                        false
                    }
                } else {
                    true
                }
            },
            _ => true,
        }
    }
}

/// How many of `count` consecutive marker messages are forwarded,
/// starting from a counter of `suppressed`.
pub open spec fn forwarded_in_burst(suppressed: u64, threshold: u64, count: nat) -> nat
    decreases count,
{
    if count == 0 {
        0
    } else {
        let (next, fwd) = filter_step(suppressed, threshold, true);
        (if fwd {
            1nat
        } else {
            0nat
        }) + forwarded_in_burst(next, threshold, (count - 1) as nat)
    }
}

/// Law: a burst of `count` marker messages gets exactly
/// `(suppressed + count) / threshold` of them forwarded -- with a fresh
/// filter, `count / threshold`, one at each multiple of the threshold;
/// all others are dropped.
pub proof fn lemma_burst_forwards_every_nth(suppressed: u64, threshold: u64, count: nat)
    requires
        suppressed < threshold,
    ensures
        forwarded_in_burst(suppressed, threshold, count) == (suppressed + count) as int
            / threshold as int,
    decreases count,
{
    let t = threshold as int;
    if count == 0 {
        vstd::arithmetic::div_mod::lemma_basic_div(suppressed as int, t);
    } else {
        let (next, fwd) = filter_step(suppressed, threshold, true);
        lemma_burst_forwards_every_nth(next, threshold, (count - 1) as nat);
        if suppressed + 1 >= threshold {
            assert(suppressed + 1 == threshold);
            assert(forwarded_in_burst(suppressed, threshold, count) == 1 + (count - 1) as int / t);
            vstd::arithmetic::div_mod::lemma_div_plus_one((count - 1) as int, t);
            assert(suppressed + count == t + (count - 1));
        } else {
            assert(forwarded_in_burst(suppressed, threshold, count) == (next + (count - 1)) as int
                / t);
            assert(next + (count - 1) == suppressed + count);
        }
    }
}

/// Split `text` into consecutive chunks of `max_length` characters;
/// the last chunk carries the remainder.  Empty text yields no chunks.
/// The caller numbers the chunks and hands them to a transport whose
/// message size is capped.
pub fn split_message(text: &str, max_length: usize) -> (parts: Vec<String>)
    requires
        max_length >= 1,
    ensures
        forall|i: int|
            0 <= i < parts@.len() ==> (#[trigger] parts@[i])@ == text@.subrange(
                i * max_length,
                if (i + 1) * max_length <= text@.len() {
                    (i + 1) * max_length
                } else {
                    text@.len() as int
                },
            ),
        text@.len() == 0 ==> parts@.len() == 0,
        text@.len() > 0 ==> (parts@.len() - 1) * max_length < text@.len() <= parts@.len()
            * max_length,
{
    let n = text.unicode_len();
    let mut parts: Vec<String> = Vec::new();
    let mut start: usize = 0;
    proof {
        assert(parts@.len() == 0);
        assert(parts@.len() * max_length == 0) by (nonlinear_arith)
            requires
                parts@.len() == 0,
        ;
    }
    while start < n
        invariant
            n == text@.len(),
            max_length >= 1,
            start <= n,
            start == if parts@.len() * max_length <= n {
                (parts@.len() * max_length) as int
            } else {
                n as int
            },
            parts@.len() > 0 ==> (parts@.len() - 1) * max_length < n,
            forall|i: int|
                0 <= i < parts@.len() ==> (#[trigger] parts@[i])@ == text@.subrange(
                    i * max_length,
                    if (i + 1) * max_length <= n {
                        (i + 1) * max_length
                    } else {
                        n as int
                    },
                ),
        decreases n - start,
    {
        let remaining = n - start;
        let end = if remaining > max_length {
            start + max_length
        } else {
            n
        };
        let chunk_ref = text.substring_char(start, end);
        let chunk = chunk_ref.to_owned();
        let ghost done = parts@.len() as int;
        parts.push(chunk);
        proof {
            assert(start == done * max_length) by {
                assert(start < n);
            }
            assert((done + 1) * max_length == done * max_length + max_length) by (nonlinear_arith);
            assert(parts@[done]@ == text@.subrange(
                done * max_length,
                if (done + 1) * max_length <= n {
                    (done + 1) * max_length
                } else {
                    n as int
                },
            ));
        }
        start = end;
    }
    proof {
        if n > 0 {
            assert(parts@.len() > 0);
            assert(n <= parts@.len() * max_length);
        }
    }
    parts
}

} // verus!
