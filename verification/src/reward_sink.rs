//! The reward sink's formatting and batching rules.
//!
//! A single background consumer drains a bounded channel of per-step reward
//! vectors and appends each as one text line to an append-only log. Writing
//! is batched: lines gather in a buffer that is handed to the writer after
//! every full batch, or whenever the channel is momentarily empty, and once
//! more when the sender side is gone. The channel, the file and the clock
//! live with the caller; the line format and the batching state live here,
//! and the sink's invariant says that no line is ever lost or reordered.

use vstd::prelude::*;
use vstd::string::StringExecFns;

verus! {

/// Flush whenever this many lines have gathered since the last flush.
pub const FLUSH_BATCH: usize = 1000;

/// The views of a batch of lines.
pub open spec fn lines_of(batch: Seq<String>) -> Seq<Seq<char>> {
    batch.map_values(|s: String| s@)
}

/// The parts joined with `", "` between them.
pub open spec fn joined(parts: Seq<Seq<char>>) -> Seq<char>
    decreases parts.len(),
{
    if parts.len() == 0 {
        Seq::empty()
    } else if parts.len() == 1 {
        parts.first()
    } else {
        joined(parts.drop_last()) + ", "@ + parts.last()
    }
}

/// One reward log line: the per-agent reward texts, comma separated, in
/// brackets.
pub open spec fn reward_line(parts: Seq<Seq<char>>) -> Seq<char> {
    "["@ + joined(parts) + "]"@
}

/// Formats one log line from the per-agent reward texts: `[p0, p1, ...]`.
pub fn format_reward_line(parts: &Vec<String>) -> (line: String)
    requires
        parts@.len() >= 1,
    ensures
        line@ == reward_line(lines_of(parts@)),
{
    let ghost views = lines_of(parts@);
    let mut line = "[".to_owned();
    let mut i: usize = 0;
    while i < parts.len()
        invariant
            i <= parts@.len(),
            1 <= parts@.len(),
            views == lines_of(parts@),
            i == 0 ==> line@ == "["@,
            i >= 1 ==> line@ == "["@ + joined(views.take(i as int)),
        decreases parts@.len() - i,
    {
        if i > 0 {
            line.append(", ");
        }
        line.append(parts[i].as_str());
        proof {
            if i == 0 {
                assert(views.take(1) =~= seq![views[0]]);
                assert(joined(views.take(1)) == views[0]);
            } else {
                assert(views.take(i as int + 1).drop_last() =~= views.take(i as int));
            }
        }
        i = i + 1;
    }
    line.append("]");
    proof {
        assert(views.take(parts@.len() as int) =~= views);
    }
    line
}

/// The sink's state between channel receives: the formatted lines not yet
/// handed to the writer, and, as ghost history, everything accepted and
/// everything already handed out.
pub struct RewardSink {
    buffer: Vec<String>,
    enqueued: Ghost<Seq<Seq<char>>>,
    emitted: Ghost<Seq<Seq<char>>>,
}

impl RewardSink {
    /// Every line accepted so far, in order.
    pub closed spec fn enqueued_lines(self) -> Seq<Seq<char>> {
        self.enqueued@
    }

    /// Every line handed to the writer so far, in order.
    pub closed spec fn emitted_lines(self) -> Seq<Seq<char>> {
        self.emitted@
    }

    /// The lines still buffered, in order.
    pub closed spec fn pending_lines(self) -> Seq<Seq<char>> {
        lines_of(self.buffer@)
    }

    /// Durability invariant: what was handed to the writer, followed by what
    /// is still buffered, is exactly what was accepted, in order; and the
    /// buffer never holds a full batch.
    pub open spec fn wf(self) -> bool {
        &&& self.emitted_lines() + self.pending_lines() == self.enqueued_lines()
        &&& self.pending_lines().len() < FLUSH_BATCH
    }

    /// A fresh sink with nothing accepted, buffered or handed out.
    pub fn new() -> (s: RewardSink)
        ensures
            s.wf(),
            s.enqueued_lines().len() == 0,
            s.emitted_lines().len() == 0,
            s.pending_lines().len() == 0,
    {
        let s = RewardSink {
            buffer: Vec::new(),
            enqueued: Ghost(Seq::empty()),
            emitted: Ghost(Seq::empty()),
        };
        proof {
            assert(s.emitted_lines() + s.pending_lines() =~= s.enqueued_lines());
        }
        s
    }

    /// Accepts one reward vector, already rendered as per-agent texts,
    /// formats it as one line, and returns the lines to write now if it is
    /// time to flush: after every batch of `FLUSH_BATCH` gathered lines, or
    /// whenever the channel is momentarily empty.
    pub fn enqueue(&mut self, parts: &Vec<String>, channel_empty: bool) -> (batch: Option<
        Vec<String>,
    >)
        requires
            old(self).wf(),
            parts@.len() >= 1,
        ensures
            final(self).wf(),
            final(self).enqueued_lines() == old(self).enqueued_lines().push(
                reward_line(lines_of(parts@)),
            ),
            batch is Some <==> (channel_empty || old(self).pending_lines().len() + 1
                == FLUSH_BATCH),
            batch matches Some(b) ==> ({
                &&& lines_of(b@) == old(self).pending_lines().push(
                    reward_line(lines_of(parts@)),
                )
                &&& final(self).emitted_lines() == old(self).emitted_lines() + lines_of(b@)
                &&& final(self).pending_lines().len() == 0
            }),
            batch is None ==> ({
                &&& final(self).emitted_lines() == old(self).emitted_lines()
                &&& final(self).pending_lines() == old(self).pending_lines().push(
                    reward_line(lines_of(parts@)),
                )
            }),
    {
        let line = format_reward_line(parts);
        self.buffer.push(line);
        self.enqueued = Ghost(self.enqueued@.push(reward_line(lines_of(parts@))));
        proof {
            assert(lines_of(self.buffer@) =~= lines_of(old(self).buffer@).push(
                reward_line(lines_of(parts@)),
            ));
        }
        if channel_empty || self.buffer.len() >= FLUSH_BATCH {
            let mut batch: Vec<String> = Vec::new();
            core::mem::swap(&mut self.buffer, &mut batch);
            self.emitted = Ghost(self.emitted@ + lines_of(batch@));
            proof {
                assert(lines_of(self.buffer@) =~= Seq::<Seq<char>>::empty());
                assert(self.emitted_lines() + self.pending_lines() =~= self.enqueued_lines());
            }
            Some(batch)
        } else {
            proof {
                assert(self.emitted_lines() + self.pending_lines() =~= self.enqueued_lines());
            }
            None
        }
    }

    /// The final flush: hands out whatever is still buffered, so that, by
    /// `lemma_sink_durable`, everything accepted has been handed to the
    /// writer. Called once more when the channel reports the senders gone,
    /// before the sink exits.
    pub fn drain(&mut self) -> (batch: Vec<String>)
        requires
            old(self).wf(),
        ensures
            final(self).wf(),
            final(self).enqueued_lines() == old(self).enqueued_lines(),
            lines_of(batch@) == old(self).pending_lines(),
            final(self).emitted_lines() == old(self).enqueued_lines(),
            final(self).pending_lines().len() == 0,
    {
        let mut batch: Vec<String> = Vec::new();
        core::mem::swap(&mut self.buffer, &mut batch);
        self.emitted = Ghost(self.emitted@ + lines_of(batch@));
        proof {
            assert(lines_of(self.buffer@) =~= Seq::<Seq<char>>::empty());
            assert(self.emitted_lines() + self.pending_lines() =~= self.emitted_lines());
            assert(self.emitted_lines() =~= self.enqueued_lines());
        }
        batch
    }
}

/// Law: durability. Enqueueing any number of reward vectors and draining
/// leaves the writer with exactly the accepted lines, in enqueue order: a
/// sink whose buffer is empty has handed out everything it accepted.
pub proof fn lemma_sink_durable(s: RewardSink)
    requires
        s.wf(),
        s.pending_lines().len() == 0,
    ensures
        s.emitted_lines() == s.enqueued_lines(),
{
    assert(s.emitted_lines() + s.pending_lines() =~= s.emitted_lines());
}

} // verus!
