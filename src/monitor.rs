//! Decides, read by read, when the stream of a child process is over: it
//! streams while the process runs, drains what is left once it has exited,
//! then ends the stream exactly once.
use vstd::prelude::*;
use crate::cargo::{classify, message_of, message_result_view, ClassifyError, TestMessage, TestMessageView};
use crate::framer::{frame, records_view, LineFramer};
use crate::json::json_object_of;
use crate::cargo::compiler_message_of;

verus! {

#[derive(Clone, Copy, Debug, PartialEq, Eq, Structural)]
pub enum Phase {
    Streaming,
    Draining,
    Done,
}

/// What the reading loop does next.
#[derive(Clone, Copy, Debug, PartialEq, Eq, Structural)]
pub enum Action {
    /// Read again at once.
    Read,
    /// No data and the process still runs: wait a little, then read.
    SleepThenRead,
    /// Everything was read: send the end of the stream.
    SendEnd,
    /// The stream has ended; nothing more to do.
    Stop,
}

/// The next phase and action, after a read of `read_len` bytes and a poll that
/// found the process `exited` or not.
pub open spec fn next_step(phase: Phase, read_len: nat, exited: bool) -> (Phase, Action) {
    match phase {
        Phase::Streaming => if exited {
            (Phase::Draining, Action::Read)
        } else if read_len == 0 {
            (Phase::Streaming, Action::SleepThenRead)
        } else {
            (Phase::Streaming, Action::Read)
        },
        Phase::Draining => if read_len == 0 {
            (Phase::Done, Action::SendEnd)
        } else {
            (Phase::Draining, Action::Read)
        },
        Phase::Done => (Phase::Done, Action::Stop),
    }
}

/// The actions taken over a sequence of observations (bytes read, exited).
pub open spec fn actions(phase: Phase, obs: Seq<(nat, bool)>) -> Seq<Action>
    decreases obs.len(),
{
    if obs.len() == 0 {
        Seq::empty()
    } else {
        let (p, a) = next_step(phase, obs[0].0, obs[0].1);
        seq![a] + actions(p, obs.skip(1))
    }
}

/// From the start of a stream, the end is sent at most once, and after it
/// nothing but `Stop` follows.
pub proof fn lemma_end_sent_once(phase: Phase, obs: Seq<(nat, bool)>, i: int)
    requires
        phase != Phase::Done,
        0 <= i < obs.len(),
        actions(phase, obs)[i] == Action::SendEnd,
    ensures
        forall|j: int| i < j < obs.len() ==> actions(phase, obs)[j] == Action::Stop,
        forall|j: int| 0 <= j < i ==> actions(phase, obs)[j] != Action::SendEnd,
    decreases obs.len(),
{
    lemma_actions_len(phase, obs);
    let (p, a) = next_step(phase, obs[0].0, obs[0].1);
    let rest = actions(p, obs.skip(1));
    assert(actions(phase, obs) == seq![a] + rest);
    if i == 0 {
        assert(p == Phase::Done);
        lemma_done_stops(obs.skip(1));
        assert forall|j: int| i < j < obs.len() implies actions(phase, obs)[j] == Action::Stop by {
            assert(actions(phase, obs)[j] == rest[j - 1]);
        }
    } else {
        assert(rest[i - 1] == Action::SendEnd);
        if p == Phase::Done {
            lemma_done_stops(obs.skip(1));
            assert(rest[i - 1] == Action::Stop);
        } else {
            lemma_end_sent_once(p, obs.skip(1), i - 1);
            assert forall|j: int| i < j < obs.len() implies actions(phase, obs)[j] == Action::Stop by {
                assert(actions(phase, obs)[j] == rest[j - 1]);
            }
            assert forall|j: int| 0 <= j < i implies actions(phase, obs)[j] != Action::SendEnd by {
                if j > 0 {
                    assert(actions(phase, obs)[j] == rest[j - 1]);
                }
            }
        }
    }
}

proof fn lemma_actions_len(phase: Phase, obs: Seq<(nat, bool)>)
    ensures
        actions(phase, obs).len() == obs.len(),
    decreases obs.len(),
{
    if obs.len() > 0 {
        let (p, a) = next_step(phase, obs[0].0, obs[0].1);
        lemma_actions_len(p, obs.skip(1));
    }
}

proof fn lemma_done_stops(obs: Seq<(nat, bool)>)
    ensures
        forall|j: int| 0 <= j < obs.len() ==> actions(Phase::Done, obs)[j] == Action::Stop,
    decreases obs.len(),
{
    if obs.len() > 0 {
        lemma_done_stops(obs.skip(1));
        lemma_actions_len(Phase::Done, obs.skip(1));
        assert forall|j: int| 0 <= j < obs.len() implies actions(Phase::Done, obs)[j] == Action::Stop by {
            if j > 0 {
                assert(actions(Phase::Done, obs)[j] == actions(Phase::Done, obs.skip(1))[j - 1]);
            }
        }
    }
}

pub open spec fn record_message(record: Seq<u8>) -> Result<TestMessageView, ClassifyError> {
    message_of(json_object_of(record), compiler_message_of(record))
}

/// The producer side of a run: frames and classifies what the child process
/// writes, and decides when the stream is over.
pub struct Monitor {
    framer: LineFramer,
    phase: Phase,
}

impl Monitor {
    pub closed spec fn phase(&self) -> Phase {
        self.phase
    }

    pub closed spec fn pending(&self) -> Seq<u8> {
        self.framer.pending()
    }

    pub fn new() -> (r: Monitor)
        ensures
            r.phase() == Phase::Streaming,
            r.pending() == Seq::<u8>::empty(),
    {
        Monitor { framer: LineFramer::new(), phase: Phase::Streaming }
    }

    /// Frames a chunk and classifies each record it completes, in order,
    /// stopping at the first record that cannot be classified.
    pub fn on_chunk(&mut self, chunk: &[u8]) -> (r: Result<Vec<TestMessage>, ClassifyError>)
        ensures
            final(self).phase() == old(self).phase(),
            final(self).pending() == frame(old(self).pending(), chunk@).0,
            ({
                let records = frame(old(self).pending(), chunk@).1;
                match r {
                    Ok(ms) => ms@.len() == records.len() && forall|i: int| 0 <= i < records.len()
                        ==> record_message(#[trigger] records[i]) == Ok::<TestMessageView, ClassifyError>(ms@[i]@),
                    Err(e) => exists|i: int| 0 <= i < records.len()
                        && record_message(#[trigger] records[i]) == Err::<TestMessageView, ClassifyError>(e)
                        && forall|j: int| 0 <= j < i ==> record_message(records[j]) is Ok,
                }
            }),
    {
        let records = self.framer.push_chunk(chunk);
        let ghost rs = records_view(records@);
        let mut out: Vec<TestMessage> = Vec::new();
        let mut i: usize = 0;
        while i < records.len()
            invariant
                i <= records@.len(),
                rs == records_view(records@),
                rs == frame(old(self).pending(), chunk@).1,
                self.phase == old(self).phase,
                self.framer.pending() == frame(old(self).pending(), chunk@).0,
                out@.len() == i,
                forall|k: int| 0 <= k < i ==> record_message(#[trigger] rs[k]) == Ok::<TestMessageView, ClassifyError>(out@[k]@),
            decreases records@.len() - i,
        {
            let m = classify(records[i].as_slice());
            match m {
                Ok(msg) => {
                    out.push(msg);
                },
                Err(e) => {
                    assert(record_message(rs[i as int]) == Err::<TestMessageView, ClassifyError>(e));
                    return Err(e);
                },
            }
            i = i + 1;
        }
        Ok(out)
    }

    /// Takes the outcome of one read and one poll of the process, and says
    /// what to do next.
    pub fn step(&mut self, read_len: usize, exited: bool) -> (r: Action)
        ensures
            (final(self).phase(), r) == next_step(old(self).phase(), read_len as nat, exited),
            final(self).pending() == old(self).pending(),
    {
        let (p, a) = match self.phase {
            Phase::Streaming => if exited {
                (Phase::Draining, Action::Read)
            } else if read_len == 0 {
                (Phase::Streaming, Action::SleepThenRead)
            } else {
                (Phase::Streaming, Action::Read)
            },
            Phase::Draining => if read_len == 0 {
                (Phase::Done, Action::SendEnd)
            } else {
                (Phase::Draining, Action::Read)
            },
            Phase::Done => (Phase::Done, Action::Stop),
        };
        self.phase = p;
        a
    }
}

} // verus!
