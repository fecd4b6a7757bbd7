use vstd::prelude::*;
use crate::frontier::FrontierResult;

verus! {

/// What a feeder does next after draining the frontier once.
pub enum FeederAction {
    /// Push this identifier into the ring buffer, blocking while it is full.
    Deliver(String),
    /// Discovery has finished and nothing is pending: return the count.
    Stop,
    /// Nothing is pending for the moment: try again.
    Idle,
}

/// What a worker does next after taking one payload from the ring buffer.
pub enum WorkerAction {
    /// Perform the external per-item operation on this identifier.
    Apply(String),
    /// A poison token: return the count.
    Stop,
}

/// The decision a feeder takes on each round of its loop: deliver an
/// identifier, stop on the finished signal, or retry when nothing is pending.
pub fn feeder_step(r: FrontierResult) -> (a: FeederAction)
    ensures
        a == (match r {
            FrontierResult::Identifier(s) => FeederAction::Deliver(s),
            FrontierResult::Done => FeederAction::Stop,
            FrontierResult::Empty => FeederAction::Idle,
        }),
{
    match r {
        FrontierResult::Identifier(s) => FeederAction::Deliver(s),
        FrontierResult::Done => FeederAction::Stop,
        FrontierResult::Empty => FeederAction::Idle,
    }
}

/// The decision a worker takes on each payload it dequeues: apply the
/// external operation to an identifier, or stop on a poison token.
pub fn worker_step(item: Option<String>) -> (a: WorkerAction)
    ensures
        a == (match item {
            Some(s) => WorkerAction::Apply(s),
            None => WorkerAction::Stop,
        }),
{
    match item {
        Some(s) => WorkerAction::Apply(s),
        None => WorkerAction::Stop,
    }
}

/// Draining a buffer saturated with poison tokens: the payload handed out is
/// a poison token and the rest stays saturated. Each consumer of such a
/// buffer in turn therefore draws a token and stops, as long as the buffer
/// held at least as many tokens as there are consumers.
pub proof fn lemma_poisoned_buffer_stops_each_worker(s: Seq<Option<String>>)
    requires
        s.len() > 0,
        forall|i: int| 0 <= i < s.len() ==> s[i] is None,
    ensures
        s[0] is None,
        s.drop_first().len() == s.len() - 1,
        forall|i: int| 0 <= i < s.drop_first().len() ==> s.drop_first()[i] is None,
{
    assert forall|i: int| 0 <= i < s.drop_first().len() implies s.drop_first()[i] is None by {
        assert(s[i + 1] is None);
    }
}

} // verus!
