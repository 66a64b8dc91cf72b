//! What holds of the manager's transitions, whatever the state they start in.

use crate::engine::Action;
use crate::error::PokeError;
use crate::state::{steps_of, without, GeneratorView, Join, Progress, Round, State, Step};
use crate::types::{Presignature, PresignatureId, PresignatureOutput, Triple, TripleId};
use cait_sith::protocol::Participant;
use vstd::prelude::*;

verus! {

/// A manager that was just made is well-formed: in particular, no identifier
/// is completed and in flight at once.
pub proof fn lemma_empty_wf(participants: Seq<Participant>, me: Participant, threshold: usize, epoch: u64)
    ensures
        State::empty(participants, me, threshold, epoch).wf(),
{
}

/// Putting a generation in flight keeps the manager well-formed, as long as
/// its identifier does not name a completed presignature.
pub proof fn lemma_started_wf(s: State, id: PresignatureId, generator: GeneratorView)
    requires
        s.wf(),
        !s.presignatures.contains_key(id),
    ensures
        s.started(id, generator).wf(),
{
}

/// An answer of an engine keeps the manager well-formed, whatever the answer
/// is: a generation that completes leaves the generations in flight in the
/// same step in which its presignature appears.
pub proof fn lemma_advance_wf(s: State, id: PresignatureId, outcome: Result<Action, PokeError>)
    requires
        s.wf(),
    ensures
        s.advance(id, outcome).wf(),
{
    let t = s.advance(id, outcome);
    if s.generators.contains_key(id) {
        match outcome {
            Ok(Action::Return(output)) => {
                assert(!s.presignatures.contains_key(id));
                assert(!s.mine.contains(id));
                if s.generators[id].mine {
                    assert forall|i: int, j: int|
                        0 <= i < t.mine.len() && 0 <= j < t.mine.len() && i != j implies t.mine[i]
                        != t.mine[j] by {
                        if i < s.mine.len() {
                            assert(s.mine.contains(s.mine[i]));
                        }
                        if j < s.mine.len() {
                            assert(s.mine.contains(s.mine[j]));
                        }
                    }
                }
                assert(t.queue_backed());
            },
            _ => {},
        }
    }
}

/// What is left of a queue when the entries for one identifier are taken
/// out: the other entries, each as often as before, and so no entry twice if
/// none was there twice. A queue that does not name the identifier is left as
/// it is; of a queue that names nothing twice, at most one entry goes.
pub proof fn lemma_without(queue: Seq<PresignatureId>, id: PresignatureId)
    ensures
        forall|x: PresignatureId|
            #![trigger without(queue, id).contains(x)]
            without(queue, id).contains(x) <==> queue.contains(x) && x != id,
        queue.no_duplicates() ==> without(queue, id).no_duplicates(),
        !queue.contains(id) ==> without(queue, id) == queue,
        queue.no_duplicates() && queue.contains(id) ==> without(queue, id).len() + 1
            == queue.len(),
        without(queue, id).len() <= queue.len(),
    decreases queue.len(),
{
    if queue.len() > 0 {
        let front = queue.drop_last();
        let last = queue.last();
        lemma_without(front, id);
        let rest = without(front, id);
        let out = without(queue, id);
        assert forall|x: PresignatureId| #![trigger out.contains(x)] out.contains(x) <==> (
        queue.contains(x) && x != id) by {
            if out.contains(x) {
                let i = choose|i: int| 0 <= i < out.len() && out[i] == x;
                if last != id && i == out.len() - 1 {
                    assert(queue[queue.len() - 1] == x);
                } else {
                    assert(rest[i] == x);
                    assert(rest.contains(x));
                    let j = choose|j: int| 0 <= j < front.len() && front[j] == x;
                    assert(queue[j] == x);
                }
            }
            if queue.contains(x) && x != id {
                let j = choose|j: int| 0 <= j < queue.len() && queue[j] == x;
                if j == queue.len() - 1 {
                    assert(out[out.len() - 1] == x);
                } else {
                    assert(front[j] == x);
                    assert(front.contains(x));
                    assert(rest.contains(x));
                    let i = choose|i: int| 0 <= i < rest.len() && rest[i] == x;
                    assert(out[i] == x);
                }
            }
        }
        if queue.no_duplicates() {
            assert(front.no_duplicates());
            assert(!front.contains(last)) by {
                if front.contains(last) {
                    let j = choose|j: int| 0 <= j < front.len() && front[j] == last;
                    assert(queue[j] == queue[queue.len() - 1]);
                }
            }
            assert(!rest.contains(last));
            assert(out.no_duplicates());
        }
        if !queue.contains(id) {
            assert(!front.contains(id)) by {
                if front.contains(id) {
                    let j = choose|j: int| 0 <= j < front.len() && front[j] == id;
                    assert(queue[j] == id);
                }
            }
            assert(last != id) by {
                assert(queue[queue.len() - 1] == last);
            }
            assert(out =~= queue);
        }
        if queue.no_duplicates() && queue.contains(id) {
            if last == id {
                assert(!front.contains(id));
            } else {
                assert(front.contains(id)) by {
                    let j = choose|j: int| 0 <= j < queue.len() && queue[j] == id;
                    assert(front[j] == id);
                }
            }
        }
    }
}

/// Taking a presignature by its identifier keeps the manager well-formed:
/// queue and map are updated together.
pub proof fn lemma_take_wf(s: State, id: PresignatureId)
    requires
        s.wf(),
    ensures
        s.take(id).0.wf(),
        s.take(id).0.head_backed(),
{
    let t = s.take(id).0;
    lemma_without(s.mine, id);
    if s.presignatures.contains_key(id) {
        assert forall|i: int| 0 <= i < t.mine.len() implies t.presignatures.contains_key(
            #[trigger] t.mine[i],
        ) by {
            assert(t.mine.contains(t.mine[i]));
            assert(s.mine.contains(t.mine[i]));
        }
    }
}

/// Taking the oldest queued presignature keeps the manager well-formed.
pub proof fn lemma_take_mine_wf(s: State)
    requires
        s.wf(),
    ensures
        s.head_backed(),
        s.take_mine().0.wf(),
{
    let t = s.take_mine().0;
    if s.mine.len() > 0 {
        assert forall|i: int| 0 <= i < t.mine.len() implies t.presignatures.contains_key(
            #[trigger] t.mine[i],
        ) by {
            assert(t.mine[i] == s.mine[i + 1]);
        }
        assert(t.mine.no_duplicates());
    }
}

/// Answers change neither the participants nor this node's identity, the
/// threshold or the epoch.
pub proof fn lemma_run_config(s: State, trace: Seq<Step>)
    ensures
        s.run(trace).participants == s.participants,
        s.run(trace).me == s.me,
        s.run(trace).threshold == s.threshold,
        s.run(trace).epoch == s.epoch,
    decreases trace.len(),
{
    if trace.len() > 0 {
        lemma_run_config(s, trace.drop_last());
    }
}

/// A sequence of answers keeps the manager well-formed.
pub proof fn lemma_run_wf(s: State, trace: Seq<Step>)
    requires
        s.wf(),
    ensures
        s.run(trace).wf(),
    decreases trace.len(),
{
    if trace.len() > 0 {
        lemma_run_wf(s, trace.drop_last());
        lemma_advance_wf(s.run(trace.drop_last()), trace.last().0, trace.last().1);
    }
}

/// Answers only move generations forward: none comes into flight, a
/// presignature appears only under the identifier of a generation that was in
/// flight, the presignatures that no generation shares an identifier with stay
/// as they are, and the queue grows at its end only.
pub proof fn lemma_run_forward(s: State, trace: Seq<Step>)
    ensures
        s.run(trace).generators.submap_of(s.generators),
        s.presignatures.dom().subset_of(s.run(trace).presignatures.dom()),
        s.run(trace).presignatures.dom().subset_of(s.presignatures.dom() + s.generators.dom()),
        forall|id: PresignatureId|
            #![trigger s.run(trace).presignatures[id]]
            s.presignatures.contains_key(id) && !s.generators.contains_key(id) ==> s.run(
                trace,
            ).presignatures[id] == s.presignatures[id],
        s.mine.is_prefix_of(s.run(trace).mine),
    decreases trace.len(),
{
    if trace.len() > 0 {
        lemma_run_forward(s, trace.drop_last());
        let mid = s.run(trace.drop_last());
        let end = s.run(trace);
        assert(end == mid.advance(trace.last().0, trace.last().1));
        assert(end.generators.submap_of(mid.generators));
        assert forall|k: PresignatureId| #[trigger]
            end.generators.dom().contains(k) implies s.generators.dom().contains(k)
            && end.generators[k] == s.generators[k] by {
            assert(mid.generators.dom().contains(k));
        }
        assert(mid.mine.is_prefix_of(end.mine));
        assert(mid.presignatures.dom().subset_of(end.presignatures.dom()));
    }
}

/// One more answer at the end of a sequence is one more transition.
pub proof fn lemma_run_push(s: State, trace: Seq<Step>, step: Step)
    ensures
        s.run(trace.push(step)) == s.run(trace).advance(step.0, step.1),
        s.sent(trace.push(step)) == s.sent(trace) + s.run(trace).outbound(step.0, step.1),
        s.failure(trace.push(step)) == (match s.run(trace).progress(step.0, step.1) {
            Some(Progress::Failed(e)) => Some(e),
            _ => s.failure(trace),
        }),
{
    assert(trace.push(step).drop_last() =~= trace);
}

/// Two sequences of answers, one after the other, act as the first and then
/// the second from where the first ended. The failure that is reported is the
/// last one.
pub proof fn lemma_run_concat(s: State, first: Seq<Step>, second: Seq<Step>)
    ensures
        s.run(first + second) == s.run(first).run(second),
        s.sent(first + second) == s.sent(first) + s.run(first).sent(second),
        s.failure(first + second) == (match s.run(first).failure(second) {
            Some(e) => Some(e),
            None => s.failure(first),
        }),
    decreases second.len(),
{
    if second.len() == 0 {
        assert(first + second =~= first);
        assert(s.sent(first) + Seq::empty() =~= s.sent(first));
    } else {
        let shorter = second.drop_last();
        lemma_run_concat(s, first, shorter);
        assert((first + second).drop_last() =~= first + shorter);
        assert((first + second).last() == second.last());
        assert(s.sent(first) + s.run(first).sent(shorter) + s.run(first).run(shorter).outbound(
            second.last().0,
            second.last().1,
        ) =~= s.sent(first) + (s.run(first).sent(shorter) + s.run(first).run(shorter).outbound(
            second.last().0,
            second.last().1,
        )));
    }
}

/// Answers for other generations leave a generation as it is: in flight with
/// the same bookkeeping, or not in flight.
pub proof fn lemma_run_others(s: State, trace: Seq<Step>, id: PresignatureId)
    requires
        forall|i: int| 0 <= i < trace.len() ==> (#[trigger] trace[i]).0 != id,
    ensures
        s.run(trace).generators.contains_key(id) == s.generators.contains_key(id),
        s.generators.contains_key(id) ==> s.run(trace).generators[id] == s.generators[id],
    decreases trace.len(),
{
    if trace.len() > 0 {
        let shorter = trace.drop_last();
        assert forall|i: int| 0 <= i < shorter.len() implies (#[trigger] shorter[i]).0 != id by {
            assert(shorter[i] == trace[i]);
        }
        lemma_run_others(s, shorter, id);
        assert(trace.last() == trace[trace.len() - 1]);
    }
}

/// A round names one generation only.
pub proof fn lemma_round_names(round: Round, id: PresignatureId)
    requires
        round.0 != id,
    ensures
        forall|i: int| 0 <= i < steps_of(round).len() ==> (#[trigger] steps_of(round)[i]).0 != id,
{
}

/// No operation puts an identifier among the completed presignatures and
/// among the generations in flight at once, with one exception: a generation
/// that is started under the identifier of a completed presignature.
pub proof fn lemma_disjoint_kept(
    s: State,
    id: PresignatureId,
    generator: GeneratorView,
    outcome: Result<Action, PokeError>,
    trace: Seq<Step>,
)
    requires
        s.disjoint(),
    ensures
        !s.presignatures.contains_key(id) ==> s.started(id, generator).disjoint(),
        s.advance(id, outcome).disjoint(),
        s.run(trace).disjoint(),
        s.take(id).0.disjoint(),
        s.take_mine().0.disjoint(),
{
    lemma_run_disjoint(s, trace);
}

/// A sequence of answers never leaves an identifier both completed and in
/// flight.
pub proof fn lemma_run_disjoint(s: State, trace: Seq<Step>)
    requires
        s.disjoint(),
    ensures
        s.run(trace).disjoint(),
    decreases trace.len(),
{
    if trace.len() > 0 {
        lemma_run_disjoint(s, trace.drop_last());
    }
}

/// A generation of this node's own that completes yields exactly one
/// presignature, which the queue hands out once: when it has reached the
/// queue's head, `take_mine` returns it, and then neither the queue nor the
/// map holds it any more.
pub proof fn lemma_own_generation_taken_once(s: State, id: PresignatureId, output: PresignatureOutput)
    requires
        s.wf(),
        s.generators.contains_key(id),
        s.generators[id].mine,
    ensures
        ({
            let done = s.advance(id, Ok(Action::Return(output)));
            &&& !done.generators.contains_key(id)
            &&& done.presignatures == s.presignatures.insert(id, Presignature { id, output })
            &&& done.mine == s.mine.push(id)
            &&& s.mine.len() == 0 ==> {
                let (rest, taken) = done.take_mine();
                &&& taken == Some(Presignature { id, output })
                &&& !rest.presignatures.contains_key(id)
                &&& rest.mine.len() == 0
                &&& rest.take_mine().1 is None
                &&& rest.take(id).1 is None
            }
        }),
{
    let done = s.advance(id, Ok(Action::Return(output)));
    if s.mine.len() == 0 {
        assert(done.mine[0] == id);
        assert(done.take_mine().0.mine =~= Seq::empty());
    }
}

/// Joining is idempotent: once a join has started a generation, a second join
/// under the same identifier goes on with that generation, whatever the
/// triple source answers then, and starts nothing.
pub proof fn lemma_join_idempotent(
    s: State,
    id: PresignatureId,
    first: Result<(Triple, Triple), TripleId>,
    generator: GeneratorView,
    second: Result<(Triple, Triple), TripleId>,
)
    requires
        s.join(id, first) is Started,
    ensures
        s.started(id, generator).join(id, second) is Running,
        s.started(id, generator).generators.dom() == s.generators.dom().insert(id),
        s.generators.dom().finite() ==> s.started(id, generator).generators.len()
            == s.generators.len() + 1,
{
}

/// A join under the identifier of a completed presignature is turned down as
/// already generated, whatever the triple source answers.
pub proof fn lemma_join_completed(s: State, id: PresignatureId, reserved: Result<(Triple, Triple), TripleId>)
    requires
        s.presignatures.contains_key(id),
    ensures
        s.join(id, reserved) is AlreadyGenerated,
{
}

/// A join under an unknown identifier whose triples the source could not
/// reserve is turned down, naming the triple that the source named.
pub proof fn lemma_join_missing(s: State, id: PresignatureId, missing: TripleId)
    requires
        s.unknown(id),
    ensures
        s.join(id, Err(missing)) == Join::Missing(missing),
{
}

/// A generation that is over time is dropped: it leaves the generations in
/// flight, no presignature appears, the queue stays as it is and nothing is
/// sent.
pub proof fn lemma_timeout_drops(s: State, id: PresignatureId)
    requires
        s.generators.contains_key(id),
    ensures
        ({
            let outcome = Err::<Action, PokeError>(PokeError::TimedOut);
            &&& s.advance(id, outcome).generators == s.generators.remove(id)
            &&& s.advance(id, outcome).presignatures == s.presignatures
            &&& s.advance(id, outcome).mine == s.mine
            &&& s.outbound(id, outcome).len() == 0
            &&& s.progress(id, outcome) == Some(Progress::Failed(PokeError::TimedOut))
        }),
{
}

/// A presignature is taken by its identifier at most once: afterwards
/// neither the map nor the queue names it, a second `take` finds nothing and
/// changes nothing, and `take_mine` does not hand it out.
pub proof fn lemma_take_once(s: State, id: PresignatureId)
    ensures
        !s.take(id).0.presignatures.contains_key(id),
        s.take(id).0.take(id).1 is None,
        s.take(id).0.take(id).0 == s.take(id).0,
        s.presignatures.contains_key(id) ==> !s.take(id).0.mine.contains(id),
        s.wf() ==> !s.take(id).0.mine.contains(id),
{
    lemma_without(s.mine, id);
    if s.wf() && !s.presignatures.contains_key(id) {
        if s.mine.contains(id) {
            let i = choose|i: int| 0 <= i < s.mine.len() && s.mine[i] == id;
            assert(s.presignatures.contains_key(s.mine[i]));
        }
    }
}

/// A presignature is taken from the queue at most once: what `take_mine`
/// returned is gone from the map and from the queue, so that neither `take`
/// nor a later `take_mine` returns it again.
pub proof fn lemma_take_mine_once(s: State)
    requires
        s.wf(),
        s.mine.len() > 0,
    ensures
        ({
            let id = s.mine[0];
            let (rest, taken) = s.take_mine();
            &&& taken == Some(s.presignatures[id])
            &&& !rest.presignatures.contains_key(id)
            &&& !rest.mine.contains(id)
            &&& rest.take(id).1 is None
            &&& rest.mine.len() > 0 ==> rest.mine[0] != id
        }),
{
    let id = s.mine[0];
    let rest = s.take_mine().0;
    assert forall|i: int| 0 <= i < rest.mine.len() implies rest.mine[i] != id by {
        assert(rest.mine[i] == s.mine[i + 1]);
    }
}

/// In a well-formed manager the queue is no longer than the map: every
/// queued presignature is counted among the unspent ones.
pub proof fn lemma_queue_fits(s: State)
    requires
        s.wf(),
    ensures
        s.mine.len() <= s.presignatures.len(),
{
    s.mine.unique_seq_to_set();
    assert(s.mine.to_set().subset_of(s.presignatures.dom())) by {
        assert forall|x: PresignatureId| s.mine.to_set().contains(x) implies s.presignatures.dom().contains(
            x,
        ) by {
            let i = choose|i: int| 0 <= i < s.mine.len() && s.mine[i] == x;
            assert(s.presignatures.contains_key(s.mine[i]));
        }
    }
    vstd::set_lib::lemma_len_subset(s.mine.to_set(), s.presignatures.dom());
}

/// A generation that is started under an unknown identifier is one more in
/// flight, and nothing else is counted differently.
pub proof fn lemma_started_counts(s: State, id: PresignatureId, generator: GeneratorView)
    requires
        s.finite(),
        !s.generators.contains_key(id),
    ensures
        s.started(id, generator).generators.len() == s.generators.len() + 1,
        s.started(id, generator).presignatures.len() == s.presignatures.len(),
        s.started(id, generator).mine.len() == s.mine.len(),
{
}

/// A generation that completes is one fewer in flight and one more
/// presignature, so that their sum stays; the queue grows by one exactly if
/// this node started the generation.
pub proof fn lemma_completed_counts(s: State, id: PresignatureId, output: PresignatureOutput)
    requires
        s.wf(),
        s.generators.contains_key(id),
    ensures
        ({
            let done = s.advance(id, Ok(Action::Return(output)));
            &&& done.presignatures.len() == s.presignatures.len() + 1
            &&& done.generators.len() == s.generators.len() - 1
            &&& done.presignatures[id] == Presignature { id, output }
            &&& s.generators[id].mine ==> done.mine.len() == s.mine.len() + 1 && done.mine.last()
                == id
            &&& !s.generators[id].mine ==> done.mine == s.mine && !done.mine.contains(id)
        }),
{
    assert(!s.presignatures.contains_key(id));
    if s.mine.contains(id) {
        let i = choose|i: int| 0 <= i < s.mine.len() && s.mine[i] == id;
        assert(s.presignatures.contains_key(s.mine[i]));
    }
}

/// A generation that fails is one fewer in flight, and nothing else is
/// counted differently.
pub proof fn lemma_failed_counts(s: State, id: PresignatureId, failure: PokeError)
    requires
        s.finite(),
        s.generators.contains_key(id),
    ensures
        ({
            let dropped = s.advance(id, Err(failure));
            &&& dropped.generators.len() == s.generators.len() - 1
            &&& dropped.presignatures == s.presignatures
            &&& dropped.mine == s.mine
        }),
{
}

/// Taking a presignature by its identifier is one fewer unspent; if it was
/// queued, the queue is one shorter too. The generations in flight and every
/// other presignature stay as they are.
pub proof fn lemma_take_counts(s: State, id: PresignatureId)
    requires
        s.wf(),
        s.presignatures.contains_key(id),
    ensures
        ({
            let (rest, taken) = s.take(id);
            &&& taken == Some(s.presignatures[id])
            &&& taken->0.id == id
            &&& rest.presignatures.len() == s.presignatures.len() - 1
            &&& rest.generators == s.generators
            &&& rest.mine.len() == s.mine.len() - (if s.mine.contains(id) {
                1int
            } else {
                0int
            })
            &&& forall|other: PresignatureId|
                other != id && s.presignatures.contains_key(other)
                    ==> #[trigger] rest.presignatures.contains_key(other)
                    && rest.presignatures[other] == s.presignatures[other]
        }),
{
    lemma_without(s.mine, id);
}

/// Taking the oldest queued presignature is one fewer unspent and a queue
/// that is one shorter. The generations in flight stay as they are.
pub proof fn lemma_take_mine_counts(s: State)
    requires
        s.wf(),
        s.mine.len() > 0,
    ensures
        ({
            let (rest, taken) = s.take_mine();
            &&& taken == Some(s.presignatures[s.mine[0]])
            &&& taken->0.id == s.mine[0]
            &&& rest.presignatures.len() == s.presignatures.len() - 1
            &&& rest.mine.len() == s.mine.len() - 1
            &&& rest.generators == s.generators
        }),
{
    assert(s.presignatures.contains_key(s.mine[0]));
}

/// Whatever the engines answer, a generation that was in flight ends in one
/// of three ways. Still in flight: no presignature is under its identifier
/// and the queue does not name it. Completed: the presignature under its
/// identifier carries that identifier, and the queue names it exactly if this
/// node started it. Failed: no presignature, and the queue does not name it.
pub proof fn lemma_run_outcome(s: State, trace: Seq<Step>, id: PresignatureId)
    requires
        s.wf(),
        s.generators.contains_key(id),
    ensures
        ({
            let t = s.run(trace);
            &&& t.generators.contains_key(id) ==> t.generators[id] == s.generators[id]
                && !t.presignatures.contains_key(id) && !t.mine.contains(id)
            &&& !t.generators.contains_key(id) && t.presignatures.contains_key(id) ==> {
                &&& t.presignatures[id].id == id
                &&& t.mine.contains(id) <==> s.generators[id].mine
            }
            &&& !t.generators.contains_key(id) && !t.presignatures.contains_key(id)
                ==> !t.mine.contains(id)
        }),
    decreases trace.len(),
{
    lemma_run_wf(s, trace);
    let t = s.run(trace);
    assert(!s.presignatures.contains_key(id));
    if trace.len() == 0 {
        lemma_not_queued(s, id);
    } else {
        let mid = s.run(trace.drop_last());
        lemma_run_outcome(s, trace.drop_last(), id);
        lemma_run_wf(s, trace.drop_last());
        lemma_run_forward(s, trace.drop_last());
        let (named, outcome) = trace.last();
        assert(t == mid.advance(named, outcome));
        if mid.generators.contains_key(named) {
            match outcome {
                Ok(Action::Return(output)) => {
                    lemma_not_queued(mid, named);
                    if mid.generators[named].mine {
                        assert(t.mine == mid.mine.push(named));
                        assert(t.mine[t.mine.len() - 1] == named);
                        assert forall|x: PresignatureId| t.mine.contains(x) <==> (
                        mid.mine.contains(x) || x == named) by {
                            if t.mine.contains(x) {
                                let i = choose|i: int| 0 <= i < t.mine.len() && t.mine[i] == x;
                                if i < mid.mine.len() {
                                    assert(mid.mine[i] == x);
                                }
                            }
                            if mid.mine.contains(x) {
                                let i = choose|i: int| 0 <= i < mid.mine.len() && mid.mine[i] == x;
                                assert(t.mine[i] == x);
                            }
                        }
                    }
                },
                _ => {},
            }
        }
        if t.generators.contains_key(id) {
            lemma_not_queued(t, id);
        }
    }
}

/// The queue does not name an identifier that has no presignature.
pub proof fn lemma_not_queued(s: State, id: PresignatureId)
    requires
        s.queue_backed(),
        !s.presignatures.contains_key(id),
    ensures
        !s.mine.contains(id),
{
    if s.mine.contains(id) {
        let i = choose|i: int| 0 <= i < s.mine.len() && s.mine[i] == id;
        assert(s.presignatures.contains_key(s.mine[i]));
    }
}

/// Whatever the engines answer, the counts move one way: no generation comes
/// into flight, no presignature goes, their sum does not grow, and the queue
/// grows by no more than the presignatures do.
pub proof fn lemma_run_counts(s: State, trace: Seq<Step>)
    requires
        s.wf(),
    ensures
        ({
            let t = s.run(trace);
            &&& t.generators.len() <= s.generators.len()
            &&& s.presignatures.len() <= t.presignatures.len()
            &&& t.presignatures.len() + t.generators.len() <= s.presignatures.len()
                + s.generators.len()
            &&& s.mine.len() <= t.mine.len()
            &&& t.mine.len() - s.mine.len() <= t.presignatures.len() - s.presignatures.len()
        }),
    decreases trace.len(),
{
    if trace.len() > 0 {
        let mid = s.run(trace.drop_last());
        lemma_run_counts(s, trace.drop_last());
        lemma_run_wf(s, trace.drop_last());
        let (named, outcome) = trace.last();
        if mid.generators.contains_key(named) {
            match outcome {
                Ok(Action::Return(output)) => {
                    lemma_completed_counts(mid, named, output);
                },
                Err(failure) => {
                    lemma_failed_counts(mid, named, failure);
                },
                _ => {},
            }
        }
    }
}

/// If, whatever the engines answered, exactly one generation left the
/// generations in flight and a presignature is under its identifier, then
/// that presignature is the only new one: there is one more presignature
/// than before, and the queue has grown by that identifier if this node
/// started the generation and is the same if it did not.
pub proof fn lemma_run_single_completion(s: State, trace: Seq<Step>, id: PresignatureId)
    requires
        s.wf(),
        s.generators.contains_key(id),
        s.run(trace).generators == s.generators.remove(id),
        s.run(trace).presignatures.contains_key(id),
    ensures
        ({
            let t = s.run(trace);
            &&& t.presignatures == s.presignatures.insert(id, t.presignatures[id])
            &&& t.presignatures[id].id == id
            &&& t.presignatures.len() == s.presignatures.len() + 1
            &&& t.generators.len() == s.generators.len() - 1
            &&& s.generators[id].mine ==> t.mine == s.mine.push(id)
            &&& !s.generators[id].mine ==> t.mine == s.mine
        }),
{
    let t = s.run(trace);
    lemma_run_wf(s, trace);
    lemma_run_forward(s, trace);
    lemma_run_outcome(s, trace, id);
    lemma_run_counts(s, trace);
    assert(!s.presignatures.contains_key(id));
    assert(t.presignatures.dom() =~= s.presignatures.dom().insert(id)) by {
        assert forall|x: PresignatureId| t.presignatures.dom().contains(x) implies s.presignatures.dom().insert(
            id,
        ).contains(x) by {
            if x != id && !s.presignatures.dom().contains(x) {
                assert((s.presignatures.dom() + s.generators.dom()).contains(x));
                assert(s.generators.contains_key(x));
                assert(t.generators.contains_key(x));
                assert(t.presignatures.contains_key(x));
            }
        }
    }
    assert(t.presignatures =~= s.presignatures.insert(id, t.presignatures[id])) by {
        assert forall|x: PresignatureId| s.presignatures.contains_key(x) implies t.presignatures[x]
            == s.presignatures[x] by {
            assert(!s.generators.contains_key(x));
        }
    }
    assert(t.mine.len() <= s.mine.len() + 1);
    if s.generators[id].mine {
        lemma_not_queued(s, id);
        assert(t.mine.contains(id));
        let i = choose|i: int| 0 <= i < t.mine.len() && t.mine[i] == id;
        if i < s.mine.len() {
            assert(s.mine[i] == t.mine[i]);
            assert(s.mine.contains(id));
        }
        assert(t.mine.len() == s.mine.len() + 1);
        assert(t.mine =~= s.mine.push(id)) by {
            assert forall|k: int| 0 <= k < s.mine.len() implies t.mine[k] == s.mine[k] by {}
        }
    } else {
        if t.mine.len() == s.mine.len() + 1 {
            // The entry gained would name a generation that was in flight and
            // has a presignature now: only `id` does, and it is not queued.
            let gained = t.mine[t.mine.len() - 1];
            lemma_queue_tail(s, trace);
            assert(s.generators.contains_key(gained));
            assert(t.presignatures.contains_key(gained));
            assert(t.mine.contains(gained));
            assert(gained == id);
        }
        assert(t.mine =~= s.mine);
    }
}

/// Whatever the engines answer, what the queue gains are identifiers of
/// generations that were in flight.
pub proof fn lemma_queue_tail(s: State, trace: Seq<Step>)
    ensures
        forall|k: int|
            s.mine.len() <= k < s.run(trace).mine.len() ==> s.generators.contains_key(
                #[trigger] s.run(trace).mine[k],
            ),
    decreases trace.len(),
{
    lemma_run_forward(s, trace);
    if trace.len() > 0 {
        lemma_queue_tail(s, trace.drop_last());
        lemma_run_forward(s, trace.drop_last());
        let mid = s.run(trace.drop_last());
        let t = s.run(trace);
        assert(t == mid.advance(trace.last().0, trace.last().1));
        assert forall|k: int| s.mine.len() <= k < t.mine.len() implies s.generators.contains_key(
            #[trigger] t.mine[k],
        ) by {
            if k < mid.mine.len() {
                assert(t.mine[k] == mid.mine[k]);
            } else {
                assert(t.mine[k] == trace.last().0);
                assert(mid.generators.contains_key(trace.last().0));
                assert(mid.generators.dom().contains(trace.last().0));
            }
        }
    }
}

} // verus!
