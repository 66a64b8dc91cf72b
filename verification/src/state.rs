//! The manager's state as mathematics, and the transitions it can make.
//!
//! The executable manager refines this model: each of its operations promises
//! that the state after it is the model's transition applied to the state
//! before. Engines do not appear here. They are opaque, and nothing the
//! manager decides depends on what is inside one.

use crate::engine::{accepts, Action};
use crate::error::PokeError;
use crate::generator::PresignatureGenerator;
use crate::types::{Presignature, PresignatureId, PresignatureMessage, Triple, TripleId};
use cait_sith::protocol::Participant;
use std::time::Instant;
use vstd::prelude::*;

verus! {

/// The bookkeeping of one generation in flight.
pub struct GeneratorView {
    pub triple0: TripleId,
    pub triple1: TripleId,
    pub mine: bool,
    pub timestamp: Instant,
}

impl View for PresignatureGenerator {
    type V = GeneratorView;

    open spec fn view(&self) -> GeneratorView {
        GeneratorView {
            triple0: self.triple0,
            triple1: self.triple1,
            mine: self.mine,
            timestamp: self.timestamp,
        }
    }
}

/// An outbound message, its payload as a sequence of bytes.
pub struct MessageView {
    pub id: PresignatureId,
    pub triple0: TripleId,
    pub triple1: TripleId,
    pub epoch: u64,
    pub from: Participant,
    pub data: Seq<u8>,
}

impl View for PresignatureMessage {
    type V = MessageView;

    open spec fn view(&self) -> MessageView {
        MessageView {
            id: self.id,
            triple0: self.triple0,
            triple1: self.triple1,
            epoch: self.epoch,
            from: self.from,
            data: self.data@,
        }
    }
}

/// A batch of addressed messages, each seen through its view.
pub open spec fn batch_view(batch: Seq<(Participant, PresignatureMessage)>) -> Seq<
    (Participant, MessageView),
> {
    batch.map_values(|m: (Participant, PresignatureMessage)| (m.0, m.1@))
}

/// Where one generation stands after the engine was asked once.
#[derive(Debug)]
pub enum Progress {
    /// The engine waits for messages; the generation stays in flight.
    Waiting,
    /// The engine produced messages and may have more to say.
    Sending,
    /// The engine finished; its output is now a presignature.
    Completed,
    /// The generation was given up and dropped.
    Failed(PokeError),
}

/// What becomes of a request to join a generation.
pub enum Join {
    /// The presignature is complete already: the request is turned down.
    AlreadyGenerated,
    /// The generation is in flight: the request goes on with it.
    Running,
    /// The triple source lacks this triple: the request is turned down.
    Missing(TripleId),
    /// The engine does not accept the parameters: the request is turned down.
    Rejected,
    /// A generation is started for the request.
    Started,
}

/// One answer of one generation's engine.
pub type Step = (PresignatureId, Result<Action, PokeError>);

/// Whether an answer is one after which the engine is asked again at once.
pub open spec fn sending(outcome: Result<Action, PokeError>) -> bool {
    outcome matches Ok(action) && (action is SendMany || action is SendPrivate)
}

/// How many answers are taken from one engine in one round, at most. An
/// engine is asked again and again while it has messages to send; the limit
/// is so large that no run reaches it.
pub const ROUND_LIMIT: u64 = 0xffff_ffff_ffff_ffff;

/// Whether a sequence of answers is a whole round: the engine was asked at
/// least once, and again after each answer that sent something, until it
/// answered otherwise or the limit was reached.
pub open spec fn round_complete(answers: Seq<Result<Action, PokeError>>) -> bool {
    &&& answers.len() >= 1
    &&& forall|i: int| 0 <= i < answers.len() - 1 ==> sending(#[trigger] answers[i])
    &&& (!sending(answers.last()) || answers.len() == ROUND_LIMIT)
}

/// The answers that one generation's engine gave in one round of asking.
pub type Round = (PresignatureId, Seq<Result<Action, PokeError>>);

/// The steps of one round: each answer, tagged with the round's identifier.
pub open spec fn steps_of(round: Round) -> Seq<Step> {
    Seq::new(round.1.len(), |i: int| (round.0, round.1[i]))
}

/// The steps of several rounds, one round after the other.
pub open spec fn flatten(rounds: Seq<Round>) -> Seq<Step>
    decreases rounds.len(),
{
    if rounds.len() == 0 {
        Seq::empty()
    } else {
        flatten(rounds.drop_last()) + steps_of(rounds.last())
    }
}

/// The identifiers of several rounds, in their order.
pub open spec fn ids_of(rounds: Seq<Round>) -> Seq<PresignatureId> {
    Seq::new(rounds.len(), |i: int| rounds[i].0)
}

/// A queue with every entry for `id` taken out, the others in their order.
pub open spec fn without(queue: Seq<PresignatureId>, id: PresignatureId) -> Seq<PresignatureId>
    decreases queue.len(),
{
    if queue.len() == 0 {
        queue
    } else if queue.last() == id {
        without(queue.drop_last(), id)
    } else {
        without(queue.drop_last(), id).push(queue.last())
    }
}

/// Everything the manager holds.
pub struct State {
    /// Completed, unspent presignatures.
    pub presignatures: Map<PresignatureId, Presignature>,
    /// Generations in flight.
    pub generators: Map<PresignatureId, GeneratorView>,
    /// The completed presignatures that this node started, oldest first.
    pub mine: Seq<PresignatureId>,
    pub participants: Seq<Participant>,
    pub me: Participant,
    pub threshold: usize,
    pub epoch: u64,
}

impl State {
    /// The state of a manager that was just made.
    pub open spec fn empty(
        participants: Seq<Participant>,
        me: Participant,
        threshold: usize,
        epoch: u64,
    ) -> State {
        State {
            presignatures: Map::empty(),
            generators: Map::empty(),
            mine: Seq::empty(),
            participants,
            me,
            threshold,
            epoch,
        }
    }

    /// No identifier is completed and in flight at once.
    pub open spec fn disjoint(self) -> bool {
        forall|id: PresignatureId|
            !(#[trigger] self.presignatures.contains_key(id) && self.generators.contains_key(id))
    }

    /// Every queued identifier names a presignature that is still there, and
    /// none is queued twice.
    pub open spec fn queue_backed(self) -> bool {
        &&& self.mine.no_duplicates()
        &&& forall|i: int|
            0 <= i < self.mine.len() ==> self.presignatures.contains_key(#[trigger] self.mine[i])
    }

    /// Every presignature is stored under its own identifier.
    pub open spec fn keyed(self) -> bool {
        forall|id: PresignatureId| #[trigger]
            self.presignatures.contains_key(id) ==> self.presignatures[id].id == id
    }

    /// Both maps hold finitely many entries. This holds of every manager.
    pub open spec fn finite(self) -> bool {
        self.presignatures.dom().finite() && self.generators.dom().finite()
    }

    /// The invariant of a manager. `new` establishes it and every operation
    /// keeps it, with one exception that the operation's contract names:
    /// starting a generation under an identifier that is completed already.
    pub open spec fn wf(self) -> bool {
        &&& self.finite()
        &&& self.disjoint()
        &&& self.queue_backed()
        &&& self.keyed()
    }

    /// Neither completed nor in flight: a join has to start a generation.
    pub open spec fn unknown(self, id: PresignatureId) -> bool {
        !self.presignatures.contains_key(id) && !self.generators.contains_key(id)
    }

    /// What becomes of a request to join generation `id`, given what the
    /// triple source answered to the reservation of its two triples. The
    /// answer counts only where the identifier is unknown.
    pub open spec fn join(self, id: PresignatureId, reserved: Result<(Triple, Triple), TripleId>) -> Join {
        if self.presignatures.contains_key(id) {
            Join::AlreadyGenerated
        } else if self.generators.contains_key(id) {
            Join::Running
        } else {
            match reserved {
                Err(missing) => Join::Missing(missing),
                Ok((triple0, triple1)) => if accepts(
                    self.participants,
                    self.threshold,
                    triple0.public.threshold,
                    triple1.public.threshold,
                ) {
                    Join::Started
                } else {
                    Join::Rejected
                },
            }
        }
    }

    /// A generation put in flight under `id`.
    pub open spec fn started(self, id: PresignatureId, generator: GeneratorView) -> State {
        State { generators: self.generators.insert(id, generator), ..self }
    }

    /// The presignature under `id` taken out, if there is one, and with it
    /// every entry of the queue that names it.
    pub open spec fn take(self, id: PresignatureId) -> (State, Option<Presignature>) {
        if self.presignatures.contains_key(id) {
            (
                State {
                    presignatures: self.presignatures.remove(id),
                    mine: without(self.mine, id),
                    ..self
                },
                Some(self.presignatures[id]),
            )
        } else {
            (self, None)
        }
    }

    /// Whether the queue's head, if there is one, names a presignature.
    pub open spec fn head_backed(self) -> bool {
        self.mine.len() > 0 ==> self.presignatures.contains_key(self.mine[0])
    }

    /// The oldest queued presignature taken out, if the queue holds any.
    pub open spec fn take_mine(self) -> (State, Option<Presignature>)
        recommends
            self.head_backed(),
    {
        if self.mine.len() > 0 {
            (
                State {
                    presignatures: self.presignatures.remove(self.mine[0]),
                    mine: self.mine.drop_first(),
                    ..self
                },
                Some(self.presignatures[self.mine[0]]),
            )
        } else {
            (self, None)
        }
    }

    /// The message that generation `id` sends with this payload.
    pub open spec fn message(self, id: PresignatureId, data: Seq<u8>) -> MessageView
        recommends
            self.generators.contains_key(id),
    {
        MessageView {
            id,
            triple0: self.generators[id].triple0,
            triple1: self.generators[id].triple1,
            epoch: self.epoch,
            from: self.me,
            data,
        }
    }

    /// What goes out when the engine of generation `id` answers `outcome`: one
    /// message to each participant, in the configured order, for `SendMany`;
    /// one message to the named participant for `SendPrivate`; nothing
    /// otherwise, and nothing for an identifier that is not in flight.
    pub open spec fn outbound(self, id: PresignatureId, outcome: Result<Action, PokeError>) -> Seq<
        (Participant, MessageView),
    > {
        if !self.generators.contains_key(id) {
            Seq::empty()
        } else {
            match outcome {
                Ok(Action::SendMany(data)) => Seq::new(
                    self.participants.len(),
                    |i: int| (self.participants[i], self.message(id, data@)),
                ),
                Ok(Action::SendPrivate(to, data)) => seq![(to, self.message(id, data@))],
                _ => Seq::empty(),
            }
        }
    }

    /// The state after the engine of generation `id` answered `outcome`. An
    /// output completes the generation: it leaves the generations in flight,
    /// becomes a presignature under `id` and, if this node started it, joins
    /// the queue. A failure drops the generation. Anything else, and any
    /// answer for an identifier that is not in flight, changes nothing.
    pub open spec fn advance(self, id: PresignatureId, outcome: Result<Action, PokeError>) -> State {
        if !self.generators.contains_key(id) {
            self
        } else {
            match outcome {
                Ok(Action::Return(output)) => State {
                    presignatures: self.presignatures.insert(id, Presignature { id, output }),
                    generators: self.generators.remove(id),
                    mine: if self.generators[id].mine {
                        self.mine.push(id)
                    } else {
                        self.mine
                    },
                    ..self
                },
                Err(_) => State { generators: self.generators.remove(id), ..self },
                _ => self,
            }
        }
    }

    /// The state after a sequence of answers, applied in order.
    pub open spec fn run(self, trace: Seq<Step>) -> State
        decreases trace.len(),
    {
        if trace.len() == 0 {
            self
        } else {
            self.run(trace.drop_last()).advance(trace.last().0, trace.last().1)
        }
    }

    /// Everything that goes out over a sequence of answers, in order.
    pub open spec fn sent(self, trace: Seq<Step>) -> Seq<(Participant, MessageView)>
        decreases trace.len(),
    {
        if trace.len() == 0 {
            Seq::empty()
        } else {
            self.sent(trace.drop_last()) + self.run(trace.drop_last()).outbound(
                trace.last().0,
                trace.last().1,
            )
        }
    }

    /// The failure of the generation that failed last over a sequence of
    /// answers, if any failed. An answer for an identifier that is not in
    /// flight when it comes fails nothing.
    pub open spec fn failure(self, trace: Seq<Step>) -> Option<PokeError>
        decreases trace.len(),
    {
        if trace.len() == 0 {
            None
        } else {
            match self.run(trace.drop_last()).progress(trace.last().0, trace.last().1) {
                Some(Progress::Failed(e)) => Some(e),
                _ => self.failure(trace.drop_last()),
            }
        }
    }

    /// Where generation `id` stands after its engine answered `outcome`;
    /// `None` for an identifier that is not in flight.
    pub open spec fn progress(self, id: PresignatureId, outcome: Result<Action, PokeError>) -> Option<
        Progress,
    > {
        if !self.generators.contains_key(id) {
            None
        } else {
            Some(
                match outcome {
                    Ok(Action::Wait) => Progress::Waiting,
                    Ok(Action::SendMany(_)) => Progress::Sending,
                    Ok(Action::SendPrivate(_, _)) => Progress::Sending,
                    Ok(Action::Return(_)) => Progress::Completed,
                    Err(e) => Progress::Failed(e),
                },
            )
        }
    }
}

} // verus!
