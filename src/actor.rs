//! Actors: clients that turn signal commands into writes on one hardware
//! output and republish the signal they applied.
use vstd::prelude::*;
use crate::pub_sub::{join3, ClientId, ClientState, Subject};

verus! {

/// A target actuation value with its provenance. `signal` is in thousandths
/// (1.0 is 1000); `timestamp` is in milliseconds.
#[derive(Clone, Debug)]
pub struct SignalMsg {
    pub id: ClientId,
    pub timestamp: i64,
    pub signal: i64,
}

/// Messages an actor receives on `actor.<id>.set_signal`.
#[derive(Clone, Debug)]
pub enum ActorSubMsg {
    SetSignal(SignalMsg),
    Stop,
}

/// Messages an actor publishes on `actor.<id>.current_signal`.
#[derive(Clone, Debug)]
pub enum ActorPubMsg {
    CurrentSignal(SignalMsg),
}

/// Failures of an actuation.
#[derive(Clone, Debug)]
pub enum Error {
    ActorError(String),
}

/// The bus side of one actor: its identity and the state of its loop.
pub struct ActorClient {
    pub id: ClientId,
    pub state: ClientState,
}

/// Whether a signal drives the output high.
pub open spec fn drives_high(signal: i64) -> bool {
    signal > 0
}

/// One message handled by an actor in `state`: the next state and the output
/// level to write, if any.
pub open spec fn actor_step(state: ClientState, msg: ActorSubMsg) -> (ClientState, Option<bool>) {
    if state == ClientState::Inactive {
        (state, None)
    } else {
        match msg {
            ActorSubMsg::SetSignal(m) => (state, Some(drives_high(m.signal))),
            ActorSubMsg::Stop => (ClientState::Inactive, None),
        }
    }
}

/// The output writes made while handling `msgs` in order.
pub open spec fn actor_writes(state: ClientState, msgs: Seq<ActorSubMsg>) -> Seq<bool>
    decreases msgs.len(),
{
    if msgs.len() == 0 {
        seq![]
    } else {
        let (next, w) = actor_step(state, msgs[0]);
        let rest = actor_writes(next, msgs.drop_first());
        match w {
            Some(level) => seq![level] + rest,
            None => rest,
        }
    }
}

pub open spec fn set_signal_subject_of(id: Seq<char>) -> Seq<char> {
    "actor."@ + id + ".set_signal"@
}

pub open spec fn current_signal_subject_of(id: Seq<char>) -> Seq<char> {
    "actor."@ + id + ".current_signal"@
}

impl SignalMsg {
    pub fn new(id: ClientId, timestamp: i64, signal: i64) -> (r: SignalMsg)
        ensures
            r.id == id,
            r.timestamp == timestamp,
            r.signal == signal,
    {
        SignalMsg { id, timestamp, signal }
    }
}

impl ActorClient {
    /// An active actor client.
    pub fn new(id: ClientId) -> (r: ActorClient)
        ensures
            r.id == id,
            r.state == ClientState::Active,
    {
        ActorClient { id, state: ClientState::Active }
    }

    /// The subject the actor takes commands on.
    pub fn command_subject(&self) -> (r: Subject)
        ensures
            r.0@ == set_signal_subject_of(self.id.0@),
    {
        Subject(join3("actor.", self.id.0.as_str(), ".set_signal"))
    }

    /// The subject the actor publishes its applied signal on.
    pub fn gen_signal_subject(&self) -> (r: Subject)
        ensures
            r.0@ == current_signal_subject_of(self.id.0@),
    {
        Subject(join3("actor.", self.id.0.as_str(), ".current_signal"))
    }

    /// Any signal is a valid one for a plain on/off output.
    pub fn validate_signal(&self, signal: i64) -> (r: Result<(), Error>)
        ensures
            r is Ok,
    {
        Ok(())
    }

    /// Handles one command. Returns the output level to write (high for a
    /// positive signal); `Stop` makes the client inactive, and an inactive
    /// client writes nothing.
    pub fn handle(&mut self, msg: &ActorSubMsg) -> (r: Option<bool>)
        ensures
            final(self).id == old(self).id,
            (final(self).state, r) == actor_step(old(self).state, *msg),
    {
        match self.state {
            ClientState::Inactive => None,
            ClientState::Active => match msg {
                ActorSubMsg::SetSignal(m) => {
                    match self.validate_signal(m.signal) {
                        Ok(()) => Some(m.signal > 0),
                        Err(_) => None,
                    }
                },
                ActorSubMsg::Stop => {
                    self.state = ClientState::Inactive;
                    None
                },
            },
        }
    }

    /// What to publish once a write for `msg` has finished: the applied
    /// signal on the current-signal subject, or nothing if the write failed.
    pub fn report(&self, msg: SignalMsg, outcome: Result<(), Error>) -> (r: Option<(Subject, ActorPubMsg)>)
        ensures
            outcome is Err ==> r is None,
            outcome is Ok ==> (r matches Some(p) && p.0.0@ == current_signal_subject_of(self.id.0@)
                && p.1 == ActorPubMsg::CurrentSignal(msg)),
    {
        match outcome {
            Ok(()) => Some((self.gen_signal_subject(), ActorPubMsg::CurrentSignal(msg))),
            Err(_) => None,
        }
    }
}

/// After `Stop`, the loop of an actor ends, and whatever messages are still
/// delivered cause no write and hence no publish.
pub proof fn lemma_stop_is_final(msgs: Seq<ActorSubMsg>)
    ensures
        actor_step(ClientState::Active, ActorSubMsg::Stop) == (ClientState::Inactive, Option::<bool>::None),
        actor_writes(ClientState::Inactive, msgs) == Seq::<bool>::empty(),
    decreases msgs.len(),
{
    if msgs.len() > 0 {
        lemma_stop_is_final(msgs.drop_first());
    }
}

} // verus!
