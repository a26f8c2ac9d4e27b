//! The supervisor: the table of running controllers, at most one per actuator,
//! and the lifecycle commands that start, swap and stop them.
use vstd::prelude::*;
use crate::brewery::Error;
use crate::control::{Controller, ControllerAction, ControllerState, NewContrData, SIGNAL_OFF};
use crate::pub_sub::ClientId;
use crate::sensor;
use vstd::string::*;

verus! {

/// A signal for an actuator, to be sent on its `set_signal` subject.
#[derive(Clone, Debug)]
pub struct Actuation {
    pub actor_id: ClientId,
    pub signal: i64,
}

/// Commands received on the command subject of the supervisor.
#[derive(Clone, Debug)]
pub enum SupervisorSubMsg {
    StartController { contr_data: NewContrData },
    SwitchController { contr_data: NewContrData },
    StopController { actor_id: ClientId },
}

/// The outcome of a supervisor step, without the texts carried by errors.
pub enum Outcome {
    Done(Seq<Actuation>),
    AlreadyActive,
    Missing,
}

/// The lifecycle state of the supervisor: the running controllers.
pub struct Supervisor {
    controllers: Vec<Controller>,
}

pub open spec fn actor_of(c: Controller) -> Seq<char> {
    c.config.actor_id.0@
}

pub open spec fn at(table: Seq<Controller>, actor: Seq<char>, i: int) -> bool {
    0 <= i < table.len() && actor_of(table[i]) == actor
}

/// Whether a controller runs for the actuator.
pub open spec fn runs_for(table: Seq<Controller>, actor: Seq<char>) -> bool {
    exists|i: int| at(table, actor, i)
}

/// The slot of the controller of the actuator, where there is one.
pub open spec fn slot(table: Seq<Controller>, actor: Seq<char>) -> int {
    choose|i: int| at(table, actor, i)
}

/// At most one controller per actuator, and every listed controller is automatic.
pub open spec fn table_wf(table: Seq<Controller>) -> bool {
    &&& forall|i: int, j: int|
        0 <= i < table.len() && 0 <= j < table.len() && actor_of(table[i]) == actor_of(table[j]) ==> i == j
    &&& forall|i: int| 0 <= i < table.len() ==> #[trigger] table[i].state == ControllerState::Automatic
}

/// A controller for `data`, running, with its actuator off.
pub open spec fn started(data: NewContrData) -> Controller {
    Controller { config: data.config, target: data.target, state: ControllerState::Automatic, actuator_on: false }
}

pub open spec fn off_for(c: Controller) -> Actuation {
    Actuation { actor_id: c.config.actor_id, signal: SIGNAL_OFF }
}

pub open spec fn start_step(table: Seq<Controller>, data: NewContrData) -> (Seq<Controller>, Outcome) {
    if runs_for(table, data.config.actor_id.0@) {
        (table, Outcome::AlreadyActive)
    } else {
        (table.push(started(data)), Outcome::Done(seq![]))
    }
}

pub open spec fn switch_step(table: Seq<Controller>, data: NewContrData) -> (Seq<Controller>, Outcome) {
    let a = data.config.actor_id.0@;
    if runs_for(table, a) {
        let i = slot(table, a);
        (table.remove(i).push(started(data)), Outcome::Done(seq![off_for(table[i])]))
    } else {
        (table.push(started(data)), Outcome::Done(seq![]))
    }
}

pub open spec fn stop_step(table: Seq<Controller>, actor: Seq<char>) -> (Seq<Controller>, Outcome) {
    if runs_for(table, actor) {
        let i = slot(table, actor);
        (table.remove(i), Outcome::Done(seq![off_for(table[i])]))
    } else {
        (table, Outcome::Missing)
    }
}

pub open spec fn sample_step(table: Seq<Controller>, actor: Seq<char>, reading: Result<i64, sensor::Error>) -> (Seq<Controller>, Outcome) {
    if runs_for(table, actor) {
        let i = slot(table, actor);
        let (c, action) = table[i].next(reading);
        let sent = match action {
            ControllerAction::Hold => seq![],
            ControllerAction::Actuate(s) => seq![Actuation { actor_id: c.config.actor_id, signal: s }],
            ControllerAction::Exit => seq![off_for(c)],
        };
        (table.update(i, c), Outcome::Done(sent))
    } else {
        (table, Outcome::Missing)
    }
}

/// The step a command takes on the table.
pub open spec fn command_step(table: Seq<Controller>, cmd: SupervisorSubMsg) -> (Seq<Controller>, Outcome) {
    match cmd {
        SupervisorSubMsg::StartController { contr_data } => start_step(table, contr_data),
        SupervisorSubMsg::SwitchController { contr_data } => switch_step(table, contr_data),
        SupervisorSubMsg::StopController { actor_id } => stop_step(table, actor_id.0@),
    }
}

/// How an executable result reads as an outcome.
pub open spec fn outcome_of(r: Result<Vec<Actuation>, Error>) -> Outcome {
    match r {
        Ok(v) => Outcome::Done(v@),
        Err(Error::AlreadyActive(_)) => Outcome::AlreadyActive,
        Err(_) => Outcome::Missing,
    }
}

/// The error carries the identity it is about, and names a controller where
/// one is missing.
pub open spec fn error_names(r: Result<Vec<Actuation>, Error>, actor: Seq<char>) -> bool {
    match r {
        Ok(_) => true,
        Err(Error::AlreadyActive(id)) => id@ == actor,
        Err(Error::Missing(kind, id)) => kind@ == "controller"@ && id@ == actor,
        Err(_) => false,
    }
}

proof fn lemma_push_keeps_wf(table: Seq<Controller>, c: Controller)
    requires
        table_wf(table),
        !runs_for(table, actor_of(c)),
        c.state == ControllerState::Automatic,
    ensures
        table_wf(table.push(c)),
{
    let t = table.push(c);
    assert forall|i: int, j: int|
        0 <= i < t.len() && 0 <= j < t.len() && actor_of(t[i]) == actor_of(t[j]) implies i == j by {
        if i < table.len() && j == table.len() {
            assert(at(table, actor_of(c), i));
        }
        if j < table.len() && i == table.len() {
            assert(at(table, actor_of(c), j));
        }
    }
    assert forall|i: int| 0 <= i < t.len() implies #[trigger] t[i].state == ControllerState::Automatic by {
        if i < table.len() {
            assert(t[i] == table[i]);
        }
    }
}

proof fn lemma_remove_keeps_wf(table: Seq<Controller>, k: int)
    requires
        table_wf(table),
        0 <= k < table.len(),
    ensures
        table_wf(table.remove(k)),
        !runs_for(table.remove(k), actor_of(table[k])),
{
    let t = table.remove(k);
    assert forall|i: int, j: int|
        0 <= i < t.len() && 0 <= j < t.len() && actor_of(t[i]) == actor_of(t[j]) implies i == j by {
        let i0 = if i < k { i } else { i + 1 };
        let j0 = if j < k { j } else { j + 1 };
        assert(t[i] == table[i0]);
        assert(t[j] == table[j0]);
    }
    assert forall|i: int| 0 <= i < t.len() implies #[trigger] t[i].state == ControllerState::Automatic by {
        let i0 = if i < k { i } else { i + 1 };
        assert(t[i] == table[i0]);
    }
    if runs_for(t, actor_of(table[k])) {
        let i = choose|i: int| at(t, actor_of(table[k]), i);
        let i0 = if i < k { i } else { i + 1 };
        assert(t[i] == table[i0]);
    }
}

impl SupervisorSubMsg {
    /// The actuator that the command addresses.
    pub open spec fn target_actor(self) -> Seq<char> {
        match self {
            SupervisorSubMsg::StartController { contr_data } => contr_data.config.actor_id.0@,
            SupervisorSubMsg::SwitchController { contr_data } => contr_data.config.actor_id.0@,
            SupervisorSubMsg::StopController { actor_id } => actor_id.0@,
        }
    }
}

impl Supervisor {
    pub closed spec fn table(&self) -> Seq<Controller> {
        self.controllers@
    }

    pub open spec fn wf(&self) -> bool {
        table_wf(self.table())
    }

    /// A supervisor with no controller running.
    pub fn new() -> (r: Supervisor)
        ensures
            r.wf(),
            r.table() == Seq::<Controller>::empty(),
    {
        Supervisor { controllers: Vec::new() }
    }

    /// Number of running controllers.
    pub fn len(&self) -> (r: usize)
        ensures
            r == self.table().len(),
    {
        self.controllers.len()
    }

    /// The running controller at a slot of the table.
    pub fn controller(&self, i: usize) -> (r: &Controller)
        requires
            i < self.table().len(),
        ensures
            *r == self.table()[i as int],
    {
        &self.controllers[i]
    }

    /// The slot of the controller that drives `actor`, if one runs.
    pub fn find(&self, actor: &ClientId) -> (r: Option<usize>)
        requires
            self.wf(),
        ensures
            r is None <==> !runs_for(self.table(), actor.0@),
            r matches Some(i) ==> i == slot(self.table(), actor.0@) && at(self.table(), actor.0@, i as int),
    {
        let mut i: usize = 0;
        while i < self.controllers.len()
            invariant
                self.wf(),
                i <= self.controllers@.len(),
                forall|j: int| 0 <= j < i ==> !at(self.controllers@, actor.0@, j),
            decreases self.controllers@.len() - i,
        {
            if self.controllers[i].config.actor_id.same(actor) {
                assert(at(self.table(), actor.0@, i as int));
                let ghost k = slot(self.table(), actor.0@);
                assert(at(self.table(), actor.0@, k));
                assert(actor_of(self.controllers@[k]) == actor_of(self.controllers@[i as int]));
                return Some(i);
            }
            i += 1;
        }
        None
    }

    /// Starts a controller for the addressed actuator; refused while one runs for it.
    pub fn start_controller(&mut self, data: NewContrData) -> (r: Result<Vec<Actuation>, Error>)
        requires
            old(self).wf(),
        ensures
            final(self).wf(),
            (final(self).table(), outcome_of(r)) == start_step(old(self).table(), data),
            error_names(r, data.config.actor_id.0@),
    {
        match self.find(&data.config.actor_id) {
            Some(_) => Err(Error::AlreadyActive(data.config.actor_id.0.clone())),
            None => {
                let c = Controller { config: data.config, target: data.target, state: ControllerState::Automatic, actuator_on: false };
                proof {
                    lemma_push_keeps_wf(self.controllers@, c);
                }
                self.controllers.push(c);
                Ok(Vec::new())
            },
        }
    }

    /// Replaces the controller of an actuator: the old one is stopped and its
    /// actuator driven off before the new one runs.
    pub fn switch_controller(&mut self, data: NewContrData) -> (r: Result<Vec<Actuation>, Error>)
        requires
            old(self).wf(),
        ensures
            final(self).wf(),
            r is Ok,
            (final(self).table(), outcome_of(r)) == switch_step(old(self).table(), data),
    {
        let mut sent: Vec<Actuation> = Vec::new();
        match self.find(&data.config.actor_id) {
            Some(i) => {
                proof {
                    lemma_remove_keeps_wf(self.controllers@, i as int);
                }
                let old_c = self.controllers.remove(i);
                sent.push(Actuation { actor_id: old_c.config.actor_id, signal: SIGNAL_OFF });
            },
            None => {},
        }
        let c = Controller { config: data.config, target: data.target, state: ControllerState::Automatic, actuator_on: false };
        proof {
            lemma_push_keeps_wf(self.controllers@, c);
        }
        self.controllers.push(c);
        proof {
            assert(sent@ =~= switch_step(old(self).table(), data).1->Done_0);
        }
        Ok(sent)
    }

    /// Stops the controller of an actuator, driving the actuator off.
    pub fn stop_controller(&mut self, actor: &ClientId) -> (r: Result<Vec<Actuation>, Error>)
        requires
            old(self).wf(),
        ensures
            final(self).wf(),
            (final(self).table(), outcome_of(r)) == stop_step(old(self).table(), actor.0@),
            error_names(r, actor.0@),
    {
        match self.find(actor) {
            Some(i) => {
                proof {
                    lemma_remove_keeps_wf(self.controllers@, i as int);
                }
                let old_c = self.controllers.remove(i);
                let mut sent: Vec<Actuation> = Vec::new();
                sent.push(Actuation { actor_id: old_c.config.actor_id, signal: SIGNAL_OFF });
                proof {
                    assert(sent@ =~= seq![off_for(old_c)]);
                }
                Ok(sent)
            },
            None => Err(Error::Missing(String::from_str("controller"), actor.0.clone())),
        }
    }

    /// One sample of the controller of an actuator with the latest sensor
    /// reading; returns the signals to send.
    pub fn on_measurement(&mut self, actor: &ClientId, reading: Result<i64, sensor::Error>) -> (r: Result<Vec<Actuation>, Error>)
        requires
            old(self).wf(),
        ensures
            final(self).wf(),
            (final(self).table(), outcome_of(r)) == sample_step(old(self).table(), actor.0@, reading),
            error_names(r, actor.0@),
    {
        match self.find(actor) {
            Some(i) => {
                let ghost before = self.controllers@;
                let mut c = self.controllers.remove(i);
                let action = c.tick(reading);
                let mut sent: Vec<Actuation> = Vec::new();
                match action {
                    ControllerAction::Hold => {},
                    ControllerAction::Actuate(sig) => {
                        sent.push(Actuation { actor_id: c.config.actor_id.cloned(), signal: sig });
                    },
                    ControllerAction::Exit => {
                        sent.push(Actuation { actor_id: c.config.actor_id.cloned(), signal: SIGNAL_OFF });
                    },
                }
                self.controllers.insert(i, c);
                proof {
                    assert(self.controllers@ =~= before.update(i as int, c));
                    assert(sent@ =~= sample_step(before, actor.0@, reading).1->Done_0);
                    let t = self.controllers@;
                    assert forall|j: int| 0 <= j < t.len() implies #[trigger] t[j].state == ControllerState::Automatic by {
                        if j != i {
                            assert(t[j] == before[j]);
                        }
                    }
                    assert forall|j: int, k: int|
                        0 <= j < t.len() && 0 <= k < t.len() && actor_of(t[j]) == actor_of(t[k]) implies j == k by {
                        assert(actor_of(t[j]) == actor_of(before[j]));
                        assert(actor_of(t[k]) == actor_of(before[k]));
                    }
                }
                Ok(sent)
            },
            None => Err(Error::Missing(String::from_str("controller"), actor.0.clone())),
        }
    }

    /// Dispatches one command received on the command subject.
    pub fn process_command(&mut self, cmd: SupervisorSubMsg) -> (r: Result<Vec<Actuation>, Error>)
        requires
            old(self).wf(),
        ensures
            final(self).wf(),
            (final(self).table(), outcome_of(r)) == command_step(old(self).table(), cmd),
            error_names(r, cmd.target_actor()),
    {
        match cmd {
            SupervisorSubMsg::StartController { contr_data } => self.start_controller(contr_data),
            SupervisorSubMsg::SwitchController { contr_data } => self.switch_controller(contr_data),
            SupervisorSubMsg::StopController { actor_id } => self.stop_controller(&actor_id),
        }
    }
}

/// Every command keeps at most one controller per actuator, all automatic.
pub proof fn lemma_command_keeps_wf(table: Seq<Controller>, cmd: SupervisorSubMsg)
    requires
        table_wf(table),
    ensures
        table_wf(command_step(table, cmd).0),
{
    match cmd {
        SupervisorSubMsg::StartController { contr_data } => {
            if !runs_for(table, contr_data.config.actor_id.0@) {
                lemma_push_keeps_wf(table, started(contr_data));
            }
        },
        SupervisorSubMsg::SwitchController { contr_data } => {
            let a = contr_data.config.actor_id.0@;
            if runs_for(table, a) {
                let i = slot(table, a);
                lemma_remove_keeps_wf(table, i);
                lemma_push_keeps_wf(table.remove(i), started(contr_data));
            } else {
                lemma_push_keeps_wf(table, started(contr_data));
            }
        },
        SupervisorSubMsg::StopController { actor_id } => {
            if runs_for(table, actor_id.0@) {
                lemma_remove_keeps_wf(table, slot(table, actor_id.0@));
            }
        },
    }
}

/// The table after a sequence of commands.
pub open spec fn run_commands(table: Seq<Controller>, cmds: Seq<SupervisorSubMsg>) -> Seq<Controller>
    decreases cmds.len(),
{
    if cmds.len() == 0 {
        table
    } else {
        run_commands(command_step(table, cmds[0]).0, cmds.drop_first())
    }
}

/// Whatever commands arrive, no actuator ever has two controllers.
pub proof fn lemma_one_controller_per_actuator(table: Seq<Controller>, cmds: Seq<SupervisorSubMsg>)
    requires
        table_wf(table),
    ensures
        table_wf(run_commands(table, cmds)),
    decreases cmds.len(),
{
    if cmds.len() > 0 {
        lemma_command_keeps_wf(table, cmds[0]);
        lemma_one_controller_per_actuator(command_step(table, cmds[0]).0, cmds.drop_first());
    }
}

/// A start for an actuator that already has a running controller is refused
/// with `AlreadyActive`, and changes nothing; after a start succeeds, a
/// second start for the same actuator is refused until a stop removes it.
pub proof fn lemma_second_start_refused(table: Seq<Controller>, first: NewContrData, second: NewContrData)
    requires
        table_wf(table),
        start_step(table, first).1 is Done,
        second.config.actor_id.0@ == first.config.actor_id.0@,
    ensures
        start_step(start_step(table, first).0, second) == (start_step(table, first).0, Outcome::AlreadyActive),
        stop_step(start_step(table, first).0, first.config.actor_id.0@).0 == table,
{
    let t = start_step(table, first).0;
    let a = first.config.actor_id.0@;
    assert(at(t, a, table.len() as int));
    lemma_push_keeps_wf(table, started(first));
    let k = slot(t, a);
    assert(k == table.len());
    assert(t.remove(k) =~= table);
}

/// Switching the controller of a running actuator sends exactly one signal,
/// the off signal, between the last decision of the old controller and the
/// first decision of the new one; the new controller runs with the new target
/// and its actuator off, and decides only on the next sample.
pub proof fn lemma_switch_turns_off_first(table: Seq<Controller>, data: NewContrData)
    requires
        table_wf(table),
        runs_for(table, data.config.actor_id.0@),
    ensures
        ({
            let (t, out) = switch_step(table, data);
            let a = data.config.actor_id.0@;
            &&& out == Outcome::Done(seq![Actuation { actor_id: table[slot(table, a)].config.actor_id, signal: SIGNAL_OFF }])
            &&& table[slot(table, a)].config.actor_id.0@ == a
            &&& table_wf(t)
            &&& runs_for(t, a)
            &&& t[slot(t, a)] == started(data)
            &&& t[slot(t, a)].target == data.target
        }),
{
    let a = data.config.actor_id.0@;
    let i = slot(table, a);
    lemma_remove_keeps_wf(table, i);
    lemma_push_keeps_wf(table.remove(i), started(data));
    let t = switch_step(table, data).0;
    assert(at(t, a, t.len() - 1));
    let k = slot(t, a);
    assert(actor_of(t[k]) == actor_of(t[t.len() - 1]));
}

} // verus!
