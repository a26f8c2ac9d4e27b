//! Hysteresis control. Measurements, targets, offsets and actuator signals are
//! integers in thousandths of their unit (a temperature of 20.5 is 20500).
use vstd::prelude::*;
use crate::pub_sub::ClientId;
use crate::sensor;

verus! {

/// The signal that switches an actuator on (1.0).
pub const SIGNAL_ON: i64 = 1000;

/// The signal that switches an actuator off; also its safe state.
pub const SIGNAL_OFF: i64 = 0;

/// Operating mode of a controller.
#[derive(Clone, Copy, Debug, PartialEq, Eq, Structural)]
pub enum ControllerState {
    Inactive,
    Automatic,
    Manual,
}

/// Parameters of a hysteresis controller and the components it connects.
#[derive(Clone, Debug)]
pub struct ControllerConfig {
    pub actor_id: ClientId,
    pub sensor_id: ClientId,
    /// The actuator goes on at or below `target - offset_on`.
    pub offset_on: i64,
    /// The actuator goes off at or above `target + offset_off`.
    pub offset_off: i64,
}

/// A request to (re)configure the controller of one actuator.
#[derive(Clone, Debug)]
pub struct NewContrData {
    pub config: ControllerConfig,
    pub target: i64,
}

/// A running hysteresis controller.
#[derive(Clone, Debug)]
pub struct Controller {
    pub config: ControllerConfig,
    pub target: i64,
    pub state: ControllerState,
    /// Whether the controller last drove its actuator on.
    pub actuator_on: bool,
}

/// What a controller asks of its loop after one sample.
#[derive(Clone, Copy, Debug, PartialEq, Eq, Structural)]
pub enum ControllerAction {
    /// Nothing to send; keep sampling.
    Hold,
    /// Send this signal to the actuator; keep sampling.
    Actuate(i64),
    /// Drive the actuator to `SIGNAL_OFF` and leave the loop.
    Exit,
}

/// The hysteresis policy: on at or below `target - on`, off at or above
/// `target + off`, otherwise unchanged.
pub open spec fn hysteresis(target: int, on: int, off: int, measurement: int, was_on: bool) -> bool {
    if measurement <= target - on {
        true
    } else if measurement >= target + off {
        false
    } else {
        was_on
    }
}

pub open spec fn signal_of(on: bool) -> i64 {
    if on {
        SIGNAL_ON
    } else {
        SIGNAL_OFF
    }
}

impl ControllerConfig {
    /// Hysteresis parameters for the given actuator and sensor.
    pub fn hysteresis(actor_id: ClientId, sensor_id: ClientId, offset_on: i64, offset_off: i64) -> (r: ControllerConfig)
        ensures
            r.actor_id == actor_id,
            r.sensor_id == sensor_id,
            r.offset_on == offset_on,
            r.offset_off == offset_off,
    {
        ControllerConfig { actor_id, sensor_id, offset_on, offset_off }
    }
}

impl ControllerConfig {
    /// A copy of the configuration.
    pub fn clone_config(&self) -> (r: ControllerConfig)
        ensures
            r == *self,
    {
        ControllerConfig {
            actor_id: self.actor_id.cloned(),
            sensor_id: self.sensor_id.cloned(),
            offset_on: self.offset_on,
            offset_off: self.offset_off,
        }
    }
}

impl NewContrData {
    /// A copy of the request.
    pub fn clone_data(&self) -> (r: NewContrData)
        ensures
            r == *self,
    {
        NewContrData { config: self.config.clone_config(), target: self.target }
    }

    pub fn new(config: ControllerConfig, target: i64) -> (r: NewContrData)
        ensures
            r.config == config,
            r.target == target,
    {
        NewContrData { config, target }
    }
}

/// The actuator state the hysteresis policy picks for one measurement.
pub fn decide(config: &ControllerConfig, target: i64, measurement: i64, was_on: bool) -> (r: bool)
    ensures
        r == hysteresis(target as int, config.offset_on as int, config.offset_off as int, measurement as int, was_on),
{
    let m = measurement as i128;
    let t = target as i128;
    if m <= t - config.offset_on as i128 {
        true
    } else if m >= t + config.offset_off as i128 {
        false
    } else {
        was_on
    }
}

impl Controller {
    /// The controller of the next sample after `reading`: the step that `tick` takes.
    pub open spec fn next(self, reading: Result<i64, sensor::Error>) -> (Controller, ControllerAction) {
        if self.state != ControllerState::Automatic {
            (Controller { actuator_on: false, ..self }, ControllerAction::Exit)
        } else {
            match reading {
                Err(_) => (self, ControllerAction::Hold),
                Ok(m) => {
                    let on = hysteresis(self.target as int, self.config.offset_on as int,
                        self.config.offset_off as int, m as int, self.actuator_on);
                    if on == self.actuator_on {
                        (self, ControllerAction::Hold)
                    } else {
                        (Controller { actuator_on: on, ..self }, ControllerAction::Actuate(signal_of(on)))
                    }
                },
            }
        }
    }

    /// The controller that `new` builds.
    pub open spec fn new_spec(data: NewContrData) -> Controller {
        Controller { config: data.config, target: data.target, state: ControllerState::Inactive, actuator_on: false }
    }

    /// A controller for `data`, not yet running, with its actuator off.
    pub fn new(data: NewContrData) -> (r: Controller)
        ensures
            r == Controller::new_spec(data),
    {
        Controller { config: data.config, target: data.target, state: ControllerState::Inactive, actuator_on: false }
    }

    pub fn get_state(&self) -> (r: ControllerState)
        ensures
            r == self.state,
    {
        self.state
    }

    pub fn set_state(&mut self, state: ControllerState)
        ensures
            *final(self) == (Controller { state, ..*old(self) }),
    {
        self.state = state;
    }

    pub fn get_target(&self) -> (r: i64)
        ensures
            r == self.target,
    {
        self.target
    }

    pub fn set_target(&mut self, target: i64)
        ensures
            *final(self) == (Controller { target, ..*old(self) }),
    {
        self.target = target;
    }

    /// One sample of the control loop. A failed reading is skipped; a decision
    /// that changes the actuator is sent; a controller that is no longer
    /// automatic drives its actuator off and stops.
    pub fn tick(&mut self, reading: Result<i64, sensor::Error>) -> (r: ControllerAction)
        ensures
            (*final(self), r) == old(self).next(reading),
    {
        match self.state {
            ControllerState::Automatic => {},
            _ => {
                self.actuator_on = false;
                return ControllerAction::Exit;
            },
        }
        match reading {
            Err(_) => ControllerAction::Hold,
            Ok(m) => {
                let on = decide(&self.config, self.target, m, self.actuator_on);
                if on == self.actuator_on {
                    ControllerAction::Hold
                } else {
                    self.actuator_on = on;
                    ControllerAction::Actuate(if on { SIGNAL_ON } else { SIGNAL_OFF })
                }
            },
        }
    }
}

/// Once a controller has left automatic mode, its next sample drives the
/// actuator off and ends its loop, whatever was read.
pub proof fn lemma_stopped_controller_exits(c: Controller, reading: Result<i64, sensor::Error>)
    requires
        c.state != ControllerState::Automatic,
    ensures
        c.next(reading).1 == ControllerAction::Exit,
        !c.next(reading).0.actuator_on,
{
}

/// Inside the dead band `(target - offset_on, target + offset_off)` a
/// controller never changes its actuator.
pub proof fn lemma_dead_band_holds(c: Controller, m: i64)
    requires
        c.state == ControllerState::Automatic,
        c.target - c.config.offset_on < m < c.target + c.config.offset_off,
    ensures
        c.next(Ok(m)) == (c, ControllerAction::Hold),
{
}

} // verus!
