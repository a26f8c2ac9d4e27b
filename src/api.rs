//! The request interface of a single-controller brewery, as served to a web
//! front end: each request is answered with one response.
use vstd::prelude::*;
use vstd::string::*;
use crate::brewery::{already_active_text, missing_text, Error};
use crate::control::{Controller, ControllerAction, ControllerState, NewContrData};
use crate::pub_sub::str_eq;
use crate::sensor;
use crate::supervisor::started;

verus! {

/// What a request asks for.
#[derive(Clone, Copy, Debug, PartialEq, Eq, Structural)]
pub enum Command {
    GetMeasurement,
    SetTarget,
    StartController,
    SwitchController,
    StopController,
    GetFullState,
    Error,
}

/// A request: a command, the actuator it addresses, a numeric parameter (in
/// thousandths) and, for a switch, the new controller.
#[derive(Clone, Debug)]
pub struct Request {
    pub command: Command,
    pub id: Option<String>,
    pub parameter: Option<i64>,
    pub contr_data: Option<NewContrData>,
}

/// The answer to one request.
#[derive(Clone, Debug)]
pub struct Response {
    pub result: Option<i64>,
    pub message: Option<String>,
    pub success: bool,
}

/// A response with what the runner of the control loop has to do.
#[derive(Clone, Debug)]
pub struct Reply {
    pub response: Response,
    /// A control loop has to be started.
    pub start_loop: bool,
    /// The actuator has to be driven to the off signal now.
    pub drive_off: bool,
}

/// A brewery with one controller. The sensor and the actuator it drives are
/// handles owned by whoever runs the controller loop, which calls
/// `on_measurement` once per sample.
pub struct Brewery {
    pub controller: Controller,
}

pub open spec fn is_ok_response(r: Response) -> bool {
    r.result is None && r.message is None && r.success
}

/// A failed response carrying the text of `e`.
pub open spec fn is_error_response(r: Response, e: Error) -> bool {
    r.result is None && !r.success && (r.message matches Some(m) && m@ == e.text())
}

pub open spec fn is_already_active(e: Error, actor: Seq<char>) -> bool {
    e matches Error::AlreadyActive(id) && id@ == actor
}

pub open spec fn is_missing(e: Error, kind: Seq<char>, id: Seq<char>) -> bool {
    e matches Error::Missing(k, i) && k@ == kind && i@ == id
}

/// Whether a request that names `id` addresses the actuator `actor`.
pub open spec fn addresses(id: Option<String>, actor: Seq<char>) -> bool {
    match id {
        Some(i) => i@ == actor,
        None => true,
    }
}

impl Request {
    pub fn new(command: Command, id: Option<String>, parameter: Option<i64>, contr_data: Option<NewContrData>) -> (r: Request)
        ensures
            r.command == command,
            r.id == id,
            r.parameter == parameter,
            r.contr_data == contr_data,
    {
        Request { command, id, parameter, contr_data }
    }
}

fn ok_response() -> (r: Response)
    ensures
        is_ok_response(r),
{
    Response { result: None, message: None, success: true }
}

fn error_response(e: Error) -> (r: Response)
    ensures
        is_error_response(r, e),
{
    Response { result: None, message: Some(e.message()), success: false }
}

impl Brewery {
    pub open spec fn actor(&self) -> Seq<char> {
        self.controller.config.actor_id.0@
    }

    /// A brewery whose controller is built from `data` and not yet running.
    pub fn new(data: NewContrData) -> (r: Brewery)
        ensures
            r.controller == Controller::new_spec(data),
    {
        Brewery { controller: Controller::new(data) }
    }

    /// Whether answering the request takes a sensor reading.
    pub fn needs_measurement(request: &Request) -> (r: bool)
        ensures
            r == (request.command == Command::GetMeasurement),
    {
        match request.command {
            Command::GetMeasurement => true,
            _ => false,
        }
    }

    fn actor_error(&self) -> (r: String)
        ensures
            r@ == self.actor(),
    {
        self.controller.config.actor_id.0.clone()
    }

    /// Starts the controller; refused with `AlreadyActive` while it runs.
    /// On success a control loop has to be started.
    pub fn start_controller(&mut self) -> (r: Result<(), Error>)
        ensures
            old(self).controller.state == ControllerState::Automatic ==> (r matches Err(e)
                && is_already_active(e, old(self).actor()) && *final(self) == *old(self)),
            old(self).controller.state != ControllerState::Automatic ==> (r is Ok
                && final(self).controller == (Controller { state: ControllerState::Automatic, ..old(self).controller })),
    {
        match self.controller.get_state() {
            ControllerState::Automatic => Err(Error::AlreadyActive(self.actor_error())),
            _ => {
                self.controller.set_state(ControllerState::Automatic);
                Ok(())
            },
        }
    }

    /// Stops the running controller; its loop then drives the actuator off
    /// and exits. Refused with `Missing` when it does not run.
    pub fn stop_controller(&mut self) -> (r: Result<(), Error>)
        ensures
            old(self).controller.state == ControllerState::Automatic ==> (r is Ok
                && final(self).controller == (Controller { state: ControllerState::Inactive, ..old(self).controller })),
            old(self).controller.state != ControllerState::Automatic ==> (r matches Err(e)
                && is_missing(e, "controller"@, old(self).actor()) && *final(self) == *old(self)),
    {
        match self.controller.get_state() {
            ControllerState::Automatic => {
                self.controller.set_state(ControllerState::Inactive);
                Ok(())
            },
            _ => Err(Error::Missing(String::from_str("controller"), self.actor_error())),
        }
    }

    /// Replaces the controller by one built from `data`, running with its
    /// actuator off. Returns whether the old controller was running: its
    /// actuator then has to be driven off before the new one decides, and
    /// the running loop goes on with the new controller; otherwise a loop has
    /// to be started.
    pub fn switch_controller(&mut self, data: NewContrData) -> (was_running: bool)
        ensures
            was_running == (old(self).controller.state == ControllerState::Automatic),
            final(self).controller == started(data),
    {
        let was_running = match self.controller.get_state() {
            ControllerState::Automatic => true,
            _ => false,
        };
        self.controller = Controller { config: data.config, target: data.target, state: ControllerState::Automatic, actuator_on: false };
        was_running
    }

    /// Sets the target of the controller, where one is given.
    pub fn change_controller_target(&mut self, new_target: Option<i64>)
        ensures
            new_target matches Some(t) ==> final(self).controller == (Controller { target: t, ..old(self).controller }),
            new_target is None ==> *final(self) == *old(self),
    {
        if let Some(t) = new_target {
            self.controller.set_target(t);
        }
    }

    /// One sample of the control loop with the latest sensor reading.
    pub fn on_measurement(&mut self, reading: Result<i64, sensor::Error>) -> (r: ControllerAction)
        ensures
            (final(self).controller, r) == old(self).controller.next(reading),
    {
        self.controller.tick(reading)
    }

    /// Answers one request. `reading` is the sensor reading taken for a
    /// measurement request.
    pub fn process_request(&mut self, request: &Request, reading: Option<Result<i64, sensor::Error>>) -> (r: Reply)
        requires
            request.command == Command::GetMeasurement ==> reading is Some,
        ensures
            match request.command {
                Command::StartController => {
                    &&& !r.drive_off
                    &&& if old(self).controller.state == ControllerState::Automatic {
                        &&& r.response.result is None && !r.response.success
                        &&& r.response.message matches Some(m) && m@ == already_active_text(old(self).actor())
                        &&& !r.start_loop
                        &&& *final(self) == *old(self)
                    } else {
                        &&& is_ok_response(r.response)
                        &&& r.start_loop
                        &&& final(self).controller == (Controller { state: ControllerState::Automatic, ..old(self).controller })
                    }
                },
                Command::StopController => {
                    &&& !r.drive_off && !r.start_loop
                    &&& if old(self).controller.state == ControllerState::Automatic
                        && addresses(request.id, old(self).actor()) {
                        &&& is_ok_response(r.response)
                        &&& final(self).controller == (Controller { state: ControllerState::Inactive, ..old(self).controller })
                    } else {
                        &&& r.response.result is None && !r.response.success
                        &&& r.response.message matches Some(m) && m@ == missing_text("controller"@, match request.id {
                            Some(i) => i@,
                            None => old(self).actor(),
                        })
                        &&& *final(self) == *old(self)
                    }
                },
                Command::SwitchController => match request.contr_data {
                    Some(data) => {
                        &&& is_ok_response(r.response)
                        &&& r.drive_off == (old(self).controller.state == ControllerState::Automatic)
                        &&& r.start_loop == !r.drive_off
                        &&& final(self).controller == started(data)
                    },
                    None => {
                        &&& r.response.result is None && !r.response.success && r.response.message is Some
                        &&& !r.drive_off && !r.start_loop
                        &&& *final(self) == *old(self)
                    },
                },
                Command::SetTarget => {
                    &&& is_ok_response(r.response)
                    &&& !r.start_loop && !r.drive_off
                    &&& final(self).controller == (match request.parameter {
                        Some(t) => Controller { target: t, ..old(self).controller },
                        None => old(self).controller,
                    })
                },
                Command::GetMeasurement => {
                    &&& !r.start_loop && !r.drive_off
                    &&& *final(self) == *old(self)
                    &&& match reading->Some_0 {
                        Ok(m) => r.response.result == Some(m) && r.response.message is None && r.response.success,
                        Err(e) => r.response.result is None && !r.response.success
                            && (r.response.message matches Some(t) && t@ == e.text()),
                    }
                },
                _ => {
                    &&& !r.start_loop && !r.drive_off
                    &&& *final(self) == *old(self)
                    &&& r.response.result is None && !r.response.success
                    &&& r.response.message matches Some(m) && m@ == "Not implemented yet"@
                },
            },
    {
        match request.command {
            Command::StartController => match self.start_controller() {
                Ok(()) => Reply { response: ok_response(), start_loop: true, drive_off: false },
                Err(e) => Reply { response: error_response(e), start_loop: false, drive_off: false },
            },
            Command::StopController => {
                let named = match &request.id {
                    Some(i) => str_eq(i.as_str(), self.controller.config.actor_id.0.as_str()),
                    None => true,
                };
                let e = match &request.id {
                    Some(i) => Error::Missing(String::from_str("controller"), i.clone()),
                    None => Error::Missing(String::from_str("controller"), self.actor_error()),
                };
                if !named {
                    return Reply { response: error_response(e), start_loop: false, drive_off: false };
                }
                match self.stop_controller() {
                    Ok(()) => Reply { response: ok_response(), start_loop: false, drive_off: false },
                    Err(_) => Reply { response: error_response(e), start_loop: false, drive_off: false },
                }
            },
            Command::SwitchController => match &request.contr_data {
                Some(data) => {
                    let was_running = self.switch_controller(data.clone_data());
                    Reply { response: ok_response(), start_loop: !was_running, drive_off: was_running }
                },
                None => {
                    let e = Error::Missing(String::from_str("configuration"), self.actor_error());
                    Reply { response: error_response(e), start_loop: false, drive_off: false }
                },
            },
            Command::GetMeasurement => {
                let resp = match reading {
                    Some(Ok(m)) => Response { result: Some(m), message: None, success: true },
                    Some(Err(e)) => Response { result: None, message: Some(e.message()), success: false },
                    None => Response { result: None, message: None, success: false },
                };
                Reply { response: resp, start_loop: false, drive_off: false }
            },
            Command::SetTarget => {
                self.change_controller_target(request.parameter);
                Reply { response: ok_response(), start_loop: false, drive_off: false }
            },
            _ => Reply {
                response: Response { result: None, message: Some(String::from_str("Not implemented yet")), success: false },
                start_loop: false,
                drive_off: false,
            },
        }
    }
}

} // verus!
