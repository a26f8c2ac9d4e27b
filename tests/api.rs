use bryggio::api::{Brewery, Command, Request};
use bryggio::brewery::Error;
use bryggio::control::{ControllerAction, ControllerConfig, ControllerState, NewContrData, SIGNAL_OFF, SIGNAL_ON};
use bryggio::hardware::{level_is_high, level_is_low, line_value};
use bryggio::pub_sub::ClientId;
use bryggio::sensor;

fn data(target: i64, on: i64, off: i64) -> NewContrData {
    NewContrData::new(ControllerConfig::hysteresis(ClientId::new("heater"), ClientId::new("probe"), on, off), target)
}

fn request(command: Command) -> Request {
    Request::new(command, None, None, None)
}

#[test]
fn new_brewery_is_inactive() {
    let b = Brewery::new(data(20000, 1000, 0));
    assert_eq!(b.controller.state, ControllerState::Inactive);
    assert!(!b.controller.actuator_on);
    assert_eq!(b.controller.config.sensor_id.0, "probe");
}

#[test]
fn second_start_is_already_active() {
    let mut b = Brewery::new(data(20000, 1000, 0));
    let r = b.process_request(&request(Command::StartController), None);
    assert!(r.response.success && r.start_loop);
    assert_eq!(b.controller.state, ControllerState::Automatic);
    let r = b.process_request(&request(Command::StartController), None);
    assert!(!r.response.success && !r.start_loop);
    assert_eq!(r.response.message, Some(String::from("ID is already in use: heater")));
    assert!(matches!(b.start_controller(), Err(Error::AlreadyActive(_))));
    assert_eq!(b.controller.state, ControllerState::Automatic);
}

#[test]
fn stop_needs_a_running_controller() {
    let mut b = Brewery::new(data(20000, 1000, 0));
    let r = b.process_request(&request(Command::StopController), None);
    assert!(!r.response.success);
    assert_eq!(r.response.message, Some(String::from("ID 'heater' does not exist for controller")));
    b.process_request(&request(Command::StartController), None);
    let other = Request::new(Command::StopController, Some(String::from("pump")), None, None);
    let r = b.process_request(&other, None);
    assert_eq!(r.response.message, Some(String::from("ID 'pump' does not exist for controller")));
    assert_eq!(b.controller.state, ControllerState::Automatic);
    let named = Request::new(Command::StopController, Some(String::from("heater")), None, None);
    assert!(b.process_request(&named, None).response.success);
    assert_eq!(b.controller.state, ControllerState::Inactive);
    assert_eq!(b.on_measurement(Ok(0)), ControllerAction::Exit);
}

#[test]
fn brewery_hysteresis_scenario() {
    let mut b = Brewery::new(data(50000, 1000, 1000));
    assert!(b.process_request(&request(Command::StartController), None).start_loop);
    assert_eq!(b.on_measurement(Ok(49000)), ControllerAction::Actuate(SIGNAL_ON));
    assert_eq!(b.on_measurement(Ok(49500)), ControllerAction::Hold);
    assert_eq!(b.on_measurement(Ok(50500)), ControllerAction::Hold);
    assert_eq!(b.on_measurement(Ok(51000)), ControllerAction::Actuate(SIGNAL_OFF));
    assert_eq!(b.on_measurement(Err(sensor::Error::FileReadError(String::from("x")))), ControllerAction::Hold);
}

#[test]
fn brewery_switch_scenario() {
    let mut b = Brewery::new(data(20000, 2000, 1000));
    b.process_request(&request(Command::StartController), None);
    assert_eq!(b.on_measurement(Ok(18000)), ControllerAction::Actuate(SIGNAL_ON));
    let switch = Request::new(Command::SwitchController, None, None, Some(data(25000, 2000, 1000)));
    let r = b.process_request(&switch, None);
    assert!(r.response.success && r.drive_off && !r.start_loop);
    assert_eq!(b.controller.target, 25000);
    assert_eq!(b.controller.state, ControllerState::Automatic);
    assert!(!b.controller.actuator_on);
    assert_eq!(b.on_measurement(Ok(18000)), ControllerAction::Actuate(SIGNAL_ON));
    let r = b.process_request(&request(Command::SwitchController), None);
    assert!(!r.response.success);
}

#[test]
fn switch_of_a_stopped_brewery_starts_a_loop() {
    let mut b = Brewery::new(data(20000, 2000, 1000));
    let switch = Request::new(Command::SwitchController, None, None, Some(data(25000, 2000, 1000)));
    let r = b.process_request(&switch, None);
    assert!(r.response.success && !r.drive_off && r.start_loop);
}

#[test]
fn target_and_measurement_requests() {
    let mut b = Brewery::new(data(20000, 1000, 0));
    b.process_request(&Request::new(Command::SetTarget, None, Some(65000), None), None);
    assert_eq!(b.controller.target, 65000);
    b.process_request(&Request::new(Command::SetTarget, None, None, None), None);
    assert_eq!(b.controller.target, 65000);
    let req = Request::new(Command::GetMeasurement, Some(String::from("probe")), None, None);
    assert!(Brewery::needs_measurement(&req));
    let r = b.process_request(&req, Some(Ok(21500)));
    assert_eq!(r.response.result, Some(21500));
    let r = b.process_request(&req, Some(Err(sensor::Error::InvalidAddressLength(12))));
    assert!(!r.response.success);
    assert_eq!(r.response.message, Some(String::from("Address length must be 13, got 12")));
    let r = b.process_request(&request(Command::GetFullState), None);
    assert_eq!(r.response.message, Some(String::from("Not implemented yet")));
    assert!(!r.response.success);
}

#[test]
fn gpio_line_levels() {
    assert_eq!(line_value(true), 1);
    assert_eq!(line_value(false), 0);
    assert!(level_is_high(1, false));
    assert!(!level_is_high(0, false));
    assert!(level_is_high(0, true));
    assert!(level_is_low(1, true));
}
