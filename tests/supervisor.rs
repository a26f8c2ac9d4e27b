use bryggio::brewery::Error;
use bryggio::control::{ControllerConfig, ControllerState, NewContrData, SIGNAL_OFF, SIGNAL_ON};
use bryggio::pub_sub::ClientId;
use bryggio::sensor;
use bryggio::supervisor::{Supervisor, SupervisorSubMsg};

fn data(actor: &str, target: i64, on: i64, off: i64) -> NewContrData {
    NewContrData::new(
        ControllerConfig::hysteresis(ClientId::new(actor), ClientId::new("probe"), on, off),
        target,
    )
}

#[test]
fn second_start_is_refused_until_stop() {
    let mut s = Supervisor::new();
    assert!(s.start_controller(data("heater", 20000, 2000, 1000)).unwrap().is_empty());
    match s.start_controller(data("heater", 30000, 1000, 1000)) {
        Err(Error::AlreadyActive(id)) => assert_eq!(id, "heater"),
        _ => panic!("second start accepted"),
    }
    assert_eq!(s.len(), 1);
    assert_eq!(s.controller(0).target, 20000);
    let sent = s.stop_controller(&ClientId::new("heater")).unwrap();
    assert_eq!(sent.len(), 1);
    assert_eq!(sent[0].signal, SIGNAL_OFF);
    assert_eq!(s.len(), 0);
    assert!(s.start_controller(data("heater", 30000, 1000, 1000)).is_ok());
}

#[test]
fn controllers_of_distinct_actuators_coexist() {
    let mut s = Supervisor::new();
    assert!(s.start_controller(data("heater", 20000, 2000, 1000)).is_ok());
    assert!(s.start_controller(data("cooler", 20000, 2000, 1000)).is_ok());
    assert_eq!(s.len(), 2);
}

#[test]
fn stop_of_unknown_controller_is_missing() {
    let mut s = Supervisor::new();
    match s.stop_controller(&ClientId::new("pump")) {
        Err(Error::Missing(kind, id)) => {
            assert_eq!(kind, "controller");
            assert_eq!(id, "pump");
        }
        _ => panic!("expected Missing"),
    }
    assert!(s.on_measurement(&ClientId::new("pump"), Ok(1)).is_err());
}

#[test]
fn start_sample_switch_scenario() {
    let mut s = Supervisor::new();
    let heater = ClientId::new("heater");
    s.process_command(SupervisorSubMsg::StartController { contr_data: data("heater", 20000, 2000, 1000) }).unwrap();
    let sent = s.on_measurement(&heater, Ok(18000)).unwrap();
    assert_eq!(sent.len(), 1);
    assert_eq!(sent[0].signal, SIGNAL_ON);
    assert_eq!(sent[0].actor_id.0, "heater");
    let sent = s
        .process_command(SupervisorSubMsg::SwitchController { contr_data: data("heater", 25000, 2000, 1000) })
        .unwrap();
    assert_eq!(sent.len(), 1);
    assert_eq!(sent[0].signal, SIGNAL_OFF);
    assert_eq!(s.len(), 1);
    let c = s.controller(0);
    assert_eq!(c.target, 25000);
    assert_eq!(c.state, ControllerState::Automatic);
    assert!(!c.actuator_on);
    let sent = s.on_measurement(&heater, Ok(18000)).unwrap();
    assert_eq!(sent.len(), 1);
    assert_eq!(sent[0].signal, SIGNAL_ON);
}

#[test]
fn switch_without_running_controller_starts_one() {
    let mut s = Supervisor::new();
    let sent = s.switch_controller(data("heater", 25000, 2000, 1000)).unwrap();
    assert!(sent.is_empty());
    assert_eq!(s.len(), 1);
}

#[test]
fn failed_reading_sends_nothing() {
    let mut s = Supervisor::new();
    s.start_controller(data("heater", 20000, 2000, 1000)).unwrap();
    let r = s.on_measurement(&ClientId::new("heater"), Err(sensor::Error::FileReadError(String::from("gone"))));
    assert!(r.unwrap().is_empty());
}

#[test]
fn error_messages() {
    assert_eq!(
        Error::Missing(String::from("controller"), String::from("pump")).message(),
        "ID 'pump' does not exist for controller"
    );
    assert_eq!(Error::AlreadyActive(String::from("x")).message(), "ID is already in use: x");
    assert_eq!(Error::ThreadJoin.message(), "Could not join thread");
    assert_eq!(Error::ThreadJoin.description(), "Error joining thread.");
}
