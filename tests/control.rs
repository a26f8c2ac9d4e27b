use bryggio::control::{decide, Controller, ControllerAction, ControllerConfig, ControllerState, NewContrData, SIGNAL_OFF, SIGNAL_ON};
use bryggio::pub_sub::ClientId;
use bryggio::sensor::{self, SensorType};

fn config(on: i64, off: i64) -> ControllerConfig {
    ControllerConfig::hysteresis(ClientId::new("heater"), ClientId::new("probe"), on, off)
}

#[test]
fn hysteresis_scenario_with_dead_band() {
    let mut c = Controller::new(NewContrData::new(config(1000, 1000), 50000));
    c.set_state(ControllerState::Automatic);
    assert_eq!(c.tick(Ok(49000)), ControllerAction::Actuate(SIGNAL_ON));
    assert_eq!(c.tick(Ok(49500)), ControllerAction::Hold);
    assert_eq!(c.tick(Ok(50500)), ControllerAction::Hold);
    assert_eq!(c.tick(Ok(51000)), ControllerAction::Actuate(SIGNAL_OFF));
    assert!(!c.actuator_on);
}

#[test]
fn decision_thresholds() {
    let cfg = config(2000, 1000);
    assert!(decide(&cfg, 20000, 18000, false));
    assert!(!decide(&cfg, 20000, 18001, false));
    assert!(decide(&cfg, 20000, 18001, true));
    assert!(!decide(&cfg, 20000, 21000, true));
    assert!(decide(&cfg, 20000, 20999, true));
    assert!(decide(&cfg, i64::MAX, i64::MIN, false));
}

#[test]
fn failed_reading_is_skipped() {
    let mut c = Controller::new(NewContrData::new(config(1000, 1000), 50000));
    c.set_state(ControllerState::Automatic);
    assert_eq!(c.tick(Err(sensor::Error::ThreadLockError(String::from("poisoned")))), ControllerAction::Hold);
    assert_eq!(c.tick(Ok(10000)), ControllerAction::Actuate(SIGNAL_ON));
}

#[test]
fn stopped_controller_drives_off_and_exits() {
    let mut c = Controller::new(NewContrData::new(config(1000, 1000), 50000));
    c.set_state(ControllerState::Automatic);
    assert_eq!(c.tick(Ok(0)), ControllerAction::Actuate(SIGNAL_ON));
    c.set_state(ControllerState::Inactive);
    assert_eq!(c.tick(Ok(0)), ControllerAction::Exit);
    assert!(!c.actuator_on);
    assert_eq!(c.get_state(), ControllerState::Inactive);
}

#[test]
fn manual_controller_makes_no_decision() {
    let mut c = Controller::new(NewContrData::new(config(1000, 1000), 50000));
    c.set_state(ControllerState::Manual);
    assert_eq!(c.tick(Ok(0)), ControllerAction::Exit);
    c.set_target(42);
    assert_eq!(c.get_target(), 42);
}

#[test]
fn sensor_types_by_name() {
    assert_eq!(SensorType::from_str(String::from("dummy")), SensorType::Dummy);
    assert_eq!(SensorType::from_str(String::from("dsb")), SensorType::DSB);
    assert_eq!(SensorType::from_str(String::from("rbpicpu")), SensorType::RbpiCPU);
    assert_eq!(SensorType::from_str(String::from("DSB")), SensorType::UnknownSensor);
    assert_eq!(sensor::Error::InvalidAddressLength(3).description(), "Address length must be 13");
}
