use bryggio::actor::{ActorClient, ActorPubMsg, ActorSubMsg, Error, SignalMsg};
use bryggio::pub_sub::{ClientId, ClientState};

fn set(signal: i64) -> ActorSubMsg {
    ActorSubMsg::SetSignal(SignalMsg::new(ClientId::new("ctrl"), 1700, signal))
}

#[test]
fn positive_signal_drives_high() {
    let mut a = ActorClient::new(ClientId::new("heater"));
    assert_eq!(a.handle(&set(1000)), Some(true));
    assert_eq!(a.handle(&set(0)), Some(false));
    assert_eq!(a.handle(&set(-5)), Some(false));
    assert_eq!(a.command_subject().0, "actor.heater.set_signal");
}

#[test]
fn applied_signal_is_republished_only_on_success() {
    let a = ActorClient::new(ClientId::new("heater"));
    let msg = SignalMsg::new(ClientId::new("ctrl"), 1700, 1000);
    let (subj, ActorPubMsg::CurrentSignal(m)) = a.report(msg.clone(), Ok(())).unwrap();
    assert_eq!(subj.0, "actor.heater.current_signal");
    assert_eq!(m.signal, 1000);
    assert_eq!(m.timestamp, 1700);
    assert!(a.report(msg, Err(Error::ActorError(String::from("GPIO error")))).is_none());
}

#[test]
fn stop_ends_the_loop_with_no_further_writes() {
    let mut a = ActorClient::new(ClientId::new("heater"));
    assert!(a.state.keeps_running());
    assert_eq!(a.handle(&ActorSubMsg::Stop), None);
    assert_eq!(a.state, ClientState::Inactive);
    assert!(!a.state.keeps_running());
    assert_eq!(a.handle(&set(1000)), None);
    assert_eq!(a.handle(&ActorSubMsg::Stop), None);
}
