use elgato_pedal_controller::app_config::AppConfig;
use elgato_pedal_controller::button_state_machine::ButtonStateMachine;
use elgato_pedal_controller::button_types::{ButtonEventType, ButtonState};
use elgato_pedal_controller::service_manager::ServiceManager;
use elgato_pedal_controller::token_based_config::PhysicalButtonName;

#[test]
fn new_machine_is_cleared() {
    let m = ButtonStateMachine::new(ButtonState::IDLE);
    assert_eq!(m.state(), ButtonState::IDLE);
    assert_eq!(m.signal_count(), 0);
    assert!(!m.action_fired());
    assert_eq!(m.time_since_first_signal(100), None);
}

#[test]
fn record_signal_counts_from_first() {
    let mut m = ButtonStateMachine::new(ButtonState::IDLE);
    m.record_signal(100);
    assert_eq!(m.signal_count(), 1);
    assert_eq!(m.time_since_first_signal(350), Some(250));
    m.record_signal(200);
    m.record_signal(300);
    assert_eq!(m.signal_count(), 3);
    assert_eq!(m.time_since_first_signal(350), Some(250));
    assert_eq!(m.time_since_first_signal(50), Some(0));
}

#[test]
fn transition_keeps_history_and_reset_clears_it() {
    let mut m = ButtonStateMachine::new(ButtonState::IDLE);
    m.record_signal(10);
    m.transition_to(ButtonState::HELD);
    m.mark_action_fired();
    assert_eq!(m.state(), ButtonState::HELD);
    assert_eq!(m.signal_count(), 1);
    assert!(m.action_fired());
    m.reset(ButtonState::IDLE);
    assert_eq!(m.state(), ButtonState::IDLE);
    assert_eq!(m.signal_count(), 0);
    assert!(!m.action_fired());
    assert_eq!(m.time_since_first_signal(20), None);
}

#[test]
fn names_of_events_and_buttons() {
    assert_eq!(ButtonEventType::PRESSED.as_str(), "PRESSED");
    assert_eq!(ButtonEventType::HELD.as_str(), "HELD");
    assert_eq!(ButtonEventType::RELEASING.as_str(), "RELEASING");
    assert_eq!(PhysicalButtonName::Button0.as_str(), "button_0");
    assert_eq!(PhysicalButtonName::Button1.as_str(), "button_1");
    assert_eq!(PhysicalButtonName::Button2.as_str(), "button_2");
}

#[test]
fn app_config_defaults() {
    let c = AppConfig::default();
    assert_eq!(c.button_count, 3);
    assert_eq!(c.companion_signature, "--x-elgato-pedal-companion-notification");
    assert_eq!(c.default_hold_threshold_ms, 666);
}

#[test]
fn service_names_and_unit() {
    let s = ServiceManager::new();
    assert_eq!(s.binary_name(), "elgato-pedal-controller");
    assert_eq!(s.service_name(), "elgato-pedal-controller");
    let unit = s.generate_service_file("/home/u/.local/bin/elgato-pedal-controller", "/home/u");
    assert!(unit.starts_with("[Unit]\n"));
    assert!(unit.contains("ExecStart=/home/u/.local/bin/elgato-pedal-controller run\n"));
    assert!(unit.contains("ReadWritePaths=/home/u/.config\n"));
    assert!(unit.ends_with("WantedBy=graphical-session.target\n"));
    assert_eq!(s.get_service_directory(true, "/home/u"), "/etc/systemd/system");
    assert_eq!(s.get_service_directory(false, "/home/u"), "/home/u/.config/systemd/user");
}
