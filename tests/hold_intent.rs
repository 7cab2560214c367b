use elgato_pedal_controller::button_state_machine::{
    ButtonStateMachine, StateMachineLogic, StateTransition,
};
use elgato_pedal_controller::button_types::{ButtonEvent, ButtonEventType, ButtonInput, ButtonState};
use elgato_pedal_controller::hold_intent_parser::HoldIntentParser;
use elgato_pedal_controller::hold_intent_state_machine::HoldIntentLogic;
use elgato_pedal_controller::token_based_config::{
    ActionConfig, ButtonProfile, ButtonSettings, DeviceSettings, PhysicalButtonName,
};

const B0: PhysicalButtonName = PhysicalButtonName::Button0;

fn profile(pressed: bool, held: bool, releasing: bool) -> ButtonProfile {
    ButtonProfile {
        has_pressed: pressed,
        has_held: held,
        has_releasing: releasing,
        settings: None,
    }
}

fn only_button_0(p: ButtonProfile) -> ActionConfig {
    ActionConfig {
        button_0: Some(p),
        button_1: None,
        button_2: None,
        settings: None,
    }
}

fn report(b0: bool, b1: bool, b2: bool) -> Vec<u8> {
    vec![0, 0, 0, 0, b0 as u8, b1 as u8, b2 as u8, 0]
}

fn ev(t: ButtonEventType) -> ButtonEvent {
    ButtonEvent {
        button_name: B0,
        event_type: t,
    }
}

fn events_of(t: StateTransition<ButtonEvent>) -> Vec<ButtonEvent> {
    match t {
        StateTransition::EmitEvents(v) => v,
        _ => vec![],
    }
}

fn input(is_pressed: bool) -> ButtonInput {
    ButtonInput {
        button_name: B0,
        is_pressed,
    }
}

#[test]
fn tap_before_quick_release_fires_pressed() {
    let mut p = HoldIntentParser::new(1000, only_button_0(profile(true, true, false)));
    assert_eq!(p.parse_hid_data(&report(true, false, false), 0), vec![]);
    assert_eq!(
        p.parse_hid_data(&report(false, false, false), 150),
        vec![ev(ButtonEventType::PRESSED)]
    );
    assert_eq!(p.button_state(B0), ButtonState::IDLE);
}

#[test]
fn release_in_dead_zone_fires_nothing() {
    let mut p = HoldIntentParser::new(1000, only_button_0(profile(true, true, false)));
    assert_eq!(p.parse_hid_data(&report(true, false, false), 0), vec![]);
    assert_eq!(p.parse_hid_data(&report(false, false, false), 700), vec![]);
    assert_eq!(p.button_state(B0), ButtonState::IDLE);
}

#[test]
fn release_below_sixty_percent_is_still_a_tap() {
    let mut p = HoldIntentParser::new(1000, only_button_0(profile(true, true, false)));
    assert_eq!(p.parse_hid_data(&report(true, false, false), 0), vec![]);
    assert_eq!(
        p.parse_hid_data(&report(false, false, false), 500),
        vec![ev(ButtonEventType::PRESSED)]
    );
}

#[test]
fn floored_quick_release_window() {
    let mut p = HoldIntentParser::new(300, only_button_0(profile(true, true, false)));
    assert_eq!(p.parse_hid_data(&report(true, false, false), 0), vec![]);
    assert_eq!(
        p.parse_hid_data(&report(false, false, false), 199),
        vec![ev(ButtonEventType::PRESSED)]
    );
    assert_eq!(p.parse_hid_data(&report(true, false, false), 1000), vec![]);
    assert_eq!(p.parse_hid_data(&report(false, false, false), 1200), vec![]);
}

#[test]
fn release_in_dead_zone_announces_releasing_when_configured() {
    let mut p = HoldIntentParser::new(1000, only_button_0(profile(true, true, true)));
    assert_eq!(p.parse_hid_data(&report(true, false, false), 0), vec![]);
    assert_eq!(
        p.parse_hid_data(&report(false, false, false), 700),
        vec![ev(ButtonEventType::RELEASING)]
    );
    assert_eq!(p.button_state(B0), ButtonState::IDLE);
}

#[test]
fn hold_through_threshold_by_sweep_fires_held() {
    let mut p = HoldIntentParser::new(1000, only_button_0(profile(true, true, false)));
    assert_eq!(p.parse_hid_data(&report(true, false, false), 0), vec![]);
    assert_eq!(p.process_button_timeouts(999), vec![]);
    assert_eq!(p.process_button_timeouts(1000), vec![ev(ButtonEventType::HELD)]);
    assert_eq!(p.button_state(B0), ButtonState::HELD);
}

#[test]
fn hold_through_threshold_by_signal_fires_held() {
    let logic = HoldIntentLogic::new(1000, only_button_0(profile(true, true, false)));
    let mut m = ButtonStateMachine::new(logic.initial_state());
    assert!(events_of(logic.process_input(&mut m, input(true), 0)).is_empty());
    assert_eq!(
        events_of(logic.process_input(&mut m, input(true), 1000)),
        vec![ev(ButtonEventType::HELD)]
    );
    assert_eq!(m.state(), ButtonState::HELD);
}

#[test]
fn held_only_sweep_fires_once() {
    let mut p = HoldIntentParser::new(500, only_button_0(profile(false, true, false)));
    assert_eq!(p.parse_hid_data(&report(true, false, false), 0), vec![]);
    assert_eq!(p.process_button_timeouts(600), vec![ev(ButtonEventType::HELD)]);
    assert_eq!(p.process_button_timeouts(700), vec![]);
}

#[test]
fn idle_button_ignores_release() {
    let logic = HoldIntentLogic::new(1000, only_button_0(profile(true, true, true)));
    let mut m = ButtonStateMachine::new(ButtonState::IDLE);
    let t = logic.process_input(&mut m, input(false), 10);
    assert!(matches!(t, StateTransition::Continue));
    assert_eq!(m.state(), ButtonState::IDLE);
    assert_eq!(m.signal_count(), 0);
    assert!(!m.action_fired());
    assert_eq!(m.time_since_first_signal(10), None);
}

#[test]
fn pressed_only_fires_on_press_and_only_once() {
    let logic = HoldIntentLogic::new(1000, only_button_0(profile(true, false, false)));
    let mut m = ButtonStateMachine::new(ButtonState::IDLE);
    assert_eq!(
        events_of(logic.process_input(&mut m, input(true), 0)),
        vec![ev(ButtonEventType::PRESSED)]
    );
    assert_eq!(m.state(), ButtonState::EVALUATING);
    assert!(m.action_fired());
    assert!(events_of(logic.process_input(&mut m, input(true), 50)).is_empty());
    assert!(events_of(logic.process_input(&mut m, input(true), 5000)).is_empty());
    let t = logic.process_input(&mut m, input(false), 6000);
    assert!(matches!(t, StateTransition::Reset));
}

#[test]
fn held_only_early_release_is_silent() {
    let mut p = HoldIntentParser::new(500, only_button_0(profile(false, true, false)));
    assert_eq!(p.parse_hid_data(&report(true, false, false), 0), vec![]);
    assert_eq!(p.process_button_timeouts(499), vec![]);
    assert_eq!(p.parse_hid_data(&report(false, false, false), 499), vec![]);
    assert_eq!(p.button_state(B0), ButtonState::IDLE);
    assert_eq!(p.process_button_timeouts(1000), vec![]);
}

#[test]
fn hold_then_release_announces_releasing() {
    let mut p = HoldIntentParser::new(1000, only_button_0(profile(true, true, true)));
    assert_eq!(p.parse_hid_data(&report(true, false, false), 0), vec![]);
    assert_eq!(p.process_button_timeouts(1200), vec![ev(ButtonEventType::HELD)]);
    assert_eq!(
        p.parse_hid_data(&report(false, false, false), 1500),
        vec![ev(ButtonEventType::RELEASING)]
    );
    assert_eq!(p.button_state(B0), ButtonState::IDLE);
}

#[test]
fn hold_then_release_without_releasing_action_is_silent() {
    let mut p = HoldIntentParser::new(1000, only_button_0(profile(true, true, false)));
    assert_eq!(p.parse_hid_data(&report(true, false, false), 0), vec![]);
    assert_eq!(p.process_button_timeouts(1000), vec![ev(ButtonEventType::HELD)]);
    assert_eq!(p.parse_hid_data(&report(false, false, false), 1500), vec![]);
    assert_eq!(p.button_state(B0), ButtonState::IDLE);
}

#[test]
fn quick_tap_then_releasing() {
    let mut p = HoldIntentParser::new(1000, only_button_0(profile(true, true, true)));
    assert_eq!(p.parse_hid_data(&report(true, false, false), 0), vec![]);
    assert_eq!(
        p.parse_hid_data(&report(false, false, false), 100),
        vec![ev(ButtonEventType::PRESSED), ev(ButtonEventType::RELEASING)]
    );
}

#[test]
fn consecutive_quick_taps_each_fire_pressed() {
    let mut p = HoldIntentParser::new(1000, only_button_0(profile(true, true, false)));
    for k in 0..3u64 {
        let t = k * 1000;
        assert_eq!(p.parse_hid_data(&report(true, false, false), t), vec![]);
        assert_eq!(
            p.parse_hid_data(&report(false, false, false), t + 100),
            vec![ev(ButtonEventType::PRESSED)]
        );
    }
}

#[test]
fn fired_action_suppresses_further_events() {
    let logic = HoldIntentLogic::new(1000, only_button_0(profile(true, true, false)));
    let mut m = ButtonStateMachine::new(ButtonState::IDLE);
    logic.process_input(&mut m, input(true), 0);
    assert_eq!(
        events_of(logic.process_input(&mut m, input(true), 100)),
        vec![ev(ButtonEventType::HELD)]
    );
    assert!(events_of(logic.process_input(&mut m, input(true), 200)).is_empty());
    assert!(events_of(logic.process_input(&mut m, input(true), 3000)).is_empty());
    assert!(logic.check_hold_timeout(&mut m, B0, 5000).is_empty());
    assert!(events_of(logic.process_input(&mut m, input(false), 5100)).is_empty());
}

#[test]
fn reset_then_replay_gives_same_events() {
    let logic = HoldIntentLogic::new(800, only_button_0(profile(true, true, true)));
    let script = [(true, 0u64), (false, 100), (true, 300), (true, 400), (false, 2000)];
    let mut m = ButtonStateMachine::new(logic.initial_state());
    let run = |m: &mut ButtonStateMachine<ButtonState>| {
        let mut out = vec![];
        for (pressed, t) in script {
            out.extend(events_of(logic.process_input(m, input(pressed), t)));
        }
        out
    };
    let first = run(&mut m);
    m.reset(logic.initial_state());
    let second = run(&mut m);
    assert!(!first.is_empty());
    assert_eq!(first, second);
}

#[test]
fn neither_action_emits_nothing() {
    let mut p = HoldIntentParser::new(300, only_button_0(profile(false, false, false)));
    assert_eq!(p.parse_hid_data(&report(true, false, false), 0), vec![]);
    assert_eq!(p.process_button_timeouts(1000), vec![]);
    assert_eq!(p.parse_hid_data(&report(false, false, false), 1200), vec![]);
    assert_eq!(p.button_state(B0), ButtonState::IDLE);
}

#[test]
fn short_report_is_ignored() {
    let mut p = HoldIntentParser::new(1000, only_button_0(profile(true, false, false)));
    assert_eq!(p.parse_hid_data(&[0, 0, 0, 0, 1, 0, 0], 0), vec![]);
    assert_eq!(p.button_state(B0), ButtonState::IDLE);
    assert_eq!(p.parse_hid_data(&[], 0), vec![]);
}

#[test]
fn repeated_level_is_not_an_edge() {
    let mut p = HoldIntentParser::new(1000, only_button_0(profile(true, false, false)));
    assert_eq!(
        p.parse_hid_data(&report(true, false, false), 0),
        vec![ev(ButtonEventType::PRESSED)]
    );
    assert_eq!(p.parse_hid_data(&report(true, false, false), 10), vec![]);
    assert_eq!(p.button_state(B0), ButtonState::EVALUATING);
}

#[test]
fn only_bit_zero_asserts_a_button() {
    let mut p = HoldIntentParser::new(1000, only_button_0(profile(true, false, false)));
    assert_eq!(p.parse_hid_data(&[0, 0, 0, 0, 0xFE, 0, 0, 0], 0), vec![]);
    assert_eq!(
        p.parse_hid_data(&[0, 0, 0, 0, 0x03, 0, 0, 0], 5),
        vec![ev(ButtonEventType::PRESSED)]
    );
}

#[test]
fn events_follow_button_order() {
    let all = profile(true, false, false);
    let config = ActionConfig {
        button_0: Some(all),
        button_1: Some(all),
        button_2: Some(all),
        settings: None,
    };
    let mut p = HoldIntentParser::new(1000, config);
    let got = p.parse_hid_data(&report(true, true, true), 0);
    let names: Vec<PhysicalButtonName> = got.iter().map(|e| e.button_name).collect();
    assert_eq!(
        names,
        vec![
            PhysicalButtonName::Button0,
            PhysicalButtonName::Button1,
            PhysicalButtonName::Button2
        ]
    );
}

#[test]
fn threshold_resolution_order() {
    let mut c = only_button_0(profile(true, true, false));
    assert_eq!(c.get_hold_threshold_ms(B0, 666), 666);
    c.settings = Some(DeviceSettings {
        hold_threshold_time_ms: Some(900),
    });
    assert_eq!(c.get_hold_threshold_ms(B0, 666), 900);
    assert_eq!(c.get_hold_threshold_ms(PhysicalButtonName::Button1, 666), 900);
    c.button_0 = Some(ButtonProfile {
        settings: Some(ButtonSettings {
            hold_threshold_time_ms: Some(400),
        }),
        ..profile(true, true, false)
    });
    assert_eq!(c.get_hold_threshold_ms(B0, 666), 400);
    c.settings = Some(DeviceSettings {
        hold_threshold_time_ms: None,
    });
    assert_eq!(c.get_hold_threshold_ms(PhysicalButtonName::Button2, 666), 666);
}

#[test]
fn quick_release_threshold_values() {
    let cases = [(1000u64, 600u64), (200, 200), (300, 200), (666, 399), (500, 300), (0, 200)];
    for (threshold, expected) in cases {
        let logic = HoldIntentLogic::new(threshold, only_button_0(profile(true, true, false)));
        assert_eq!(logic.get_quick_release_threshold_ms(&B0), expected);
    }
    let logic = HoldIntentLogic::new(u64::MAX, only_button_0(profile(true, true, false)));
    assert_eq!(
        logic.get_quick_release_threshold_ms(&B0),
        ((u64::MAX as u128) * 60 / 100) as u64
    );
}

#[test]
fn button_config_reads_configuration() {
    let logic = HoldIntentLogic::new(777, only_button_0(profile(false, true, true)));
    let c = logic.get_button_config(&B0);
    assert!(!c.has_pressed_action);
    assert!(c.has_held_action);
    assert_eq!(c.threshold_ms, 777);
    assert!(logic.has_releasing_action(&B0));
    let c1 = logic.get_button_config(&PhysicalButtonName::Button1);
    assert!(!c1.has_pressed_action && !c1.has_held_action);
    assert!(!logic.has_releasing_action(&PhysicalButtonName::Button1));
}

#[test]
fn releasing_state_re_press_evaluates_again() {
    let logic = HoldIntentLogic::new(1000, only_button_0(profile(true, true, true)));
    let mut m = ButtonStateMachine::new(ButtonState::IDLE);
    logic.process_input(&mut m, input(true), 0);
    let t = logic.process_input(&mut m, input(false), 700);
    assert_eq!(events_of(t), vec![ev(ButtonEventType::RELEASING)]);
    assert_eq!(m.state(), ButtonState::RELEASING);
    assert!(matches!(
        logic.process_input(&mut m, input(true), 800),
        StateTransition::Continue
    ));
    assert_eq!(m.state(), ButtonState::EVALUATING);
    assert_eq!(m.signal_count(), 2);
    assert!(matches!(
        logic.process_input(&mut m, input(false), 900),
        StateTransition::EmitEvents(_)
    ));
    assert_eq!(m.state(), ButtonState::RELEASING);
    assert!(matches!(
        logic.process_input(&mut m, input(false), 1000),
        StateTransition::Reset
    ));
}

#[test]
fn held_only_repeat_signal_after_threshold_fires_held() {
    let logic = HoldIntentLogic::new(500, only_button_0(profile(false, true, false)));
    let mut m = ButtonStateMachine::new(ButtonState::IDLE);
    assert!(matches!(
        logic.process_input(&mut m, input(true), 0),
        StateTransition::Continue
    ));
    assert!(matches!(
        logic.process_input(&mut m, input(true), 400),
        StateTransition::Continue
    ));
    assert_eq!(
        events_of(logic.process_input(&mut m, input(true), 600)),
        vec![ev(ButtonEventType::HELD)]
    );
    assert_eq!(m.state(), ButtonState::HELD);
    assert!(m.action_fired());
    assert!(logic.check_hold_timeout(&mut m, B0, 700).is_empty());
    assert!(events_of(logic.process_input(&mut m, input(true), 800)).is_empty());
}

#[test]
fn timeout_check_before_threshold_keeps_evaluating() {
    let logic = HoldIntentLogic::new(500, only_button_0(profile(false, true, false)));
    let mut m = ButtonStateMachine::new(ButtonState::IDLE);
    logic.process_input(&mut m, input(true), 100);
    assert!(logic.check_hold_timeout(&mut m, B0, 599).is_empty());
    assert_eq!(m.state(), ButtonState::EVALUATING);
    assert_eq!(
        logic.check_hold_timeout(&mut m, B0, 600),
        vec![ev(ButtonEventType::HELD)]
    );
    assert_eq!(m.state(), ButtonState::HELD);
    assert!(m.action_fired());
}
