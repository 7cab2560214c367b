use vstd::prelude::*;

use crate::button_state_machine::{
    ButtonStateMachine, MachineView, Outcome, StateMachineLogic, StateTransition,
};
use crate::button_types::{ButtonEvent, ButtonEventType, ButtonInput, ButtonState};
use crate::token_based_config::{ActionConfig, PhysicalButtonName};

verus! {

/// Behaviour of one button, resolved from the configuration.
#[derive(Debug, Clone, Copy, PartialEq, Eq, Structural)]
pub struct ButtonConfig {
    pub has_pressed_action: bool,
    pub has_held_action: bool,
    pub threshold_ms: u64,
}

/// Releases earlier than this (milliseconds) count as a tap: 60% of the hold
/// threshold, and never less than 200.
pub open spec fn quick_release_threshold(threshold_ms: u64) -> u64 {
    let calculated = (threshold_ms as int * 60) / 100;
    if calculated >= 200 {
        calculated as u64
    } else {
        200
    }
}

pub open spec fn event_of(button_name: PhysicalButtonName, event_type: ButtonEventType) -> ButtonEvent {
    ButtonEvent { button_name, event_type }
}

/// The release of a button whose intent is still being evaluated, `elapsed`
/// milliseconds after its first signal. A pressed-only button that has not
/// fired yet fires PRESSED; a pressed+held button fires PRESSED on a quick
/// release; a configured RELEASING action moves the machine to RELEASING and
/// is announced; otherwise the episode ends and the machine goes back to IDLE.
pub open spec fn release_while_evaluating(
    m: MachineView<ButtonState>,
    button_name: PhysicalButtonName,
    cfg: ButtonConfig,
    has_releasing: bool,
    elapsed: u64,
) -> Outcome<ButtonState, ButtonEvent> {
    let fire_pressed = !m.action_fired && cfg.has_pressed_action && (!cfg.has_held_action
        || elapsed < quick_release_threshold(cfg.threshold_ms));
    let m1 = if fire_pressed {
        m.fired()
    } else {
        m
    };
    let pressed: Seq<ButtonEvent> = if fire_pressed {
        seq![event_of(button_name, ButtonEventType::PRESSED)]
    } else {
        Seq::empty()
    };
    if has_releasing {
        Outcome {
            machine: m1.with_state(ButtonState::RELEASING),
            events: pressed.push(event_of(button_name, ButtonEventType::RELEASING)),
            reset: false,
        }
    } else if fire_pressed {
        Outcome { machine: MachineView::fresh(ButtonState::IDLE), events: pressed, reset: false }
    } else {
        Outcome { machine: m, events: Seq::empty(), reset: true }
    }
}

/// Whether an asserted signal on an evaluating button (whose machine, with
/// the signal recorded, is `m`) confirms the hold: the button has a HELD action
/// that has not fired yet, and either its threshold has been reached or, on a
/// pressed+held button, the signal repeated.
pub open spec fn hold_confirmed(m: MachineView<ButtonState>, cfg: ButtonConfig, threshold_reached: bool) -> bool {
    !m.action_fired && cfg.has_held_action && (threshold_reached || (m.signal_count >= 2
        && cfg.has_pressed_action))
}

/// One step of hold-intent classification: the machine `m` of a button with
/// behaviour `cfg` receives a signal (`is_pressed`) at `now`.
pub open spec fn intent_step(
    m: MachineView<ButtonState>,
    input: ButtonInput,
    cfg: ButtonConfig,
    has_releasing: bool,
    now: u64,
) -> Outcome<ButtonState, ButtonEvent> {
    let b = input.button_name;
    let quiet = Outcome { machine: m, events: Seq::empty(), reset: false };
    let reset = Outcome { machine: m, events: Seq::empty(), reset: true };
    match m.state {
        ButtonState::IDLE => if input.is_pressed {
            let m1 = m.with_state(ButtonState::EVALUATING).recorded(now);
            if cfg.has_pressed_action && !cfg.has_held_action {
                Outcome {
                    machine: m1.fired(),
                    events: seq![event_of(b, ButtonEventType::PRESSED)],
                    reset: false,
                }
            } else {
                Outcome { machine: m1, events: Seq::empty(), reset: false }
            }
        } else {
            quiet
        },
        ButtonState::EVALUATING => if input.is_pressed {
            let reached = match m.elapsed_ms(now) {
                Some(e) => e >= cfg.threshold_ms,
                None => false,
            };
            let m1 = if reached {
                m.with_state(ButtonState::HELD)
            } else {
                m
            };
            let m2 = m1.recorded(now);
            if hold_confirmed(m2, cfg, reached) {
                Outcome {
                    machine: m2.fired(),
                    events: seq![event_of(b, ButtonEventType::HELD)],
                    reset: false,
                }
            } else {
                Outcome { machine: m2, events: Seq::empty(), reset: false }
            }
        } else {
            match m.elapsed_ms(now) {
                Some(e) => release_while_evaluating(m, b, cfg, has_releasing, e),
                None => reset,
            }
        },
        ButtonState::HELD => if input.is_pressed {
            quiet
        } else if has_releasing {
            Outcome {
                machine: m.with_state(ButtonState::RELEASING),
                events: seq![event_of(b, ButtonEventType::RELEASING)],
                reset: false,
            }
        } else {
            reset
        },
        ButtonState::RELEASING => if input.is_pressed {
            Outcome {
                machine: m.with_state(ButtonState::EVALUATING).recorded(now),
                events: Seq::empty(),
                reset: false,
            }
        } else {
            reset
        },
    }
}

/// The hold-threshold check of a machine that has seen no new signal: a
/// button still evaluating whose threshold has passed without an action
/// fires HELD and moves to HELD, if it has a HELD action.
pub open spec fn timeout_step(
    m: MachineView<ButtonState>,
    button_name: PhysicalButtonName,
    cfg: ButtonConfig,
    now: u64,
) -> Outcome<ButtonState, ButtonEvent> {
    let due = m.state == ButtonState::EVALUATING && !m.action_fired && cfg.has_held_action
        && match m.elapsed_ms(now) {
        Some(e) => e >= cfg.threshold_ms,
        None => false,
    };
    if due {
        Outcome {
            machine: m.fired().with_state(ButtonState::HELD),
            events: seq![event_of(button_name, ButtonEventType::HELD)],
            reset: false,
        }
    } else {
        Outcome { machine: m, events: Seq::empty(), reset: false }
    }
}

/// Hold-intent detection logic over an injected configuration.
pub struct HoldIntentLogic {
    global_default_threshold_ms: u64,
    config: ActionConfig,
}

impl HoldIntentLogic {
    /// The threshold used for buttons and devices without their own.
    pub closed spec fn spec_global_default_ms(&self) -> u64 {
        self.global_default_threshold_ms
    }

    /// The configuration consulted.
    pub closed spec fn spec_config(&self) -> ActionConfig {
        self.config
    }

    /// The behaviour of a button under this logic's configuration.
    pub open spec fn spec_button_config(&self, button_name: PhysicalButtonName) -> ButtonConfig {
        ButtonConfig {
            has_pressed_action: self.spec_config().spec_has_action(
                button_name,
                ButtonEventType::PRESSED,
            ),
            has_held_action: self.spec_config().spec_has_action(button_name, ButtonEventType::HELD),
            threshold_ms: self.spec_config().spec_hold_threshold_ms(
                button_name,
                self.spec_global_default_ms(),
            ),
        }
    }

    pub open spec fn spec_has_releasing(&self, button_name: PhysicalButtonName) -> bool {
        self.spec_config().spec_has_action(button_name, ButtonEventType::RELEASING)
    }

    pub fn new(global_default_threshold_ms: u64, config: ActionConfig) -> (r: Self)
        ensures
            r.spec_global_default_ms() == global_default_threshold_ms,
            r.spec_config() == config,
    {
        HoldIntentLogic { global_default_threshold_ms, config }
    }

    /// The quick-release threshold of a button (see `quick_release_threshold`).
    pub fn get_quick_release_threshold_ms(&self, button_name: &PhysicalButtonName) -> (r: u64)
        ensures
            r == quick_release_threshold(self.spec_button_config(*button_name).threshold_ms),
    {
        let hold_threshold = self.config.get_hold_threshold_ms(
            *button_name,
            self.global_default_threshold_ms,
        );
        let wide = (hold_threshold as u128) * 60 / 100;
        assert(wide <= hold_threshold) by (nonlinear_arith)
            requires
                wide == (hold_threshold as int * 60) / 100,
        ;
        let calculated = wide as u64;
        if calculated >= 200 {
            calculated
        } else {
            200
        }
    }

    /// Resolves the behaviour of a button from the configuration.
    pub fn get_button_config(&self, button_name: &PhysicalButtonName) -> (r: ButtonConfig)
        ensures
            r == self.spec_button_config(*button_name),
    {
        let has_pressed_action = self.config.has_action(*button_name, ButtonEventType::PRESSED);
        let has_held_action = self.config.has_action(*button_name, ButtonEventType::HELD);
        let threshold_ms = self.config.get_hold_threshold_ms(
            *button_name,
            self.global_default_threshold_ms,
        );
        ButtonConfig { has_pressed_action, has_held_action, threshold_ms }
    }

    /// Whether a RELEASING action is configured for the button.
    pub fn has_releasing_action(&self, button_name: &PhysicalButtonName) -> (r: bool)
        ensures
            r == self.spec_has_releasing(*button_name),
    {
        self.config.has_action(*button_name, ButtonEventType::RELEASING)
    }

    /// The hold-threshold check of one button that has seen no new signal
    /// (see `timeout_step`); returns the events it fires.
    pub fn check_hold_timeout(
        &self,
        state_machine: &mut ButtonStateMachine<ButtonState>,
        button_name: PhysicalButtonName,
        now: u64,
    ) -> (r: Vec<ButtonEvent>)
        requires
            old(state_machine)@.wf(),
        ensures
            final(state_machine)@.wf(),
            final(state_machine)@ == timeout_step(old(state_machine)@, button_name, self.spec_button_config(button_name), now).machine,
            r@ == timeout_step(old(state_machine)@, button_name, self.spec_button_config(button_name), now).events,
    {
        let mut events: Vec<ButtonEvent> = Vec::new();
        if state_machine.state() != ButtonState::EVALUATING || state_machine.action_fired() {
            return events;
        }
        if let Some(time_since_first) = state_machine.time_since_first_signal(now) {
            let config = self.get_button_config(&button_name);
            if time_since_first >= config.threshold_ms && config.has_held_action {
                // the device stopped repeating while the button is still down
                state_machine.mark_action_fired();
                state_machine.transition_to(ButtonState::HELD);
                events.push(ButtonEvent { button_name, event_type: ButtonEventType::HELD });
                proof {
                    assert(events@ =~= seq![event_of(button_name, ButtonEventType::HELD)]);
                }
            }
        }
        events
    }

    fn handle_idle_to_evaluating(
        &self,
        state_machine: &mut ButtonStateMachine<ButtonState>,
        input: &ButtonInput,
        config: &ButtonConfig,
        now: u64,
    ) -> (r: StateTransition<ButtonEvent>)
        requires
            old(state_machine)@.wf(),
        ensures
            ({
                let m1 = old(state_machine)@.with_state(ButtonState::EVALUATING).recorded(now);
                if config.has_pressed_action && !config.has_held_action {
                    &&& final(state_machine)@ == m1.fired()
                    &&& r is EmitEvents
                    &&& r.events() == seq![event_of(input.button_name, ButtonEventType::PRESSED)]
                } else {
                    &&& final(state_machine)@ == m1
                    &&& r is Continue
                }
            }),
    {
        state_machine.transition_to(ButtonState::EVALUATING);
        state_machine.record_signal(now);
        if config.has_pressed_action && !config.has_held_action {
            // a pressed-only button fires at once
            state_machine.mark_action_fired();
            let events = vec![ButtonEvent { button_name: input.button_name, event_type: ButtonEventType::PRESSED }];
            proof {
                assert(events@ =~= seq![event_of(input.button_name, ButtonEventType::PRESSED)]);
            }
            StateTransition::EmitEvents(events)
        } else {
            // held-only and pressed+held buttons wait for the threshold
            StateTransition::Continue
        }
    }

    fn handle_evaluating_with_signal(
        &self,
        state_machine: &mut ButtonStateMachine<ButtonState>,
        input: &ButtonInput,
        config: &ButtonConfig,
        threshold_reached: bool,
        now: u64,
    ) -> (r: StateTransition<ButtonEvent>)
        requires
            old(state_machine)@.wf(),
        ensures
            ({
                let m2 = old(state_machine)@.recorded(now);
                if hold_confirmed(m2, *config, threshold_reached) {
                    &&& final(state_machine)@ == m2.fired()
                    &&& r is EmitEvents
                    &&& r.events() == seq![event_of(input.button_name, ButtonEventType::HELD)]
                } else {
                    &&& final(state_machine)@ == m2
                    &&& r is Continue
                }
            }),
    {
        state_machine.record_signal(now);
        if !state_machine.action_fired() && config.has_held_action && (threshold_reached || (
        state_machine.signal_count() >= 2 && config.has_pressed_action)) {
            // the threshold passed while asserted, or repeated signals on a
            // pressed+held button, confirm the hold
            state_machine.mark_action_fired();
            let events = vec![ButtonEvent { button_name: input.button_name, event_type: ButtonEventType::HELD }];
            proof {
                assert(events@ =~= seq![event_of(input.button_name, ButtonEventType::HELD)]);
            }
            return StateTransition::EmitEvents(events);
        }
        StateTransition::Continue
    }

    fn handle_release_while_evaluating(
        &self,
        state_machine: &mut ButtonStateMachine<ButtonState>,
        input: &ButtonInput,
        config: &ButtonConfig,
        elapsed: u64,
    ) -> (r: StateTransition<ButtonEvent>)
        requires
            old(state_machine)@.wf(),
            config.threshold_ms == self.spec_button_config(input.button_name).threshold_ms,
        ensures
            final(state_machine)@ == release_while_evaluating(old(state_machine)@, input.button_name, *config, self.spec_has_releasing(input.button_name), elapsed).machine,
            r.events() == release_while_evaluating(old(state_machine)@, input.button_name, *config, self.spec_has_releasing(input.button_name), elapsed).events,
            (r is Reset) == release_while_evaluating(old(state_machine)@, input.button_name, *config, self.spec_has_releasing(input.button_name), elapsed).reset,
    {
        let b = input.button_name;
        let mut events: Vec<ButtonEvent> = Vec::new();
        let fire_pressed = if state_machine.action_fired() || !config.has_pressed_action {
            false
        } else if config.has_held_action {
            // a pressed+held button fires PRESSED only on a quick release
            let quick_release_threshold = self.get_quick_release_threshold_ms(&b);
            elapsed < quick_release_threshold
        } else {
            // a pressed-only button that has not fired yet fires on release
            true
        };
        if fire_pressed {
            state_machine.mark_action_fired();
            events.push(ButtonEvent { button_name: b, event_type: ButtonEventType::PRESSED });
        }
        if self.has_releasing_action(&b) {
            state_machine.transition_to(ButtonState::RELEASING);
            events.push(ButtonEvent { button_name: b, event_type: ButtonEventType::RELEASING });
            proof {
                if fire_pressed {
                    assert(events@ =~= seq![event_of(b, ButtonEventType::PRESSED)].push(event_of(b, ButtonEventType::RELEASING)));
                } else {
                    assert(events@ =~= Seq::<ButtonEvent>::empty().push(event_of(b, ButtonEventType::RELEASING)));
                }
            }
            StateTransition::EmitEvents(events)
        } else if fire_pressed {
            // the episode is over: back to IDLE
            state_machine.reset(ButtonState::IDLE);
            proof {
                assert(events@ =~= seq![event_of(b, ButtonEventType::PRESSED)]);
            }
            StateTransition::EmitEvents(events)
        } else {
            StateTransition::Reset
        }
    }
}

impl StateMachineLogic<ButtonState, ButtonEvent, ButtonInput> for HoldIntentLogic {
    open spec fn spec_initial_state(&self) -> ButtonState {
        ButtonState::IDLE
    }

    open spec fn spec_process(
        &self,
        machine: MachineView<ButtonState>,
        input: ButtonInput,
        now: u64,
    ) -> Outcome<ButtonState, ButtonEvent> {
        intent_step(
            machine,
            input,
            self.spec_button_config(input.button_name),
            self.spec_has_releasing(input.button_name),
            now,
        )
    }

    fn process_input(
        &self,
        state_machine: &mut ButtonStateMachine<ButtonState>,
        input: ButtonInput,
        now: u64,
    ) -> (r: StateTransition<ButtonEvent>) {
        let config = self.get_button_config(&input.button_name);
        match (state_machine.state(), input.is_pressed) {
            (ButtonState::IDLE, true) => {
                self.handle_idle_to_evaluating(state_machine, &input, &config, now)
            },
            (ButtonState::EVALUATING, true) => {
                // the threshold passed while the button is still asserted
                let threshold_reached = match state_machine.time_since_first_signal(now) {
                    Some(time_since_first) => time_since_first >= config.threshold_ms,
                    None => false,
                };
                if threshold_reached {
                    state_machine.transition_to(ButtonState::HELD);
                }
                self.handle_evaluating_with_signal(
                    state_machine,
                    &input,
                    &config,
                    threshold_reached,
                    now,
                )
            },
            (ButtonState::EVALUATING, false) => {
                // a release cancels the pending hold evaluation
                match state_machine.time_since_first_signal(now) {
                    Some(elapsed) => self.handle_release_while_evaluating(
                        state_machine,
                        &input,
                        &config,
                        elapsed,
                    ),
                    None => StateTransition::Reset,
                }
            },
            (ButtonState::HELD, false) => {
                if self.has_releasing_action(&input.button_name) {
                    state_machine.transition_to(ButtonState::RELEASING);
                    let events = vec![ButtonEvent { button_name: input.button_name, event_type: ButtonEventType::RELEASING }];
                    proof {
                        assert(events@ =~= seq![event_of(input.button_name, ButtonEventType::RELEASING)]);
                    }
                    StateTransition::EmitEvents(events)
                } else {
                    StateTransition::Reset
                }
            },
            (ButtonState::RELEASING, false) => {
                // fully released
                StateTransition::Reset
            },
            (ButtonState::RELEASING, true) => {
                // pressed again during the release: evaluate anew
                state_machine.transition_to(ButtonState::EVALUATING);
                state_machine.record_signal(now);
                StateTransition::Continue
            },
            (ButtonState::HELD, true) => StateTransition::Continue,
            (ButtonState::IDLE, false) => StateTransition::Continue,
        }
    }

    fn initial_state(&self) -> (r: ButtonState) {
        ButtonState::IDLE
    }
}

} // verus!
