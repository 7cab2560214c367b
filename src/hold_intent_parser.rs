use vstd::prelude::*;

use crate::button_state_machine::{
    ButtonStateMachine, MachineView, Outcome, StateMachineLogic, StateTransition,
};
use crate::button_types::{ButtonEvent, ButtonEventType, ButtonInput, ButtonState};
use crate::hold_intent_state_machine::{timeout_step, HoldIntentLogic};
use crate::token_based_config::{ActionConfig, PhysicalButtonName};

verus! {

/// The number of physical buttons on the device.
pub const BUTTON_COUNT: usize = 3;

/// The position of a button in enumeration order.
pub open spec fn slot(button_name: PhysicalButtonName) -> int {
    match button_name {
        PhysicalButtonName::Button0 => 0,
        PhysicalButtonName::Button1 => 1,
        PhysicalButtonName::Button2 => 2,
    }
}

/// The button at position `i` of the enumeration order.
pub open spec fn button_at(i: int) -> PhysicalButtonName {
    if i == 0 {
        PhysicalButtonName::Button0
    } else if i == 1 {
        PhysicalButtonName::Button1
    } else {
        PhysicalButtonName::Button2
    }
}

/// Whether a report asserts the button at position `i` (bit 0 of byte `4 + i`).
pub open spec fn signal_level(data: Seq<u8>, i: int) -> bool {
    data[4 + i] & 1u8 != 0
}

/// The inputs that a report yields against the last known levels `previous`:
/// one for each button whose level changed, in enumeration order. Reports
/// shorter than eight bytes yield nothing.
pub open spec fn edge_inputs(previous: Seq<bool>, data: Seq<u8>) -> Seq<ButtonInput> {
    if data.len() < 8 {
        Seq::empty()
    } else {
        edge_at(previous, data, 0) + edge_at(previous, data, 1) + edge_at(previous, data, 2)
    }
}

pub open spec fn edge_at(previous: Seq<bool>, data: Seq<u8>, i: int) -> Seq<ButtonInput> {
    if signal_level(data, i) != previous[i] {
        seq![ButtonInput { button_name: button_at(i), is_pressed: signal_level(data, i) }]
    } else {
        Seq::empty()
    }
}

/// The last known levels after a report.
pub open spec fn levels_after(previous: Seq<bool>, data: Seq<u8>) -> Seq<bool> {
    if data.len() < 8 {
        previous
    } else {
        seq![signal_level(data, 0), signal_level(data, 1), signal_level(data, 2)]
    }
}

/// Whether a RELEASING event is among `events`.
pub open spec fn has_release(events: Seq<ButtonEvent>) -> bool {
    exists|k: int| 0 <= k < events.len() && (#[trigger] events[k]).event_type == ButtonEventType::RELEASING
}

/// The dispatcher's handling of a logic's outcome: a requested reset, or a
/// RELEASING event, sends the machine back to IDLE with every field cleared.
pub open spec fn settle(o: Outcome<ButtonState, ButtonEvent>) -> Outcome<ButtonState, ButtonEvent> {
    if o.reset || has_release(o.events) {
        Outcome { machine: MachineView::fresh(ButtonState::IDLE), events: o.events, reset: o.reset }
    } else {
        o
    }
}

/// One input routed through the logic and settled by the dispatcher.
pub open spec fn dispatch_step(
    logic: HoldIntentLogic,
    m: MachineView<ButtonState>,
    input: ButtonInput,
    now: u64,
) -> Outcome<ButtonState, ButtonEvent> {
    settle(logic.spec_process(m, input, now))
}

/// The machines (by position) and the events after dispatching `inputs` in order.
pub open spec fn dispatch_all(
    logic: HoldIntentLogic,
    machines: Seq<MachineView<ButtonState>>,
    inputs: Seq<ButtonInput>,
    now: u64,
) -> (Seq<MachineView<ButtonState>>, Seq<ButtonEvent>)
    decreases inputs.len(),
{
    if inputs.len() == 0 {
        (machines, Seq::empty())
    } else {
        let (ms, evs) = dispatch_all(logic, machines, inputs.drop_last(), now);
        let input = inputs.last();
        let o = dispatch_step(logic, ms[slot(input.button_name)], input, now);
        (ms.update(slot(input.button_name), o.machine), evs + o.events)
    }
}

/// The machines and the events after the timeout check of the first `n`
/// buttons, in enumeration order.
pub open spec fn sweep_prefix(
    logic: HoldIntentLogic,
    machines: Seq<MachineView<ButtonState>>,
    now: u64,
    n: int,
) -> (Seq<MachineView<ButtonState>>, Seq<ButtonEvent>)
    decreases n,
{
    if n <= 0 {
        (machines, Seq::empty())
    } else {
        let (ms, evs) = sweep_prefix(logic, machines, now, n - 1);
        let o = timeout_step(
            ms[n - 1],
            button_at(n - 1),
            logic.spec_button_config(button_at(n - 1)),
            now,
        );
        (ms.update(n - 1, o.machine), evs + o.events)
    }
}

/// Per-device dispatcher: one state machine per button, edge detection on raw
/// reports, and the periodic hold-threshold sweep.
pub struct HoldIntentParser {
    state_machines: Vec<ButtonStateMachine<ButtonState>>,
    logic: HoldIntentLogic,
    previous_button_states: Vec<bool>,
}

fn button_slot(button_name: PhysicalButtonName) -> (r: usize)
    ensures
        r as int == slot(button_name),
        r < BUTTON_COUNT,
{
    match button_name {
        PhysicalButtonName::Button0 => 0,
        PhysicalButtonName::Button1 => 1,
        PhysicalButtonName::Button2 => 2,
    }
}

impl HoldIntentParser {
    /// The machines of the buttons, by position.
    pub closed spec fn spec_machines(&self) -> Seq<MachineView<ButtonState>> {
        self.state_machines@.map_values(|m: ButtonStateMachine<ButtonState>| m@)
    }

    /// The last known level of each button, by position.
    pub closed spec fn spec_previous(&self) -> Seq<bool> {
        self.previous_button_states@
    }

    pub closed spec fn spec_logic(&self) -> HoldIntentLogic {
        self.logic
    }

    pub open spec fn wf(&self) -> bool {
        &&& self.spec_machines().len() == BUTTON_COUNT
        &&& self.spec_previous().len() == BUTTON_COUNT
        &&& forall|i: int| 0 <= i < BUTTON_COUNT ==> (#[trigger] self.spec_machines()[i]).wf()
    }

    /// A dispatcher whose buttons are all idle and released.
    pub fn new(global_default_threshold_ms: u64, config: ActionConfig) -> (r: Self)
        ensures
            r.wf(),
            r.spec_logic().spec_global_default_ms() == global_default_threshold_ms,
            r.spec_logic().spec_config() == config,
            r.spec_machines() == seq![MachineView::fresh(ButtonState::IDLE); 3],
            r.spec_previous() == seq![false; 3],
    {
        let logic = HoldIntentLogic::new(global_default_threshold_ms, config);
        let state_machines = vec![
            ButtonStateMachine::new(ButtonState::IDLE),
            ButtonStateMachine::new(ButtonState::IDLE),
            ButtonStateMachine::new(ButtonState::IDLE),
        ];
        let previous_button_states = vec![false, false, false];
        let r = HoldIntentParser { state_machines, logic, previous_button_states };
        assert(r.spec_machines() =~= seq![MachineView::fresh(ButtonState::IDLE); 3]);
        assert(r.spec_previous() =~= seq![false; 3]);
        r
    }

    /// The current state of a button's machine.
    pub fn button_state(&self, button_name: PhysicalButtonName) -> (r: ButtonState)
        requires
            self.wf(),
        ensures
            r == self.spec_machines()[slot(button_name)].state,
    {
        self.state_machines[button_slot(button_name)].state()
    }

    /// Compares the levels in a report with the last known ones: returns an
    /// input for each button whose level changed and stores the new levels.
    fn extract_button_states(&mut self, data: &[u8]) -> (r: Vec<ButtonInput>)
        requires
            old(self).wf(),
        ensures
            final(self).wf(),
            final(self).spec_machines() == old(self).spec_machines(),
            final(self).spec_logic() == old(self).spec_logic(),
            final(self).spec_previous() == levels_after(old(self).spec_previous(), data@),
            r@ == edge_inputs(old(self).spec_previous(), data@),
    {
        let mut button_states: Vec<ButtonInput> = Vec::new();
        if data.len() < 8 {
            return button_states;
        }
        let current_button_0 = data[4] & 0x01 != 0;
        let current_button_1 = data[5] & 0x01 != 0;
        let current_button_2 = data[6] & 0x01 != 0;
        let ghost prev = old(self).spec_previous();
        self.check_button_transition(PhysicalButtonName::Button0, current_button_0, &mut button_states);
        self.check_button_transition(PhysicalButtonName::Button1, current_button_1, &mut button_states);
        self.check_button_transition(PhysicalButtonName::Button2, current_button_2, &mut button_states);
        proof {
            assert(button_states@ =~= edge_at(prev, data@, 0) + edge_at(prev, data@, 1) + edge_at(prev, data@, 2));
            assert(self.spec_previous() =~= levels_after(prev, data@));
        }
        button_states
    }

    /// Records the level of one button, adding an input when it changed.
    fn check_button_transition(
        &mut self,
        button_name: PhysicalButtonName,
        current_state: bool,
        button_states: &mut Vec<ButtonInput>,
    )
        requires
            old(self).wf(),
        ensures
            final(self).wf(),
            final(self).spec_machines() == old(self).spec_machines(),
            final(self).spec_logic() == old(self).spec_logic(),
            final(self).spec_previous() == old(self).spec_previous().update(slot(button_name), current_state),
            final(button_states)@ == old(button_states)@ + (if current_state != old(self).spec_previous()[slot(button_name)] {
                seq![ButtonInput { button_name, is_pressed: current_state }]
            } else {
                Seq::empty()
            }),
    {
        let i = button_slot(button_name);
        let previous_state = self.previous_button_states[i];
        let ghost before = button_states@;
        if current_state != previous_state {
            button_states.push(ButtonInput { button_name, is_pressed: current_state });
        }
        self.previous_button_states.set(i, current_state);
        proof {
            if current_state != previous_state {
                assert(button_states@ =~= before + seq![ButtonInput { button_name, is_pressed: current_state }]);
            } else {
                assert(button_states@ =~= before + Seq::<ButtonInput>::empty());
            }
        }
    }

    /// Resets the machine at position `i` to IDLE.
    fn reset_machine(&mut self, i: usize)
        requires
            old(self).wf(),
            i < BUTTON_COUNT,
        ensures
            final(self).wf(),
            final(self).spec_logic() == old(self).spec_logic(),
            final(self).spec_previous() == old(self).spec_previous(),
            final(self).spec_machines() == old(self).spec_machines().update(
                i as int,
                MachineView::fresh(ButtonState::IDLE),
            ),
    {
        self.state_machines[i].reset(ButtonState::IDLE);
        assert(self.spec_machines() =~= old(self).spec_machines().update(
            i as int,
            MachineView::fresh(ButtonState::IDLE),
        ));
    }

    /// Applies a logic's transition to the machine at position `i`, appending
    /// its events to `out`.
    fn apply_transition(
        &mut self,
        i: usize,
        transition: StateTransition<ButtonEvent>,
        out: &mut Vec<ButtonEvent>,
    )
        requires
            old(self).wf(),
            i < BUTTON_COUNT,
        ensures
            final(self).wf(),
            final(self).spec_logic() == old(self).spec_logic(),
            final(self).spec_previous() == old(self).spec_previous(),
            final(self).spec_machines() == old(self).spec_machines().update(
                i as int,
                if transition is Reset || has_release(transition.events()) {
                    MachineView::fresh(ButtonState::IDLE)
                } else {
                    old(self).spec_machines()[i as int]
                },
            ),
            final(out)@ == old(out)@ + transition.events(),
    {
        let ghost m0 = self.spec_machines();
        match transition {
            StateTransition::Continue => {
                assert(self.spec_machines() =~= m0.update(i as int, m0[i as int]));
            },
            StateTransition::EmitEvents(events) => {
                let ghost out0 = out@;
                let mut released = false;
                let mut k: usize = 0;
                while k < events.len()
                    invariant
                        self.wf(),
                        i < BUTTON_COUNT,
                        m0.len() == BUTTON_COUNT,
                        k <= events.len(),
                        self.spec_logic() == old(self).spec_logic(),
                        self.spec_previous() == old(self).spec_previous(),
                        released == exists|j: int| 0 <= j < k && (#[trigger] events@[j]).event_type == ButtonEventType::RELEASING,
                        self.spec_machines() == m0.update(
                            i as int,
                            if released { MachineView::fresh(ButtonState::IDLE) } else { m0[i as int] },
                        ),
                        out@ == out0 + events@.take(k as int),
                    decreases events.len() - k,
                {
                    let event = events[k];
                    if event.event_type == ButtonEventType::RELEASING {
                        // a RELEASING event ends the episode at once
                        self.reset_machine(i);
                        released = true;
                    }
                    out.push(event);
                    proof {
                        assert(events@.take(k + 1) =~= events@.take(k as int).push(event));
                        assert(self.spec_machines() =~= m0.update(
                            i as int,
                            if released { MachineView::fresh(ButtonState::IDLE) } else { m0[i as int] },
                        ));
                    }
                    k = k + 1;
                }
                proof {
                    assert(events@.take(k as int) =~= events@);
                }
            },
            StateTransition::Reset => {
                self.reset_machine(i);
            },
        }
    }
    /// Runs the logic on the machine of the input's button.
    fn run_logic(&mut self, input: ButtonInput, now: u64) -> (r: StateTransition<ButtonEvent>)
        requires
            old(self).wf(),
        ensures
            final(self).wf(),
            final(self).spec_logic() == old(self).spec_logic(),
            final(self).spec_previous() == old(self).spec_previous(),
            final(self).spec_machines() == old(self).spec_machines().update(
                slot(input.button_name),
                old(self).spec_logic().spec_process(old(self).spec_machines()[slot(input.button_name)], input, now).machine,
            ),
            r.events() == old(self).spec_logic().spec_process(old(self).spec_machines()[slot(input.button_name)], input, now).events,
            (r is Reset) == old(self).spec_logic().spec_process(old(self).spec_machines()[slot(input.button_name)], input, now).reset,
    {
        let i = button_slot(input.button_name);
        let r = self.logic.process_input(&mut self.state_machines[i], input, now);
        let ghost o = old(self).spec_logic().spec_process(old(self).spec_machines()[i as int], input, now);
        assert(self.spec_machines() =~= old(self).spec_machines().update(i as int, o.machine));
        r
    }

    /// Feeds one raw report read at `now` (milliseconds): each button whose
    /// level changed is routed through the hold-intent logic, in enumeration
    /// order, and the events are returned in the order they were produced.
    pub fn parse_hid_data(&mut self, data: &[u8], now: u64) -> (r: Vec<ButtonEvent>)
        requires
            old(self).wf(),
        ensures
            final(self).wf(),
            final(self).spec_logic() == old(self).spec_logic(),
            final(self).spec_previous() == levels_after(old(self).spec_previous(), data@),
            (final(self).spec_machines(), r@) == dispatch_all(
                old(self).spec_logic(),
                old(self).spec_machines(),
                edge_inputs(old(self).spec_previous(), data@),
                now,
            ),
    {
        let inputs = self.extract_button_states(data);
        let ghost m0 = self.spec_machines();
        let mut out: Vec<ButtonEvent> = Vec::new();
        let mut j: usize = 0;
        while j < inputs.len()
            invariant
                self.wf(),
                j <= inputs.len(),
                self.spec_logic() == old(self).spec_logic(),
                self.spec_previous() == levels_after(old(self).spec_previous(), data@),
                (self.spec_machines(), out@) == dispatch_all(self.spec_logic(), m0, inputs@.take(j as int), now),
            decreases inputs.len() - j,
        {
            let input = inputs[j];
            let transition = self.run_logic(input, now);
            let i = button_slot(input.button_name);
            self.apply_transition(i, transition, &mut out);
            proof {
                assert(inputs@.take(j + 1).drop_last() =~= inputs@.take(j as int));
                assert(inputs@.take(j + 1).last() == input);
            }
            j = j + 1;
        }
        proof {
            assert(inputs@.take(j as int) =~= inputs@);
        }
        out
    }

    /// The periodic hold-threshold sweep at `now` (milliseconds): each button
    /// still evaluating, in enumeration order, gets the timeout check of the
    /// logic; returns the events fired.
    pub fn process_button_timeouts(&mut self, now: u64) -> (r: Vec<ButtonEvent>)
        requires
            old(self).wf(),
        ensures
            final(self).wf(),
            final(self).spec_logic() == old(self).spec_logic(),
            final(self).spec_previous() == old(self).spec_previous(),
            (final(self).spec_machines(), r@) == sweep_prefix(
                old(self).spec_logic(),
                old(self).spec_machines(),
                now,
                BUTTON_COUNT as int,
            ),
    {
        let ghost m0 = self.spec_machines();
        let mut out: Vec<ButtonEvent> = Vec::new();
        let mut i: usize = 0;
        while i < BUTTON_COUNT
            invariant
                self.wf(),
                i <= BUTTON_COUNT,
                self.spec_logic() == old(self).spec_logic(),
                self.spec_previous() == old(self).spec_previous(),
                (self.spec_machines(), out@) == sweep_prefix(self.spec_logic(), m0, now, i as int),
            decreases BUTTON_COUNT - i,
        {
            let button_name = if i == 0 {
                PhysicalButtonName::Button0
            } else if i == 1 {
                PhysicalButtonName::Button1
            } else {
                PhysicalButtonName::Button2
            };
            let ghost before = self.spec_machines();
            let ghost out_before = out@;
            let mut events = self.logic.check_hold_timeout(&mut self.state_machines[i], button_name, now);
            out.append(&mut events);
            proof {
                let o = timeout_step(before[i as int], button_at(i as int), self.spec_logic().spec_button_config(button_at(i as int)), now);
                assert(self.spec_machines() =~= before.update(i as int, o.machine));
                assert(out@ =~= out_before + o.events);
            }
            i = i + 1;
        }
        out
    }
}

} // verus!
