use vstd::prelude::*;

use crate::button_state_machine::{MachineView, Outcome, StateMachineLogic};
use crate::button_types::{ButtonEvent, ButtonEventType, ButtonInput, ButtonState};
use crate::hold_intent_parser::{
    button_at, dispatch_all, dispatch_step, has_release, slot, sweep_prefix, BUTTON_COUNT,
};
use crate::hold_intent_state_machine::{
    event_of, quick_release_threshold, timeout_step, HoldIntentLogic,
};
use crate::token_based_config::PhysicalButtonName;

verus! {

/// What reaches one button's machine through the dispatcher: a changed level,
/// or a run of the hold-threshold sweep.
pub enum Stimulus {
    Signal { is_pressed: bool, now: u64 },
    Sweep { now: u64 },
}

/// One stimulus applied to the machine `m` of button `b`.
pub open spec fn stimulus_step(
    logic: HoldIntentLogic,
    b: PhysicalButtonName,
    m: MachineView<ButtonState>,
    s: Stimulus,
) -> Outcome<ButtonState, ButtonEvent> {
    match s {
        Stimulus::Signal { is_pressed, now } => dispatch_step(
            logic,
            m,
            ButtonInput { button_name: b, is_pressed },
            now,
        ),
        Stimulus::Sweep { now } => timeout_step(m, b, logic.spec_button_config(b), now),
    }
}

/// The machine and the events after applying `xs` in order.
pub open spec fn run_button(
    logic: HoldIntentLogic,
    b: PhysicalButtonName,
    m: MachineView<ButtonState>,
    xs: Seq<Stimulus>,
) -> (MachineView<ButtonState>, Seq<ButtonEvent>)
    decreases xs.len(),
{
    if xs.len() == 0 {
        (m, Seq::empty())
    } else {
        let o = stimulus_step(logic, b, m, xs[0]);
        let (m2, e2) = run_button(logic, b, o.machine, xs.drop_first());
        (m2, o.events + e2)
    }
}

/// Whether any event in `events` is a PRESSED or a HELD.
pub open spec fn has_action_event(events: Seq<ButtonEvent>) -> bool {
    exists|k: int|
        0 <= k < events.len() && ((#[trigger] events[k]).event_type == ButtonEventType::PRESSED
            || events[k].event_type == ButtonEventType::HELD)
}

/// The RELEASING announcement that ends an episode, if the button has a
/// RELEASING action.
pub open spec fn release_tail(logic: HoldIntentLogic, b: PhysicalButtonName) -> Seq<ButtonEvent> {
    if logic.spec_has_releasing(b) {
        seq![event_of(b, ButtonEventType::RELEASING)]
    } else {
        Seq::empty()
    }
}

proof fn lemma_run_two(
    logic: HoldIntentLogic,
    b: PhysicalButtonName,
    m: MachineView<ButtonState>,
    x: Stimulus,
    y: Stimulus,
)
    ensures
        ({
            let o1 = stimulus_step(logic, b, m, x);
            let o2 = stimulus_step(logic, b, o1.machine, y);
            run_button(logic, b, m, seq![x, y]) == (o2.machine, o1.events + o2.events)
        }),
{
    let o1 = stimulus_step(logic, b, m, x);
    let o2 = stimulus_step(logic, b, o1.machine, y);
    let xs = seq![x, y];
    let ys = seq![y];
    assert(xs[0] == x);
    assert(xs.drop_first() =~= ys);
    assert(ys[0] == y);
    assert(ys.drop_first() =~= Seq::<Stimulus>::empty());
    assert(run_button(logic, b, o2.machine, ys.drop_first()) == (o2.machine, Seq::<ButtonEvent>::empty()));
    assert(o2.events + Seq::<ButtonEvent>::empty() =~= o2.events);
    assert(run_button(logic, b, o1.machine, ys) == (o2.machine, o2.events));
}

proof fn lemma_run_three(
    logic: HoldIntentLogic,
    b: PhysicalButtonName,
    m: MachineView<ButtonState>,
    x: Stimulus,
    y: Stimulus,
    z: Stimulus,
)
    ensures
        ({
            let o1 = stimulus_step(logic, b, m, x);
            let o2 = stimulus_step(logic, b, o1.machine, y);
            let o3 = stimulus_step(logic, b, o2.machine, z);
            run_button(logic, b, m, seq![x, y, z]) == (o3.machine, o1.events + o2.events + o3.events)
        }),
{
    let o1 = stimulus_step(logic, b, m, x);
    assert(seq![x, y, z][0] == x);
    assert(seq![x, y, z].drop_first() =~= seq![y, z]);
    lemma_run_two(logic, b, o1.machine, y, z);
    let o2 = stimulus_step(logic, b, o1.machine, y);
    let o3 = stimulus_step(logic, b, o2.machine, z);
    assert(o1.events + (o2.events + o3.events) =~= o1.events + o2.events + o3.events);
}

/// An idle button that receives a released signal emits nothing and its
/// machine is left as it was.
pub proof fn lemma_idle_release_is_quiet(
    logic: HoldIntentLogic,
    m: MachineView<ButtonState>,
    input: ButtonInput,
    now: u64,
)
    requires
        m.state == ButtonState::IDLE,
        !input.is_pressed,
    ensures
        logic.spec_process(m, input, now) == (Outcome { machine: m, events: Seq::<ButtonEvent>::empty(), reset: false }),
        dispatch_step(logic, m, input, now) == (Outcome { machine: m, events: Seq::<ButtonEvent>::empty(), reset: false }),
{
}

/// A pressed-only button that is idle moves to EVALUATING on an asserted
/// signal and emits exactly one PRESSED, marking the action as fired; no
/// further PRESSED or HELD comes from the asserted signals and sweeps `xs`
/// that may follow before a release.
pub proof fn lemma_pressed_only_fires_at_once(
    logic: HoldIntentLogic,
    b: PhysicalButtonName,
    now: u64,
    xs: Seq<Stimulus>,
)
    requires
        logic.spec_button_config(b).has_pressed_action,
        !logic.spec_button_config(b).has_held_action,
        forall|i: int| 0 <= i < xs.len() ==> !is_release(#[trigger] xs[i]),
    ensures
        ({
            let m = MachineView::<ButtonState>::fresh(ButtonState::IDLE);
            let o = stimulus_step(logic, b, m, Stimulus::Signal { is_pressed: true, now });
            &&& o.machine.state == ButtonState::EVALUATING
            &&& o.machine.action_fired
            &&& o.events == seq![event_of(b, ButtonEventType::PRESSED)]
            &&& run_button(logic, b, m, seq![Stimulus::Signal { is_pressed: true, now }] + xs).1
                == o.events + run_button(logic, b, o.machine, xs).1
            &&& !has_action_event(run_button(logic, b, o.machine, xs).1)
        }),
{
    let m = MachineView::<ButtonState>::fresh(ButtonState::IDLE);
    let x = Stimulus::Signal { is_pressed: true, now };
    let raw = logic.spec_process(m, ButtonInput { button_name: b, is_pressed: true }, now);
    assert(!has_release(raw.events));
    let o = stimulus_step(logic, b, m, x);
    let all = seq![x] + xs;
    assert(all[0] == x);
    assert(all.drop_first() =~= xs);
    lemma_fired_episode_stays_silent(logic, b, o.machine, xs);
}

/// Once an action has fired in an episode (the machine is not IDLE), no step
/// emits PRESSED or HELD: the machine stays marked as fired until the episode
/// ends and it is reset.
pub proof fn lemma_fired_action_is_final(
    logic: HoldIntentLogic,
    b: PhysicalButtonName,
    m: MachineView<ButtonState>,
    s: Stimulus,
)
    requires
        m.action_fired,
        m.state != ButtonState::IDLE,
    ensures
        !has_action_event(stimulus_step(logic, b, m, s).events),
        stimulus_step(logic, b, m, s).machine.action_fired
            || stimulus_step(logic, b, m, s).machine == MachineView::<ButtonState>::fresh(ButtonState::IDLE),
{
    let o = stimulus_step(logic, b, m, s);
    match s {
        Stimulus::Signal { is_pressed, now } => {
            let input = ButtonInput { button_name: b, is_pressed };
            let raw = logic.spec_process(m, input, now);
            assert(raw.events.len() <= 1);
            assert(raw.events.len() == 1 ==> raw.events[0].event_type == ButtonEventType::RELEASING);
            assert(!has_action_event(raw.events));
        },
        Stimulus::Sweep { now } => {},
    }
}

/// Whether a stimulus is a released signal, the only one that can end an
/// episode.
pub open spec fn is_release(s: Stimulus) -> bool {
    match s {
        Stimulus::Signal { is_pressed, now: _ } => !is_pressed,
        Stimulus::Sweep { now: _ } => false,
    }
}

/// Once an action has fired in an episode, no run of asserted signals and
/// sweeps emits PRESSED or HELD, and the episode goes on with the action
/// marked as fired: only a release can end it.
pub proof fn lemma_fired_episode_stays_silent(
    logic: HoldIntentLogic,
    b: PhysicalButtonName,
    m: MachineView<ButtonState>,
    xs: Seq<Stimulus>,
)
    requires
        m.action_fired,
        m.state != ButtonState::IDLE,
        forall|i: int| 0 <= i < xs.len() ==> !is_release(#[trigger] xs[i]),
    ensures
        !has_action_event(run_button(logic, b, m, xs).1),
        run_button(logic, b, m, xs).0.action_fired,
        run_button(logic, b, m, xs).0.state != ButtonState::IDLE,
    decreases xs.len(),
{
    if xs.len() > 0 {
        let o = stimulus_step(logic, b, m, xs[0]);
        assert(!is_release(xs[0]));
        lemma_fired_action_is_final(logic, b, m, xs[0]);
        match xs[0] {
            Stimulus::Signal { is_pressed, now } => {
                let raw = logic.spec_process(m, ButtonInput { button_name: b, is_pressed }, now);
                assert(raw.events.len() == 0);
                assert(!has_release(raw.events));
            },
            Stimulus::Sweep { now } => {},
        }
        assert(o.machine.action_fired && o.machine.state != ButtonState::IDLE);
        let rest = xs.drop_first();
        assert forall|i: int| 0 <= i < rest.len() implies !is_release(#[trigger] rest[i]) by {
            assert(rest[i] == xs[i + 1]);
        }
        lemma_fired_episode_stays_silent(logic, b, o.machine, rest);
        let (m2, e2) = run_button(logic, b, o.machine, rest);
        let all = o.events + e2;
        assert forall|k: int| 0 <= k < all.len() implies (#[trigger] all[k]).event_type
            != ButtonEventType::PRESSED && all[k].event_type != ButtonEventType::HELD by {
            if k < o.events.len() {
                assert(all[k] == o.events[k]);
            } else {
                assert(all[k] == e2[k - o.events.len()]);
            }
        }
    }
}

/// A held-only button released before its hold threshold has elapsed emits
/// no PRESSED or HELD event (only the RELEASING announcement, if one is
/// configured), and its episode ends.
pub proof fn lemma_held_only_early_release(
    logic: HoldIntentLogic,
    b: PhysicalButtonName,
    t0: u64,
    t1: u64,
)
    requires
        !logic.spec_button_config(b).has_pressed_action,
        logic.spec_button_config(b).has_held_action,
        t0 <= t1,
        t1 - t0 < logic.spec_button_config(b).threshold_ms,
    ensures
        ({
            let xs = seq![Stimulus::Signal { is_pressed: true, now: t0 }, Stimulus::Signal { is_pressed: false, now: t1 }];
            let (m, events) = run_button(logic, b, MachineView::fresh(ButtonState::IDLE), xs);
            &&& events == release_tail(logic, b)
            &&& !has_action_event(events)
            &&& m == MachineView::<ButtonState>::fresh(ButtonState::IDLE)
        }),
{
    let x = Stimulus::Signal { is_pressed: true, now: t0 };
    let y = Stimulus::Signal { is_pressed: false, now: t1 };
    let m0 = MachineView::<ButtonState>::fresh(ButtonState::IDLE);
    lemma_run_two(logic, b, m0, x, y);
    let o1 = stimulus_step(logic, b, m0, x);
    let o2 = stimulus_step(logic, b, o1.machine, y);
    assert(!has_release(o1.events));
    let raw = logic.spec_process(o1.machine, ButtonInput { button_name: b, is_pressed: false }, t1);
    if logic.spec_has_releasing(b) {
        assert(raw.events =~= seq![event_of(b, ButtonEventType::RELEASING)]);
        assert(raw.events[0].event_type == ButtonEventType::RELEASING);
    }
    assert(o1.events + o2.events =~= release_tail(logic, b));
}

/// A held-only or pressed+held button asserted at `t0` and still asserted
/// when the sweep runs at or after its hold threshold emits exactly one HELD
/// and moves to HELD; a second sweep emits nothing.
pub proof fn lemma_hold_fires_on_sweep(
    logic: HoldIntentLogic,
    b: PhysicalButtonName,
    t0: u64,
    t1: u64,
    t2: u64,
)
    requires
        logic.spec_button_config(b).has_held_action,
        t0 <= t1,
        t1 - t0 >= logic.spec_button_config(b).threshold_ms,
    ensures
        ({
            let xs = seq![Stimulus::Signal { is_pressed: true, now: t0 }, Stimulus::Sweep { now: t1 }];
            let (m, events) = run_button(logic, b, MachineView::fresh(ButtonState::IDLE), xs);
            &&& events == seq![event_of(b, ButtonEventType::HELD)]
            &&& m.state == ButtonState::HELD
            &&& m.action_fired
            &&& stimulus_step(logic, b, m, Stimulus::Sweep { now: t2 }) == (Outcome { machine: m, events: Seq::<ButtonEvent>::empty(), reset: false })
        }),
{
    let x = Stimulus::Signal { is_pressed: true, now: t0 };
    let y = Stimulus::Sweep { now: t1 };
    let m0 = MachineView::<ButtonState>::fresh(ButtonState::IDLE);
    lemma_run_two(logic, b, m0, x, y);
    let o1 = stimulus_step(logic, b, m0, x);
    assert(!has_release(o1.events));
    let o2 = stimulus_step(logic, b, o1.machine, y);
    assert(o1.events + o2.events =~= seq![event_of(b, ButtonEventType::HELD)]);
}

/// A button with a HELD action, asserted at `t0`, whose signal repeats at or
/// after its hold threshold emits exactly one HELD and moves to HELD, just as
/// when the sweep finds the threshold passed.
pub proof fn lemma_hold_fires_on_repeat_signal(
    logic: HoldIntentLogic,
    b: PhysicalButtonName,
    t0: u64,
    t1: u64,
)
    requires
        logic.spec_button_config(b).has_held_action,
        t0 <= t1,
        t1 - t0 >= logic.spec_button_config(b).threshold_ms,
    ensures
        ({
            let by_signal = run_button(logic, b, MachineView::fresh(ButtonState::IDLE), seq![Stimulus::Signal { is_pressed: true, now: t0 }, Stimulus::Signal { is_pressed: true, now: t1 }]);
            let by_sweep = run_button(logic, b, MachineView::fresh(ButtonState::IDLE), seq![Stimulus::Signal { is_pressed: true, now: t0 }, Stimulus::Sweep { now: t1 }]);
            &&& by_signal.1 == seq![event_of(b, ButtonEventType::HELD)]
            &&& by_signal.1 == by_sweep.1
            &&& by_signal.0.state == ButtonState::HELD
            &&& by_sweep.0.state == ButtonState::HELD
            &&& by_signal.0.action_fired
        }),
{
    let x = Stimulus::Signal { is_pressed: true, now: t0 };
    let y = Stimulus::Signal { is_pressed: true, now: t1 };
    let m0 = MachineView::<ButtonState>::fresh(ButtonState::IDLE);
    lemma_run_two(logic, b, m0, x, y);
    lemma_hold_fires_on_sweep(logic, b, t0, t1, t1);
    let o1 = stimulus_step(logic, b, m0, x);
    assert(!has_release(o1.events));
    let raw = logic.spec_process(o1.machine, ButtonInput { button_name: b, is_pressed: true }, t1);
    assert(!has_release(raw.events));
    let o2 = stimulus_step(logic, b, o1.machine, y);
    assert(o1.events + o2.events =~= seq![event_of(b, ButtonEventType::HELD)]);
}

/// A pressed+held button released before its quick-release threshold emits
/// exactly one PRESSED and no HELD (then the RELEASING announcement, if one
/// is configured), and its episode ends.
pub proof fn lemma_quick_release_fires_pressed(
    logic: HoldIntentLogic,
    b: PhysicalButtonName,
    t0: u64,
    t1: u64,
)
    requires
        logic.spec_button_config(b).has_pressed_action,
        logic.spec_button_config(b).has_held_action,
        t0 <= t1,
        t1 - t0 < quick_release_threshold(logic.spec_button_config(b).threshold_ms),
    ensures
        ({
            let xs = seq![Stimulus::Signal { is_pressed: true, now: t0 }, Stimulus::Signal { is_pressed: false, now: t1 }];
            let (m, events) = run_button(logic, b, MachineView::fresh(ButtonState::IDLE), xs);
            &&& events == seq![event_of(b, ButtonEventType::PRESSED)] + release_tail(logic, b)
            &&& m == MachineView::<ButtonState>::fresh(ButtonState::IDLE)
        }),
{
    let x = Stimulus::Signal { is_pressed: true, now: t0 };
    let y = Stimulus::Signal { is_pressed: false, now: t1 };
    let m0 = MachineView::<ButtonState>::fresh(ButtonState::IDLE);
    lemma_run_two(logic, b, m0, x, y);
    let o1 = stimulus_step(logic, b, m0, x);
    assert(!has_release(o1.events));
    let raw = logic.spec_process(o1.machine, ButtonInput { button_name: b, is_pressed: false }, t1);
    if logic.spec_has_releasing(b) {
        assert(raw.events[1].event_type == ButtonEventType::RELEASING);
    }
    let o2 = stimulus_step(logic, b, o1.machine, y);
    assert(o1.events + o2.events =~= seq![event_of(b, ButtonEventType::PRESSED)] + release_tail(logic, b));
}

/// A pressed+held button released between its quick-release threshold and
/// its hold threshold emits neither PRESSED nor HELD (only the RELEASING
/// announcement, if one is configured), and its episode ends.
pub proof fn lemma_dead_zone_release_is_silent(
    logic: HoldIntentLogic,
    b: PhysicalButtonName,
    t0: u64,
    t1: u64,
)
    requires
        logic.spec_button_config(b).has_pressed_action,
        logic.spec_button_config(b).has_held_action,
        t0 <= t1,
        quick_release_threshold(logic.spec_button_config(b).threshold_ms) <= t1 - t0,
        t1 - t0 < logic.spec_button_config(b).threshold_ms,
    ensures
        ({
            let xs = seq![Stimulus::Signal { is_pressed: true, now: t0 }, Stimulus::Signal { is_pressed: false, now: t1 }];
            let (m, events) = run_button(logic, b, MachineView::fresh(ButtonState::IDLE), xs);
            &&& events == release_tail(logic, b)
            &&& !has_action_event(events)
            &&& m == MachineView::<ButtonState>::fresh(ButtonState::IDLE)
        }),
{
    let x = Stimulus::Signal { is_pressed: true, now: t0 };
    let y = Stimulus::Signal { is_pressed: false, now: t1 };
    let m0 = MachineView::<ButtonState>::fresh(ButtonState::IDLE);
    lemma_run_two(logic, b, m0, x, y);
    let o1 = stimulus_step(logic, b, m0, x);
    assert(!has_release(o1.events));
    let raw = logic.spec_process(o1.machine, ButtonInput { button_name: b, is_pressed: false }, t1);
    if logic.spec_has_releasing(b) {
        assert(raw.events =~= seq![event_of(b, ButtonEventType::RELEASING)]);
        assert(raw.events[0].event_type == ButtonEventType::RELEASING);
    }
    assert(o1.events + stimulus_step(logic, b, o1.machine, y).events =~= release_tail(logic, b));
}

/// A pressed+held button held past its threshold emits exactly one HELD and
/// moves to HELD; its later release emits RELEASING if a RELEASING action is
/// configured, and otherwise nothing, and the episode ends.
pub proof fn lemma_hold_then_release(
    logic: HoldIntentLogic,
    b: PhysicalButtonName,
    t0: u64,
    t1: u64,
    t2: u64,
)
    requires
        logic.spec_button_config(b).has_pressed_action,
        logic.spec_button_config(b).has_held_action,
        t0 <= t1,
        t1 - t0 >= logic.spec_button_config(b).threshold_ms,
    ensures
        ({
            let xs = seq![
                Stimulus::Signal { is_pressed: true, now: t0 },
                Stimulus::Sweep { now: t1 },
                Stimulus::Signal { is_pressed: false, now: t2 },
            ];
            let (m, events) = run_button(logic, b, MachineView::fresh(ButtonState::IDLE), xs);
            &&& events == seq![event_of(b, ButtonEventType::HELD)] + release_tail(logic, b)
            &&& m == MachineView::<ButtonState>::fresh(ButtonState::IDLE)
        }),
{
    let x = Stimulus::Signal { is_pressed: true, now: t0 };
    let y = Stimulus::Sweep { now: t1 };
    let z = Stimulus::Signal { is_pressed: false, now: t2 };
    let m0 = MachineView::<ButtonState>::fresh(ButtonState::IDLE);
    lemma_run_three(logic, b, m0, x, y, z);
    let o1 = stimulus_step(logic, b, m0, x);
    assert(!has_release(o1.events));
    let o2 = stimulus_step(logic, b, o1.machine, y);
    let raw = logic.spec_process(o2.machine, ButtonInput { button_name: b, is_pressed: false }, t2);
    if logic.spec_has_releasing(b) {
        assert(raw.events[0].event_type == ButtonEventType::RELEASING);
    }
    let o3 = stimulus_step(logic, b, o2.machine, z);
    assert(o1.events + o2.events + o3.events =~= seq![event_of(b, ButtonEventType::HELD)] + release_tail(logic, b));
}

/// When a stimulus happens.
pub open spec fn stimulus_time(s: Stimulus) -> u64 {
    match s {
        Stimulus::Signal { is_pressed: _, now } => now,
        Stimulus::Sweep { now } => now,
    }
}

/// The same stimulus, `d` milliseconds later.
pub open spec fn shifted_stimulus(s: Stimulus, d: u64) -> Stimulus {
    match s {
        Stimulus::Signal { is_pressed, now } => Stimulus::Signal { is_pressed, now: (now + d) as u64 },
        Stimulus::Sweep { now } => Stimulus::Sweep { now: (now + d) as u64 },
    }
}

/// The same stimuli, each `d` milliseconds later.
pub open spec fn shifted(xs: Seq<Stimulus>, d: u64) -> Seq<Stimulus> {
    xs.map_values(|s: Stimulus| shifted_stimulus(s, d))
}

/// Every stimulus of `xs`, moved `d` milliseconds later, still has a time.
pub open spec fn shift_fits(xs: Seq<Stimulus>, d: u64) -> bool {
    forall|i: int| 0 <= i < xs.len() ==> stimulus_time(#[trigger] xs[i]) + d <= u64::MAX
}

pub open spec fn shifted_time(t: Option<u64>, d: u64) -> Option<u64> {
    match t {
        Some(x) => Some((x + d) as u64),
        None => None,
    }
}

/// The machine with its timestamps moved `d` milliseconds later.
pub open spec fn shifted_machine(m: MachineView<ButtonState>, d: u64) -> MachineView<ButtonState> {
    MachineView {
        first_signal_time: shifted_time(m.first_signal_time, d),
        last_signal_time: shifted_time(m.last_signal_time, d),
        ..m
    }
}

pub open spec fn machine_fits(m: MachineView<ButtonState>, d: u64) -> bool {
    &&& (m.first_signal_time matches Some(t) ==> t + d <= u64::MAX)
    &&& (m.last_signal_time matches Some(t) ==> t + d <= u64::MAX)
}

proof fn lemma_step_shifted(
    logic: HoldIntentLogic,
    b: PhysicalButtonName,
    m: MachineView<ButtonState>,
    s: Stimulus,
    d: u64,
)
    requires
        machine_fits(m, d),
        stimulus_time(s) + d <= u64::MAX,
    ensures
        ({
            let o1 = stimulus_step(logic, b, m, s);
            let o2 = stimulus_step(logic, b, shifted_machine(m, d), shifted_stimulus(s, d));
            &&& o2.events == o1.events
            &&& o2.machine == shifted_machine(o1.machine, d)
            &&& machine_fits(o1.machine, d)
        }),
{
    let now = stimulus_time(s);
    let later = (now + d) as u64;
    let sm = shifted_machine(m, d);
    assert(sm.elapsed_ms(later) == m.elapsed_ms(now));
    assert(sm.recorded(later) == shifted_machine(m.recorded(now), d));
    assert(sm.with_state(ButtonState::EVALUATING).recorded(later) == shifted_machine(
        m.with_state(ButtonState::EVALUATING).recorded(now),
        d,
    ));
    assert(sm.with_state(ButtonState::HELD).recorded(later) == shifted_machine(
        m.with_state(ButtonState::HELD).recorded(now),
        d,
    ));
    assert(shifted_machine(MachineView::fresh(ButtonState::IDLE), d) == MachineView::<ButtonState>::fresh(ButtonState::IDLE));
    match s {
        Stimulus::Signal { is_pressed, now } => {
            let i1 = ButtonInput { button_name: b, is_pressed };
            let r1 = logic.spec_process(m, i1, now);
            let r2 = logic.spec_process(sm, i1, later);
            assert(r2.events == r1.events);
            assert(r2.reset == r1.reset);
            assert(r2.machine == shifted_machine(r1.machine, d));
        },
        Stimulus::Sweep { now } => {},
    }
}

proof fn lemma_run_shifted(
    logic: HoldIntentLogic,
    b: PhysicalButtonName,
    m: MachineView<ButtonState>,
    xs: Seq<Stimulus>,
    d: u64,
)
    requires
        machine_fits(m, d),
        shift_fits(xs, d),
    ensures
        run_button(logic, b, shifted_machine(m, d), shifted(xs, d)) == (shifted_machine(
            run_button(logic, b, m, xs).0,
            d,
        ), run_button(logic, b, m, xs).1),
    decreases xs.len(),
{
    if xs.len() > 0 {
        let ys = shifted(xs, d);
        assert(stimulus_time(xs[0]) + d <= u64::MAX);
        assert(ys[0] == shifted_stimulus(xs[0], d));
        lemma_step_shifted(logic, b, m, xs[0], d);
        let o = stimulus_step(logic, b, m, xs[0]);
        let rest = xs.drop_first();
        assert(ys.drop_first() =~= shifted(rest, d));
        assert forall|i: int| 0 <= i < rest.len() implies stimulus_time(#[trigger] rest[i]) + d
            <= u64::MAX by {
            assert(rest[i] == xs[i + 1]);
        }
        lemma_run_shifted(logic, b, o.machine, rest, d);
    }
}

/// A reset machine is exactly a new one, so feeding it the same stimuli, at
/// the same offsets from whatever time origin, yields the same events and the
/// same machine (timestamps moved by the difference of the origins): nothing
/// of an earlier episode survives the reset.
pub proof fn lemma_reset_replays(
    logic: HoldIntentLogic,
    b: PhysicalButtonName,
    xs: Seq<Stimulus>,
    first_origin: u64,
    second_origin: u64,
)
    requires
        shift_fits(xs, first_origin),
        shift_fits(xs, second_origin),
    ensures
        ({
            let fresh = MachineView::<ButtonState>::fresh(ButtonState::IDLE);
            let first = run_button(logic, b, fresh, shifted(xs, first_origin));
            let second = run_button(logic, b, fresh, shifted(xs, second_origin));
            let base = run_button(logic, b, fresh, xs);
            &&& first.1 == second.1
            &&& first.1 == base.1
            &&& first.0 == shifted_machine(base.0, first_origin)
            &&& second.0 == shifted_machine(base.0, second_origin)
        }),
{
    let fresh = MachineView::<ButtonState>::fresh(ButtonState::IDLE);
    assert(shifted_machine(fresh, first_origin) == fresh);
    assert(shifted_machine(fresh, second_origin) == fresh);
    lemma_run_shifted(logic, b, fresh, xs, first_origin);
    lemma_run_shifted(logic, b, fresh, xs, second_origin);
}

/// The stimuli that a run of inputs, dispatched at `now`, delivers to button `b`.
pub open spec fn signals_for(b: PhysicalButtonName, inputs: Seq<ButtonInput>, now: u64) -> Seq<
    Stimulus,
>
    decreases inputs.len(),
{
    if inputs.len() == 0 {
        Seq::empty()
    } else {
        let rest = signals_for(b, inputs.drop_last(), now);
        if inputs.last().button_name == b {
            rest.push(Stimulus::Signal { is_pressed: inputs.last().is_pressed, now })
        } else {
            rest
        }
    }
}

/// The events of button `b` among `events`, in order.
pub open spec fn events_for(b: PhysicalButtonName, events: Seq<ButtonEvent>) -> Seq<ButtonEvent> {
    events.filter(|e: ButtonEvent| e.button_name == b)
}

proof fn lemma_events_for_uniform(b: PhysicalButtonName, events: Seq<ButtonEvent>, owner: PhysicalButtonName)
    requires
        forall|k: int| 0 <= k < events.len() ==> (#[trigger] events[k]).button_name == owner,
    ensures
        events_for(b, events) == (if owner == b {
            events
        } else {
            Seq::<ButtonEvent>::empty()
        }),
    decreases events.len(),
{
    reveal(Seq::filter);
    if events.len() > 0 {
        let rest = events.drop_last();
        assert forall|k: int| 0 <= k < rest.len() implies (#[trigger] rest[k]).button_name == owner by {
            assert(rest[k] == events[k]);
        }
        lemma_events_for_uniform(b, rest, owner);
        assert(events.last() == events[events.len() - 1]);
        if owner == b {
            assert(rest.push(events.last()) =~= events);
        }
    }
}

proof fn lemma_step_events_owned(
    logic: HoldIntentLogic,
    b: PhysicalButtonName,
    m: MachineView<ButtonState>,
    s: Stimulus,
)
    ensures
        forall|k: int|
            0 <= k < stimulus_step(logic, b, m, s).events.len() ==> (#[trigger] stimulus_step(
                logic,
                b,
                m,
                s,
            ).events[k]).button_name == b,
{
    match s {
        Stimulus::Signal { is_pressed, now } => {
            let raw = logic.spec_process(m, ButtonInput { button_name: b, is_pressed }, now);
            assert(raw.events.len() <= 2);
            assert(forall|k: int| 0 <= k < raw.events.len() ==> (#[trigger] raw.events[k]).button_name == b);
        },
        Stimulus::Sweep { now } => {},
    }
}

proof fn lemma_run_push(
    logic: HoldIntentLogic,
    b: PhysicalButtonName,
    m: MachineView<ButtonState>,
    xs: Seq<Stimulus>,
    x: Stimulus,
)
    ensures
        ({
            let (m1, e1) = run_button(logic, b, m, xs);
            let o = stimulus_step(logic, b, m1, x);
            run_button(logic, b, m, xs.push(x)) == (o.machine, e1 + o.events)
        }),
    decreases xs.len(),
{
    let ys = xs.push(x);
    if xs.len() == 0 {
        assert(ys[0] == x);
        assert(ys.drop_first() =~= Seq::<Stimulus>::empty());
        let o = stimulus_step(logic, b, m, x);
        assert(run_button(logic, b, o.machine, ys.drop_first()) == (o.machine, Seq::<ButtonEvent>::empty()));
        assert(run_button(logic, b, m, xs) == (m, Seq::<ButtonEvent>::empty()));
        assert(Seq::<ButtonEvent>::empty() + o.events =~= o.events);
        assert(o.events + Seq::<ButtonEvent>::empty() =~= o.events);
    } else {
        assert(ys[0] == xs[0]);
        assert(ys.drop_first() =~= xs.drop_first().push(x));
        let o0 = stimulus_step(logic, b, m, xs[0]);
        lemma_run_push(logic, b, o0.machine, xs.drop_first(), x);
        let (m1, e1) = run_button(logic, b, o0.machine, xs.drop_first());
        let o = stimulus_step(logic, b, m1, x);
        assert(run_button(logic, b, m, xs) == (m1, o0.events + e1));
        assert(o0.events + (e1 + o.events) =~= (o0.events + e1) + o.events);
    }
}

/// The dispatcher treats buttons independently: after a run of inputs, the
/// machine of button `b` and the events of `b` are those of `b`'s own inputs
/// applied to its machine alone, so every law stated of `run_button` holds of
/// each button of the dispatcher.
pub proof fn lemma_dispatch_per_button(
    logic: HoldIntentLogic,
    machines: Seq<MachineView<ButtonState>>,
    inputs: Seq<ButtonInput>,
    now: u64,
    b: PhysicalButtonName,
)
    requires
        machines.len() == BUTTON_COUNT,
    ensures
        ({
            let (ms, events) = dispatch_all(logic, machines, inputs, now);
            let (mb, eb) = run_button(logic, b, machines[slot(b)], signals_for(b, inputs, now));
            &&& ms.len() == BUTTON_COUNT
            &&& ms[slot(b)] == mb
            &&& events_for(b, events) == eb
        }),
    decreases inputs.len(),
{
    if inputs.len() == 0 {
        reveal(Seq::filter);
        assert(run_button(logic, b, machines[slot(b)], Seq::<Stimulus>::empty()) == (machines[slot(b)], Seq::<ButtonEvent>::empty()));
    } else {
        let front = inputs.drop_last();
        let input = inputs.last();
        lemma_dispatch_per_button(logic, machines, front, now, b);
        let (ms0, ev0) = dispatch_all(logic, machines, front, now);
        let o = dispatch_step(logic, ms0[slot(input.button_name)], input, now);
        let x = Stimulus::Signal { is_pressed: input.is_pressed, now };
        let c = input.button_name;
        assert(stimulus_step(logic, c, ms0[slot(c)], x) == o);
        lemma_step_events_owned(logic, c, ms0[slot(c)], x);
        lemma_events_for_uniform(b, o.events, c);
        Seq::filter_distributes_over_add(ev0, o.events, |e: ButtonEvent| e.button_name == b);
        if c == b {
            lemma_run_push(logic, b, machines[slot(b)], signals_for(b, front, now), x);
        }
    }
}

/// The sweep, too, treats buttons independently: button `b` gets exactly
/// one sweep step on its own machine.
pub proof fn lemma_sweep_per_button(
    logic: HoldIntentLogic,
    machines: Seq<MachineView<ButtonState>>,
    now: u64,
    b: PhysicalButtonName,
)
    requires
        machines.len() == BUTTON_COUNT,
    ensures
        ({
            let (ms, events) = sweep_prefix(logic, machines, now, BUTTON_COUNT as int);
            let o = stimulus_step(logic, b, machines[slot(b)], Stimulus::Sweep { now });
            &&& ms.len() == BUTTON_COUNT
            &&& ms[slot(b)] == o.machine
            &&& events_for(b, events) == o.events
        }),
{
    lemma_sweep_prefix_per_button(logic, machines, now, b, BUTTON_COUNT as int);
}

proof fn lemma_sweep_prefix_per_button(
    logic: HoldIntentLogic,
    machines: Seq<MachineView<ButtonState>>,
    now: u64,
    b: PhysicalButtonName,
    n: int,
)
    requires
        machines.len() == BUTTON_COUNT,
        0 <= n <= BUTTON_COUNT,
    ensures
        ({
            let (ms, events) = sweep_prefix(logic, machines, now, n);
            let o = stimulus_step(logic, b, machines[slot(b)], Stimulus::Sweep { now });
            &&& ms.len() == BUTTON_COUNT
            &&& ms[slot(b)] == (if slot(b) < n { o.machine } else { machines[slot(b)] })
            &&& events_for(b, events) == (if slot(b) < n { o.events } else { Seq::<ButtonEvent>::empty() })
            &&& forall|j: int| n <= j < BUTTON_COUNT ==> #[trigger] ms[j] == machines[j]
        }),
    decreases n,
{
    if n == 0 {
        reveal(Seq::filter);
    } else {
        lemma_sweep_prefix_per_button(logic, machines, now, b, n - 1);
        let (ms0, ev0) = sweep_prefix(logic, machines, now, n - 1);
        let c = button_at(n - 1);
        assert(slot(c) == n - 1);
        assert(ms0[n - 1] == machines[n - 1]);
        let x = Stimulus::Sweep { now };
        let o = stimulus_step(logic, c, ms0[n - 1], x);
        lemma_step_events_owned(logic, c, ms0[n - 1], x);
        lemma_events_for_uniform(b, o.events, c);
        Seq::filter_distributes_over_add(ev0, o.events, |e: ButtonEvent| e.button_name == b);
        assert(c == b <==> slot(b) == n - 1);
    }
}

} // verus!
