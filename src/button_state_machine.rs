use vstd::prelude::*;

verus! {

/// The abstract contents of a `ButtonStateMachine`: timestamps are in
/// milliseconds on the caller's monotonic clock.
pub struct MachineView<S> {
    pub state: S,
    pub first_signal_time: Option<u64>,
    pub last_signal_time: Option<u64>,
    pub signal_count: nat,
    pub action_fired: bool,
}

impl<S> MachineView<S> {
    /// A machine in `initial` with every field cleared.
    pub open spec fn fresh(initial: S) -> MachineView<S> {
        MachineView {
            state: initial,
            first_signal_time: None,
            last_signal_time: None,
            signal_count: 0,
            action_fired: false,
        }
    }

    /// The first signal time is known exactly when a signal has been counted.
    pub open spec fn wf(self) -> bool {
        &&& (self.first_signal_time is Some <==> self.signal_count > 0)
        &&& self.signal_count <= u32::MAX
    }

    pub open spec fn with_state(self, s: S) -> MachineView<S> {
        MachineView { state: s, ..self }
    }

    pub open spec fn fired(self) -> MachineView<S> {
        MachineView { action_fired: true, ..self }
    }

    /// The machine after recording a signal at `now`: the first signal of an
    /// episode fixes the start time, later ones are counted (the count stops
    /// at `u32::MAX`).
    pub open spec fn recorded(self, now: u64) -> MachineView<S> {
        if self.first_signal_time is None {
            MachineView {
                first_signal_time: Some(now),
                last_signal_time: Some(now),
                signal_count: 1,
                ..self
            }
        } else {
            MachineView {
                last_signal_time: Some(now),
                signal_count: if self.signal_count < u32::MAX { self.signal_count + 1 } else {
                    self.signal_count
                },
                ..self
            }
        }
    }

    /// Milliseconds from the first signal to `now` (zero when `now` is earlier).
    pub open spec fn elapsed_ms(self, now: u64) -> Option<u64> {
        match self.first_signal_time {
            None => None,
            Some(first) => Some(if now >= first { (now - first) as u64 } else { 0 }),
        }
    }
}

/// Generic per-button state holder for press detection.
#[derive(Debug, Clone)]
pub struct ButtonStateMachine<S> {
    current_state: S,
    first_signal_time: Option<u64>,
    last_signal_time: Option<u64>,
    signal_count: u32,
    action_fired: bool,
}

impl<S> View for ButtonStateMachine<S> {
    type V = MachineView<S>;

    closed spec fn view(&self) -> MachineView<S> {
        MachineView {
            state: self.current_state,
            first_signal_time: self.first_signal_time,
            last_signal_time: self.last_signal_time,
            signal_count: self.signal_count as nat,
            action_fired: self.action_fired,
        }
    }
}

impl<S: Copy> ButtonStateMachine<S> {
    pub fn new(initial_state: S) -> (r: Self)
        ensures
            r@ == MachineView::fresh(initial_state),
    {
        ButtonStateMachine {
            current_state: initial_state,
            first_signal_time: None,
            last_signal_time: None,
            signal_count: 0,
            action_fired: false,
        }
    }

    /// The current state.
    pub fn state(&self) -> (r: S)
        ensures
            r == self@.state,
    {
        self.current_state
    }

    /// Moves to `new_state`, keeping the signal history.
    pub fn transition_to(&mut self, new_state: S)
        ensures
            final(self)@ == old(self)@.with_state(new_state),
    {
        self.current_state = new_state;
    }

    /// Records a signal observed at `now` (milliseconds).
    pub fn record_signal(&mut self, now: u64)
        ensures
            final(self)@ == old(self)@.recorded(now),
    {
        if self.first_signal_time.is_none() {
            self.first_signal_time = Some(now);
            self.signal_count = 1;
        } else {
            self.signal_count = self.signal_count.saturating_add(1);
        }
        self.last_signal_time = Some(now);
    }

    /// Milliseconds elapsed since the first signal of the episode, if any.
    pub fn time_since_first_signal(&self, now: u64) -> (r: Option<u64>)
        ensures
            r == self@.elapsed_ms(now),
    {
        match self.first_signal_time {
            None => None,
            Some(first) => Some(now.saturating_sub(first)),
        }
    }

    /// The number of signals recorded since the last reset.
    pub fn signal_count(&self) -> (r: u32)
        ensures
            r as nat == self@.signal_count,
    {
        self.signal_count
    }

    /// Whether an action has been fired in this episode.
    pub fn action_fired(&self) -> (r: bool)
        ensures
            r == self@.action_fired,
    {
        self.action_fired
    }

    /// Marks that an action has been fired in this episode.
    pub fn mark_action_fired(&mut self)
        ensures
            final(self)@ == old(self)@.fired(),
    {
        self.action_fired = true;
    }

    /// Clears every field and moves to `initial_state`.
    pub fn reset(&mut self, initial_state: S)
        ensures
            final(self)@ == MachineView::fresh(initial_state),
    {
        self.current_state = initial_state;
        self.first_signal_time = None;
        self.last_signal_time = None;
        self.signal_count = 0;
        self.action_fired = false;
    }
}

/// What one step of a logic asks of its caller.
#[derive(Debug)]
pub enum StateTransition<E> {
    /// Continue processing, no events generated.
    Continue,
    /// Emit these events, in order.
    EmitEvents(Vec<E>),
    /// Reset the state machine.
    Reset,
}

impl<E> StateTransition<E> {
    /// The events that the transition emits.
    pub open spec fn events(&self) -> Seq<E> {
        match self {
            StateTransition::EmitEvents(v) => v@,
            _ => Seq::empty(),
        }
    }
}

/// The abstract result of one step of a logic.
pub struct Outcome<S, E> {
    /// The machine as the logic leaves it.
    pub machine: MachineView<S>,
    /// The events emitted, in order.
    pub events: Seq<E>,
    /// Whether the caller is asked to reset the machine.
    pub reset: bool,
}

/// A strategy that classifies the inputs of one entity, driving its
/// `ButtonStateMachine`.
pub trait StateMachineLogic<S: Copy, E, Input> {
    /// The state in which machines start and to which they are reset.
    spec fn spec_initial_state(&self) -> S;

    /// What one call of `process_input` does, on the abstract machine.
    spec fn spec_process(&self, machine: MachineView<S>, input: Input, now: u64) -> Outcome<S, E>;

    /// Processes `input` observed at `now` (milliseconds).
    fn process_input(&self, state_machine: &mut ButtonStateMachine<S>, input: Input, now: u64) -> (r:
        StateTransition<E>)
        requires
            old(state_machine)@.wf(),
        ensures
            final(state_machine)@.wf(),
            final(state_machine)@ == self.spec_process(old(state_machine)@, input, now).machine,
            r.events() == self.spec_process(old(state_machine)@, input, now).events,
            (r is Reset) == self.spec_process(old(state_machine)@, input, now).reset,
            r is EmitEvents ==> r.events().len() > 0,
    ;

    /// The state in which machines start.
    fn initial_state(&self) -> (r: S)
        ensures
            r == self.spec_initial_state(),
    ;
}

} // verus!
