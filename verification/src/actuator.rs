//! The actuation loop as a state machine.
//!
//! The loop owns the input device. It waits out a warm-up, then polls for
//! commands; after every poll, whether a command came or not, it moves the
//! pointer by the current velocity. It ends when the sending side of the
//! command channel is gone.
//!
//! The machine decides, a driver acts: the driver carries out the
//! [`Directive`] it is given and reports what came of it as an [`Event`].
//! An event that does not answer the directive last given changes nothing.

use crate::device::{command_actions, discrete_actions, fullscreen_actions, DeviceAction};
use crate::keys::{key_for, KeyStroke, KEY_LEFTSHIFT};
use crate::message::{Command, CommandView};
use crate::motion::{device_velocity, Velocity};
use vstd::prelude::*;

verus! {

/// How long the loop waits before its first poll, in milliseconds.
pub const WARMUP_MILLIS: u64 = 1000;

/// How long one poll waits for a command, in milliseconds.
pub const POLL_TIMEOUT_MILLIS: u64 = 10;

#[derive(Clone, Copy, Debug, PartialEq, Eq, Structural)]
pub enum Phase {
    Warmup,
    Running,
    Terminated,
}

/// What the driver reports.
#[derive(Clone, Debug, PartialEq, Eq)]
pub enum Event {
    /// The warm-up time has passed.
    WarmupElapsed,
    /// The poll brought a command.
    Received(Command),
    /// The poll ended without a command.
    TimedOut,
    /// The poll found the sending side of the channel gone.
    Disconnected,
    /// The action last issued was attempted on the device.
    Completed { succeeded: bool },
}

pub enum EventView {
    WarmupElapsed,
    Received(CommandView),
    TimedOut,
    Disconnected,
    Completed { succeeded: bool },
}

impl View for Event {
    type V = EventView;

    open spec fn view(&self) -> EventView {
        match self {
            Event::WarmupElapsed => EventView::WarmupElapsed,
            Event::Received(command) => EventView::Received(command@),
            Event::TimedOut => EventView::TimedOut,
            Event::Disconnected => EventView::Disconnected,
            Event::Completed { succeeded } => EventView::Completed { succeeded: *succeeded },
        }
    }
}

/// What the driver is to do next.
#[derive(Clone, Copy, Debug, PartialEq, Eq, Structural)]
pub enum Directive {
    /// Wait this long, then report `WarmupElapsed`.
    Sleep { millis: u64 },
    /// Wait this long at most for a command, then report `Received`,
    /// `TimedOut` or `Disconnected`.
    Poll { timeout_millis: u64 },
    /// Attempt this action on the device, then report `Completed`.
    Issue(DeviceAction),
    /// Let go of the device and stop.
    Exit,
}

/// The state of the loop: its phase, the velocity, and the actions of the
/// current tick that are still to be issued.
#[verifier::ext_equal]
pub struct ActuatorState {
    pub phase: Phase,
    pub velocity: Velocity,
    pub pending: Seq<DeviceAction>,
}

pub open spec fn initial() -> ActuatorState {
    ActuatorState {
        phase: Phase::Warmup,
        velocity: Velocity { x: 0, y: 0 },
        pending: Seq::empty(),
    }
}

/// Whether the loop is between two ticks, about to poll.
pub open spec fn polling(s: ActuatorState) -> bool {
    s.phase == Phase::Running && s.pending.len() == 0
}

/// Whether the loop is in the middle of a tick, with an action issued.
pub open spec fn issuing(s: ActuatorState) -> bool {
    s.phase == Phase::Running && s.pending.len() > 0
}

pub open spec fn directive_of(s: ActuatorState) -> Directive {
    match s.phase {
        Phase::Warmup => Directive::Sleep { millis: WARMUP_MILLIS },
        Phase::Running => if s.pending.len() > 0 {
            Directive::Issue(s.pending[0])
        } else {
            Directive::Poll { timeout_millis: POLL_TIMEOUT_MILLIS }
        },
        Phase::Terminated => Directive::Exit,
    }
}

/// The velocity once a command is taken: a move sets it, nothing else
/// touches it.
pub open spec fn velocity_after(velocity: Velocity, command: CommandView) -> Velocity {
    match command {
        CommandView::Move { dx, dy } => device_velocity(dx, dy),
        _ => velocity,
    }
}

pub open spec fn move_by(velocity: Velocity) -> DeviceAction {
    DeviceAction::MoveRelative { dx: velocity.x, dy: velocity.y }
}

/// The actions of the tick that a poll starts, given the velocity before it:
/// those of the command, if one came, and then the pointer motion, by the
/// velocity as the command leaves it. A poll that finds the channel
/// disconnected starts no tick.
pub open spec fn tick_actions(velocity: Velocity, poll: EventView) -> Seq<DeviceAction> {
    match poll {
        EventView::Received(command) => discrete_actions(command).push(
            move_by(velocity_after(velocity, command)),
        ),
        EventView::TimedOut => seq![move_by(velocity)],
        _ => Seq::empty(),
    }
}

/// The state that follows `s` on `event`.
pub open spec fn next(s: ActuatorState, event: EventView) -> ActuatorState {
    match s.phase {
        Phase::Warmup => if event is WarmupElapsed {
            ActuatorState { phase: Phase::Running, ..s }
        } else {
            s
        },
        Phase::Running => if s.pending.len() > 0 {
            if event is Completed {
                ActuatorState { pending: s.pending.drop_first(), ..s }
            } else {
                s
            }
        } else {
            match event {
                EventView::Received(command) => ActuatorState {
                    phase: Phase::Running,
                    velocity: velocity_after(s.velocity, command),
                    pending: tick_actions(s.velocity, event),
                },
                EventView::TimedOut => ActuatorState {
                    pending: tick_actions(s.velocity, event),
                    ..s
                },
                EventView::Disconnected => ActuatorState { phase: Phase::Terminated, ..s },
                _ => s,
            }
        },
        Phase::Terminated => s,
    }
}

/// The state after a run of events.
pub open spec fn run(s: ActuatorState, events: Seq<EventView>) -> ActuatorState
    decreases events.len(),
{
    if events.len() == 0 {
        s
    } else {
        run(next(s, events[0]), events.drop_first())
    }
}

/// The actions that were attempted on the device during a run of events, in
/// their order: each action issued whose completion was reported.
pub open spec fn issued(s: ActuatorState, events: Seq<EventView>) -> Seq<DeviceAction>
    decreases events.len(),
{
    if events.len() == 0 {
        Seq::empty()
    } else {
        let rest = issued(next(s, events[0]), events.drop_first());
        if issuing(s) && events[0] is Completed {
            seq![s.pending[0]] + rest
        } else {
            rest
        }
    }
}

/// The commands that the loop took during a run of events, in their order:
/// those received while it was polling.
pub open spec fn taken(s: ActuatorState, events: Seq<EventView>) -> Seq<CommandView>
    decreases events.len(),
{
    if events.len() == 0 {
        Seq::empty()
    } else {
        let rest = taken(next(s, events[0]), events.drop_first());
        if polling(s) && events[0] is Received {
            seq![events[0]->Received_0] + rest
        } else {
            rest
        }
    }
}

/// Whether an event is a report on what a directive asks for.
pub open spec fn answers(directive: Directive, event: EventView) -> bool {
    match directive {
        Directive::Sleep { .. } => event is WarmupElapsed,
        Directive::Poll { .. } => event is Received || event is TimedOut || event is Disconnected,
        Directive::Issue(_) => event is Completed,
        Directive::Exit => false,
    }
}

/// Whether a run of events is that of a driver that does as it is told:
/// every event answers the directive of the state it arrives in.
pub open spec fn well_driven(s: ActuatorState, events: Seq<EventView>) -> bool
    decreases events.len(),
{
    events.len() == 0 || (answers(directive_of(s), events[0]) && well_driven(
        next(s, events[0]),
        events.drop_first(),
    ))
}

/// The commands that a run of events brings, in their order.
pub open spec fn received(events: Seq<EventView>) -> Seq<CommandView>
    decreases events.len(),
{
    if events.len() == 0 {
        Seq::empty()
    } else if events[0] is Received {
        seq![events[0]->Received_0] + received(events.drop_first())
    } else {
        received(events.drop_first())
    }
}

/// The polls among a run of events that start a tick, in their order: those
/// that bring a command and those that time out.
pub open spec fn polls(events: Seq<EventView>) -> Seq<EventView>
    decreases events.len(),
{
    if events.len() == 0 {
        Seq::empty()
    } else if events[0] is Received || events[0] is TimedOut {
        seq![events[0]] + polls(events.drop_first())
    } else {
        polls(events.drop_first())
    }
}

/// The actions of one tick after the other, for the polls that start them
/// and the velocity before the first.
pub open spec fn ticks_actions(velocity: Velocity, starts: Seq<EventView>) -> Seq<DeviceAction>
    decreases starts.len(),
{
    if starts.len() == 0 {
        Seq::empty()
    } else {
        let after = match starts[0] {
            EventView::Received(command) => velocity_after(velocity, command),
            _ => velocity,
        };
        tick_actions(velocity, starts[0]) + ticks_actions(after, starts.drop_first())
    }
}

/// Whether a state can be reached: outside the running phase nothing is
/// pending.
pub open spec fn reachable(s: ActuatorState) -> bool {
    s.phase != Phase::Running ==> s.pending.len() == 0
}

/// The motion of the last move among `commands`, if there is a move.
pub open spec fn last_move(commands: Seq<CommandView>) -> Option<(i32, i32)>
    decreases commands.len(),
{
    if commands.len() == 0 {
        None
    } else {
        match last_move(commands.drop_first()) {
            Some(motion) => Some(motion),
            None => match commands[0] {
                CommandView::Move { dx, dy } => Some((dx, dy)),
                _ => None,
            },
        }
    }
}

/// The reports that end the actions of a tick, one for each outcome.
pub open spec fn completions(outcomes: Seq<bool>) -> Seq<EventView> {
    Seq::new(outcomes.len(), |i: int| EventView::Completed { succeeded: outcomes[i] })
}

/// Whether `events` are those of a loop that stays idle: polls that time
/// out, each followed by the report on the one motion it issues.
pub open spec fn idle(events: Seq<EventView>) -> bool {
    &&& events.len() % 2 == 0
    &&& forall|k: int|
        0 <= k < events.len() ==> if k % 2 == 0 {
            #[trigger] events[k] is TimedOut
        } else {
            events[k] is Completed
        }
}

/// One step changes the velocity only when it takes a move, which sets it to
/// the device velocity of that move; and it ends the loop only when a poll
/// finds the channel disconnected.
pub proof fn lemma_step(s: ActuatorState, event: EventView)
    ensures
        polling(s) && event is Received ==> next(s, event).velocity == velocity_after(
            s.velocity,
            event->Received_0,
        ),
        !(polling(s) && event is Received) ==> next(s, event).velocity == s.velocity,
        next(s, event).phase == Phase::Terminated <==> s.phase == Phase::Terminated || (polling(s)
            && event is Disconnected),
        polling(s) && event is Disconnected ==> next(s, event).pending.len() == 0,
{
}

/// An event that does not answer the directive of the state it arrives in
/// changes nothing.
pub proof fn lemma_stray_event_changes_nothing(s: ActuatorState, event: EventView)
    requires
        !answers(directive_of(s), event),
    ensures
        next(s, event) == s,
{
}

/// With a driver that does as it is told no command is lost: the loop takes
/// every command that a poll brings, in the order of arrival.
pub proof fn lemma_no_command_is_lost(s: ActuatorState, events: Seq<EventView>)
    requires
        well_driven(s, events),
    ensures
        taken(s, events) == received(events),
    decreases events.len(),
{
    if events.len() > 0 {
        lemma_no_command_is_lost(next(s, events[0]), events.drop_first());
    }
}

/// Over a whole run, with a driver that does as it is told, the actions
/// attempted on the device are what was pending at the start and then the
/// actions of every tick, in the order of the polls; nothing else reaches the
/// device and nothing is left out. The run is taken up to a moment at which
/// nothing is pending.
pub proof fn lemma_device_trace(s: ActuatorState, events: Seq<EventView>)
    requires
        reachable(s),
        well_driven(s, events),
        run(s, events).pending.len() == 0,
    ensures
        issued(s, events) == s.pending + ticks_actions(s.velocity, polls(events)),
    decreases events.len(),
{
    if events.len() == 0 {
        assert(issued(s, events) =~= s.pending + ticks_actions(s.velocity, polls(events)));
    } else {
        let after = next(s, events[0]);
        let rest = events.drop_first();
        lemma_device_trace(after, rest);
        if issuing(s) {
            assert(seq![s.pending[0]] + after.pending =~= s.pending);
            assert(issued(s, events) =~= s.pending + ticks_actions(s.velocity, polls(events)));
        } else if events[0] is Received || events[0] is TimedOut {
            let starts = polls(events);
            assert(starts.drop_first() =~= polls(rest));
            assert(issued(s, events) =~= s.pending + ticks_actions(s.velocity, starts));
        } else {
            assert(issued(s, events) =~= s.pending + ticks_actions(s.velocity, polls(events)));
        }
    }
}

/// Whether an action succeeded makes no difference to what follows.
pub proof fn lemma_outcome_is_ignored(s: ActuatorState, one: bool, other: bool)
    ensures
        next(s, EventView::Completed { succeeded: one }) == next(
            s,
            EventView::Completed { succeeded: other },
        ),
{
}

/// After any run of events the velocity is the device velocity of the last
/// move taken, and the velocity from before the run where no move was taken.
pub proof fn lemma_velocity_is_last_move(s: ActuatorState, events: Seq<EventView>)
    ensures
        run(s, events).velocity == match last_move(taken(s, events)) {
            Some(motion) => device_velocity(motion.0, motion.1),
            None => s.velocity,
        },
    decreases events.len(),
{
    if events.len() > 0 {
        let after = next(s, events[0]);
        let rest = events.drop_first();
        lemma_velocity_is_last_move(after, rest);
        lemma_step(s, events[0]);
        if polling(s) && events[0] is Received {
            let all = taken(s, events);
            assert(all.drop_first() =~= taken(after, rest));
        }
    }
}

/// Once the actions of a tick are pending, they are issued one after the
/// other in their order, whatever the outcome of each, and then the loop
/// polls again.
pub proof fn lemma_pending_are_issued(s: ActuatorState, outcomes: Seq<bool>)
    requires
        s.phase == Phase::Running,
        outcomes.len() == s.pending.len(),
    ensures
        run(s, completions(outcomes)) == (ActuatorState { pending: Seq::empty(), ..s }),
        issued(s, completions(outcomes)) == s.pending,
    decreases outcomes.len(),
{
    let events = completions(outcomes);
    if outcomes.len() == 0 {
        assert(s.pending =~= Seq::<DeviceAction>::empty());
    } else {
        let after = next(s, events[0]);
        assert(events.drop_first() =~= completions(outcomes.drop_first()));
        lemma_pending_are_issued(after, outcomes.drop_first());
        assert(seq![s.pending[0]] + s.pending.drop_first() =~= s.pending);
    }
}

/// A tick runs to its end: after a poll that brings a command or times out,
/// and one report for each action of the tick, the actions attempted are
/// exactly those of the tick, in their order, the last of them the pointer
/// motion by the velocity of that moment, and the loop polls again. This
/// holds whatever the outcome of each action.
pub proof fn lemma_tick(s: ActuatorState, poll: EventView, outcomes: Seq<bool>)
    requires
        polling(s),
        poll is Received || poll is TimedOut,
        outcomes.len() == tick_actions(s.velocity, poll).len(),
    ensures
        issued(s, seq![poll] + completions(outcomes)) == tick_actions(s.velocity, poll),
        tick_actions(s.velocity, poll).last() == move_by(next(s, poll).velocity),
        run(s, seq![poll] + completions(outcomes)) == (ActuatorState {
            phase: Phase::Running,
            velocity: next(s, poll).velocity,
            pending: Seq::empty(),
        }),
        polling(run(s, seq![poll] + completions(outcomes))),
{
    let events = seq![poll] + completions(outcomes);
    assert(events[0] == poll);
    assert(events.drop_first() =~= completions(outcomes));
    lemma_pending_are_issued(next(s, poll), outcomes);
}

/// While no command comes, every tick issues one pointer motion by the same
/// velocity, and leaves the loop as it was.
pub proof fn lemma_idle_ticks(s: ActuatorState, events: Seq<EventView>)
    requires
        polling(s),
        idle(events),
    ensures
        run(s, events) == s,
        issued(s, events) == Seq::new((events.len() / 2) as nat, |i: int| move_by(s.velocity)),
        directive_of(s) == (Directive::Poll { timeout_millis: POLL_TIMEOUT_MILLIS }),
    decreases events.len(),
{
    let moves = Seq::new((events.len() / 2) as nat, |i: int| move_by(s.velocity));
    if events.len() == 0 {
        assert(issued(s, events) =~= moves);
    } else {
        let first = next(s, events[0]);
        let tail = events.drop_first();
        let second = next(first, tail[0]);
        let rest = tail.drop_first();
        assert(events[0] is TimedOut && events[1] is Completed);
        assert(second =~= s);
        assert forall|k: int| 0 <= k < rest.len() implies if k % 2 == 0 {
            #[trigger] rest[k] is TimedOut
        } else {
            rest[k] is Completed
        } by {
            assert(rest[k] == events[k + 2]);
        }
        lemma_idle_ticks(s, rest);
        assert(run(first, tail) == run(second, rest));
        assert(issued(first, tail) == seq![move_by(s.velocity)] + issued(s, rest));
        assert(seq![move_by(s.velocity)] + issued(s, rest) =~= moves);
    }
}

/// A loop that has ended stays ended, and nothing more is attempted on the
/// device.
pub proof fn lemma_terminated_is_final(s: ActuatorState, events: Seq<EventView>)
    requires
        s.phase == Phase::Terminated,
    ensures
        run(s, events) == s,
        issued(s, events) == Seq::<DeviceAction>::empty(),
        directive_of(s) == Directive::Exit,
    decreases events.len(),
{
    if events.len() > 0 {
        lemma_terminated_is_final(s, events.drop_first());
    }
}

/// The tick of a fullscreen command: meta is pressed, `F` is clicked, meta
/// is released, the pointer is moved; in that order and whatever the outcome
/// of each.
pub proof fn lemma_fullscreen_tick(s: ActuatorState, outcomes: Seq<bool>)
    requires
        polling(s),
        outcomes.len() == 4,
    ensures
        issued(s, seq![EventView::Received(CommandView::Fullscreen)] + completions(outcomes))
            == fullscreen_actions().push(move_by(s.velocity)),
        polling(run(s, seq![EventView::Received(CommandView::Fullscreen)] + completions(outcomes))),
{
    lemma_tick(s, EventView::Received(CommandView::Fullscreen), outcomes);
}

/// The tick of a key that needs shift: shift is pressed, the key is clicked,
/// shift is released, the pointer is moved; in that order and whatever the
/// outcome of each, so that shift is never left down.
pub proof fn lemma_shifted_key_tick(
    s: ActuatorState,
    label: Seq<char>,
    stroke: KeyStroke,
    outcomes: Seq<bool>,
)
    requires
        polling(s),
        key_for(label) == Some(stroke),
        stroke.shift,
        outcomes.len() == 4,
    ensures
        issued(
            s,
            seq![EventView::Received(CommandView::KeyPress { label })] + completions(outcomes),
        ) == seq![
            DeviceAction::Press(KEY_LEFTSHIFT),
            DeviceAction::Click(stroke.code),
            DeviceAction::Release(KEY_LEFTSHIFT),
            move_by(s.velocity),
        ],
        polling(
            run(
                s,
                seq![EventView::Received(CommandView::KeyPress { label })] + completions(
                    outcomes,
                ),
            ),
        ),
{
    let poll = EventView::Received(CommandView::KeyPress { label });
    lemma_tick(s, poll, outcomes);
    assert(tick_actions(s.velocity, poll) =~= seq![
        DeviceAction::Press(KEY_LEFTSHIFT),
        DeviceAction::Click(stroke.code),
        DeviceAction::Release(KEY_LEFTSHIFT),
        move_by(s.velocity),
    ]);
}

/// The actuation loop.
pub struct Actuator {
    phase: Phase,
    velocity: Velocity,
    pending: Vec<DeviceAction>,
}

impl View for Actuator {
    type V = ActuatorState;

    closed spec fn view(&self) -> ActuatorState {
        ActuatorState { phase: self.phase, velocity: self.velocity, pending: self.pending@ }
    }
}

impl Actuator {
    /// A loop in its warm-up, with the pointer at rest.
    pub fn new() -> (actuator: Actuator)
        ensures
            actuator@ == initial(),
    {
        Actuator { phase: Phase::Warmup, velocity: Velocity::rest(), pending: Vec::new() }
    }

    pub fn phase(&self) -> (phase: Phase)
        ensures
            phase == self@.phase,
    {
        self.phase
    }

    pub fn velocity(&self) -> (velocity: Velocity)
        ensures
            velocity == self@.velocity,
    {
        self.velocity
    }

    /// What the driver is to do now.
    pub fn directive(&self) -> (directive: Directive)
        ensures
            directive == directive_of(self@),
    {
        match self.phase {
            Phase::Warmup => Directive::Sleep { millis: WARMUP_MILLIS },
            Phase::Running => if self.pending.len() > 0 {
                Directive::Issue(self.pending[0])
            } else {
                Directive::Poll { timeout_millis: POLL_TIMEOUT_MILLIS }
            },
            Phase::Terminated => Directive::Exit,
        }
    }

    /// Takes the driver's report and says what the driver is to do next.
    pub fn advance(&mut self, event: Event) -> (directive: Directive)
        ensures
            final(self)@ == next(old(self)@, event@),
            directive == directive_of(final(self)@),
    {
        match self.phase {
            Phase::Warmup => {
                if let Event::WarmupElapsed = event {
                    self.phase = Phase::Running;
                }
            },
            Phase::Running => {
                if self.pending.len() > 0 {
                    if let Event::Completed { .. } = event {
                        self.pending.remove(0);
                        assert(self.pending@ =~= old(self).pending@.drop_first());
                    }
                } else {
                    match event {
                        Event::Received(command) => {
                            if let Command::Move { dx, dy } = command {
                                self.velocity = Velocity::from_motion(dx, dy);
                            }
                            let mut actions = command_actions(&command);
                            actions.push(
                                DeviceAction::MoveRelative {
                                    dx: self.velocity.x,
                                    dy: self.velocity.y,
                                },
                            );
                            self.pending = actions;
                        },
                        Event::TimedOut => {
                            self.pending.push(
                                DeviceAction::MoveRelative {
                                    dx: self.velocity.x,
                                    dy: self.velocity.y,
                                },
                            );
                            assert(self.pending@ =~= seq![move_by(self.velocity)]);
                        },
                        Event::Disconnected => {
                            self.phase = Phase::Terminated;
                        },
                        _ => {},
                    }
                }
            },
            Phase::Terminated => {},
        }
        self.directive()
    }
}

} // verus!
