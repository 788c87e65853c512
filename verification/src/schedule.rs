//! The cron scheduler: at most one recurring timer, replaced or stopped on
//! request.

use crate::config::{ConfigError, ConfigErrorView};
use crate::text::{char_is_space, chars_of, is_space};
use vstd::prelude::*;
use vstd::string::StringExecFns;

verus! {

/// Whether a field starts at position `i` of `s`: a character that is not
/// white space, at the start or right after white space.
pub open spec fn starts_field(s: Seq<char>, i: int) -> bool {
    &&& 0 <= i < s.len()
    &&& !is_space(s[i])
    &&& (i == 0 || is_space(s[i - 1]))
}

/// The number of fields of `s`, that is of maximal runs of characters that
/// are not white space.
pub open spec fn field_count(s: Seq<char>) -> nat
    decreases s.len(),
{
    if s.len() == 0 {
        0
    } else {
        field_count(s.drop_last()) + if starts_field(s, s.len() - 1) {
            1nat
        } else {
            0nat
        }
    }
}

/// A cron expression with a seconds field: an expression of exactly five
/// fields gets `"0 "` in front, any other is left as it is.
pub open spec fn normalized(expr: Seq<char>) -> Seq<char> {
    if field_count(expr) == 5 {
        seq!['0', ' '] + expr
    } else {
        expr
    }
}

/// Counts the fields of an expression.
pub fn count_fields(expr: &str) -> (n: usize)
    ensures
        n == field_count(expr@),
{
    let cs = chars_of(expr);
    let mut n: usize = 0;
    let mut after_space = true;
    let mut i: usize = 0;
    while i < cs.len()
        invariant
            i <= cs.len(),
            n <= i,
            n == field_count(cs@.take(i as int)),
            after_space == (i == 0 || is_space(cs@[i - 1])),
        decreases cs.len() - i,
    {
        let space = char_is_space(cs[i]);
        proof {
            let next = cs@.take(i as int + 1);
            assert(next.drop_last() =~= cs@.take(i as int));
            assert(starts_field(next, i as int) == (!space && after_space));
        }
        if !space && after_space {
            n += 1;
        }
        after_space = space;
        i += 1;
    }
    proof {
        assert(cs@.take(cs@.len() as int) =~= cs@);
    }
    n
}

/// Gives a five-field cron expression the seconds field that the scheduler
/// expects; see [`normalized`].
pub fn normalize_cron(expr: &str) -> (r: String)
    ensures
        r@ == normalized(expr@),
{
    if count_fields(expr) == 5 {
        proof {
            reveal_strlit("0 ");
            assert("0 "@ =~= seq!['0', ' ']);
        }
        String::from_str("0 ").concat(expr)
    } else {
        String::from_str(expr)
    }
}

/// `cron::Schedule`, a schedule as `cron` has read it. The library hands it
/// on to whoever runs the timer and asks it for the next fire time.
#[verifier::external_type_specification]
#[verifier::external_body]
pub struct ExSchedule(cron::Schedule);

/// What `cron` has to say against an expression: `None` where it reads the
/// expression as a schedule, else the text of its error.
pub uninterp spec fn cron_complaint(expr: Seq<char>) -> Option<Seq<char>>;

/// The expression that a schedule was read from: what `Schedule::source`
/// gives.
pub uninterp spec fn schedule_source(schedule: cron::Schedule) -> Seq<char>;

/// Calls `Schedule::from_str` of `cron`. Whether the expression is read is
/// a function of the expression alone. A schedule that was read keeps the
/// expression as its source; for one that was not, the error is handed
/// back as the text that it displays.
#[verifier::external_body]
fn read_schedule(expr: &str) -> (r: Result<cron::Schedule, String>)
    ensures
        match r {
            Ok(schedule) => cron_complaint(expr@) is None && schedule_source(schedule) == expr@,
            Err(why) => cron_complaint(expr@) == Some(why@),
        },
{
    <cron::Schedule as std::str::FromStr>::from_str(expr).map_err(|e| e.to_string())
}

/// Calls `Schedule::upcoming` of `cron` with the local time zone and takes
/// the first time it gives, in milliseconds since the epoch. The result
/// depends on the time of the call and on the time zone of the machine, so
/// nothing is said of it.
#[verifier::external_body]
fn upcoming_fire(schedule: &cron::Schedule) -> Option<i64> {
    schedule.upcoming(chrono::Local).next().map(|t| t.timestamp_millis())
}

/// Calls `chrono::Local::now`: the time of the call, in milliseconds since
/// the epoch.
#[verifier::external_body]
fn now_millis() -> i64 {
    chrono::Local::now().timestamp_millis()
}

/// What the timer does next.
#[derive(Debug, Clone, Copy, PartialEq, Eq, Structural)]
pub enum TimerStep {
    /// Sleep for so many milliseconds, then run a dispatch cycle.
    Wait(u64),
    /// The schedule has no further fire time: the timer ends.
    End,
}

/// How long to sleep until a fire time: the time that is left, nothing
/// where the fire time has passed.
pub open spec fn time_left(fire: int, now: int) -> int {
    if fire > now {
        fire - now
    } else {
        0
    }
}

/// What the timer does, given the next fire time of the schedule and the
/// present time, both in milliseconds since the epoch.
pub open spec fn timer_plan(fire: Option<i64>, now: i64) -> TimerStep {
    match fire {
        Some(at) => TimerStep::Wait(time_left(at as int, now as int) as u64),
        None => TimerStep::End,
    }
}

/// Decides what the timer does next; see [`timer_plan`].
pub fn timer_step(fire: Option<i64>, now: i64) -> (step: TimerStep)
    ensures
        step == timer_plan(fire, now),
{
    match fire {
        Some(at) => {
            if at > now {
                let left: i128 = at as i128 - now as i128;
                TimerStep::Wait(left as u64)
            } else {
                TimerStep::Wait(0)
            }
        },
        None => TimerStep::End,
    }
}

/// Asks the schedule for its next fire time and the clock for the present
/// time, and decides what the timer does next: a step of [`timer_plan`]
/// for the fire time and the time that were found.
pub fn timer_step_now(schedule: &cron::Schedule) -> (step: TimerStep)
    ensures
        exists|fire: Option<i64>, now: i64| step == #[trigger] timer_plan(fire, now),
{
    let fire = upcoming_fire(schedule);
    let now = now_millis();
    let step = timer_step(fire, now);
    proof {
        assert(step == timer_plan(fire, now));
    }
    step
}

/// What whoever runs the timers is told to do.
#[derive(Debug)]
pub enum TimerCommand {
    /// Cancel the timer with this number.
    Cancel(u64),
    /// Start a timer under this number, on this schedule.
    Spawn(u64, cron::Schedule),
}

/// The model of a [`TimerCommand`]. A schedule stands by its source.
pub enum TimerCommandView {
    Cancel(nat),
    Spawn(nat, Seq<char>),
}

impl View for TimerCommand {
    type V = TimerCommandView;

    open spec fn view(&self) -> TimerCommandView {
        match self {
            TimerCommand::Cancel(timer) => TimerCommandView::Cancel(*timer as nat),
            TimerCommand::Spawn(timer, schedule) => TimerCommandView::Spawn(
                *timer as nat,
                schedule_source(*schedule),
            ),
        }
    }
}

/// The models of a list of commands.
pub open spec fn command_views(commands: Seq<TimerCommand>) -> Seq<TimerCommandView> {
    commands.map_values(|c: TimerCommand| c@)
}

/// The model of a [`Scheduler`].
pub struct SchedulerView {
    /// The number of the timer that runs, if one does.
    pub active: Option<nat>,
    /// The number that the next timer gets.
    pub issued: nat,
}

impl SchedulerView {
    /// What holds of every scheduler: the number to issue next is not the
    /// number of the timer that runs.
    pub open spec fn valid(self) -> bool {
        self.active != Some(self.issued)
    }
}

/// The number after `timer`; after the last number comes the first.
pub open spec fn number_after(timer: nat) -> nat {
    if timer >= u64::MAX {
        0
    } else {
        timer + 1
    }
}

/// The commands that stop the timer that runs: one `Cancel`, or none where
/// no timer runs.
pub open spec fn cancel_commands(s: SchedulerView) -> Seq<TimerCommandView> {
    match s.active {
        Some(timer) => seq![TimerCommandView::Cancel(timer)],
        None => Seq::empty(),
    }
}

/// The scheduler after a stop: no timer runs.
pub open spec fn stopped(s: SchedulerView) -> SchedulerView {
    SchedulerView { active: None, ..s }
}

/// The scheduler after a start: the timer with the number issued runs.
pub open spec fn started(s: SchedulerView) -> SchedulerView {
    SchedulerView { active: Some(s.issued), issued: number_after(s.issued) }
}

/// The commands of a start on the schedule read from `source`: the timer
/// that runs is cancelled first, then the new one is started.
pub open spec fn start_commands(s: SchedulerView, source: Seq<char>) -> Seq<TimerCommandView> {
    cancel_commands(s).push(TimerCommandView::Spawn(s.issued, source))
}

/// The scheduler after a timer has ended by itself: if it was the one that
/// runs, no timer runs.
pub open spec fn retired(s: SchedulerView, timer: nat) -> SchedulerView {
    if s.active == Some(timer) {
        SchedulerView { active: None, ..s }
    } else {
        s
    }
}

/// The cron scheduler: which timer runs, if any. It is idle or it runs one
/// timer.
#[derive(Debug)]
pub struct Scheduler {
    active: Option<u64>,
    issued: u64,
}

impl View for Scheduler {
    type V = SchedulerView;

    closed spec fn view(&self) -> SchedulerView {
        SchedulerView {
            active: match self.active {
                Some(timer) => Some(timer as nat),
                None => None,
            },
            issued: self.issued as nat,
        }
    }
}

impl Scheduler {
    /// The number to issue next is not the number of the timer that runs.
    #[verifier::type_invariant]
    spec fn fresh_number(self) -> bool {
        self.active != Some(self.issued)
    }

    /// An idle scheduler.
    pub fn new() -> (s: Scheduler)
        ensures
            s@ == (SchedulerView { active: None, issued: 0 }),
            s@.valid(),
    {
        Scheduler { active: None, issued: 0 }
    }

    /// The number of the timer that runs, if one does.
    pub fn active(&self) -> (r: Option<u64>)
        ensures
            match r {
                Some(timer) => self@.active == Some(timer as nat),
                None => self@.active is None,
            },
    {
        self.active
    }

    /// Starts a schedule.
    ///
    /// The expression is normalized and read. Where `cron` refuses it,
    /// nothing changes and the error says why. Else the commands are those
    /// of [`start_commands`]: the timer that runs, if any, is cancelled
    /// before the new one is started.
    pub fn start(&mut self, cron: &str) -> (r: Result<Vec<TimerCommand>, ConfigError>)
        ensures
            old(self)@.valid(),
            final(self)@.valid(),
            match r {
                Ok(commands) => {
                    &&& cron_complaint(normalized(cron@)) is None
                    &&& command_views(commands@) == start_commands(
                        old(self)@,
                        normalized(cron@),
                    )
                    &&& final(self)@ == started(old(self)@)
                },
                Err(e) => {
                    &&& e@ matches ConfigErrorView::BadSchedule(why)
                    &&& cron_complaint(normalized(cron@)) == Some(why)
                    &&& final(self)@ == old(self)@
                },
            },
    {
        proof {
            use_type_invariant(&*self);
        }
        let expr = normalize_cron(cron);
        match read_schedule(expr.as_str()) {
            Err(why) => Err(ConfigError::BadSchedule(why)),
            Ok(schedule) => {
                let mut commands: Vec<TimerCommand> = Vec::new();
                match self.active {
                    Some(timer) => commands.push(TimerCommand::Cancel(timer)),
                    None => {},
                }
                let timer = self.issued;
                let after = if timer == u64::MAX {
                    0
                } else {
                    timer + 1
                };
                commands.push(TimerCommand::Spawn(timer, schedule));
                proof {
                    assert(command_views(commands@) =~= start_commands(
                        old(self)@,
                        normalized(cron@),
                    ));
                }
                *self = Scheduler { active: Some(timer), issued: after };
                Ok(commands)
            },
        }
    }

    /// Stops the timer that runs, if one does; see [`cancel_commands`].
    pub fn stop(&mut self) -> (commands: Vec<TimerCommand>)
        ensures
            final(self)@.valid(),
            command_views(commands@) == cancel_commands(old(self)@),
            final(self)@ == stopped(old(self)@),
    {
        let mut commands: Vec<TimerCommand> = Vec::new();
        match self.active {
            Some(timer) => commands.push(TimerCommand::Cancel(timer)),
            None => {},
        }
        proof {
            assert(command_views(commands@) =~= cancel_commands(old(self)@));
        }
        *self = Scheduler { active: None, issued: self.issued };
        commands
    }

    /// Takes note that a timer has ended by itself; see [`retired`].
    pub fn retire(&mut self, timer: u64)
        ensures
            final(self)@.valid(),
            final(self)@ == retired(old(self)@, timer as nat),
    {
        proof {
            use_type_invariant(&*self);
        }
        let ended = match self.active {
            Some(running) => running == timer,
            None => false,
        };
        if ended {
            *self = Scheduler { active: None, issued: self.issued };
        }
    }
}

/// The timers that run once a command is carried out.
pub open spec fn after_command(live: Set<nat>, command: TimerCommandView) -> Set<nat> {
    match command {
        TimerCommandView::Cancel(timer) => live.remove(timer),
        TimerCommandView::Spawn(timer, _) => live.insert(timer),
    }
}

/// The timers that run once the commands are carried out, in their order.
pub open spec fn after_commands(live: Set<nat>, commands: Seq<TimerCommandView>) -> Set<nat>
    decreases commands.len(),
{
    if commands.len() == 0 {
        live
    } else {
        after_commands(after_command(live, commands[0]), commands.drop_first())
    }
}

/// At most one timer runs.
pub open spec fn at_most_one(live: Set<nat>) -> bool {
    forall|a: nat, b: nat| live.contains(a) && live.contains(b) ==> a == b
}

/// Whether at most one timer runs after each of the commands, as they are
/// carried out in their order.
pub open spec fn never_two(live: Set<nat>, commands: Seq<TimerCommandView>) -> bool
    decreases commands.len(),
{
    if commands.len() == 0 {
        true
    } else {
        at_most_one(after_command(live, commands[0])) && never_two(
            after_command(live, commands[0]),
            commands.drop_first(),
        )
    }
}

/// What can happen to a scheduler.
pub enum SchedulerEvent {
    /// A start is asked for, with this expression.
    Start(Seq<char>),
    /// A stop is asked for.
    Stop,
    /// The timer with this number has ended by itself, and the scheduler is
    /// told so.
    Ended(nat),
}

/// The scheduler after an event, and the commands that it gives.
pub open spec fn served(s: SchedulerView, event: SchedulerEvent) -> (
    SchedulerView,
    Seq<TimerCommandView>,
) {
    match event {
        SchedulerEvent::Start(expr) => if cron_complaint(normalized(expr)) is None {
            (started(s), start_commands(s, normalized(expr)))
        } else {
            (s, Seq::empty())
        },
        SchedulerEvent::Stop => (stopped(s), cancel_commands(s)),
        SchedulerEvent::Ended(timer) => (retired(s, timer), Seq::empty()),
    }
}

/// Whether at most one timer runs at every moment while the events happen
/// one after the other and the scheduler's commands are carried out as
/// they are given. `live` holds the timers that run at the outset.
pub open spec fn one_timer_throughout(
    s: SchedulerView,
    live: Set<nat>,
    events: Seq<SchedulerEvent>,
) -> bool
    decreases events.len(),
{
    if events.len() == 0 {
        at_most_one(live)
    } else {
        let (after, commands) = served(s, events[0]);
        let left = match events[0] {
            SchedulerEvent::Ended(timer) => live.remove(timer),
            _ => live,
        };
        at_most_one(live) && never_two(left, commands) && one_timer_throughout(
            after,
            after_commands(left, commands),
            events.drop_first(),
        )
    }
}

/// The timer that the scheduler takes to run, as a set.
pub open spec fn running(s: SchedulerView) -> Set<nat> {
    match s.active {
        Some(timer) => set![timer],
        None => Set::empty(),
    }
}

/// One event keeps the timers in hand: where no timer runs that the
/// scheduler does not know of, its commands never leave two timers
/// running, and afterwards again no timer runs that it does not know of.
/// On a start the timer that runs is cancelled before the new one is
/// started.
pub proof fn lemma_served(s: SchedulerView, live: Set<nat>, event: SchedulerEvent)
    requires
        s.valid(),
        live.subset_of(running(s)),
    ensures
        served(s, event).0.valid(),
        never_two(
            match event {
                SchedulerEvent::Ended(timer) => live.remove(timer),
                _ => live,
            },
            served(s, event).1,
        ),
        after_commands(
            match event {
                SchedulerEvent::Ended(timer) => live.remove(timer),
                _ => live,
            },
            served(s, event).1,
        ).subset_of(running(served(s, event).0)),
        at_most_one(live),
{
    reveal_with_fuel(never_two, 3);
    reveal_with_fuel(after_commands, 3);
    let (after, commands) = served(s, event);
    match event {
        SchedulerEvent::Start(expr) => {
            if cron_complaint(normalized(expr)) is None {
                let spawn = TimerCommandView::Spawn(s.issued, normalized(expr));
                match s.active {
                    Some(timer) => {
                        assert(commands =~= seq![TimerCommandView::Cancel(timer), spawn]);
                        assert(commands.drop_first() =~= seq![spawn]);
                        assert(commands.drop_first().drop_first() =~= Seq::empty());
                        assert(live.remove(timer) =~= Set::empty());
                    },
                    None => {
                        assert(commands =~= seq![spawn]);
                        assert(commands.drop_first() =~= Seq::empty());
                        assert(live =~= Set::empty());
                    },
                }
            }
        },
        SchedulerEvent::Stop => {
            match s.active {
                Some(timer) => {
                    assert(commands =~= seq![TimerCommandView::Cancel(timer)]);
                    assert(commands.drop_first() =~= Seq::empty());
                },
                None => {},
            }
        },
        SchedulerEvent::Ended(timer) => {},
    }
}

/// At most one timer at any instant.
///
/// Whatever starts and stops are asked for, and whichever timers end by
/// themselves in between, at no moment do two timers run: not between two
/// events, and not between two commands of one event. A start cancels the
/// timer that runs before it starts the new one.
pub proof fn law_at_most_one_timer(s: SchedulerView, live: Set<nat>, events: Seq<SchedulerEvent>)
    requires
        s.valid(),
        live.subset_of(running(s)),
    ensures
        one_timer_throughout(s, live, events),
    decreases events.len(),
{
    if events.len() == 0 {
        lemma_served(s, live, SchedulerEvent::Stop);
    } else {
        let (after, commands) = served(s, events[0]);
        let left = match events[0] {
            SchedulerEvent::Ended(timer) => live.remove(timer),
            _ => live,
        };
        lemma_served(s, live, events[0]);
        law_at_most_one_timer(after, after_commands(left, commands), events.drop_first());
    }
}

/// A start, looked at alone: with a timer running, the commands are the
/// cancelling of that timer and then the start of the new one, in this
/// order; with none running, the start alone.
pub proof fn law_cancel_comes_first(s: SchedulerView, source: Seq<char>)
    ensures
        s.active matches Some(timer) ==> start_commands(s, source) == seq![
            TimerCommandView::Cancel(timer),
            TimerCommandView::Spawn(s.issued, source),
        ],
        s.active is None ==> start_commands(s, source) == seq![
            TimerCommandView::Spawn(s.issued, source),
        ],
{
    match s.active {
        Some(timer) => {
            assert(start_commands(s, source) =~= seq![
                TimerCommandView::Cancel(timer),
                TimerCommandView::Spawn(s.issued, source),
            ]);
        },
        None => {
            assert(start_commands(s, source) =~= seq![TimerCommandView::Spawn(s.issued, source)]);
        },
    }
}

} // verus!
