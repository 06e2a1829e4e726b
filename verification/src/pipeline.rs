//! The refresh pipeline of one tracked key, as a state machine.
//!
//! The caller does the outside work: it logs in, asks the provider for a
//! day, publishes a snapshot and sleeps. After each piece of work it hands
//! the outcome to `Pipeline::step` as an event and gets the next piece of
//! work back as an action. Before every `FetchDay` it takes one permit from
//! the rate limiter that all pipelines share. The entries of a day are
//! turned into occurrences and tasks when the day's answer comes in, and the
//! days are merged when the last answer has come.

use crate::alias::AliasMap;
use crate::cycle::{day_fits, fetch_for_day, merge_days, window_blocks, window_tasks, window_teachers};
use crate::definitions::Root;
use crate::snapshot::Snapshot;
use crate::stamps::EPOCH_EVE;
use crate::window::{
    current_window, day_views, window_of, LAST_DAY, NEGATIVE_OFFSET, POSITIVE_OFFSET,
};
use vstd::prelude::*;

verus! {

/// The seconds that a pipeline sleeps between two cycles, and before it
/// tries again after a failure.
pub const CYCLE_DELAY: u64 = 300;

/// Where a pipeline stands.
#[derive(Debug, Clone, Copy, PartialEq, Eq, Structural)]
pub enum Phase {
    /// Not started yet.
    Idle,
    /// Waiting for the outcome of a login.
    Authenticating,
    /// Waiting for the answer to a day query.
    Fetching,
    /// Waiting for the snapshot of the cycle to be published.
    Publishing,
    /// Waiting for the delay to pass.
    Sleeping,
    /// Given up for good: a whole cycle found no occurrence.
    Stopped,
}

/// The outcome of a piece of outside work.
#[derive(Debug)]
pub enum Event {
    /// The pipeline was started.
    Started,
    /// The login gave a session with these cookies.
    LoggedIn { cookies: String },
    /// The login failed.
    LoginFailed,
    /// The day query was answered; `None` where it failed or could not be
    /// read.
    DayAnswered { payload: Option<Root> },
    /// The cycle cannot go on fetching.
    FetchFailed,
    /// The snapshot was published.
    Published,
    /// The delay has passed.
    Woke,
}

/// The next piece of outside work.
#[derive(Debug)]
pub enum Action {
    /// Log in, trying these cookies of the last session first.
    Login { cookies: String },
    /// Ask the provider for this day.
    FetchDay { day: i32 },
    /// Put this snapshot in place of the one that readers see.
    Publish { snapshot: Snapshot },
    /// Wait for so many seconds, then report `Woke`.
    Sleep { seconds: u64 },
    /// End the pipeline; the snapshot that readers see stays.
    Stop,
    /// The event was not expected here; nothing is to be done.
    Ignore,
}

/// The state of the refresh pipeline of one key.
#[derive(Debug)]
pub struct Pipeline {
    phase: Phase,
    cookies: String,
    days: Vec<i32>,
    gathered: Vec<Snapshot>,
}

/// The days found none of their groups an occurrence.
pub open spec fn finds_nothing(days: Seq<Snapshot>) -> bool {
    forall|k: Seq<char>|
        window_blocks(days).contains_key(k) ==> (#[trigger] window_blocks(days)[k]).len() == 0
}

/// The outcome of a cycle whose days are all answered: the pipeline stops
/// where they found no occurrence, and else hands out their merged snapshot.
pub open spec fn concludes(days: Seq<Snapshot>, after: Pipeline, action: Action) -> bool {
    if finds_nothing(days) {
        after.phase() == Phase::Stopped && action is Stop
    } else {
        &&& after.phase() == Phase::Publishing
        &&& action is Publish
        &&& action->snapshot.blocks() == window_blocks(days)
        &&& action->snapshot.tasks() == window_tasks(days)
        &&& action->snapshot.teachers() == window_teachers(days)
    }
}

/// The pipeline begins to sleep and keeps its cookies.
pub open spec fn sleeps(before: Pipeline, after: Pipeline, action: Action) -> bool {
    &&& after.phase() == Phase::Sleeping
    &&& after.cookies() == before.cookies()
    &&& action == (Action::Sleep { seconds: CYCLE_DELAY })
}

/// The pipeline begins a cycle with a login that may reuse its cookies.
pub open spec fn logs_in(before: Pipeline, after: Pipeline, action: Action) -> bool {
    &&& after.phase() == Phase::Authenticating
    &&& after.cookies() == before.cookies()
    &&& action is Login
    &&& action->Login_cookies@ == before.cookies()
}

/// After a login the pipeline keeps the new cookies and asks for the first
/// of the 70 days of the window of today, a day not before the last day of
/// 1969.
pub open spec fn begins_fetching(cookies: Seq<char>, after: Pipeline, action: Action) -> bool {
    &&& after.cookies() == cookies
    &&& after.gathered().len() == 0
    &&& after.days().len() == NEGATIVE_OFFSET + POSITIVE_OFFSET
    &&& exists|today: int|
        EPOCH_EVE <= today <= LAST_DAY && after.days() == #[trigger] window_of(today)
    &&& after.phase() == Phase::Fetching
    &&& action == (Action::FetchDay { day: after.days()[0] as i32 })
}

/// After the answer to a day query the pipeline holds what the day
/// contributes and asks for the next day, or concludes the cycle after the
/// last one.
pub open spec fn takes_day(
    before: Pipeline,
    payload: Option<Root>,
    aliases: Map<Seq<char>, Seq<char>>,
    after: Pipeline,
    action: Action,
) -> bool {
    &&& after.cookies() == before.cookies()
    &&& exists|day: Snapshot|
        {
            &&& day_fits(payload, aliases, day)
            &&& if before.gathered().len() + 1 < before.days().len() {
                &&& after.phase() == Phase::Fetching
                &&& after.days() == before.days()
                &&& after.gathered() == before.gathered().push(day)
                &&& action == (Action::FetchDay {
                    day: before.days()[before.gathered().len() as int + 1] as i32,
                })
            } else {
                concludes(before.gathered().push(day), after, action)
            }
        }
}

/// What one step does, for each phase and each event that is expected in
/// it. Any other event changes nothing and is answered with `Ignore`.
pub open spec fn steps(
    before: Pipeline,
    event: Event,
    aliases: Map<Seq<char>, Seq<char>>,
    after: Pipeline,
    action: Action,
) -> bool {
    match (before.phase(), event) {
        (Phase::Idle, Event::Started) => logs_in(before, after, action),
        (Phase::Sleeping, Event::Woke) => logs_in(before, after, action),
        (Phase::Authenticating, Event::LoggedIn { cookies }) => begins_fetching(
            cookies@,
            after,
            action,
        ),
        (Phase::Authenticating, Event::LoginFailed) => sleeps(before, after, action),
        (Phase::Fetching, Event::DayAnswered { payload }) => takes_day(
            before,
            payload,
            aliases,
            after,
            action,
        ),
        (Phase::Fetching, Event::FetchFailed) => sleeps(before, after, action),
        (Phase::Publishing, Event::Published) => sleeps(before, after, action),
        _ => {
            &&& after.phase() == before.phase()
            &&& after.cookies() == before.cookies()
            &&& after.days() == before.days()
            &&& after.gathered() == before.gathered()
            &&& action is Ignore
        },
    }
}

impl Pipeline {
    #[verifier::type_invariant]
    spec fn well_formed(self) -> bool {
        self.phase == Phase::Fetching ==> self.gathered@.len() < self.days@.len()
    }

    /// Where the pipeline stands.
    pub closed spec fn phase(&self) -> Phase {
        self.phase
    }

    /// The cookies of the last session, empty before the first login.
    pub closed spec fn cookies(&self) -> Seq<char> {
        self.cookies@
    }

    /// The days of the window of the running cycle.
    pub closed spec fn days(&self) -> Seq<int> {
        day_views(self.days@)
    }

    /// What the days answered so far in the running cycle contribute.
    pub closed spec fn gathered(&self) -> Seq<Snapshot> {
        self.gathered@
    }

    /// A pipeline that was not started yet.
    pub fn new() -> (pipeline: Pipeline)
        ensures
            pipeline.phase() == Phase::Idle,
            pipeline.cookies() == Seq::<char>::empty(),
            pipeline.days() == Seq::<int>::empty(),
            pipeline.gathered() == Seq::<Snapshot>::empty(),
    {
        let pipeline = Pipeline {
            phase: Phase::Idle,
            cookies: String::new(),
            days: Vec::new(),
            gathered: Vec::new(),
        };
        assert(pipeline.days() =~= Seq::<int>::empty());
        pipeline
    }

    /// Where the pipeline stands.
    pub fn current_phase(&self) -> (phase: Phase)
        ensures
            phase == self.phase(),
    {
        self.phase
    }

    /// Takes the outcome of the last piece of outside work and says what
    /// is to be done next.
    pub fn step(self, event: Event, aliases: &AliasMap) -> (next: (Pipeline, Action))
        ensures
            steps(self, event, aliases@, next.0, next.1),
    {
        proof {
            use_type_invariant(&self);
        }
        let ghost before = self;
        let Pipeline { phase, cookies, days, gathered } = self;
        match (phase, event) {
            (Phase::Idle, Event::Started) | (Phase::Sleeping, Event::Woke) => {
                let action = Action::Login { cookies: cookies.clone() };
                (Pipeline { phase: Phase::Authenticating, cookies, days, gathered }, action)
            },
            (Phase::Authenticating, Event::LoggedIn { cookies: fresh }) => {
                let window = current_window();
                let action = Action::FetchDay { day: window[0] };
                let after = Pipeline {
                    phase: Phase::Fetching,
                    cookies: fresh,
                    days: window,
                    gathered: Vec::new(),
                };
                assert(begins_fetching(fresh@, after, action));
                (after, action)
            },
            (Phase::Authenticating, Event::LoginFailed)
            | (Phase::Fetching, Event::FetchFailed)
            | (Phase::Publishing, Event::Published) => {
                let action = Action::Sleep { seconds: CYCLE_DELAY };
                (Pipeline { phase: Phase::Sleeping, cookies, days, gathered }, action)
            },
            (Phase::Fetching, Event::DayAnswered { payload }) => {
                let day = fetch_for_day(&payload, aliases);
                let ghost contributed = day;
                let mut gathered = gathered;
                gathered.push(day);
                if gathered.len() < days.len() {
                    let action = Action::FetchDay { day: days[gathered.len()] };
                    let after = Pipeline { phase: Phase::Fetching, cookies, days, gathered };
                    assert(day_fits(payload, aliases@, contributed) && after.gathered()
                        == before.gathered().push(contributed));
                    (after, action)
                } else {
                    let ghost all = gathered@;
                    let snapshot = merge_days(gathered);
                    if snapshot.is_empty() {
                        let after = Pipeline {
                            phase: Phase::Stopped,
                            cookies,
                            days,
                            gathered: Vec::new(),
                        };
                        assert(day_fits(payload, aliases@, contributed) && concludes(
                            before.gathered().push(contributed),
                            after,
                            Action::Stop,
                        ));
                        (after, Action::Stop)
                    } else {
                        let action = Action::Publish { snapshot };
                        let after = Pipeline {
                            phase: Phase::Publishing,
                            cookies,
                            days,
                            gathered: Vec::new(),
                        };
                        assert(day_fits(payload, aliases@, contributed) && concludes(
                            before.gathered().push(contributed),
                            after,
                            action,
                        ));
                        (after, action)
                    }
                }
            },
            (phase, _) => (Pipeline { phase, cookies, days, gathered }, Action::Ignore),
        }
    }
}

} // verus!
