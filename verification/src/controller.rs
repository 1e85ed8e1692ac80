use vstd::prelude::*;

use crate::errors::{AuthError, FetchError, WriteError};
use crate::model::{Device, Token};

verus! {

/// Where the controller stands within one poll cycle.
#[derive(Debug, Clone, Copy, PartialEq, Eq, Structural)]
pub enum Phase {
    Sleeping,
    Refreshing,
    Fetching,
    Writing,
}

/// What the surrounding loop reports back to the controller: the fixed
/// sleep has passed, or one of the outside calls has finished.
pub enum Event {
    Slept { seconds: u64 },
    Refreshed { outcome: Result<Token, AuthError> },
    Fetched { outcome: Result<Vec<Device>, FetchError> },
    Written { outcome: Result<(), WriteError> },
}

/// What the controller asks the surrounding loop to do next.
#[derive(Debug, Clone, Copy, PartialEq, Eq, Structural)]
pub enum Action {
    Sleep,
    Acquire,
    Fetch,
    Write,
}

/// The poll loop's state: the current token, the device list of the most
/// recent successful fetch, the seconds elapsed since the token was last
/// renewed, and the phase within the cycle.
pub struct Controller {
    pub token: Token,
    pub devices: Vec<Device>,
    pub elapsed_since_renewal: u64,
    pub phase: Phase,
}

/// Which report is in order in which phase.
pub open spec fn event_fits(phase: Phase, e: Event) -> bool {
    match e {
        Event::Slept { .. } => phase == Phase::Sleeping,
        Event::Refreshed { .. } => phase == Phase::Refreshing,
        Event::Fetched { .. } => phase == Phase::Fetching,
        Event::Written { .. } => phase == Phase::Writing,
    }
}

pub open spec fn sat_add(a: u64, b: u64) -> u64 {
    if a + b > u64::MAX {
        u64::MAX
    } else {
        (a + b) as u64
    }
}

/// The controller's transition relation, one cycle being
/// sleep, (acquire when the token has expired), fetch, write:
/// - after the sleep, acquire exactly when the elapsed time has reached the
///   token's advertised lifetime, else go straight to the fetch;
/// - a renewed token replaces the old one and resets the renewal clock; a
///   failed renewal keeps the stale token and the clock, and the fetch is
///   attempted regardless;
/// - a fetched device list replaces the old one wholesale and is then
///   written; a failed fetch changes nothing and skips straight to the next
///   sleep;
/// - after the write, successful or not, the cycle starts over.
pub open spec fn spec_step(s: Controller, e: Event) -> (Controller, Action) {
    match e {
        Event::Slept { seconds } => {
            let elapsed = sat_add(s.elapsed_since_renewal, seconds);
            if elapsed >= s.token.expires_in {
                (
                    Controller {
                        elapsed_since_renewal: elapsed,
                        phase: Phase::Refreshing,
                        ..s
                    },
                    Action::Acquire,
                )
            } else {
                (
                    Controller { elapsed_since_renewal: elapsed, phase: Phase::Fetching, ..s },
                    Action::Fetch,
                )
            }
        },
        Event::Refreshed { outcome } => match outcome {
            Ok(t) => (
                Controller {
                    token: t,
                    elapsed_since_renewal: 0,
                    phase: Phase::Fetching,
                    ..s
                },
                Action::Fetch,
            ),
            Err(_) => (Controller { phase: Phase::Fetching, ..s }, Action::Fetch),
        },
        Event::Fetched { outcome } => match outcome {
            Ok(ds) => (Controller { devices: ds, phase: Phase::Writing, ..s }, Action::Write),
            Err(_) => (Controller { phase: Phase::Sleeping, ..s }, Action::Sleep),
        },
        Event::Written { .. } => (Controller { phase: Phase::Sleeping, ..s }, Action::Sleep),
    }
}

impl Controller {
    /// A controller about to begin its first cycle. It starts with the
    /// given token; started with `Token::initial()` it must acquire a real
    /// token in the first cycle.
    pub fn new(token: Token) -> (c: Controller)
        ensures
            c.token == token,
            c.devices@ == Seq::<Device>::empty(),
            c.elapsed_since_renewal == 0,
            c.phase == Phase::Sleeping,
    {
        let c = Controller {
            token,
            devices: Vec::new(),
            elapsed_since_renewal: 0,
            phase: Phase::Sleeping,
        };
        proof {
            assert(c.devices@ =~= Seq::<Device>::empty());
        }
        c
    }

    /// Feeds one report into the controller and yields the next action.
    pub fn step(&mut self, event: Event) -> (a: Action)
        requires
            event_fits(old(self).phase, event),
        ensures
            *final(self) == spec_step(*old(self), event).0,
            a == spec_step(*old(self), event).1,
    {
        match event {
            Event::Slept { seconds } => {
                let elapsed = match self.elapsed_since_renewal.checked_add(seconds) {
                    Some(v) => v,
                    None => u64::MAX,
                };
                self.elapsed_since_renewal = elapsed;
                if elapsed >= self.token.expires_in {
                    self.phase = Phase::Refreshing;
                    Action::Acquire
                } else {
                    self.phase = Phase::Fetching;
                    Action::Fetch
                }
            },
            Event::Refreshed { outcome } => {
                match outcome {
                    Ok(t) => {
                        self.token = t;
                        self.elapsed_since_renewal = 0;
                    },
                    Err(_) => {},
                }
                self.phase = Phase::Fetching;
                Action::Fetch
            },
            Event::Fetched { outcome } => {
                match outcome {
                    Ok(ds) => {
                        self.devices = ds;
                        self.phase = Phase::Writing;
                        Action::Write
                    },
                    Err(_) => {
                        self.phase = Phase::Sleeping;
                        Action::Sleep
                    },
                }
            },
            Event::Written { .. } => {
                self.phase = Phase::Sleeping;
                Action::Sleep
            },
        }
    }
}

/// A token still within its advertised lifetime is never renewed: while the
/// elapsed time since renewal, the sleep included, stays under `expires_in`,
/// the tick that ends the sleep does not ask to acquire, but goes straight
/// to the fetch.
pub proof fn lemma_live_token_skips_acquire(s: Controller, seconds: u64)
    requires
        s.phase == Phase::Sleeping,
        sat_add(s.elapsed_since_renewal, seconds) < s.token.expires_in,
    ensures
        spec_step(s, Event::Slept { seconds }).1 != Action::Acquire,
        spec_step(s, Event::Slept { seconds }).1 == Action::Fetch,
        spec_step(s, Event::Slept { seconds }).0.token == s.token,
{
}

/// An expired token is renewed before anything else: once the elapsed time
/// since renewal has reached `expires_in`, the tick that ends the sleep asks
/// to acquire, and the fetch follows only after the renewal's outcome is in.
pub proof fn lemma_expired_token_acquires_first(s: Controller, seconds: u64)
    requires
        s.phase == Phase::Sleeping,
        sat_add(s.elapsed_since_renewal, seconds) >= s.token.expires_in,
    ensures
        spec_step(s, Event::Slept { seconds }).1 == Action::Acquire,
        spec_step(s, Event::Slept { seconds }).0.phase == Phase::Refreshing,
        forall|outcome: Result<Token, AuthError>|
            spec_step(
                spec_step(s, Event::Slept { seconds }).0,
                Event::Refreshed { outcome },
            ).1 == Action::Fetch,
{
}

/// A failed fetch skips the cycle's write: the controller asks only to
/// sleep, and neither the device list nor the token changes, so nothing new
/// reaches the store and what is persisted stays as it was.
pub proof fn lemma_failed_fetch_skips_write(s: Controller, err: FetchError)
    requires
        s.phase == Phase::Fetching,
    ensures
        spec_step(s, Event::Fetched { outcome: Err(err) }).1 == Action::Sleep,
        spec_step(s, Event::Fetched { outcome: Err(err) }).1 != Action::Write,
        spec_step(s, Event::Fetched { outcome: Err(err) }).0.devices == s.devices,
        spec_step(s, Event::Fetched { outcome: Err(err) }).0.token == s.token,
{
}

} // verus!
