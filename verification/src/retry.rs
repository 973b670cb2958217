//! Retrying with growing delays.

use vstd::prelude::*;
use crate::text::same;

verus! {

/// How often an invitation is accepted before giving up.
pub const JOIN_ATTEMPTS: u32 = 5;

/// How often a connection to the store is tried before giving up.
pub const CONNECT_ATTEMPTS: u32 = 12;

/// The longest delay between two connections, in seconds.
pub const CONNECT_DELAY_MAX: u64 = 10;

/// A schedule of attempts: how many are left, the delay after the next one fails,
/// in seconds, and the longest delay. Each delay is twice the one before, up to
/// the longest.
#[derive(Clone, Copy, Debug, PartialEq, Eq, Structural)]
pub struct Backoff {
    pub left: u32,
    pub delay: u64,
    pub longest: u64,
}

impl Backoff {
    /// At least one attempt is left, the next delay is in bounds, and twice a delay
    /// is still a number of seconds.
    pub open spec fn wf(self) -> bool {
        self.left >= 1 && self.delay <= self.longest <= u64::MAX / 2
    }

    /// The schedule after a failed attempt, if there is one more.
    pub open spec fn next(self) -> Option<Backoff> {
        if self.left <= 1 {
            None
        } else {
            Some(
                Backoff {
                    left: (self.left - 1) as u32,
                    delay: if 2 * self.delay <= self.longest {
                        (2 * self.delay) as u64
                    } else {
                        self.longest
                    },
                    longest: self.longest,
                },
            )
        }
    }

    /// The delays after each attempt if all fail.
    pub open spec fn delays(self) -> Seq<u64>
        decreases self.left,
    {
        match self.next() {
            Some(next) => seq![self.delay] + next.delays(),
            None => seq![self.delay],
        }
    }

    /// What an attempt leads to: a success ends the attempts at once, and so does
    /// the failure of the last one, after its delay.
    pub open spec fn step<T, E>(self, outcome: Result<T, E>) -> Next<T, E> {
        match outcome {
            Ok(value) => Next::Done(value),
            Err(error) => match self.next() {
                Some(rest) => Next::Again { secs: self.delay, rest, error },
                None => Next::GiveUp { secs: self.delay, error },
            },
        }
    }

    /// Decides what an attempt leads to.
    pub fn after<T, E>(self, outcome: Result<T, E>) -> (r: Next<T, E>)
        requires
            self.wf(),
        ensures
            r == self.step(outcome),
            r matches Next::Again { rest, .. } ==> rest.wf(),
    {
        match outcome {
            Ok(value) => Next::Done(value),
            Err(error) => if self.left <= 1 {
                Next::GiveUp { secs: self.delay, error }
            } else {
                let delay: u64 = if 2 * self.delay <= self.longest {
                    2 * self.delay
                } else {
                    self.longest
                };
                let rest = Backoff { left: self.left - 1, delay, longest: self.longest };
                Next::Again { secs: self.delay, rest, error }
            },
        }
    }
}

/// What an attempt leads to.
#[derive(Debug, PartialEq, Eq)]
pub enum Next<T, E> {
    /// The end, with what the attempt gave.
    Done(T),
    /// Another attempt on the schedule `rest`, after `secs` seconds.
    Again { secs: u64, rest: Backoff, error: E },
    /// The end, after `secs` seconds, with the error of this attempt.
    GiveUp { secs: u64, error: E },
}

/// What an invitation leads to: the schedule on which it is accepted, if it is for this
/// account.
pub open spec fn invited(state_key: Seq<char>, me: Option<Seq<char>>) -> Option<Backoff> {
    if me == Some(state_key) {
        Some(Backoff { left: JOIN_ATTEMPTS, delay: 1, longest: 16 })
    } else {
        None
    }
}

/// The schedule on which the store is connected to.
pub open spec fn connecting() -> Backoff {
    Backoff { left: CONNECT_ATTEMPTS, delay: 1, longest: CONNECT_DELAY_MAX }
}

/// Decides on an invitation event: one for this account is accepted, on a schedule
/// whose delays double each time; any other is ignored.
pub fn auto_join_on_invite(state_key: &str, me: Option<&str>) -> (r: Option<Backoff>)
    ensures
        match r {
            Some(b) => (me matches Some(m) && m@ == state_key@) && b.wf() && b == (Backoff {
                left: JOIN_ATTEMPTS,
                delay: 1,
                longest: 16,
            }),
            None => !(me matches Some(m) && m@ == state_key@),
        },
        r == invited(
            state_key@,
            match me {
                Some(m) => Some(m@),
                None => None,
            },
        ),
{
    match me {
        Some(m) => if same(m, state_key) {
            Some(Backoff { left: JOIN_ATTEMPTS, delay: 1, longest: 16 })
        } else {
            None
        },
        None => None,
    }
}

/// The schedule on which the store is connected to: the service starts beside it.
pub fn connect_store_with_retry() -> (r: Backoff)
    ensures
        r.wf(),
        r == (Backoff { left: CONNECT_ATTEMPTS, delay: 1, longest: CONNECT_DELAY_MAX }),
        r == connecting(),
{
    Backoff { left: CONNECT_ATTEMPTS, delay: 1, longest: CONNECT_DELAY_MAX }
}

/// A schedule has as many attempts as were left, its delays never shrink, and none
/// is longer than the longest.
pub proof fn law_delays_are_bounded(b: Backoff)
    requires
        b.wf(),
    ensures
        b.delays().len() == b.left,
        b.delays()[0] == b.delay,
        forall|i: int| 0 <= i < b.delays().len() ==> #[trigger] b.delays()[i] <= b.longest,
        forall|i: int, j: int|
            0 <= i <= j < b.delays().len() ==> #[trigger] b.delays()[i] <= #[trigger] b.delays()[j],
    decreases b.left,
{
    if let Some(next) = b.next() {
        law_delays_are_bounded(next);
        let rest = next.delays();
        assert forall|i: int| 0 <= i < b.delays().len() implies #[trigger] b.delays()[i]
            <= b.longest by {
            if i > 0 {
                assert(b.delays()[i] == rest[i - 1]);
            }
        }
        assert forall|i: int, j: int| 0 <= i <= j < b.delays().len() implies #[trigger] b.delays()[i]
            <= #[trigger] b.delays()[j] by {
            if j > 0 {
                assert(b.delays()[j] == rest[j - 1]);
                assert(rest[0] <= rest[j - 1]);
            }
            if i > 0 {
                assert(b.delays()[i] == rest[i - 1]);
            }
        }
    }
}

/// Attempts on a schedule, with what each of them comes to if it is made.
pub struct Attempts<T, E> {
    pub schedule: Backoff,
    pub outcomes: Seq<Result<T, E>>,
}

impl<T, E> Attempts<T, E> {
    /// The schedule on which attempt `n` is made, counted from zero; nothing if the
    /// attempts end before it.
    pub open spec fn at(self, n: nat) -> Option<Backoff>
        decreases n,
    {
        if n == 0 {
            Some(self.schedule)
        } else {
            match self.at((n - 1) as nat) {
                Some(b) => match b.step(self.outcomes[n - 1]) {
                    Next::Again { rest, .. } => Some(rest),
                    _ => None,
                },
                None => None,
            }
        }
    }

    /// Whether the first `n` attempts would all fail.
    pub open spec fn all_fail(self, n: nat) -> bool {
        forall|i: int| 0 <= i < n ==> #[trigger] self.outcomes[i] is Err
    }
}

/// An attempt is made if and only if there are that many and all before it failed:
/// there are as many as were left at most, and none after a success.
pub proof fn law_attempts_end<T, E>(a: Attempts<T, E>, n: nat)
    requires
        a.schedule.wf(),
        n <= a.outcomes.len(),
    ensures
        a.at(n) is Some <==> n < a.schedule.left && a.all_fail(n),
        a.at(n) matches Some(b) ==> b.wf() && b.left == a.schedule.left - n && b.delay
            == a.schedule.delays()[n as int] && b.delays() == a.schedule.delays().skip(n as int),
    decreases n,
{
    law_delays_are_bounded(a.schedule);
    if n == 0 {
        assert(a.schedule.delays().skip(0) =~= a.schedule.delays());
    } else {
        let m = (n - 1) as nat;
        law_attempts_end(a, m);
        if a.all_fail(m) && a.outcomes[n - 1] is Err {
            assert(a.all_fail(n));
        }
        if let Some(b) = a.at(m) {
            if let Some(next) = b.next() {
                law_delays_are_bounded(b);
                law_delays_are_bounded(next);
                assert(b.delays().skip(1) =~= next.delays());
                assert(a.schedule.delays().skip(m as int).skip(1) =~= a.schedule.delays().skip(
                    n as int,
                ));
                assert(next.delays()[0] == a.schedule.delays().skip(n as int)[0]);
            }
        }
    }
}

/// The attempts end with the value of the first success; if all fail, they end with
/// the error of the last. After each failure comes its delay.
pub proof fn law_outcome_of_attempts<T, E>(a: Attempts<T, E>, n: nat)
    requires
        a.schedule.wf(),
        n < a.outcomes.len(),
        n < a.schedule.left,
        a.all_fail(n),
    ensures
        a.at(n) is Some,
        ({
            let next = a.at(n)->0.step(a.outcomes[n as int]);
            let secs = a.schedule.delays()[n as int];
            match a.outcomes[n as int] {
                Ok(value) => next == Next::<T, E>::Done(value),
                Err(error) => if n + 1 == a.schedule.left {
                    next == Next::<T, E>::GiveUp { secs, error }
                } else {
                    next == Next::<T, E>::Again { secs, rest: a.at(n + 1)->0, error } && a.at(
                        n + 1,
                    ) is Some
                },
            }
        }),
{
    law_attempts_end(a, n);
}

/// An invitation is accepted five times at most, after 1, 2, 4 and 8 seconds; the
/// store is connected to twelve times at most, ten seconds apart in the end.
pub proof fn law_schedules()
    ensures
        (Backoff { left: JOIN_ATTEMPTS, delay: 1, longest: 16 }).delays() == seq![
            1u64,
            2,
            4,
            8,
            16,
        ],
        connecting().delays() == (Backoff {
            left: CONNECT_ATTEMPTS,
            delay: 1,
            longest: CONNECT_DELAY_MAX,
        }).delays(),
        (Backoff { left: CONNECT_ATTEMPTS, delay: 1, longest: CONNECT_DELAY_MAX }).delays() == seq![
            1u64,
            2,
            4,
            8,
            10,
            10,
            10,
            10,
            10,
            10,
            10,
            10,
        ],
{
    reveal_with_fuel(Backoff::delays, 13);
    assert((Backoff { left: JOIN_ATTEMPTS, delay: 1, longest: 16 }).delays() =~= seq![
        1u64,
        2,
        4,
        8,
        16,
    ]);
}

/// Each delay is twice the one before, or the longest where that is less.
pub proof fn law_delays_double(b: Backoff, i: int)
    requires
        b.wf(),
        0 <= i < b.left - 1,
    ensures
        b.delays().len() == b.left,
        b.delays()[i + 1] == (if 2 * b.delays()[i] <= b.longest {
            2 * b.delays()[i]
        } else {
            b.longest as int
        }),
    decreases b.left,
{
    law_delays_are_bounded(b);
    let next = b.next()->0;
    law_delays_are_bounded(next);
    assert(b.delays()[i + 1] == next.delays()[i]);
    if i > 0 {
        law_delays_double(next, i - 1);
        assert(b.delays()[i] == next.delays()[i - 1]);
    }
}

/// Every invitation for this account is accepted, on the schedule for invitations, and
/// no other is, whoever it is for.
pub proof fn law_own_invitations_are_accepted(state_key: Seq<char>, me: Option<Seq<char>>)
    ensures
        invited(state_key, me) is Some <==> me == Some(state_key),
        invited(state_key, me) matches Some(b) ==> b.wf() && b.delays() == seq![1u64, 2, 4, 8, 16],
{
    law_schedules();
}

} // verus!
