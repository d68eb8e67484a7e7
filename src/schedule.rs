//! The order of work over a run: references in fixed-size chunks, checked one
//! at a time, with a cooldown between consecutive chunks.
use crate::validate::{Entry, ValidationError};
use vstd::arithmetic::div_mod::{
    lemma_div_plus_one, lemma_fundamental_div_mod, lemma_fundamental_div_mod_converse,
    lemma_remainder,
};
use vstd::prelude::*;

verus! {

/// References checked between two cooldowns.
pub const CHUNK_SIZE: usize = 30;

/// Length of the pause between two chunks, in seconds.
pub const COOLDOWN_SECS: u64 = 60;

/// Index `i` starts a chunk that has another chunk before it.
pub open spec fn starts_later_chunk(i: nat, chunk_size: nat) -> bool {
    i > 0 && i % chunk_size == 0
}

/// The number of cooldowns taken before reference `n` is reached: one at
/// each start of a later chunk below `n`.
pub open spec fn pauses_before(n: nat, chunk_size: nat) -> nat {
    if n == 0 {
        0
    } else {
        ((n - 1) / (chunk_size as int)) as nat
    }
}

/// The number of chunks of `total` references, the last possibly partial.
pub open spec fn chunk_count(total: nat, chunk_size: nat) -> nat {
    ((total + chunk_size - 1) / (chunk_size as int)) as nat
}

/// What the driver of a run does next.
#[derive(Clone, Copy, Debug, PartialEq, Eq)]
pub enum Action {
    /// Check the reference at this index and record the outcome.
    Check(usize),
    /// Pause for the cooldown before the next chunk.
    Cooldown,
    /// The run is over.
    Done,
}

/// The state of one run over `total` references.
pub struct Scheduler {
    total: usize,
    chunk_size: usize,
    next: usize,
    cooled: bool,
    pauses: usize,
    failures: Vec<ValidationError>,
}

impl Scheduler {
    pub closed spec fn total(&self) -> nat {
        self.total as nat
    }

    pub closed spec fn chunk_size(&self) -> nat {
        self.chunk_size as nat
    }

    /// The index of the next reference to check.
    pub closed spec fn position(&self) -> nat {
        self.next as nat
    }

    /// The cooldown before the reference at `position` has been taken.
    pub closed spec fn cooled(&self) -> bool {
        self.cooled
    }

    pub closed spec fn pauses(&self) -> nat {
        self.pauses as nat
    }

    /// The failures recorded so far, in order.
    pub closed spec fn failures(&self) -> Seq<ValidationError> {
        self.failures@
    }

    pub closed spec fn wf(&self) -> bool {
        &&& self.chunk_size > 0
        &&& self.next <= self.total
        &&& self.cooled ==> self.next < self.total && starts_later_chunk(
            self.next as nat,
            self.chunk_size as nat,
        )
        &&& self.pauses == pauses_before(self.next as nat, self.chunk_size as nat) + if self.cooled {
            1nat
        } else {
            0nat
        }
    }

    /// The next step is a check of the reference at `position`.
    pub open spec fn awaiting_check(&self) -> bool {
        self.position() < self.total() && (!starts_later_chunk(self.position(), self.chunk_size())
            || self.cooled())
    }

    pub fn new(total: usize, chunk_size: usize) -> (r: Scheduler)
        requires
            chunk_size > 0,
        ensures
            r.wf(),
            r.total() == total,
            r.chunk_size() == chunk_size,
            r.position() == 0,
            !r.cooled(),
            r.pauses() == 0,
            r.failures() == Seq::<ValidationError>::empty(),
    {
        Scheduler { total, chunk_size, next: 0, cooled: false, pauses: 0, failures: Vec::new() }
    }

    /// The next action: `Done` once every reference is checked; a cooldown
    /// at the start of each chunk but the first, taken once; else a check of
    /// the reference at `position`.
    pub fn next_action(&mut self) -> (a: Action)
        requires
            old(self).wf(),
        ensures
            final(self).wf(),
            final(self).total() == old(self).total(),
            final(self).chunk_size() == old(self).chunk_size(),
            final(self).position() == old(self).position(),
            final(self).failures() == old(self).failures(),
            old(self).position() >= old(self).total() ==> a == Action::Done && *final(self)
                == *old(self),
            old(self).position() < old(self).total() && starts_later_chunk(
                old(self).position(),
                old(self).chunk_size(),
            ) && !old(self).cooled() ==> a == Action::Cooldown && final(self).cooled()
                && final(self).pauses() == old(self).pauses() + 1,
            old(self).awaiting_check() ==> a is Check && *final(self)
                == *old(self),
            a == Action::Done ==> final(self).pauses() == pauses_before(
                final(self).total(),
                final(self).chunk_size(),
            ),
            a matches Action::Check(i) ==> i == final(self).position(),
            a is Check ==> final(self).awaiting_check(),
    {
        if self.next >= self.total {
            return Action::Done;
        }
        if self.next > 0 && self.next % self.chunk_size == 0 && !self.cooled {
            proof {
                lemma_pauses_below(self.next as nat, self.chunk_size as nat);
            }
            self.cooled = true;
            self.pauses = self.pauses + 1;
            return Action::Cooldown;
        }
        Action::Check(self.next)
    }

    /// Records the outcome of the check of the reference at `position`: a
    /// failure is appended, a success only moves on.
    pub fn record(&mut self, outcome: Result<Entry, ValidationError>)
        requires
            old(self).wf(),
            old(self).awaiting_check(),
        ensures
            final(self).wf(),
            final(self).total() == old(self).total(),
            final(self).chunk_size() == old(self).chunk_size(),
            final(self).position() == old(self).position() + 1,
            !final(self).cooled(),
            final(self).pauses() == old(self).pauses(),
            final(self).failures() == match outcome {
                Ok(_) => old(self).failures(),
                Err(e) => old(self).failures().push(e),
            },
    {
        proof {
            lemma_pauses_step(self.next as nat, self.chunk_size as nat);
        }
        match outcome {
            Ok(_) => {},
            Err(e) => self.failures.push(e),
        }
        self.next = self.next + 1;
        self.cooled = false;
    }

    /// The number of cooldowns taken so far.
    pub fn pause_count(&self) -> (r: usize)
        ensures
            r == self.pauses(),
    {
        self.pauses
    }

    /// The index of the next reference to check.
    pub fn position_index(&self) -> (r: usize)
        ensures
            r == self.position(),
    {
        self.next
    }

    /// Ends the run, handing over the failures in the order recorded.
    pub fn finish(self) -> (r: Vec<ValidationError>)
        ensures
            r@ == self.failures(),
    {
        self.failures
    }
}

proof fn lemma_pauses_below(n: nat, c: nat)
    requires
        c > 0,
        n > 0,
    ensures
        pauses_before(n, c) < n,
{
    assert((n - 1) / (c as int) <= n - 1) by {
        vstd::arithmetic::div_mod::lemma_div_is_ordered_by_denominator((n - 1) as int, 1, c as int);
    }
}

/// Passing index `n` adds a pause exactly where `n` starts a later chunk.
proof fn lemma_pauses_step(n: nat, c: nat)
    requires
        c > 0,
    ensures
        pauses_before(n + 1, c) == pauses_before(n, c) + if starts_later_chunk(n, c) {
            1nat
        } else {
            0nat
        },
{
    let ni = n as int;
    let ci = c as int;
    if n > 0 {
        let q = (ni - 1) / ci;
        let r = (ni - 1) % ci;
        lemma_fundamental_div_mod(ni - 1, ci);
        lemma_remainder(ni - 1, ci);
        assert(ni - 1 == q * ci + r) by (nonlinear_arith)
            requires
                ni - 1 == ci * q + r,
        ;
        if r == ci - 1 {
            assert(ni == (q + 1) * ci + 0) by (nonlinear_arith)
                requires
                    ni - 1 == q * ci + r,
                    r == ci - 1,
            ;
            lemma_fundamental_div_mod_converse(ni, ci, q + 1, 0);
        } else {
            lemma_fundamental_div_mod_converse(ni, ci, q, r + 1);
        }
    } else {
        lemma_fundamental_div_mod_converse(0, ci, 0, 0);
    }
}

/// Over a run of `total` references in chunks of `chunk_size`, a cooldown
/// follows every chunk but the last: one fewer than there are chunks, and
/// none for an empty run.
pub proof fn lemma_pause_count(total: nat, chunk_size: nat)
    requires
        chunk_size > 0,
    ensures
        pauses_before(total, chunk_size) == if total == 0 {
            0
        } else {
            (chunk_count(total, chunk_size) - 1) as nat
        },
{
    if total > 0 {
        lemma_div_plus_one((total - 1) as int, chunk_size as int);
        assert(chunk_size + (total - 1) == total + chunk_size - 1);
    }
}

} // verus!
