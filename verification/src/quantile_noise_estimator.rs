//! Scheduling of the quantile-based noise spectrum estimator.
//!
//! The estimator runs `SIMULT` quantile trackers side by side, each over its
//! own block of `FFT_SIZE_BY_2_PLUS_1` log-spectrum bins. Every tracker has a
//! frame counter; the counters start staggered over one period of
//! `LONG_STARTUP_PHASE_BLOCKS` frames. When a tracker's counter reaches the end
//! of the period, the counter restarts and (after the start-up phase) that
//! tracker's block becomes the published noise estimate. During start-up the
//! last tracker's block is published on every frame.
//!
//! This module holds that integer state machine; the per-bin numerical update
//! of the trackers reads `counter` before each frame is advanced.
use vstd::prelude::*;

use crate::config::{FFT_SIZE_BY_2_PLUS_1, LONG_STARTUP_PHASE_BLOCKS};

verus! {

/// Number of simultaneous quantile trackers.
pub const SIMULT: usize = 3;

/// What a schedule is, mathematically: one counter per tracker, and the
/// number of frames seen so far (saturating at the length of start-up).
pub struct ScheduleState {
    pub counters: Seq<int>,
    pub num_updates: int,
}

/// The counter value a tracker starts with: `floor(L * (s + 1) / SIMULT)`,
/// which staggers the trackers evenly over one period.
pub open spec fn initial_counter(s: int) -> int {
    LONG_STARTUP_PHASE_BLOCKS * (s + 1) / (SIMULT as int)
}

/// A counter after one frame: it restarts once it has reached the period
/// length, and then counts the frame.
pub open spec fn next_counter(c: int) -> int {
    (if c >= LONG_STARTUP_PHASE_BLOCKS { 0 } else { c }) + 1
}

/// A counter after `n` frames.
pub open spec fn counter_after(c: int, n: nat) -> int
    decreases n,
{
    if n == 0 {
        c
    } else {
        counter_after(next_counter(c), (n - 1) as nat)
    }
}

/// The highest-numbered tracker among the first `n` whose counter has
/// reached the period length, if any.
pub open spec fn last_expired(counters: Seq<int>, n: int) -> Option<int>
    decreases n,
{
    if n <= 0 {
        None
    } else if counters[n - 1] >= LONG_STARTUP_PHASE_BLOCKS {
        Some(n - 1)
    } else {
        last_expired(counters, n - 1)
    }
}

impl ScheduleState {
    /// The state of a freshly created estimator.
    pub open spec fn initial() -> ScheduleState {
        ScheduleState {
            counters: Seq::new(SIMULT as nat, |s: int| initial_counter(s)),
            num_updates: 1,
        }
    }

    /// Every reachable state: each counter lies in `1..=L`, the counters are
    /// pairwise distinct, and the frame count lies in `1..=L`.
    pub open spec fn wf(self) -> bool {
        &&& self.counters.len() == SIMULT
        &&& forall|s: int|
            0 <= s < SIMULT ==> 1 <= #[trigger] self.counters[s] <= LONG_STARTUP_PHASE_BLOCKS
        &&& forall|s: int, t: int|
            0 <= s < t < SIMULT ==> #[trigger] self.counters[s] != #[trigger] self.counters[t]
        &&& 1 <= self.num_updates <= LONG_STARTUP_PHASE_BLOCKS
    }

    /// Whether the start-up phase is still running.
    pub open spec fn in_startup(self) -> bool {
        self.num_updates < LONG_STARTUP_PHASE_BLOCKS
    }

    /// The state after one frame.
    pub open spec fn next(self) -> ScheduleState {
        ScheduleState {
            counters: self.counters.map_values(|c: int| next_counter(c)),
            num_updates: if self.in_startup() {
                self.num_updates + 1
            } else {
                self.num_updates
            },
        }
    }

    /// The state after `n` frames.
    pub open spec fn after(self, n: nat) -> ScheduleState
        decreases n,
    {
        if n == 0 {
            self
        } else {
            self.next().after((n - 1) as nat)
        }
    }

    /// The start offset (in bins) of the block that the frame taken from this
    /// state publishes: the last tracker's block during start-up; afterwards
    /// the block of the tracker whose counter has reached the period length,
    /// if any (the highest-numbered one, were there several).
    pub open spec fn promoted_block(self) -> Option<usize> {
        if self.in_startup() {
            Some((FFT_SIZE_BY_2_PLUS_1 * (SIMULT - 1)) as usize)
        } else {
            match last_expired(self.counters, SIMULT as int) {
                Some(s) => Some((s * FFT_SIZE_BY_2_PLUS_1) as usize),
                None => None,
            }
        }
    }
}

/// The frame counters of the quantile trackers.
#[derive(Debug)]
pub struct QuantileSchedule {
    counter: [i32; SIMULT],
    num_updates: i32,
}

impl View for QuantileSchedule {
    type V = ScheduleState;

    closed spec fn view(&self) -> ScheduleState {
        ScheduleState {
            counters: self.counter@.map_values(|c: i32| c as int),
            num_updates: self.num_updates as int,
        }
    }
}

impl QuantileSchedule {
    #[verifier::type_invariant]
    closed spec fn inv(self) -> bool {
        self@.wf()
    }

    /// The schedule of a freshly created estimator: counters staggered at
    /// `floor(L * (s + 1) / SIMULT)` and one frame counted.
    pub fn new() -> (r: Self)
        ensures
            r@ == ScheduleState::initial(),
            r@.wf(),
            r@.counters =~= seq![66int, 133, 200],
            r@.num_updates == 1,
    {
        let mut counter = [0i32; SIMULT];
        for s in 0..SIMULT
            invariant
                forall|j: int| 0 <= j < s ==> #[trigger] counter[j] == initial_counter(j),
        {
            counter[s] = LONG_STARTUP_PHASE_BLOCKS * (s as i32 + 1) / (SIMULT as i32);
        }
        let r = QuantileSchedule { counter, num_updates: 1 };
        assert(r@.counters =~= ScheduleState::initial().counters);
        proof {
            law_initial_wf();
        }
        r
    }

    /// The counter of tracker `s`.
    pub fn counter(&self, s: usize) -> (c: i32)
        requires
            s < SIMULT,
        ensures
            c == self@.counters[s as int],
    {
        self.counter[s]
    }

    /// The number of frames counted so far (saturating at `L`).
    pub fn num_updates(&self) -> (n: i32)
        ensures
            n == self@.num_updates,
    {
        self.num_updates
    }

    /// Advances every tracker by one frame and returns the start offset of
    /// the block to publish as the noise estimate, if any.
    pub fn advance(&mut self) -> (promoted: Option<usize>)
        ensures
            final(self)@ == old(self)@.next(),
            promoted == old(self)@.promoted_block(),
            final(self)@.wf(),
            promoted matches Some(k) ==> k % FFT_SIZE_BY_2_PLUS_1 == 0 && k + FFT_SIZE_BY_2_PLUS_1
                <= SIMULT * FFT_SIZE_BY_2_PLUS_1,
            forall|s: int|
                0 <= s < SIMULT ==> #[trigger] final(self)@.counters[s] == if old(self)@.counters[s]
                    >= LONG_STARTUP_PHASE_BLOCKS {
                    1
                } else {
                    old(self)@.counters[s] + 1
                },
            final(self)@.num_updates == if old(self)@.num_updates < LONG_STARTUP_PHASE_BLOCKS {
                old(self)@.num_updates + 1
            } else {
                LONG_STARTUP_PHASE_BLOCKS as int
            },
            old(self)@.num_updates < LONG_STARTUP_PHASE_BLOCKS ==> promoted == Some(
                (FFT_SIZE_BY_2_PLUS_1 * (SIMULT - 1)) as usize,
            ),
            old(self)@.num_updates >= LONG_STARTUP_PHASE_BLOCKS ==> forall|s: int|
                0 <= s < SIMULT ==> ((promoted == Some((s * FFT_SIZE_BY_2_PLUS_1) as usize)) <==> (
                #[trigger] old(self)@.counters[s] == LONG_STARTUP_PHASE_BLOCKS)),
            old(self)@.num_updates >= LONG_STARTUP_PHASE_BLOCKS ==> ((promoted is None) <==> (forall|
                s: int,
            |
                0 <= s < SIMULT ==> #[trigger] old(self)@.counters[s] < LONG_STARTUP_PHASE_BLOCKS)),
    {
        proof {
            use_type_invariant(&*self);
        }
        let ghost before = self@;
        let mut counter = self.counter;
        let startup_over = self.num_updates >= LONG_STARTUP_PHASE_BLOCKS;
        let mut promoted: Option<usize> = None;
        for s in 0..SIMULT
            invariant
                before == self@,
                startup_over == !before.in_startup(),
                before.wf(),
                forall|j: int|
                    0 <= j < s ==> #[trigger] counter[j] as int == next_counter(
                        before.counters[j],
                    ),
                forall|j: int| s <= j < SIMULT ==> #[trigger] counter[j] as int == before.counters[j],
                promoted == (if startup_over {
                    match last_expired(before.counters, s as int) {
                        Some(t) => Some((t * FFT_SIZE_BY_2_PLUS_1) as usize),
                        None => None,
                    }
                } else {
                    None::<usize>
                }),
        {
            if counter[s] >= LONG_STARTUP_PHASE_BLOCKS {
                counter[s] = 0;
                if startup_over {
                    promoted = Some(s * FFT_SIZE_BY_2_PLUS_1);
                }
            }
            counter[s] = counter[s] + 1;
        }
        let mut num_updates = self.num_updates;
        if num_updates < LONG_STARTUP_PHASE_BLOCKS {
            promoted = Some(FFT_SIZE_BY_2_PLUS_1 * (SIMULT - 1));
            num_updates = num_updates + 1;
        }
        proof {
            assert(counter@.map_values(|c: i32| c as int) =~= before.next().counters);
            law_next_wf(before);
            reveal_with_fuel(last_expired, 4);
            if !before.in_startup() {
                assert forall|s: int| 0 <= s < SIMULT implies ((promoted == Some(
                    (s * FFT_SIZE_BY_2_PLUS_1) as usize,
                )) <==> (#[trigger] before.counters[s] == LONG_STARTUP_PHASE_BLOCKS)) by {
                    law_promotion_after_startup(before, s);
                }
                law_promotion_after_startup(before, 0);
            }
        }
        *self = QuantileSchedule { counter, num_updates };
        promoted
    }
}

/// One frame keeps a reachable state reachable: counters stay in `1..=L`
/// and pairwise distinct, and the frame count stays in `1..=L`.
pub proof fn law_next_wf(st: ScheduleState)
    requires
        st.wf(),
    ensures
        st.next().wf(),
{
    let n = st.next();
    assert forall|s: int, t: int| 0 <= s < t < SIMULT implies #[trigger] n.counters[s]
        != #[trigger] n.counters[t] by {
        assert(st.counters[s] != st.counters[t]);
    }
}

/// Any number of frames keeps a reachable state reachable.
pub proof fn law_after_wf(st: ScheduleState, n: nat)
    requires
        st.wf(),
    ensures
        st.after(n).wf(),
    decreases n,
{
    if n > 0 {
        law_next_wf(st);
        law_after_wf(st.next(), (n - 1) as nat);
    }
}

/// The state of a new estimator is reachable.
pub proof fn law_initial_wf()
    ensures
        ScheduleState::initial().wf(),
{
    let st = ScheduleState::initial();
    assert(st.counters[0] == 66);
    assert(st.counters[1] == 133);
    assert(st.counters[2] == 200);
}

/// In a reachable state at most one tracker has reached the end of its
/// period, so a frame never has two blocks to publish.
pub proof fn law_at_most_one_expiry(st: ScheduleState, s: int, t: int)
    requires
        st.wf(),
        0 <= s < SIMULT,
        0 <= t < SIMULT,
        st.counters[s] >= LONG_STARTUP_PHASE_BLOCKS,
        st.counters[t] >= LONG_STARTUP_PHASE_BLOCKS,
    ensures
        s == t,
{
    if s < t {
        assert(st.counters[s] != st.counters[t]);
    } else if t < s {
        assert(st.counters[t] != st.counters[s]);
    }
}

/// Closed form of a counter after `n` frames.
pub proof fn lemma_counter_after(c: int, n: nat)
    requires
        1 <= c <= LONG_STARTUP_PHASE_BLOCKS,
    ensures
        counter_after(c, n) == (c - 1 + n) % (LONG_STARTUP_PHASE_BLOCKS as int) + 1,
    decreases n,
{
    if n > 0 {
        lemma_counter_after(next_counter(c), (n - 1) as nat);
        if c == LONG_STARTUP_PHASE_BLOCKS {
            vstd::arithmetic::div_mod::lemma_mod_add_multiples_vanish(
                n - 1,
                LONG_STARTUP_PHASE_BLOCKS as int,
            );
        }
    }
}

/// Tracker `s`'s counter after `n` frames is its counter advanced `n` times.
pub proof fn lemma_after_counter(st: ScheduleState, s: int, n: nat)
    requires
        st.counters.len() == SIMULT,
        0 <= s < SIMULT,
    ensures
        st.after(n).counters.len() == SIMULT,
        st.after(n).counters[s] == counter_after(st.counters[s], n),
    decreases n,
{
    if n > 0 {
        lemma_after_counter(st.next(), s, (n - 1) as nat);
    }
}

/// The counters are periodic: after one period of `L` frames every tracker's
/// counter is back where it started.
pub proof fn law_counters_periodic(st: ScheduleState)
    requires
        st.wf(),
    ensures
        st.after(LONG_STARTUP_PHASE_BLOCKS as nat).counters == st.counters,
{
    let l = LONG_STARTUP_PHASE_BLOCKS as nat;
    assert forall|s: int| 0 <= s < SIMULT implies #[trigger] st.after(l).counters[s]
        == st.counters[s] by {
        lemma_after_counter(st, s, l);
        lemma_counter_after(st.counters[s], l);
        vstd::arithmetic::div_mod::lemma_mod_add_multiples_vanish(
            st.counters[s] - 1,
            LONG_STARTUP_PHASE_BLOCKS as int,
        );
        vstd::arithmetic::div_mod::lemma_small_mod(
            (st.counters[s] - 1) as nat,
            LONG_STARTUP_PHASE_BLOCKS as nat,
        );
    }
    lemma_after_counter(st, 0, l);
    assert(st.after(l).counters =~= st.counters);
}

/// Within any window of `L` consecutive frames each tracker reaches the end
/// of its period exactly once: in frame `L - c`, where `c` is its counter at
/// the start of the window.
pub proof fn law_expires_once_per_period(st: ScheduleState, s: int, n: nat)
    requires
        st.wf(),
        0 <= s < SIMULT,
        n < LONG_STARTUP_PHASE_BLOCKS,
    ensures
        (st.after(n).counters[s] >= LONG_STARTUP_PHASE_BLOCKS) <==> (n
            == LONG_STARTUP_PHASE_BLOCKS - st.counters[s]),
{
    lemma_after_counter(st, s, n);
    lemma_counter_after(st.counters[s], n);
}

/// The frame count grows by one per frame until it reaches `L`, and then
/// stays there.
pub proof fn law_startup_length(st: ScheduleState, n: nat)
    requires
        st.wf(),
    ensures
        st.after(n).num_updates == if st.num_updates + n < LONG_STARTUP_PHASE_BLOCKS {
            st.num_updates + n
        } else {
            LONG_STARTUP_PHASE_BLOCKS as int
        },
    decreases n,
{
    if n > 0 {
        law_next_wf(st);
        law_startup_length(st.next(), (n - 1) as nat);
    }
}

/// After start-up, a frame publishes the block of tracker `s` exactly when
/// that tracker's counter has reached the end of its period.
pub proof fn law_promotion_after_startup(st: ScheduleState, s: int)
    requires
        st.wf(),
        !st.in_startup(),
        0 <= s < SIMULT,
    ensures
        (st.promoted_block() == Some((s * FFT_SIZE_BY_2_PLUS_1) as usize)) <==> (st.counters[s]
            == LONG_STARTUP_PHASE_BLOCKS),
        (st.promoted_block() is None) <==> (forall|t: int|
            0 <= t < SIMULT ==> #[trigger] st.counters[t] < LONG_STARTUP_PHASE_BLOCKS),
{
    reveal_with_fuel(last_expired, 4);
    assert(st.counters[0] != st.counters[1]);
    assert(st.counters[0] != st.counters[2]);
    assert(st.counters[1] != st.counters[2]);
}

/// A new estimator publishes the last tracker's block on each of its first
/// `L - 1` frames; from then on it is out of start-up for good.
pub proof fn law_initial_startup(n: nat)
    ensures
        n < LONG_STARTUP_PHASE_BLOCKS - 1 ==> ScheduleState::initial().after(n).promoted_block()
            == Some((FFT_SIZE_BY_2_PLUS_1 * (SIMULT - 1)) as usize),
        n >= LONG_STARTUP_PHASE_BLOCKS - 1 ==> !ScheduleState::initial().after(n).in_startup(),
{
    law_initial_wf();
    law_startup_length(ScheduleState::initial(), n);
}

/// After start-up, within any window of `L` consecutive frames the block of
/// every tracker is published exactly once.
pub proof fn law_each_block_published_once_per_period(st: ScheduleState, s: int, n: nat)
    requires
        st.wf(),
        !st.in_startup(),
        0 <= s < SIMULT,
        n < LONG_STARTUP_PHASE_BLOCKS,
    ensures
        (st.after(n).promoted_block() == Some((s * FFT_SIZE_BY_2_PLUS_1) as usize)) <==> (n
            == LONG_STARTUP_PHASE_BLOCKS - st.counters[s]),
{
    law_after_wf(st, n);
    law_startup_length(st, n);
    law_promotion_after_startup(st.after(n), s);
    law_expires_once_per_period(st, s, n);
    lemma_after_counter(st, s, n);
}

} // verus!
