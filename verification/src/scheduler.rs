//! Block definitions and the scheduler's timing logic.
//!
//! A block is a configured external command whose captured output is shown
//! on the bar. Blocks with a nonzero interval are re-run periodically; the
//! scheduler drives all of them from a single timer whose period is the
//! greatest common divisor of the nonzero intervals.

use vstd::prelude::*;
use vstd::arithmetic::div_mod::{
    lemma_fundamental_div_mod, lemma_mod_multiples_basic, lemma_mod_self_0, lemma_small_mod,
};

verus! {

/// One configured block: an icon, a command line, a refresh interval in
/// seconds (0 = not periodic) and a notification id (0 = none) on which the
/// block is re-run out of band.
pub struct Block {
    pub icon: String,
    pub command: String,
    pub interval: u32,
    pub signal: u32,
}

/// Mathematical greatest common divisor, by the Euclidean recurrence.
/// `spec_gcd(a, 0) == a`, so folding over a list with accumulator 0 yields
/// the gcd of the listed values.
pub open spec fn spec_gcd(a: nat, b: nat) -> nat
    decreases b,
{
    if b == 0 {
        a
    } else {
        spec_gcd(b, a % b)
    }
}

/// Euclid's algorithm. `gcd(x, 0) == x`, so 0 is a safe fold identity.
pub fn gcd(x: u32, y: u32) -> (r: u32)
    ensures
        r as nat == spec_gcd(x as nat, y as nat),
{
    let mut a = x;
    let mut b = y;
    while b > 0
        invariant
            spec_gcd(a as nat, b as nat) == spec_gcd(x as nat, y as nat),
        decreases b,
    {
        let t = a % b;
        a = b;
        b = t;
    }
    a
}

/// `d` evenly divides `n`.
pub open spec fn divides(d: nat, n: nat) -> bool {
    d > 0 && n % d == 0
}

/// Divisibility is transitive: if `c` divides `b` and `b` divides `a`,
/// then `c` divides `a`.
proof fn lemma_divides_transitive(a: nat, b: nat, c: nat)
    requires
        divides(b, a),
        divides(c, b),
    ensures
        divides(c, a),
{
    lemma_fundamental_div_mod(a as int, b as int);
    lemma_fundamental_div_mod(b as int, c as int);
    let qa = a as int / b as int;
    let qb = b as int / c as int;
    assert(a as int == (qb * qa) * c) by (nonlinear_arith)
        requires
            a as int == b as int * qa,
            b as int == c as int * qb,
    ;
    lemma_mod_multiples_basic(qb * qa, c as int);
}

/// The gcd of two numbers, at least one of them nonzero, is positive and
/// divides both.
pub proof fn lemma_gcd_divides(a: nat, b: nat)
    requires
        a > 0 || b > 0,
    ensures
        divides(spec_gcd(a, b), a),
        divides(spec_gcd(a, b), b),
    decreases b,
{
    if b == 0 {
        lemma_mod_self_0(a as int);
        lemma_small_mod(0, a);
    } else {
        lemma_gcd_divides(b, a % b);
        let g = spec_gcd(b, a % b);
        lemma_fundamental_div_mod(a as int, b as int);
        lemma_fundamental_div_mod(b as int, g as int);
        lemma_fundamental_div_mod((a % b) as int, g as int);
        let qa = a as int / b as int;
        let qb = b as int / g as int;
        let qr = (a % b) as int / g as int;
        assert(a as int == (qb * qa + qr) * g) by (nonlinear_arith)
            requires
                a as int == b as int * qa + (a % b) as int,
                b as int == g as int * qb,
                (a % b) as int == g as int * qr,
        ;
        lemma_mod_multiples_basic(qb * qa + qr, g as int);
    }
}

/// The coalesced tick period of a block list: the gcd of the nonzero
/// intervals, folded left to right; 0 when no block is periodic, which
/// disables periodic ticking entirely.
pub open spec fn spec_coalesced(intervals: Seq<u32>) -> nat
    decreases intervals.len(),
{
    if intervals.len() == 0 {
        0
    } else if intervals.last() == 0 {
        spec_coalesced(intervals.drop_last())
    } else {
        spec_gcd(intervals.last() as nat, spec_coalesced(intervals.drop_last()))
    }
}

/// The gcd is greatest: every common divisor of `a` and `b` divides
/// `spec_gcd(a, b)`.
pub proof fn lemma_gcd_greatest(a: nat, b: nat, d: nat)
    requires
        divides(d, a),
        divides(d, b),
    ensures
        divides(d, spec_gcd(a, b)),
    decreases b,
{
    if b == 0 {
    } else {
        lemma_fundamental_div_mod(a as int, b as int);
        lemma_fundamental_div_mod(a as int, d as int);
        lemma_fundamental_div_mod(b as int, d as int);
        let qab = a as int / b as int;
        let qa = a as int / d as int;
        let qb = b as int / d as int;
        assert((a % b) as int == (qa - qb * qab) * d) by (nonlinear_arith)
            requires
                a as int == b as int * qab + (a % b) as int,
                a as int == d as int * qa,
                b as int == d as int * qb,
        ;
        lemma_mod_multiples_basic(qa - qb * qab, d as int);
        assert(divides(d, (a % b) as nat));
        lemma_gcd_greatest(b, a % b, d);
    }
}

/// The coalesced period is 0 exactly when no interval is nonzero — that is,
/// periodic ticking is disabled exactly when no block is periodic — and
/// when it is nonzero it divides every nonzero interval, so a timer firing
/// every `spec_coalesced(intervals)` seconds hits every periodic block's
/// refresh times exactly.
pub proof fn lemma_coalesced_divides_intervals(intervals: Seq<u32>)
    ensures
        (spec_coalesced(intervals) == 0) <==> (forall|i: int|
            0 <= i < intervals.len() ==> intervals[i] == 0),
        forall|i: int|
            0 <= i < intervals.len() && intervals[i] != 0 ==> divides(
                spec_coalesced(intervals),
                intervals[i] as nat,
            ),
    decreases intervals.len(),
{
    if intervals.len() > 0 {
        let init = intervals.drop_last();
        let last = intervals.last();
        lemma_coalesced_divides_intervals(init);
        let q = spec_coalesced(init);
        let p = spec_coalesced(intervals);
        assert(forall|i: int| 0 <= i < init.len() ==> init[i] == intervals[i]);
        if last != 0 {
            lemma_gcd_divides(last as nat, q);
            if q > 0 {
                assert forall|i: int|
                    0 <= i < intervals.len() && intervals[i] != 0 implies divides(
                    p,
                    intervals[i] as nat,
                ) by {
                    if i < init.len() {
                        lemma_divides_transitive(intervals[i] as nat, q, p);
                    }
                }
            }
        }
    }
}

/// The coalesced period is the greatest such tick: any length that
/// divides every nonzero interval divides the coalesced period, so no
/// coarser timer could still hit every periodic block's refresh times.
pub proof fn lemma_coalesced_greatest(intervals: Seq<u32>, d: nat)
    requires
        forall|i: int|
            0 <= i < intervals.len() && intervals[i] != 0 ==> divides(d, intervals[i] as nat),
        spec_coalesced(intervals) != 0,
    ensures
        divides(d, spec_coalesced(intervals)),
    decreases intervals.len(),
{
    let init = intervals.drop_last();
    let last = intervals.last();
    assert(forall|i: int| 0 <= i < init.len() ==> init[i] == intervals[i]);
    if last == 0 {
        lemma_coalesced_greatest(init, d);
    } else {
        let q = spec_coalesced(init);
        assert(divides(d, last as nat));
        if q == 0 {
            assert(spec_gcd(last as nat, 0) == last);
        } else {
            lemma_coalesced_greatest(init, d);
            lemma_gcd_greatest(last as nat, q, d);
        }
    }
}

/// Computes the single timer period driving every periodic block: the gcd
/// of all nonzero intervals. Returns 0 when no block has a nonzero
/// interval, meaning periodic ticking is disabled.
pub fn coalesced_period(blocks: &Vec<Block>) -> (r: u32)
    ensures
        r as nat == spec_coalesced(blocks@.map_values(|b: Block| b.interval)),
        (r == 0) <==> (forall|i: int| 0 <= i < blocks@.len() ==> blocks@[i].interval == 0),
{
    let ghost ivs = blocks@.map_values(|b: Block| b.interval);
    let mut acc: u32 = 0;
    let mut i: usize = 0;
    while i < blocks.len()
        invariant
            i <= blocks.len(),
            ivs == blocks@.map_values(|b: Block| b.interval),
            acc as nat == spec_coalesced(ivs.take(i as int)),
        decreases blocks.len() - i,
    {
        proof {
            assert(ivs.take(i + 1).drop_last() =~= ivs.take(i as int));
            assert(ivs.take(i + 1).last() == ivs[i as int]);
        }
        if blocks[i].interval > 0 {
            acc = gcd(blocks[i].interval, acc);
        }
        i = i + 1;
    }
    proof {
        assert(ivs.take(blocks@.len() as int) =~= ivs);
        lemma_coalesced_divides_intervals(ivs);
        if acc == 0 {
            assert forall|k: int| 0 <= k < blocks@.len() implies blocks@[k].interval == 0 by {
                assert(ivs[k] == 0);
            }
        } else {
            assert(!forall|k: int| 0 <= k < ivs.len() ==> ivs[k] == 0);
            let w = choose|k: int| !(0 <= k < ivs.len() ==> ivs[k] == 0);
            assert(blocks@[w].interval != 0);
        }
    }
    acc
}

/// Identifier of the periodic-tick condition in the multiplexed wait.
/// Reserved: no block may use it as its notification id.
pub const TICK_ID: u32 = 0xFFFF_FFFE;

/// Identifier of the termination condition in the multiplexed wait.
/// Reserved: no block may use it as its notification id.
pub const TERM_ID: u32 = 0xFFFF_FFFF;

/// One wake-up of the scheduler, already decoded from the raw identifier
/// delivered by the multiplexed wait.
pub enum SchedulerEvent {
    /// The coalesced timer fired.
    Tick,
    /// An out-of-band update notification arrived for the block(s)
    /// configured with this id.
    Notification { id: u32 },
    /// The scheduler must exit its loop.
    Terminate,
}

/// A block's configured notification id collides with a reserved
/// identifier or with another block's id.
#[derive(Debug)]
pub enum IdError {
    ReservedCollision { block: usize },
    DuplicateId { first: usize, second: usize },
}

/// The identifiers of `blocks` are valid: no nonzero notification id is a
/// reserved identifier, and no two blocks share a nonzero id — so the
/// termination condition, the tick condition and each block's update
/// condition all map to distinct identifiers.
pub open spec fn spec_ids_valid(blocks: Seq<Block>) -> bool {
    &&& forall|i: int|
        0 <= i < blocks.len() ==> blocks[i].signal != TICK_ID && blocks[i].signal != TERM_ID
    &&& forall|i: int, j: int|
        0 <= i < j < blocks.len() && blocks[i].signal != 0 ==> blocks[i].signal != blocks[j].signal
}

/// Checks the notification-id mapping of a block list at setup time:
/// rejects a nonzero id equal to a reserved identifier (tick or
/// termination) and a nonzero id shared by two blocks.
pub fn validate_notification_ids(blocks: &Vec<Block>) -> (r: Result<(), IdError>)
    ensures
        r is Ok <==> spec_ids_valid(blocks@),
{
    let n = blocks.len();
    let mut i: usize = 0;
    while i < n
        invariant
            i <= n,
            n == blocks.len(),
            forall|k: int|
                0 <= k < i ==> blocks@[k].signal != TICK_ID && blocks@[k].signal != TERM_ID,
            forall|k: int, l: int|
                0 <= k < l < blocks.len() && k < i && blocks@[k].signal != 0 ==> blocks@[k].signal
                    != blocks@[l].signal,
        decreases n - i,
    {
        if blocks[i].signal == TICK_ID || blocks[i].signal == TERM_ID {
            return Err(IdError::ReservedCollision { block: i });
        }
        if blocks[i].signal != 0 {
            let mut j: usize = i + 1;
            while j < n
                invariant
                    i < j,
                    j <= n,
                    n == blocks.len(),
                    blocks@[i as int].signal != 0,
                    forall|l: int|
                        i < l < j ==> blocks@[i as int].signal != blocks@[l].signal,
                decreases n - j,
            {
                if blocks[j].signal == blocks[i].signal {
                    return Err(IdError::DuplicateId { first: i, second: j });
                }
                j = j + 1;
            }
        }
        i = i + 1;
    }
    Ok(())
}

/// Decodes a raw identifier delivered by the multiplexed wait into the
/// event it stands for.
pub fn classify_event(raw: u32) -> (e: SchedulerEvent)
    ensures
        e == if raw == TICK_ID {
            SchedulerEvent::Tick
        } else if raw == TERM_ID {
            SchedulerEvent::Terminate
        } else {
            SchedulerEvent::Notification { id: raw }
        },
{
    if raw == TICK_ID {
        SchedulerEvent::Tick
    } else if raw == TERM_ID {
        SchedulerEvent::Terminate
    } else {
        SchedulerEvent::Notification { id: raw }
    }
}

/// Block `b` is due for re-execution on a tick at time `elapsed`.
pub open spec fn spec_tick_due(b: Block, elapsed: u64) -> bool {
    b.interval != 0 && elapsed % (b.interval as u64) == 0
}

/// Block `b` is addressed by the notification id `id`.
pub open spec fn spec_notified(b: Block, id: u32) -> bool {
    b.signal != 0 && b.signal == id
}

/// What the scheduler's caller must do after one event was handled:
/// re-execute the commands of the blocks listed in `due` (storing each
/// captured output back into the result cache), then, if `redraw` is set,
/// run the block-line draw pass and flush the outgoing protocol requests.
/// A nonzero `rearm` re-arms the timer for that many seconds.
pub struct StepAction {
    pub due: Vec<usize>,
    pub redraw: bool,
    pub rearm: u32,
}

/// `due` lists exactly the indices of the blocks due on a tick at time
/// `elapsed`, in strictly ascending order.
pub open spec fn spec_tick_due_exact(due: Seq<usize>, blocks: Seq<Block>, elapsed: u64) -> bool {
    &&& forall|k: int|
        0 <= k < due.len() ==> due[k] < blocks.len() && spec_tick_due(
            blocks[#[trigger] due[k] as int],
            elapsed,
        )
    &&& forall|i: int|
        0 <= i < blocks.len() && #[trigger] spec_tick_due(blocks[i], elapsed) ==> due.contains(
            i as usize,
        )
    &&& forall|k1: int, k2: int| 0 <= k1 < k2 < due.len() ==> due[k1] < due[k2]
}

/// `due` lists exactly the indices of the blocks addressed by the
/// notification id `id`, in strictly ascending order.
pub open spec fn spec_notified_exact(due: Seq<usize>, blocks: Seq<Block>, id: u32) -> bool {
    &&& forall|k: int|
        0 <= k < due.len() ==> due[k] < blocks.len() && spec_notified(
            blocks[#[trigger] due[k] as int],
            id,
        )
    &&& forall|i: int|
        0 <= i < blocks.len() && #[trigger] spec_notified(blocks[i], id) ==> due.contains(
            i as usize,
        )
    &&& forall|k1: int, k2: int| 0 <= k1 < k2 < due.len() ==> due[k1] < due[k2]
}

/// The scheduler's state: the immutable block list, the cache of each
/// block's latest captured output, the coalesced timer period, the time
/// elapsed since the timer was armed, and whether the loop keeps running.
pub struct Scheduler {
    pub blocks: Vec<Block>,
    pub outputs: Vec<String>,
    pub period: u32,
    pub elapsed: u64,
    pub running: bool,
}

impl Scheduler {
    /// One cached output per block.
    pub open spec fn wf(self) -> bool {
        self.outputs.len() == self.blocks.len()
    }

    /// Sets up the scheduler: computes the coalesced timer period from the
    /// block intervals and seeds the cache with one empty output per block.
    /// A period of 0 means no block is periodic and the timer is never
    /// armed.
    pub fn new(blocks: Vec<Block>) -> (s: Scheduler)
        ensures
            s.wf(),
            s.blocks == blocks,
            s.period as nat == spec_coalesced(blocks@.map_values(|b: Block| b.interval)),
            (s.period == 0) <==> (forall|i: int| 0 <= i < blocks@.len() ==> blocks@[i].interval
                == 0),
            s.elapsed == 0,
            s.running,
            forall|i: int| 0 <= i < s.outputs.len() ==> s.outputs@[i]@ == Seq::<char>::empty(),
    {
        let period = coalesced_period(&blocks);
        let n = blocks.len();
        let mut outputs: Vec<String> = Vec::new();
        let mut i: usize = 0;
        while i < n
            invariant
                i <= n,
                outputs.len() == i,
                forall|k: int| 0 <= k < i ==> outputs@[k]@ == Seq::<char>::empty(),
            decreases n - i,
        {
            outputs.push(String::new());
            i = i + 1;
        }
        Scheduler { blocks, outputs, period, elapsed: 0, running: true }
    }

    /// Overwrites block `i`'s cached output with freshly captured text.
    /// On a failed command execution the caller simply does not call this,
    /// so the previous cached output is retained.
    pub fn store_output(&mut self, i: usize, text: String)
        requires
            i < old(self).outputs.len(),
        ensures
            final(self).outputs@ == old(self).outputs@.update(i as int, text),
            final(self).blocks == old(self).blocks,
            final(self).period == old(self).period,
            final(self).elapsed == old(self).elapsed,
            final(self).running == old(self).running,
    {
        self.outputs[i] = text;
    }

    /// The indices of the blocks due for re-execution on a tick at the
    /// current elapsed time: every periodic block whose interval divides
    /// the elapsed time, in ascending order.
    pub fn tick_due(&self) -> (due: Vec<usize>)
        ensures
            spec_tick_due_exact(due@, self.blocks@, self.elapsed),
    {
        let n = self.blocks.len();
        let mut due: Vec<usize> = Vec::new();
        let mut i: usize = 0;
        while i < n
            invariant
                i <= n,
                n == self.blocks.len(),
                forall|k: int|
                    0 <= k < due@.len() ==> due@[k] < i && spec_tick_due(
                        self.blocks@[#[trigger] due@[k] as int],
                        self.elapsed,
                    ),
                forall|j: int|
                    0 <= j < i && spec_tick_due(self.blocks@[j], self.elapsed) ==> due@.contains(
                        j as usize,
                    ),
                forall|k1: int, k2: int| 0 <= k1 < k2 < due@.len() ==> due@[k1] < due@[k2],
            decreases n - i,
        {
            let ghost prev = due@;
            if self.blocks[i].interval != 0 && self.elapsed % (self.blocks[i].interval as u64)
                == 0 {
                due.push(i);
            }
            proof {
                assert forall|j: int|
                    0 <= j < i + 1 && spec_tick_due(self.blocks@[j], self.elapsed) implies due@
                    .contains(j as usize) by {
                    if j < i {
                        let k = choose|k: int| 0 <= k < prev.len() && prev[k] == j as usize;
                        assert(due@[k] == j as usize);
                    } else {
                        assert(due@[due@.len() - 1] == i as usize);
                    }
                }
            }
            i = i + 1;
        }
        due
    }

    /// The indices of the blocks addressed by notification id `id`, in
    /// ascending order. With a valid id mapping there is at most one.
    pub fn notified(&self, id: u32) -> (due: Vec<usize>)
        ensures
            spec_notified_exact(due@, self.blocks@, id),
    {
        let n = self.blocks.len();
        let mut due: Vec<usize> = Vec::new();
        let mut i: usize = 0;
        while i < n
            invariant
                i <= n,
                n == self.blocks.len(),
                forall|k: int|
                    0 <= k < due@.len() ==> due@[k] < i && spec_notified(
                        self.blocks@[#[trigger] due@[k] as int],
                        id,
                    ),
                forall|j: int|
                    0 <= j < i && spec_notified(self.blocks@[j], id) ==> due@.contains(j as usize),
                forall|k1: int, k2: int| 0 <= k1 < k2 < due@.len() ==> due@[k1] < due@[k2],
            decreases n - i,
        {
            let ghost prev = due@;
            if self.blocks[i].signal != 0 && self.blocks[i].signal == id {
                due.push(i);
            }
            proof {
                assert forall|j: int|
                    0 <= j < i + 1 && spec_notified(self.blocks@[j], id) implies due@.contains(
                    j as usize,
                ) by {
                    if j < i {
                        let k = choose|k: int| 0 <= k < prev.len() && prev[k] == j as usize;
                        assert(due@[k] == j as usize);
                    } else {
                        assert(due@[due@.len() - 1] == i as usize);
                    }
                }
            }
            i = i + 1;
        }
        due
    }

    /// Handles one decoded event, mirroring the body of the scheduler's
    /// wait loop. A tick re-arms the timer, schedules every periodic block
    /// whose interval divides the elapsed time, and advances the elapsed
    /// time by one period. A notification schedules exactly the blocks it
    /// addresses. Termination stops the loop: `running` becomes false, no
    /// block is scheduled, the timer is not re-armed and no redraw is
    /// triggered.
    pub fn step(&mut self, event: SchedulerEvent) -> (action: StepAction)
        requires
            old(self).running,
            (event is Tick ==> old(self).elapsed + old(self).period <= u64::MAX),
        ensures
            final(self).blocks == old(self).blocks,
            final(self).outputs == old(self).outputs,
            final(self).period == old(self).period,
            match event {
                SchedulerEvent::Tick => {
                    &&& final(self).running
                    &&& final(self).elapsed == old(self).elapsed + old(self).period
                    &&& action.rearm == old(self).period
                    &&& action.redraw
                    &&& spec_tick_due_exact(action.due@, old(self).blocks@, old(self).elapsed)
                },
                SchedulerEvent::Notification { id } => {
                    &&& final(self).running
                    &&& final(self).elapsed == old(self).elapsed
                    &&& action.rearm == 0
                    &&& action.redraw
                    &&& spec_notified_exact(action.due@, old(self).blocks@, id)
                },
                SchedulerEvent::Terminate => {
                    &&& !final(self).running
                    &&& final(self).elapsed == old(self).elapsed
                    &&& action.rearm == 0
                    &&& !action.redraw
                    &&& action.due@.len() == 0
                },
            },
    {
        match event {
            SchedulerEvent::Tick => {
                let due = self.tick_due();
                self.elapsed = self.elapsed + (self.period as u64);
                StepAction { due, redraw: true, rearm: self.period }
            },
            SchedulerEvent::Notification { id } => {
                let due = self.notified(id);
                StepAction { due, redraw: true, rearm: 0 }
            },
            SchedulerEvent::Terminate => {
                self.running = false;
                StepAction { due: Vec::new(), redraw: false, rearm: 0 }
            },
        }
    }
}

} // verus!
