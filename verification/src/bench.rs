//! The benchmark run: when it asks for a keyframe, when it ends, and what it
//! counts of the frames it gets.

use vstd::prelude::*;

use crate::encode::{EncodedFrame, EncoderConfig};

verus! {

/// How long to sleep when no frame is waiting, in nanoseconds.
pub const IDLE_SLEEP: u64 = 5_000_000;

/// The encoder settings of a run: a keyframe every two seconds.
pub fn bench_config(
    width: u32,
    height: u32,
    fps: u32,
    bitrate_kbps: u32,
    max_qp: Option<u8>,
) -> (r: EncoderConfig)
    requires
        2 * fps <= u32::MAX,
    ensures
        r.width == width,
        r.height == height,
        r.fps == fps,
        r.bitrate_kbps == bitrate_kbps,
        r.keyframe_interval_frames == 2 * crate::arith::max(fps as int, 1),
        r.max_qp == max_qp,
{
    let rate: u32 = if fps > 1 {
        fps
    } else {
        1
    };
    EncoderConfig {
        width,
        height,
        fps,
        bitrate_kbps,
        keyframe_interval_frames: rate * 2,
        max_qp,
    }
}

/// The sum of a list.
pub open spec fn sum(s: Seq<usize>) -> int
    decreases s.len(),
{
    if s.len() == 0 {
        0
    } else {
        sum(s.drop_last()) + s.last()
    }
}

fn total(s: &[usize]) -> (r: u128)
    ensures
        r == sum(s@),
{
    let n: usize = s.len();
    let mut acc: u128 = 0;
    let mut i: usize = 0;
    while i < n
        invariant
            n == s@.len(),
            i <= n,
            acc == sum(s@.take(i as int)),
            acc <= i * usize::MAX,
        decreases n - i,
    {
        assert(s@.take(i + 1).drop_last() =~= s@.take(i as int));
        assert(acc + s@[i as int] <= (i + 1) * usize::MAX) by (nonlinear_arith)
            requires
                acc <= i * usize::MAX,
                s@[i as int] <= usize::MAX,
        ;
        assert((i + 1) * usize::MAX <= 0xffff_ffff_ffff_ffff * 0xffff_ffff_ffff_ffff)
            by (nonlinear_arith)
            requires
                i + 1 <= usize::MAX,
                usize::MAX <= 0xffff_ffff_ffff_ffff,
        ;
        acc = acc + s[i] as u128;
        i = i + 1;
    }
    assert(s@.take(i as int) =~= s@);
    acc
}

/// In ascending order.
pub open spec fn ascending(s: Seq<usize>) -> bool {
    forall|i: int, j: int| 0 <= i <= j < s.len() ==> s[i] <= s[j]
}

/// Calls `slice::sort_unstable` of the standard library: the same numbers, in
/// ascending order.
#[verifier::external_body]
fn sort(s: &mut Vec<usize>)
    ensures
        ascending(final(s)@),
        final(s)@.to_multiset() == old(s)@.to_multiset(),
{
    s.sort_unstable();
}

/// The place of a percentile among `n` numbers in order, to the nearest.
pub open spec fn rank(n: int, pct: int) -> int {
    crate::arith::min((2 * pct * (n - 1) + 100) / 200, n - 1)
}

/// `r` is the number at that place; 0 where there is none.
pub open spec fn is_percentile(s: Seq<usize>, pct: int, r: usize) -> bool {
    if s.len() == 0 {
        r == 0
    } else {
        exists|in_order: Seq<usize>|
            #![trigger ascending(in_order)]
            ascending(in_order) && in_order.to_multiset() == s.to_multiset() && r == in_order[rank(
                s.len() as int,
                pct,
            )]
    }
}

/// The number that `pct` percent of a list do not exceed.
pub fn percentile(s: &[usize], pct: u32) -> (r: usize)
    ensures
        is_percentile(s@, pct as int, r),
{
    let n: usize = s.len();
    if n == 0 {
        return 0;
    }
    let mut in_order: Vec<usize> = Vec::new();
    in_order.extend_from_slice(s);
    assert(in_order@ =~= s@);
    sort(&mut in_order);
    proof {
        s@.to_multiset_ensures();
        in_order@.to_multiset_ensures();
        assert(in_order@.len() == n);
    }
    let pct_wide: u128 = pct as u128;
    let last: u128 = (n - 1) as u128;
    assert(0 <= 2 * pct_wide * last <= 0x2_0000_0000 * 0xffff_ffff_ffff_ffff) by (nonlinear_arith)
        requires
            0 <= pct_wide <= 0xffff_ffff,
            0 <= last <= 0xffff_ffff_ffff_ffff,
    ;
    let place: u128 = (2 * pct_wide * last + 100) / 200;
    let i: usize = if place < last {
        place as usize
    } else {
        n - 1
    };
    assert(i == rank(n as int, pct as int));
    assert(ascending(in_order@));
    in_order[i]
}

/// What a run does next.
#[derive(Debug, Clone, Copy, PartialEq, Eq, Structural)]
pub enum BenchStep {
    /// Look for a frame; before that, ask for a keyframe.
    RequestKeyframe,
    /// Look for a frame.
    Receive,
    /// Take the frames that are there already, and stop.
    Finish,
}

/// What a run of `run_for` does `elapsed` nanoseconds into it.
pub open spec fn step_at(run_for: u64, requested: bool, elapsed: u64) -> BenchStep {
    if elapsed >= run_for {
        BenchStep::Finish
    } else if !requested && elapsed >= run_for / 2 {
        BenchStep::RequestKeyframe
    } else {
        BenchStep::Receive
    }
}

/// A run and what it has counted.
pub struct Bench {
    pub run_for: u64,
    pub requested: bool,
    pub sizes: Vec<usize>,
    pub keyframe_sizes: Vec<usize>,
    pub delta_sizes: Vec<usize>,
    pub latencies_us: Vec<usize>,
}

/// What a run came to. Averages are left to the reader: each sum comes with its
/// count.
#[derive(Debug, Clone, Copy, PartialEq, Eq, Structural)]
pub struct BenchReport {
    pub frames: usize,
    pub total_bytes: u128,
    pub p95_bytes: usize,
    pub keyframes: usize,
    pub keyframe_bytes: u128,
    pub deltas: usize,
    pub delta_bytes: u128,
    pub latency_us: u128,
    pub p95_latency_us: usize,
}

/// The time from capture to the encoded frame, in microseconds.
pub open spec fn latency_us(frame: EncodedFrame) -> int {
    crate::arith::monus(frame.ts as int, frame.captured_at as int) / 1000
}

impl Bench {
    /// Every frame is counted once among all, once by its kind and once by its
    /// latency.
    pub open spec fn wf(&self) -> bool {
        &&& self.sizes@.len() == self.keyframe_sizes@.len() + self.delta_sizes@.len()
        &&& self.latencies_us@.len() == self.sizes@.len()
        &&& sum(self.sizes@) == sum(self.keyframe_sizes@) + sum(self.delta_sizes@)
    }

    pub fn new(seconds: u32) -> (r: Self)
        ensures
            r.wf(),
            r.run_for == seconds * 1_000_000_000,
            !r.requested,
            r.sizes@.len() == 0,
    {
        let secs: u64 = seconds as u64;
        Bench {
            run_for: secs * 1_000_000_000,
            requested: false,
            sizes: Vec::new(),
            keyframe_sizes: Vec::new(),
            delta_sizes: Vec::new(),
            latencies_us: Vec::new(),
        }
    }

    /// Decides what to do `elapsed` nanoseconds into the run. Halfway through a
    /// keyframe is asked for, once.
    pub fn step(&mut self, elapsed: u64) -> (r: BenchStep)
        ensures
            r == step_at(old(self).run_for, old(self).requested, elapsed),
            *final(self) == (Bench {
                requested: old(self).requested || r == BenchStep::RequestKeyframe,
                ..*old(self)
            }),
    {
        if elapsed >= self.run_for {
            return BenchStep::Finish;
        }
        if !self.requested && elapsed >= self.run_for / 2 {
            self.requested = true;
            return BenchStep::RequestKeyframe;
        }
        BenchStep::Receive
    }

    /// Counts a frame.
    pub fn record(&mut self, frame: &EncodedFrame)
        requires
            old(self).wf(),
            latency_us(*frame) <= usize::MAX,
        ensures
            final(self).wf(),
            final(self).run_for == old(self).run_for,
            final(self).requested == old(self).requested,
            final(self).sizes@ == old(self).sizes@.push(frame.data@.len() as usize),
            final(self).keyframe_sizes@ == (if frame.keyframe {
                old(self).keyframe_sizes@.push(frame.data@.len() as usize)
            } else {
                old(self).keyframe_sizes@
            }),
            final(self).delta_sizes@ == (if frame.keyframe {
                old(self).delta_sizes@
            } else {
                old(self).delta_sizes@.push(frame.data@.len() as usize)
            }),
            final(self).latencies_us@ == old(self).latencies_us@.push(latency_us(*frame) as usize),
    {
        let size: usize = frame.data.len();
        let ghost before = *self;
        self.sizes.push(size);
        assert(self.sizes@.drop_last() =~= before.sizes@);
        if frame.keyframe {
            self.keyframe_sizes.push(size);
            assert(self.keyframe_sizes@.drop_last() =~= before.keyframe_sizes@);
        } else {
            self.delta_sizes.push(size);
            assert(self.delta_sizes@.drop_last() =~= before.delta_sizes@);
        }
        let latency: u64 = if frame.ts > frame.captured_at {
            frame.ts - frame.captured_at
        } else {
            0
        };
        self.latencies_us.push((latency / 1000) as usize);
    }

    /// Sums up the run.
    pub fn report(&self) -> (r: BenchReport)
        requires
            self.wf(),
        ensures
            r.frames == self.sizes@.len(),
            r.total_bytes == sum(self.sizes@),
            is_percentile(self.sizes@, 95, r.p95_bytes),
            r.keyframes == self.keyframe_sizes@.len(),
            r.keyframe_bytes == sum(self.keyframe_sizes@),
            r.deltas == self.delta_sizes@.len(),
            r.delta_bytes == sum(self.delta_sizes@),
            r.latency_us == sum(self.latencies_us@),
            is_percentile(self.latencies_us@, 95, r.p95_latency_us),
            r.frames == r.keyframes + r.deltas,
            r.total_bytes == r.keyframe_bytes + r.delta_bytes,
    {
        BenchReport {
            frames: self.sizes.len(),
            total_bytes: total(self.sizes.as_slice()),
            p95_bytes: percentile(self.sizes.as_slice(), 95),
            keyframes: self.keyframe_sizes.len(),
            keyframe_bytes: total(self.keyframe_sizes.as_slice()),
            deltas: self.delta_sizes.len(),
            delta_bytes: total(self.delta_sizes.as_slice()),
            latency_us: total(self.latencies_us.as_slice()),
            p95_latency_us: percentile(self.latencies_us.as_slice(), 95),
        }
    }
}

/// A percentile is one value: whatever way the numbers are put in order.
pub proof fn law_a_percentile_is_one_value(s: Seq<usize>, pct: int, a: usize, b: usize)
    requires
        is_percentile(s, pct, a),
        is_percentile(s, pct, b),
    ensures
        a == b,
{
    if s.len() > 0 {
        let k = rank(s.len() as int, pct);
        let x = choose|x: Seq<usize>|
            #![trigger ascending(x)]
            ascending(x) && x.to_multiset() == s.to_multiset() && a == x[k];
        let y = choose|y: Seq<usize>|
            #![trigger ascending(y)]
            ascending(y) && y.to_multiset() == s.to_multiset() && b == y[k];
        let leq = |p: usize, q: usize| p <= q;
        assert(vstd::relations::sorted_by(x, leq));
        assert(vstd::relations::sorted_by(y, leq));
        vstd::seq_lib::lemma_sorted_unique(x, y, leq);
    }
}

/// A run ends when its time is up and not before. In its second half, and not
/// before, it asks for a keyframe, unless it has.
pub proof fn law_a_run_has_two_halves(run_for: u64, requested: bool, elapsed: u64)
    ensures
        step_at(run_for, requested, elapsed) == BenchStep::Finish <==> elapsed >= run_for,
        step_at(run_for, requested, elapsed) == BenchStep::RequestKeyframe ==> !requested
            && elapsed * 2 + 1 >= run_for,
        !requested && elapsed * 2 >= run_for && elapsed < run_for ==> step_at(
            run_for,
            requested,
            elapsed,
        ) == BenchStep::RequestKeyframe,
        requested && elapsed < run_for ==> step_at(run_for, requested, elapsed)
            == BenchStep::Receive,
{
}

/// The place of a percentile is the nearest to its share of the way through, and
/// always one of the places there are.
pub proof fn law_percentiles_lie_at_their_share(n: int, pct: int)
    requires
        n > 0,
        0 <= pct <= 100,
    ensures
        0 <= rank(n, pct) < n,
        -100 <= 200 * rank(n, pct) - 2 * (pct * (n - 1)) <= 100,
{
    let share = pct * (n - 1);
    assert(0 <= share <= 100 * (n - 1)) by (nonlinear_arith)
        requires
            share == pct * (n - 1),
            0 <= pct <= 100,
            n > 0,
    ;
    assert(2 * pct * (n - 1) == 2 * share) by (nonlinear_arith)
        requires
            share == pct * (n - 1),
    ;
}

/// A latency counts the whole microseconds from the capture to the finished frame.
pub proof fn law_latency_counts_microseconds(frame: EncodedFrame)
    requires
        frame.captured_at <= frame.ts,
    ensures
        latency_us(frame) * 1000 <= frame.ts - frame.captured_at < latency_us(frame) * 1000 + 1000,
{
}

} // verus!
