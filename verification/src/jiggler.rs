//! The movement engine: what the cursor does on each tick of a run.
//!
//! Time is counted in whole milliseconds. The desktop shell runs the loop:
//! it reads the running flag, asks the [`Jiggler`] what to do, performs the
//! cursor move it is told to, and reports back. The smooth curves of the
//! default and wobbling paths use trigonometry and are computed by the shell;
//! everything that decides, bounds, restores and schedules is here.
use vstd::prelude::*;

use crate::config::{MovementDistance, MovementMode};
use crate::platform::Platform;
use crate::screens::{clamp, Bounds};

verus! {

/// Length of one movement tick.
pub const STEP_MS: u32 = 30;

/// Sleep between checks of the running flag while stopped.
pub const IDLE_STEP_MS: u64 = 120;

/// Edge-to-edge speed: 1200 px/s, that is 6 px every 5 ms.
pub const EDGE_SPEED_PX_PER_SEC: u64 = 1200;

/// Random bursts move 320 px/s; one 30 ms tick is 9.6 px, commanded as 10 px.
pub const RANDOM_STEP_PX: i32 = 10;

/// Random bursts never command more than this horizontal offset from the origin.
pub const RANDOM_RADIUS_X: i32 = 640;

/// The realistic-mode vertical wobble of a random run stays within this many pixels.
pub const RANDOM_WOBBLE_Y_PX: i32 = 10;

/// A random burst lasts at least this long ...
pub const RANDOM_MIN_DURATION_MS: u64 = 1000;

/// ... and less than this.
pub const RANDOM_MAX_DURATION_MS: u64 = 10000;

/// Realistic mode moves for at least this long before a micro-break ...
pub const PAUSE_MOVE_MIN_MS: u64 = 1000;

/// ... and less than this.
pub const PAUSE_MOVE_MAX_MS: u64 = 20000;

/// A micro-break lasts at least this long ...
pub const PAUSE_MIN_MS: u64 = 5000;

/// ... and less than this.
pub const PAUSE_MAX_MS: u64 = 15000;

/// A value below `hi` and at least `lo`, drawn from the thread-local generator.
///
/// Calls `fastrand::u64` with the range `lo..hi`; its documentation and source
/// promise a value in that range and panic only on an empty range, which the
/// precondition excludes. Which value comes out is left open.
#[verifier::external_body]
fn random_in_range(lo: u64, hi: u64) -> (r: u64)
    requires
        lo < hi,
    ensures
        lo <= r < hi,
{
    fastrand::u64(lo..hi)
}

/// A fair coin from the thread-local generator (`fastrand::bool`); nothing is
/// promised about which side comes up.
#[verifier::external_body]
fn random_bool() -> bool {
    fastrand::bool()
}

/// Whether the realistic-mode scheduler is in a moving or a pausing interval.
#[derive(Clone, Copy, Debug, PartialEq, Eq, Structural)]
pub enum PausePhase {
    Moving,
    Pausing,
}

/// The mathematical value of a [`PauseState`].
pub struct PauseView {
    pub phase: PausePhase,
    pub elapsed_ms: nat,
    pub duration_ms: nat,
}

/// Lower end of the interval length for a phase.
pub open spec fn phase_min_ms(phase: PausePhase) -> nat {
    match phase {
        PausePhase::Moving => PAUSE_MOVE_MIN_MS as nat,
        PausePhase::Pausing => PAUSE_MIN_MS as nat,
    }
}

/// Upper end (exclusive) of the interval length for a phase.
pub open spec fn phase_max_ms(phase: PausePhase) -> nat {
    match phase {
        PausePhase::Moving => PAUSE_MOVE_MAX_MS as nat,
        PausePhase::Pausing => PAUSE_MAX_MS as nat,
    }
}

pub open spec fn flipped(phase: PausePhase) -> PausePhase {
    match phase {
        PausePhase::Moving => PausePhase::Pausing,
        PausePhase::Pausing => PausePhase::Moving,
    }
}

impl PauseView {
    /// The current interval has a length in its phase's range and has not run out.
    pub open spec fn wf(self) -> bool {
        &&& phase_min_ms(self.phase) <= self.duration_ms < phase_max_ms(self.phase)
        &&& self.elapsed_ms < self.duration_ms
    }
}

/// One update of the scheduler by `dt` milliseconds: the interval clock runs,
/// and when it reaches the interval's length the phase flips and a fresh
/// interval of the new phase begins.
pub open spec fn pause_step(old: PauseView, new: PauseView, dt: nat) -> bool {
    if old.elapsed_ms + dt >= old.duration_ms {
        &&& new.phase == flipped(old.phase)
        &&& new.elapsed_ms == 0
        &&& phase_min_ms(new.phase) <= new.duration_ms < phase_max_ms(new.phase)
    } else {
        new == PauseView { elapsed_ms: old.elapsed_ms + dt, ..old }
    }
}

/// Realistic-mode micro-break scheduler. Alternates between a moving phase
/// (1..20 s) and a pausing phase (5..15 s); a pause always flips back to moving.
#[derive(Clone, Copy, Debug)]
pub struct PauseState {
    phase: PausePhase,
    elapsed_ms: u64,
    duration_ms: u64,
}

impl View for PauseState {
    type V = PauseView;

    closed spec fn view(&self) -> PauseView {
        PauseView {
            phase: self.phase,
            elapsed_ms: self.elapsed_ms as nat,
            duration_ms: self.duration_ms as nat,
        }
    }
}

/// A moving-interval length in `PAUSE_MOVE_MIN_MS..PAUSE_MOVE_MAX_MS`.
pub fn random_moving_duration() -> (r: u64)
    ensures
        PAUSE_MOVE_MIN_MS <= r < PAUSE_MOVE_MAX_MS,
{
    random_in_range(PAUSE_MOVE_MIN_MS, PAUSE_MOVE_MAX_MS)
}

/// A pause length in `PAUSE_MIN_MS..PAUSE_MAX_MS`.
pub fn random_pause_duration() -> (r: u64)
    ensures
        PAUSE_MIN_MS <= r < PAUSE_MAX_MS,
{
    random_in_range(PAUSE_MIN_MS, PAUSE_MAX_MS)
}

impl PauseState {
    /// A scheduler at the start of a one-second moving interval.
    pub fn new() -> (r: PauseState)
        ensures
            r@ == (PauseView { phase: PausePhase::Moving, elapsed_ms: 0, duration_ms: PAUSE_MOVE_MIN_MS as nat }),
            r@.wf(),
    {
        PauseState { phase: PausePhase::Moving, elapsed_ms: 0, duration_ms: PAUSE_MOVE_MIN_MS }
    }

    /// The current phase.
    pub fn phase(&self) -> (r: PausePhase)
        ensures
            r == self@.phase,
    {
        self.phase
    }

    /// Start over with a fresh moving interval of random length.
    pub fn restart(&mut self)
        ensures
            final(self)@.phase == PausePhase::Moving,
            final(self)@.elapsed_ms == 0,
            final(self)@.wf(),
    {
        self.phase = PausePhase::Moving;
        self.elapsed_ms = 0;
        self.duration_ms = random_moving_duration();
    }

    /// Advance the interval clock by `dt_ms`, flipping phase when an interval
    /// ends. Returns whether the cursor should move on this tick.
    pub fn update(&mut self, dt_ms: u32) -> (moving: bool)
        requires
            old(self)@.wf(),
        ensures
            pause_step(old(self)@, final(self)@, dt_ms as nat),
            final(self)@.wf(),
            moving == (final(self)@.phase == PausePhase::Moving),
    {
        let elapsed = self.elapsed_ms + dt_ms as u64;
        if elapsed >= self.duration_ms {
            self.elapsed_ms = 0;
            match self.phase {
                PausePhase::Moving => {
                    self.phase = PausePhase::Pausing;
                    self.duration_ms = random_pause_duration();
                },
                PausePhase::Pausing => {
                    self.phase = PausePhase::Moving;
                    self.duration_ms = random_moving_duration();
                },
            }
        } else {
            self.elapsed_ms = elapsed;
        }
        self.phase == PausePhase::Moving
    }
}

/// An interval never outlasts its phase's maximum: along any run of updates
/// by `dt > 0` that all stay in one phase, the time spent is less than that
/// phase's upper bound. In particular a pause always ends within
/// `PAUSE_MAX_MS`, and movement always resumes.
pub proof fn lemma_interval_bounded(states: Seq<PauseView>, dt: nat)
    requires
        dt > 0,
        states.len() >= 1,
        states[0].wf(),
        forall|i: int| 0 <= i < states.len() - 1 ==> #[trigger] pause_step(states[i], states[i + 1], dt),
        forall|i: int| 0 <= i < states.len() ==> #[trigger] states[i].phase == states[0].phase,
    ensures
        (states.len() - 1) * dt < phase_max_ms(states[0].phase),
{
    lemma_interval_clock(states, dt, states.len() - 1);
}

/// The scheduler stayed in one phase from update `i` through update `j`.
pub open spec fn same_phase(states: Seq<PauseView>, i: int, j: int) -> bool {
    forall|k: int| i <= k <= j ==> #[trigger] states[k].phase == states[i].phase
}

/// Realistic mode alternates and always resumes. Along any run of scheduler
/// updates by `dt > 0` from a well-formed state, every stretch of updates
/// spent in one phase lasts less than that phase's maximum (a pause ends
/// within `PAUSE_MAX_MS`, movement within `PAUSE_MOVE_MAX_MS`), and every
/// stretch of at least `PAUSE_MOVE_MAX_MS` holds a flip to the other phase:
/// movement is followed by a pause, and a pause by movement again.
pub proof fn lemma_pause_alternates(states: Seq<PauseView>, dt: nat)
    requires
        dt > 0,
        states.len() >= 1,
        states[0].wf(),
        forall|i: int| 0 <= i < states.len() - 1 ==> #[trigger] pause_step(states[i], states[i + 1], dt),
    ensures
        forall|i: int, j: int|
            0 <= i <= j < states.len() && #[trigger] same_phase(states, i, j)
                ==> (j - i) * dt < phase_max_ms(states[i].phase),
        forall|i: int, j: int|
            0 <= i <= j < states.len() && (j - i) * dt >= PAUSE_MOVE_MAX_MS
                ==> #[trigger] has_flip(states, i, j),
{
    assert forall|i: int, j: int|
        0 <= i <= j < states.len() && #[trigger] same_phase(states, i, j)
            implies (j - i) * dt < phase_max_ms(states[i].phase) by {
        lemma_window_bounded(states, dt, i, j);
    }
    assert forall|i: int, j: int|
        0 <= i <= j < states.len() && (j - i) * dt >= PAUSE_MOVE_MAX_MS
            implies #[trigger] has_flip(states, i, j) by {
        lemma_window_flips(states, dt, i, j);
    }
}

/// Some update after `i`, up to `j`, is in the other phase than update `i`.
pub open spec fn has_flip(states: Seq<PauseView>, i: int, j: int) -> bool {
    exists|k: int| i < k <= j && #[trigger] states[k].phase == flipped(states[i].phase)
}

proof fn lemma_window_flips(states: Seq<PauseView>, dt: nat, i: int, j: int)
    requires
        dt > 0,
        0 <= i <= j < states.len(),
        (j - i) * dt >= PAUSE_MOVE_MAX_MS,
        states[0].wf(),
        forall|n: int| 0 <= n < states.len() - 1 ==> #[trigger] pause_step(states[n], states[n + 1], dt),
    ensures
        has_flip(states, i, j),
{
    if !has_flip(states, i, j) {
        assert forall|k: int| i <= k <= j implies #[trigger] states[k].phase == states[i].phase by {
            if k > i {
                assert(!(states[k].phase == flipped(states[i].phase)));
            }
        }
        lemma_window_bounded(states, dt, i, j);
        assert(phase_max_ms(states[i].phase) <= PAUSE_MOVE_MAX_MS);
    }
}

proof fn lemma_pause_wf(states: Seq<PauseView>, dt: nat, k: int)
    requires
        dt > 0,
        0 <= k < states.len(),
        states[0].wf(),
        forall|i: int| 0 <= i < states.len() - 1 ==> #[trigger] pause_step(states[i], states[i + 1], dt),
    ensures
        states[k].wf(),
    decreases k,
{
    if k > 0 {
        lemma_pause_wf(states, dt, k - 1);
        assert(pause_step(states[k - 1], states[k - 1 + 1], dt));
    }
}

proof fn lemma_window_bounded(states: Seq<PauseView>, dt: nat, i: int, j: int)
    requires
        dt > 0,
        0 <= i <= j < states.len(),
        states[0].wf(),
        forall|n: int| 0 <= n < states.len() - 1 ==> #[trigger] pause_step(states[n], states[n + 1], dt),
        same_phase(states, i, j),
    ensures
        (j - i) * dt < phase_max_ms(states[i].phase),
{
    lemma_pause_wf(states, dt, i);
    let sub = states.subrange(i, j + 1);
    assert forall|n: int| 0 <= n < sub.len() - 1 implies #[trigger] pause_step(sub[n], sub[n + 1], dt) by {
        assert(pause_step(states[i + n], states[i + n + 1], dt));
    }
    assert forall|n: int| 0 <= n < sub.len() implies #[trigger] sub[n].phase == sub[0].phase by {
        assert(states[i + n].phase == states[i].phase);
    }
    lemma_interval_bounded(sub, dt);
}

proof fn lemma_interval_clock(states: Seq<PauseView>, dt: nat, k: int)
    requires
        dt > 0,
        0 <= k < states.len(),
        states[0].wf(),
        forall|i: int| 0 <= i < states.len() - 1 ==> #[trigger] pause_step(states[i], states[i + 1], dt),
        forall|i: int| 0 <= i < states.len() ==> #[trigger] states[i].phase == states[0].phase,
    ensures
        states[k].elapsed_ms == states[0].elapsed_ms + k * dt,
        states[k].duration_ms == states[0].duration_ms,
        states[k].wf(),
    decreases k,
{
    if k > 0 {
        lemma_interval_clock(states, dt, k - 1);
        let j = k - 1;
        assert(pause_step(states[j], states[j + 1], dt));
        assert(j + 1 == k);
        assert(states[k].phase == states[0].phase);
        assert(states[k - 1].phase == states[0].phase);
        if states[k - 1].elapsed_ms + dt >= states[k - 1].duration_ms {
            assert(states[k].phase == flipped(states[k - 1].phase));
            assert(false);
        }
        assert(states[k].elapsed_ms == states[0].elapsed_ms + (k - 1) * dt + dt) by (nonlinear_arith)
            requires
                states[k].elapsed_ms == states[k - 1].elapsed_ms + dt,
                states[k - 1].elapsed_ms == states[0].elapsed_ms + (k - 1) * dt,
        ;
        assert(states[0].elapsed_ms + (k - 1) * dt + dt == states[0].elapsed_ms + k * dt) by (nonlinear_arith);
    }
}

/// The mathematical value of a [`RandomState`].
pub struct RandomView {
    pub dir: int,
    pub duration_ms: nat,
    pub burst_elapsed_ms: nat,
}

impl RandomView {
    /// A direction of one unit and a burst length in range that has not run out.
    pub open spec fn wf(self) -> bool {
        &&& (self.dir == 1 || self.dir == -1)
        &&& RANDOM_MIN_DURATION_MS <= self.duration_ms < RANDOM_MAX_DURATION_MS
        &&& self.burst_elapsed_ms < self.duration_ms
    }

    /// A burst of one-unit direction and a length in range, as a reroll draws it.
    pub open spec fn fresh(self) -> bool {
        &&& (self.dir == 1 || self.dir == -1)
        &&& RANDOM_MIN_DURATION_MS <= self.duration_ms < RANDOM_MAX_DURATION_MS
    }
}

/// Random-distance burst state: the current direction, how long the burst
/// lasts, and how long it has run.
#[derive(Clone, Copy, Debug)]
pub struct RandomState {
    dir: i32,
    duration_ms: u64,
    burst_elapsed_ms: u64,
}

impl View for RandomState {
    type V = RandomView;

    closed spec fn view(&self) -> RandomView {
        RandomView {
            dir: self.dir as int,
            duration_ms: self.duration_ms as nat,
            burst_elapsed_ms: self.burst_elapsed_ms as nat,
        }
    }
}

impl RandomState {
    /// Rightwards, for the shortest burst, not yet begun.
    pub fn new() -> (r: RandomState)
        ensures
            r@ == (RandomView { dir: 1, duration_ms: RANDOM_MIN_DURATION_MS as nat, burst_elapsed_ms: 0 }),
            r@.wf(),
    {
        RandomState { dir: 1, duration_ms: RANDOM_MIN_DURATION_MS, burst_elapsed_ms: 0 }
    }

    /// The direction of the current burst: 1 (right) or -1 (left).
    pub fn dir(&self) -> (r: i32)
        ensures
            r == self@.dir,
    {
        self.dir
    }

    /// The length of the current burst in milliseconds.
    pub fn duration_ms(&self) -> (r: u64)
        ensures
            r == self@.duration_ms,
    {
        self.duration_ms
    }

    /// Pick a new direction and burst length at random.
    pub fn reroll(&mut self)
        ensures
            final(self)@.fresh(),
            final(self)@.burst_elapsed_ms == old(self)@.burst_elapsed_ms,
    {
        self.dir = if random_bool() { 1 } else { -1 };
        self.duration_ms = random_in_range(RANDOM_MIN_DURATION_MS, RANDOM_MAX_DURATION_MS);
    }
}

/// How the cursor goes back to where a run started.
#[derive(Clone, Copy, Debug, PartialEq, Eq, Structural)]
pub enum RestoreMove {
    /// Move to this absolute position (edge-to-edge runs).
    Absolute(i32, i32),
    /// Move by this offset (default and random runs).
    Relative(i32, i32),
}

/// What the shell found out about absolute positioning when a run starts.
#[derive(Clone, Copy, Debug)]
pub struct EdgeProbe {
    /// The cursor backend can place the cursor at absolute coordinates.
    pub supports_absolute: bool,
    /// Combined bounds of every screen, if known.
    pub bounds: Option<Bounds>,
    /// The cursor position when the run starts, if known.
    pub origin: Option<(i32, i32)>,
}

/// The edge-to-edge sweep can be driven inside these bounds on this platform.
/// On Linux the X11 absolute move takes 16-bit coordinates, so a virtual
/// desktop wider or taller than `i16::MAX` cannot be swept there.
pub open spec fn spec_edge_bounds_supported(bounds: Bounds, platform: Platform) -> bool {
    platform == Platform::Linux ==> (bounds.max_x <= i16::MAX && bounds.max_y <= i16::MAX)
}

/// Whether the edge-to-edge sweep can be driven inside `bounds` on `platform`.
pub fn edge_bounds_supported(bounds: Bounds, platform: Platform) -> (r: bool)
    ensures
        r == spec_edge_bounds_supported(bounds, platform),
{
    match platform {
        Platform::Linux => bounds.max_x <= i16::MAX as i32 && bounds.max_y <= i16::MAX as i32,
        _ => true,
    }
}

/// Horizontal position of the edge-to-edge sweep after `elapsed_ms` of
/// movement: a triangle wave over the full width at 1200 px/s, starting at
/// the left edge, rounded to the nearest pixel.
pub open spec fn sweep_x(bounds: Bounds, elapsed_ms: nat) -> int {
    let span: int = bounds.max_x - bounds.min_x;
    if span <= 0 {
        bounds.min_x as int
    } else {
        // Distance travelled, in fifths of a pixel, folded into one back-and-forth.
        let q: int = (6 * (elapsed_ms as int)) % (10 * span);
        let fifths: int = if q <= 5 * span { q } else { 10 * span - q };
        bounds.min_x + (fifths + 2) / 5
    }
}

/// The edge-to-edge sweep is a triangle wave, not a sawtooth. From one
/// millisecond to the next its column moves by at most 2 px (1.2 px of
/// travel, rounded), so it never jumps across the desktop; while heading out
/// (before the turning point, `6 * e <= 5 * span` fifths of a pixel) it never
/// moves left, and on the way back it never moves right; and one back-and-forth
/// is symmetric: the columns at `e1` and `e2` agree whenever
/// `6 * e1 + 6 * e2` is one full round trip of `10 * span` fifths.
pub proof fn lemma_sweep_is_triangle(
    mode: MovementMode,
    bounds: Bounds,
    origin_y: int,
    wobble: int,
    e: nat,
    e2: nat,
)
    requires
        bounds.valid(),
    ensures
        ({
            let span = bounds.max_x - bounds.min_x;
            let x0 = spec_edge_position(mode, bounds, origin_y, e, wobble).0;
            let x1 = spec_edge_position(mode, bounds, origin_y, e + 1, wobble).0;
            &&& -2 <= x1 - x0 <= 2
            &&& 6 * (e + 1) <= 5 * span ==> x0 <= x1
            &&& 5 * span <= 6 * e && 6 * (e + 1) < 10 * span ==> x1 <= x0
            &&& 6 * e + 6 * e2 == 10 * span ==> spec_edge_position(mode, bounds, origin_y, e2, wobble).0 == x0
        }),
{
    lemma_sweep_in_bounds(bounds, e);
    lemma_sweep_in_bounds(bounds, e + 1);
    lemma_sweep_in_bounds(bounds, e2);
    let span: int = bounds.max_x - bounds.min_x;
    if span > 0 {
        let m: int = 10 * span;
        let a: int = 6 * (e as int);
        let k: int = a / m;
        let q: int = a % m;
        vstd::arithmetic::div_mod::lemma_fundamental_div_mod(a, m);
        assert(0 <= q < m) by (nonlinear_arith)
            requires m > 0, q == a % m;
        assert(a == k * m + q) by (nonlinear_arith)
            requires a == m * (a / m) + (a % m), k == a / m, q == a % m;
        let q1: int = (6 * ((e + 1) as int)) % m;
        if q + 6 < m {
            vstd::arithmetic::div_mod::lemma_fundamental_div_mod_converse(a + 6, m, k, q + 6);
            assert(q1 == q + 6);
        } else {
            assert(a + 6 == (k + 1) * m + (q + 6 - m)) by (nonlinear_arith)
                requires a == k * m + q;
            vstd::arithmetic::div_mod::lemma_fundamental_div_mod_converse(a + 6, m, k + 1, q + 6 - m);
            assert(q1 == q + 6 - m);
        }
        let f0: int = if q <= 5 * span { q } else { m - q };
        let f1: int = if q1 <= 5 * span { q1 } else { m - q1 };
        assert(0 <= f0 && 0 <= f1);
        assert(-6 <= f1 - f0 <= 6);
        assert(sweep_x(bounds, e) == bounds.min_x + (f0 + 2) / 5);
        assert(sweep_x(bounds, e + 1) == bounds.min_x + (f1 + 2) / 5);
        assert(-2 <= (f1 + 2) / 5 - (f0 + 2) / 5 <= 2) by (nonlinear_arith)
            requires -6 <= f1 - f0 <= 6, f0 >= 0, f1 >= 0;
        if 6 * (e + 1) <= 5 * span {
            assert(k == 0 && q == a) by (nonlinear_arith)
                requires a == k * m + q, 0 <= q < m, 0 <= a, a + 6 <= 5 * span, m == 10 * span, span > 0;
            assert(f1 == f0 + 6);
            assert((f0 + 2) / 5 <= (f1 + 2) / 5) by (nonlinear_arith)
                requires f1 == f0 + 6, f0 >= 0;
        }
        if 5 * span <= 6 * e && 6 * (e + 1) < 10 * span {
            assert(k == 0 && q == a) by (nonlinear_arith)
                requires a == k * m + q, 0 <= q < m, 0 <= a, a + 6 < m;
            assert(f1 == f0 - 6);
            assert((f1 + 2) / 5 <= (f0 + 2) / 5) by (nonlinear_arith)
                requires f1 == f0 - 6, f1 >= 0;
        }
        if 6 * e + 6 * e2 == 10 * span {
            let b2: int = 6 * (e2 as int);
            let q2: int = b2 % m;
            if a == m {
                assert(b2 == 0);
                vstd::arithmetic::div_mod::lemma_fundamental_div_mod_converse(a, m, 1, 0);
                vstd::arithmetic::div_mod::lemma_fundamental_div_mod_converse(b2, m, 0, 0);
                assert(q == 0 && q2 == 0);
            } else if a == 0 {
                assert(b2 == m);
                vstd::arithmetic::div_mod::lemma_fundamental_div_mod_converse(a, m, 0, 0);
                vstd::arithmetic::div_mod::lemma_fundamental_div_mod_converse(b2, m, 1, 0);
                assert(q == 0 && q2 == 0);
            } else {
                vstd::arithmetic::div_mod::lemma_fundamental_div_mod_converse(a, m, 0, a);
                vstd::arithmetic::div_mod::lemma_fundamental_div_mod_converse(b2, m, 0, b2);
                assert(q == a && q2 == m - a);
            }
            let f2: int = if q2 <= 5 * span { q2 } else { m - q2 };
            assert(f2 == f0);
            assert(sweep_x(bounds, e2) == bounds.min_x + (f2 + 2) / 5);
        }
    }
}

/// The point of the edge-to-edge sweep: the sweep's column, and the origin's
/// row (moved by `wobble` pixels in realistic mode), both kept inside `bounds`.
pub open spec fn spec_edge_position(
    mode: MovementMode,
    bounds: Bounds,
    origin_y: int,
    elapsed_ms: nat,
    wobble: int,
) -> (int, int) {
    let x = clamp(sweep_x(bounds, elapsed_ms), bounds.min_x as int, bounds.max_x as int);
    let base_y = clamp(origin_y, bounds.min_y as int, bounds.max_y as int);
    let y = match mode {
        MovementMode::Simple => base_y,
        MovementMode::Realistic => clamp(base_y + wobble, bounds.min_y as int, bounds.max_y as int),
    };
    (x, y)
}

proof fn lemma_sweep_in_bounds(bounds: Bounds, elapsed_ms: nat)
    requires
        bounds.valid(),
    ensures
        bounds.min_x <= sweep_x(bounds, elapsed_ms) <= bounds.max_x,
{
    let span: int = bounds.max_x - bounds.min_x;
    if span > 0 {
        let m: int = 10 * span;
        let e: int = elapsed_ms as int;
        let q: int = (6 * e) % m;
        assert(0 <= q < m) by (nonlinear_arith)
            requires m > 0, q == (6 * e) % m;
        let fifths: int = if q <= 5 * span { q } else { 10 * span - q };
        assert(0 <= fifths <= 5 * span);
        assert(0 <= (fifths + 2) / 5 <= span) by (nonlinear_arith)
            requires 0 <= fifths <= 5 * span, span > 0;
    }
}

/// The sweep starts at the left edge and, within the first back-and-forth,
/// comes within one pixel of the right edge (ticks fall on whole milliseconds,
/// so the exact turning point is not always sampled).
pub proof fn lemma_sweep_reaches_edges(bounds: Bounds)
    requires
        bounds.valid(),
    ensures
        sweep_x(bounds, 0) == bounds.min_x,
        exists|e: nat| #[trigger] sweep_x(bounds, e) >= bounds.max_x - 1,
{
    let span: int = bounds.max_x - bounds.min_x;
    assert(sweep_x(bounds, 0) == bounds.min_x) by {
        if span > 0 {
            assert((6 * 0int) % (10 * span) == 0) by (nonlinear_arith)
                requires span > 0;
        }
    }
    if span <= 0 {
        assert(sweep_x(bounds, 0) >= bounds.max_x - 1);
    } else {
        let e0: int = (5 * span) / 6;
        let r: int = (5 * span) % 6;
        assert(6 * e0 + r == 5 * span && 0 <= r < 6 && e0 >= 0) by (nonlinear_arith)
            requires e0 == (5 * span) / 6, r == (5 * span) % 6, span > 0;
        let m = 10 * span;
        if r <= 2 {
            let e: nat = e0 as nat;
            assert((6 * (e as int)) % m == 5 * span - r) by (nonlinear_arith)
                requires 6 * e0 + r == 5 * span, 0 <= r <= 2, m == 10 * span, span > 0, e == e0;
            assert((5 * span - r + 2) / 5 >= span) by (nonlinear_arith)
                requires 0 <= r <= 2, span > 0;
            assert(sweep_x(bounds, e) >= bounds.max_x - 1);
        } else {
            let e: nat = (e0 + 1) as nat;
            assert((6 * (e as int)) % m == 5 * span + 6 - r) by (nonlinear_arith)
                requires 6 * e0 + r == 5 * span, 3 <= r < 6, m == 10 * span, span > 0, e == e0 + 1;
            assert(5 * span + 6 - r > 5 * span);
            assert((10 * span - (5 * span + 6 - r) + 2) / 5 >= span - 1) by (nonlinear_arith)
                requires 3 <= r < 6, span > 0;
            assert(sweep_x(bounds, e) >= bounds.max_x - 1);
        }
    }
}

/// The point the edge-to-edge sweep commands after `elapsed_ms` of movement.
/// `wobble` is the realistic-mode vertical offset; simple mode ignores it.
pub fn edge_position(mode: MovementMode, bounds: Bounds, origin_y: i32, elapsed_ms: u64, wobble: i32) -> (r: (i32, i32))
    requires
        bounds.valid(),
    ensures
        (r.0 as int, r.1 as int) == spec_edge_position(mode, bounds, origin_y as int, elapsed_ms as nat, wobble as int),
        bounds.contains(r.0 as int, r.1 as int),
{
    proof {
        lemma_sweep_in_bounds(bounds, elapsed_ms as nat);
    }
    let span: i64 = bounds.max_x as i64 - bounds.min_x as i64;
    let raw_x: i64 = if span <= 0 {
        bounds.min_x as i64
    } else {
        let m: u128 = 10 * (span as u128);
        let q: u128 = (6 * (elapsed_ms as u128)) % m;
        let fifths: u128 = if q <= 5 * (span as u128) { q } else { m - q };
        proof {
            assert(fifths <= 5 * span) by (nonlinear_arith)
                requires fifths as int == (if q <= 5 * span { q as int } else { m - q }), q < m, m == 10 * span, span > 0;
            assert(fifths + 2 <= 5 * span + 2);
        }
        bounds.min_x as i64 + ((fifths + 2) / 5) as i64
    };
    let x = bounds.clamp_x(raw_x as i32);
    let base_y = bounds.clamp_y(origin_y);
    let y = match mode {
        MovementMode::Simple => base_y,
        MovementMode::Realistic => {
            let wanted: i64 = base_y as i64 + wobble as i64;
            if wanted < bounds.min_y as i64 {
                bounds.min_y
            } else if wanted > bounds.max_y as i64 {
                bounds.max_y
            } else {
                wanted as i32
            }
        },
    };
    (x, y)
}

/// The mathematical value of a [`Jiggler`].
pub struct JigglerView {
    /// A run is in progress.
    pub active: bool,
    /// Mode frozen for the current run.
    pub mode: MovementMode,
    /// Distance in effect for the current run.
    pub distance: MovementDistance,
    /// Motion clock: advances only on ticks that move.
    pub elapsed_ms: nat,
    pub pause: PauseView,
    /// Commanded offset from the run's origin (default and random runs).
    pub current_x: int,
    pub current_y: int,
    pub edge_origin: Option<(i32, i32)>,
    pub edge_bounds: Option<Bounds>,
    /// The "edge-to-edge unavailable" note was already sent for this run.
    pub edge_note_sent: bool,
    pub random: RandomView,
}

/// Offsets that can be negated and subtracted from one another in `i32`.
pub open spec fn small_offset(v: int) -> bool {
    -0x4000_0000 < v < 0x4000_0000
}

impl JigglerView {
    pub open spec fn wf(self) -> bool {
        &&& self.pause.wf()
        &&& self.random.wf()
        &&& self.current_x > i32::MIN && self.current_y > i32::MIN
        &&& self.current_x <= i32::MAX && self.current_y <= i32::MAX
        &&& (self.active && self.distance == MovementDistance::EdgeToEdge) ==> {
            &&& self.edge_bounds matches Some(b) && b.valid()
            &&& self.edge_origin is Some
        }
        &&& self.distance == MovementDistance::Random ==> {
            &&& -RANDOM_RADIUS_X <= self.current_x <= RANDOM_RADIUS_X
            &&& small_offset(self.current_y)
        }
    }

    /// The engine before any run: idle, realistic mode at the default
    /// distance, motion clock at zero, no offset, no edge data, a fresh
    /// one-second moving interval and a rightward burst of the shortest length.
    pub open spec fn initial() -> JigglerView {
        JigglerView {
            active: false,
            mode: MovementMode::Realistic,
            distance: MovementDistance::Default,
            elapsed_ms: 0,
            pause: PauseView { phase: PausePhase::Moving, elapsed_ms: 0, duration_ms: PAUSE_MOVE_MIN_MS as nat },
            current_x: 0,
            current_y: 0,
            edge_origin: None,
            edge_bounds: None,
            edge_note_sent: false,
            random: RandomView { dir: 1, duration_ms: RANDOM_MIN_DURATION_MS as nat, burst_elapsed_ms: 0 },
        }
    }

    /// The offset a default-distance tick commands for the oscillation point
    /// `target`: simple mode keeps only its horizontal part.
    pub open spec fn default_target(self, target: (i32, i32)) -> (int, int) {
        (target.0 as int, if self.mode == MovementMode::Simple { 0 } else { target.1 as int })
    }

    /// Whether the edge-to-edge sweep can run with what the probe found.
    pub open spec fn edge_available(probe: EdgeProbe, platform: Platform) -> bool {
        &&& probe.supports_absolute
        &&& probe.bounds matches Some(b) && spec_edge_bounds_supported(b, platform)
        &&& probe.origin is Some
    }

    /// The move that puts the cursor back where the run began, if any.
    pub open spec fn restore_move(self) -> Option<RestoreMove> {
        match self.distance {
            MovementDistance::EdgeToEdge => match self.edge_origin {
                Some((x, y)) => Some(RestoreMove::Absolute(x, y)),
                None => None,
            },
            _ => if self.current_x != 0 || self.current_y != 0 {
                Some(RestoreMove::Relative((-self.current_x) as i32, (-self.current_y) as i32))
            } else {
                None
            },
        }
    }

    /// The horizontal step of the current random burst: which offset is
    /// wanted, where it ends up after the radius clamp, and whether it hit the radius.
    pub open spec fn random_target_x(self) -> int {
        clamp(self.current_x + self.random.dir * RANDOM_STEP_PX, -RANDOM_RADIUS_X as int, RANDOM_RADIUS_X as int)
    }

    pub open spec fn random_hits_edge(self) -> bool {
        self.random_target_x() != self.current_x + self.random.dir * RANDOM_STEP_PX
    }
}

/// One step inside a run: only the motion clock, the pause scheduler, the
/// commanded offset and the random burst change; the run's mode, distance,
/// edge origin and bounds, and whether it is active, stay as they were.
pub open spec fn run_step(a: JigglerView, b: JigglerView) -> bool {
    b == (JigglerView {
        elapsed_ms: b.elapsed_ms,
        pause: b.pause,
        current_x: b.current_x,
        current_y: b.current_y,
        random: b.random,
        ..a
    })
}

/// A random burst hits the edge exactly when its next unclamped step would
/// leave the radius; then the step stops on the radius, otherwise it is the
/// full step. In particular a step taken from closer than one step to the
/// radius, such as the first step from the origin, never hits it.
pub proof fn lemma_random_edge_is_leaving_radius(v: JigglerView)
    requires
        v.random.wf(),
    ensures
        ({
            let desired = v.current_x + v.random.dir * RANDOM_STEP_PX;
            &&& v.random_hits_edge() == (desired < -RANDOM_RADIUS_X || desired > RANDOM_RADIUS_X)
            &&& !v.random_hits_edge() ==> v.random_target_x() == desired
            &&& desired > RANDOM_RADIUS_X ==> v.random_target_x() == RANDOM_RADIUS_X
            &&& desired < -RANDOM_RADIUS_X ==> v.random_target_x() == -RANDOM_RADIUS_X
            &&& -(RANDOM_RADIUS_X - RANDOM_STEP_PX) <= v.current_x <= RANDOM_RADIUS_X - RANDOM_STEP_PX
                ==> !v.random_hits_edge()
        }),
{
}

/// One tick of a random run, as planned before the cursor moves.
#[derive(Clone, Copy, Debug, PartialEq, Eq)]
pub struct RandomStep {
    /// The relative move to make, or `None` when the cursor stays put.
    pub delta: Option<(i32, i32)>,
    /// Commanded offset from the origin once the move is made.
    pub x: i32,
    pub y: i32,
    /// The burst ran into the radius.
    pub hit_edge: bool,
}

/// The state of the movement engine across the ticks of the jiggler loop.
pub struct Jiggler {
    active: bool,
    mode: MovementMode,
    distance: MovementDistance,
    elapsed_ms: u64,
    pause: PauseState,
    current_x: i32,
    current_y: i32,
    edge_origin: Option<(i32, i32)>,
    edge_bounds: Option<Bounds>,
    edge_note_sent: bool,
    random: RandomState,
}

impl View for Jiggler {
    type V = JigglerView;

    closed spec fn view(&self) -> JigglerView {
        JigglerView {
            active: self.active,
            mode: self.mode,
            distance: self.distance,
            elapsed_ms: self.elapsed_ms as nat,
            pause: self.pause@,
            current_x: self.current_x as int,
            current_y: self.current_y as int,
            edge_origin: self.edge_origin,
            edge_bounds: self.edge_bounds,
            edge_note_sent: self.edge_note_sent,
            random: self.random@,
        }
    }
}

impl Jiggler {
    /// An idle engine.
    pub fn new() -> (r: Jiggler)
        ensures
            r@.wf(),
            r@ == JigglerView::initial(),
    {
        Jiggler {
            active: false,
            mode: MovementMode::Realistic,
            distance: MovementDistance::Default,
            elapsed_ms: 0,
            pause: PauseState::new(),
            current_x: 0,
            current_y: 0,
            edge_origin: None,
            edge_bounds: None,
            edge_note_sent: false,
            random: RandomState::new(),
        }
    }

    /// A run is in progress.
    pub fn is_active(&self) -> (r: bool)
        ensures
            r == self@.active,
    {
        self.active
    }

    /// The mode of the current run.
    pub fn mode(&self) -> (r: MovementMode)
        ensures
            r == self@.mode,
    {
        self.mode
    }

    /// The distance in effect for the current run.
    pub fn distance(&self) -> (r: MovementDistance)
        ensures
            r == self@.distance,
    {
        self.distance
    }

    /// The running flag went off. Ends the run, if one was in progress, and
    /// returns the move that puts the cursor back where the run started
    /// (only when a cursor backend is there to make it).
    pub fn halt(&mut self, has_cursor: bool) -> (r: Option<RestoreMove>)
        requires
            old(self)@.wf(),
        ensures
            final(self)@.wf(),
            !old(self)@.active ==> r is None && final(self)@ == old(self)@,
            old(self)@.active ==> {
                &&& r == if has_cursor { old(self)@.restore_move() } else { None }
                &&& final(self)@ == (JigglerView {
                    active: false,
                    current_x: 0,
                    current_y: 0,
                    edge_origin: None,
                    edge_bounds: None,
                    edge_note_sent: false,
                    ..old(self)@
                })
            },
    {
        if !self.active {
            return None;
        }
        let restore = if has_cursor {
            match self.distance {
                MovementDistance::EdgeToEdge => match self.edge_origin {
                    Some((x, y)) => Some(RestoreMove::Absolute(x, y)),
                    None => None,
                },
                _ => if self.current_x != 0 || self.current_y != 0 {
                    Some(RestoreMove::Relative(-self.current_x, -self.current_y))
                } else {
                    None
                },
            }
        } else {
            None
        };
        self.current_x = 0;
        self.current_y = 0;
        self.edge_origin = None;
        self.edge_bounds = None;
        self.edge_note_sent = false;
        self.active = false;
        restore
    }

    /// The running flag went on and no run is in progress: start one with the
    /// mode and distance of the current settings, frozen until the run ends.
    /// An edge-to-edge run needs absolute positioning; without it the run
    /// falls back to the default distance, and the return value says whether
    /// to tell the user so (once per run).
    pub fn begin_run(&mut self, mode: MovementMode, distance: MovementDistance, probe: EdgeProbe, platform: Platform) -> (note: bool)
        requires
            old(self)@.wf(),
            !old(self)@.active,
            probe.bounds matches Some(b) ==> b.valid(),
        ensures
            final(self)@.wf(),
            final(self)@.active,
            final(self)@.mode == mode,
            final(self)@.elapsed_ms == 0,
            final(self)@.current_x == 0 && final(self)@.current_y == 0,
            ({
                let edge = distance == MovementDistance::EdgeToEdge;
                let ok = JigglerView::edge_available(probe, platform);
                &&& final(self)@.distance == if edge && !ok { MovementDistance::Default } else { distance }
                &&& final(self)@.edge_bounds == if edge && ok { probe.bounds } else { None }
                &&& final(self)@.edge_origin == if edge && ok { probe.origin } else { None }
                &&& note == (edge && !ok && !old(self)@.edge_note_sent)
                &&& final(self)@.edge_note_sent == (old(self)@.edge_note_sent || note)
            }),
            mode == MovementMode::Realistic ==> final(self)@.pause.phase == PausePhase::Moving
                && final(self)@.pause.elapsed_ms == 0,
            mode == MovementMode::Simple ==> final(self)@.pause == old(self)@.pause,
            final(self)@.random.burst_elapsed_ms == 0,
            final(self)@.distance == MovementDistance::Random ==> final(self)@.random.fresh(),
            final(self)@.distance != MovementDistance::Random ==> final(self)@.random == (RandomView {
                burst_elapsed_ms: 0,
                ..old(self)@.random
            }),
    {
        self.mode = mode;
        self.distance = distance;
        self.elapsed_ms = 0;
        self.current_x = 0;
        self.current_y = 0;
        self.edge_origin = None;
        self.edge_bounds = None;
        self.random.burst_elapsed_ms = 0;
        if mode == MovementMode::Realistic {
            self.pause.restart();
        }
        let mut note = false;
        if distance == MovementDistance::EdgeToEdge {
            let available = probe.supports_absolute && match probe.bounds {
                Some(b) => edge_bounds_supported(b, platform),
                None => false,
            } && probe.origin.is_some();
            if available {
                self.edge_bounds = probe.bounds;
                self.edge_origin = probe.origin;
            } else {
                self.distance = MovementDistance::Default;
                if !self.edge_note_sent {
                    note = true;
                    self.edge_note_sent = true;
                }
            }
        }
        if self.distance == MovementDistance::Random {
            self.random.reroll();
        }
        self.active = true;
        note
    }

    /// One tick of a run: decide whether the cursor moves on this tick (in
    /// realistic mode the micro-break scheduler decides; simple mode always
    /// moves). When it moves, the motion clock advances one step and its new
    /// value is returned; during a pause the clock is frozen and `None` comes back.
    pub fn advance(&mut self) -> (r: Option<u64>)
        requires
            old(self)@.wf(),
            old(self)@.active,
        ensures
            final(self)@.wf(),
            old(self)@.mode == MovementMode::Simple ==> final(self)@.pause == old(self)@.pause,
            old(self)@.mode == MovementMode::Realistic ==> pause_step(old(self)@.pause, final(self)@.pause, STEP_MS as nat),
            run_step(old(self)@, final(self)@),
            ({
                let moving = final(self)@.mode == MovementMode::Simple || final(self)@.pause.phase == PausePhase::Moving;
                let clock = if old(self)@.elapsed_ms + STEP_MS <= u64::MAX { (old(self)@.elapsed_ms + STEP_MS) as nat } else { u64::MAX as nat };
                &&& r == if moving { Some(clock as u64) } else { None }
                &&& final(self)@ == (JigglerView {
                    pause: final(self)@.pause,
                    elapsed_ms: if moving { clock } else { old(self)@.elapsed_ms },
                    ..old(self)@
                })
            }),
    {
        let moving = if self.mode == MovementMode::Realistic {
            self.pause.update(STEP_MS)
        } else {
            true
        };
        if moving {
            self.elapsed_ms = if self.elapsed_ms <= u64::MAX - STEP_MS as u64 {
                self.elapsed_ms + STEP_MS as u64
            } else {
                u64::MAX
            };
            Some(self.elapsed_ms)
        } else {
            None
        }
    }

    /// Default distance: the relative move from the current offset to
    /// `target`, the point of the oscillation at this tick, or `None` when
    /// the cursor is already there. Simple mode is horizontal only: the
    /// target's vertical part is ignored and the offset is held at 0.
    pub fn default_move(&self, target: (i32, i32)) -> (r: Option<(i32, i32)>)
        requires
            self@.wf(),
            i32::MIN <= target.0 - self@.current_x <= i32::MAX,
            i32::MIN <= self@.default_target(target).1 - self@.current_y <= i32::MAX,
        ensures
            ({
                let t = self@.default_target(target);
                r == if t.0 == self@.current_x && t.1 == self@.current_y {
                    None
                } else {
                    Some(((t.0 - self@.current_x) as i32, (t.1 - self@.current_y) as i32))
                }
            }),
            self@.mode == MovementMode::Simple ==> (r matches Some(d) ==> d.1 == -self@.current_y),
    {
        let target_y = if self.mode == MovementMode::Simple { 0 } else { target.1 };
        let delta_x = target.0 - self.current_x;
        let delta_y = target_y - self.current_y;
        if delta_x == 0 && delta_y == 0 {
            None
        } else {
            Some((delta_x, delta_y))
        }
    }

    /// Default distance: the move to `target` was made (in simple mode, to
    /// its horizontal part only).
    pub fn commit_default(&mut self, target: (i32, i32))
        requires
            old(self)@.wf(),
            old(self)@.distance == MovementDistance::Default,
            target.0 > i32::MIN,
            target.1 > i32::MIN,
        ensures
            final(self)@.wf(),
            final(self)@ == (JigglerView {
                current_x: old(self)@.default_target(target).0,
                current_y: old(self)@.default_target(target).1,
                ..old(self)@
            }),
            old(self)@.mode == MovementMode::Simple ==> final(self)@.current_y == 0,
            run_step(old(self)@, final(self)@),
    {
        self.current_x = target.0;
        self.current_y = if self.mode == MovementMode::Simple { 0 } else { target.1 };
    }

    /// Edge-to-edge distance: the absolute point to move to at this tick.
    /// `wobble` is the realistic-mode vertical offset for this tick.
    pub fn edge_point(&self, wobble: i32) -> (r: (i32, i32))
        requires
            self@.wf(),
            self@.active,
            self@.distance == MovementDistance::EdgeToEdge,
        ensures
            ({
                let b = self@.edge_bounds->0;
                &&& (r.0 as int, r.1 as int) == spec_edge_position(
                    self@.mode,
                    b,
                    (self@.edge_origin->0).1 as int,
                    self@.elapsed_ms,
                    wobble as int,
                )
                &&& b.contains(r.0 as int, r.1 as int)
            }),
    {
        let bounds = match self.edge_bounds {
            Some(b) => b,
            None => { proof { assert(false); } Bounds { min_x: 0, min_y: 0, max_x: 0, max_y: 0 } },
        };
        let origin_y = match self.edge_origin {
            Some((_, y)) => y,
            None => { proof { assert(false); } 0 },
        };
        edge_position(self.mode, bounds, origin_y, self.elapsed_ms, wobble)
    }

    /// Random distance: plan this tick's move. The burst moves one step in its
    /// direction, limited to the radius. The vertical offset becomes
    /// `wobble_y`, the realistic-mode wobble, in realistic mode and stays 0
    /// in simple mode, which is horizontal only.
    pub fn random_move(&self, wobble_y: i32) -> (r: RandomStep)
        requires
            self@.wf(),
            self@.distance == MovementDistance::Random,
            -RANDOM_WOBBLE_Y_PX <= wobble_y <= RANDOM_WOBBLE_Y_PX,
        ensures
            r.x == self@.random_target_x(),
            -RANDOM_RADIUS_X <= r.x <= RANDOM_RADIUS_X,
            -RANDOM_STEP_PX <= r.x - self@.current_x <= RANDOM_STEP_PX,
            r.y == if self@.mode == MovementMode::Simple { 0 } else { wobble_y },
            -RANDOM_WOBBLE_Y_PX <= r.y <= RANDOM_WOBBLE_Y_PX,
            r.hit_edge == self@.random_hits_edge(),
            r.hit_edge == !(-RANDOM_RADIUS_X <= self@.current_x + self@.random.dir * RANDOM_STEP_PX <= RANDOM_RADIUS_X),
            r.delta == if r.x == self@.current_x && r.y == self@.current_y {
                None::<(i32, i32)>
            } else {
                Some(((r.x - self@.current_x) as i32, (r.y - self@.current_y) as i32))
            },
    {
        let desired = self.current_x + self.random.dir * RANDOM_STEP_PX;
        let clamped = if desired < -RANDOM_RADIUS_X {
            -RANDOM_RADIUS_X
        } else if desired > RANDOM_RADIUS_X {
            RANDOM_RADIUS_X
        } else {
            desired
        };
        let hit_edge = clamped != desired;
        let delta_x = clamped - self.current_x;
        let y = if self.mode == MovementMode::Simple { 0 } else { wobble_y };
        let delta_y = y - self.current_y;
        let delta = if delta_x != 0 || delta_y != 0 { Some((delta_x, delta_y)) } else { None };
        RandomStep { delta, x: clamped, y, hit_edge }
    }

    /// Random distance: the planned tick happened. The offset is updated, the
    /// burst clock runs one step, and a new burst is rolled when the old one
    /// hit the radius or ran out.
    pub fn finish_random(&mut self, step: RandomStep)
        requires
            old(self)@.wf(),
            old(self)@.distance == MovementDistance::Random,
            -RANDOM_RADIUS_X <= step.x <= RANDOM_RADIUS_X,
            small_offset(step.y as int),
        ensures
            final(self)@.wf(),
            ({
                let burst = (old(self)@.random.burst_elapsed_ms + STEP_MS) as nat;
                let reroll = step.hit_edge || burst >= old(self)@.random.duration_ms;
                &&& final(self)@ == (JigglerView {
                    current_x: step.x as int,
                    current_y: step.y as int,
                    random: final(self)@.random,
                    ..old(self)@
                })
                &&& reroll ==> final(self)@.random.fresh() && final(self)@.random.burst_elapsed_ms == 0
                &&& !reroll ==> final(self)@.random == (RandomView { burst_elapsed_ms: burst, ..old(self)@.random })
            }),
            run_step(old(self)@, final(self)@),
    {
        self.current_x = step.x;
        self.current_y = step.y;
        let burst = self.random.burst_elapsed_ms + STEP_MS as u64;
        if step.hit_edge || burst >= self.random.duration_ms {
            self.random.reroll();
            self.random.burst_elapsed_ms = 0;
        } else {
            self.random.burst_elapsed_ms = burst;
        }
    }
}

/// Horizontal and vertical sums of the relative moves between successive
/// commanded offsets of a run: `states[i + 1].current - states[i].current`.
pub open spec fn moves_total(states: Seq<JigglerView>) -> (int, int)
    decreases states.len(),
{
    if states.len() <= 1 {
        (0, 0)
    } else {
        let rest = moves_total(states.drop_last());
        let a = states[states.len() - 2];
        let b = states.last();
        (rest.0 + (b.current_x - a.current_x), rest.1 + (b.current_y - a.current_y))
    }
}

/// The offset a restore move adds, zero when there is none.
pub open spec fn restore_offset(m: Option<RestoreMove>) -> (int, int) {
    match m {
        Some(RestoreMove::Relative(dx, dy)) => (dx as int, dy as int),
        _ => (0, 0),
    }
}

/// Stopping a default or random run puts the cursor back where it started:
/// the relative moves commanded along the run, from the origin through every
/// committed offset, plus the restore move [`Jiggler::halt`] returns, add up
/// to nothing.
pub proof fn lemma_restore_cancels_run(states: Seq<JigglerView>)
    requires
        states.len() >= 1,
        states[0].current_x == 0 && states[0].current_y == 0,
        states.last().wf(),
        states.last().distance != MovementDistance::EdgeToEdge,
    ensures
        moves_total(states).0 + restore_offset(states.last().restore_move()).0 == 0,
        moves_total(states).1 + restore_offset(states.last().restore_move()).1 == 0,
{
    lemma_moves_total_telescopes(states);
}

proof fn lemma_moves_total_telescopes(states: Seq<JigglerView>)
    requires
        states.len() >= 1,
    ensures
        moves_total(states) == (states.last().current_x - states[0].current_x, states.last().current_y - states[0].current_y),
    decreases states.len(),
{
    if states.len() > 1 {
        lemma_moves_total_telescopes(states.drop_last());
    }
}

/// Settings are frozen for a run, and stopping puts the cursor back. Along
/// any run of steps from where [`Jiggler::begin_run`] left the engine (every
/// `advance`, `commit_default` and `finish_random` is a [`run_step`]), the
/// mode, the distance, the edge origin and bounds stay as the run began, so
/// settings changed meanwhile only count from the next run. At the end, an
/// edge-to-edge run's restore move goes back to the origin the run started
/// from; for a default or random run, the relative moves commanded along the
/// run plus the restore move [`Jiggler::halt`] returns add up to nothing.
pub proof fn lemma_run_frozen_and_restored(states: Seq<JigglerView>)
    requires
        states.len() >= 1,
        states[0].wf(),
        states[0].active,
        states[0].current_x == 0 && states[0].current_y == 0,
        forall|i: int| 0 <= i < states.len() - 1 ==> #[trigger] run_step(states[i], states[i + 1]),
        states.last().wf(),
    ensures
        forall|k: int| 0 <= k < states.len() ==> {
            &&& (#[trigger] states[k]).mode == states[0].mode
            &&& states[k].distance == states[0].distance
            &&& states[k].edge_origin == states[0].edge_origin
            &&& states[k].edge_bounds == states[0].edge_bounds
            &&& states[k].active
        },
        states[0].distance == MovementDistance::EdgeToEdge ==> states.last().restore_move() == Some(
            RestoreMove::Absolute((states[0].edge_origin->0).0, (states[0].edge_origin->0).1),
        ),
        states[0].distance != MovementDistance::EdgeToEdge ==> {
            &&& moves_total(states).0 + restore_offset(states.last().restore_move()).0 == 0
            &&& moves_total(states).1 + restore_offset(states.last().restore_move()).1 == 0
        },
{
    assert forall|k: int| 0 <= k < states.len() implies {
        &&& (#[trigger] states[k]).mode == states[0].mode
        &&& states[k].distance == states[0].distance
        &&& states[k].edge_origin == states[0].edge_origin
        &&& states[k].edge_bounds == states[0].edge_bounds
        &&& states[k].active
    } by {
        lemma_run_frozen(states, k);
    }
    lemma_run_frozen(states, states.len() - 1);
    if states[0].distance != MovementDistance::EdgeToEdge {
        lemma_restore_cancels_run(states);
    }
}

proof fn lemma_run_frozen(states: Seq<JigglerView>, k: int)
    requires
        0 <= k < states.len(),
        states[0].active,
        forall|i: int| 0 <= i < states.len() - 1 ==> #[trigger] run_step(states[i], states[i + 1]),
    ensures
        states[k].mode == states[0].mode,
        states[k].distance == states[0].distance,
        states[k].edge_origin == states[0].edge_origin,
        states[k].edge_bounds == states[0].edge_bounds,
        states[k].active,
    decreases k,
{
    if k > 0 {
        lemma_run_frozen(states, k - 1);
        assert(run_step(states[k - 1], states[k - 1 + 1]));
    }
}

} // verus!
