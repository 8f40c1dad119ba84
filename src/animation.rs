use vstd::prelude::*;
use vstd::arithmetic::div_mod::{
    lemma_div_by_self, lemma_mod_adds, lemma_mod_pos_bound, lemma_small_mod,
};

verus! {

/// How an animation walks through its frame range.
#[derive(Clone, Copy, Debug, PartialEq, Eq, Structural)]
pub enum AnimationMode {
    /// `first, first + 1, ..., last, first, ...`
    Cycle,
    /// `first, ..., last, ..., first, ...` without repeating an endpoint.
    Bounce,
    /// `first, ..., last` once, then `last + 1` for ever.
    Once,
}

/// The direction a bouncing animation is currently moving in.
#[derive(Clone, Copy, Debug, PartialEq, Eq, Structural)]
pub enum AnimationDir {
    Forward,
    Backward,
}

/// The mathematical state of an animation: its range, mode, direction and
/// current frame.
pub struct AnimationState {
    pub first: nat,
    pub last: nat,
    pub mode: AnimationMode,
    pub dir: AnimationDir,
    pub cur: nat,
}

impl AnimationState {
    /// The state an animation starts in.
    pub open spec fn initial(first: nat, last: nat, mode: AnimationMode) -> AnimationState {
        AnimationState { first, last, mode, dir: AnimationDir::Forward, cur: first }
    }

    /// States reachable by advancing from an initial state.
    pub open spec fn wf(self) -> bool {
        &&& self.first <= self.cur
        &&& self.first <= self.last
        &&& match self.mode {
            AnimationMode::Once => self.cur <= self.last + 1,
            AnimationMode::Cycle => self.cur <= self.last,
            AnimationMode::Bounce => {
                &&& self.cur <= self.last
                &&& self.cur == self.first ==> self.dir == AnimationDir::Forward
                &&& self.cur == self.last && self.first < self.last ==> self.dir
                    == AnimationDir::Backward
            },
        }
    }

    /// One advance of the animation.
    pub open spec fn step(self) -> AnimationState {
        match self.mode {
            AnimationMode::Once => AnimationState {
                cur: if self.cur <= self.last { self.cur + 1 } else { self.cur },
                ..self
            },
            AnimationMode::Cycle => AnimationState {
                cur: if self.cur < self.last { self.cur + 1 } else { self.first },
                ..self
            },
            AnimationMode::Bounce => {
                if self.first == self.last {
                    self
                } else {
                    let cur: nat = match self.dir {
                        AnimationDir::Forward => self.cur + 1,
                        AnimationDir::Backward => (self.cur - 1) as nat,
                    };
                    let dir = if cur == self.last {
                        AnimationDir::Backward
                    } else if cur == self.first {
                        AnimationDir::Forward
                    } else {
                        self.dir
                    };
                    AnimationState { cur, dir, ..self }
                }
            },
        }
    }

    /// The state after `k` advances.
    pub open spec fn advanced(self, k: nat) -> AnimationState
        decreases k,
    {
        if k == 0 {
            self
        } else {
            self.advanced((k - 1) as nat).step()
        }
    }
}

/// A sprite's frame-index state machine.
pub struct AnimationIndices {
    first: usize,
    last: usize,
    mode: AnimationMode,
    dir: AnimationDir,
    cur: usize,
}

impl View for AnimationIndices {
    type V = AnimationState;

    closed spec fn view(&self) -> AnimationState {
        AnimationState {
            first: self.first as nat,
            last: self.last as nat,
            mode: self.mode,
            dir: self.dir,
            cur: self.cur as nat,
        }
    }
}

impl AnimationIndices {
    /// A well-formed state whose last frame leaves room for the one-shot
    /// terminal frame `last + 1`.
    pub open spec fn wf(&self) -> bool {
        &&& self@.wf()
        &&& self@.last < usize::MAX
    }

    /// Starts an animation on `first`, moving forward.
    pub fn new(first: usize, last: usize, mode: AnimationMode) -> (r: Self)
        requires
            first <= last,
            last < usize::MAX,
        ensures
            r@ == AnimationState::initial(first as nat, last as nat, mode),
            r.wf(),
    {
        AnimationIndices { first, last, mode, dir: AnimationDir::Forward, cur: first }
    }

    /// Advances the animation to its next frame and returns that frame.
    pub fn next(&mut self) -> (r: usize)
        requires
            old(self).wf(),
        ensures
            final(self)@ == old(self)@.step(),
            final(self).wf(),
            r as nat == final(self)@.cur,
    {
        match self.mode {
            AnimationMode::Once => {
                if self.cur <= self.last {
                    self.cur = self.cur + 1;
                }
            },
            AnimationMode::Cycle => {
                if self.cur < self.last {
                    self.cur = self.cur + 1;
                } else {
                    self.cur = self.first;
                }
            },
            AnimationMode::Bounce => {
                if self.first != self.last {
                    match self.dir {
                        AnimationDir::Forward => self.cur = self.cur + 1,
                        AnimationDir::Backward => self.cur = self.cur - 1,
                    }
                    if self.cur == self.last {
                        self.dir = AnimationDir::Backward;
                    } else if self.cur == self.first {
                        self.dir = AnimationDir::Forward;
                    }
                }
            },
        }
        self.cur
    }

    pub fn first(&self) -> (r: usize)
        ensures
            r as nat == self@.first,
    {
        self.first
    }

    pub fn last(&self) -> (r: usize)
        ensures
            r as nat == self@.last,
    {
        self.last
    }

    pub fn current(&self) -> (r: usize)
        ensures
            r as nat == self@.cur,
    {
        self.cur
    }

    pub fn mode(&self) -> (r: AnimationMode)
        ensures
            r == self@.mode,
    {
        self.mode
    }

    pub fn direction(&self) -> (r: AnimationDir)
        ensures
            r == self@.dir,
    {
        self.dir
    }
}

/// Advances `indices` when its timer completed an interval on this tick, and
/// returns the frame to show then; on any other tick nothing changes.
pub fn animate_sprite(indices: &mut AnimationIndices, timer_finished: bool) -> (r: Option<usize>)
    requires
        old(indices).wf(),
    ensures
        final(indices).wf(),
        timer_finished ==> final(indices)@ == old(indices)@.step() && r is Some && r->0 as nat
            == final(indices)@.cur,
        !timer_finished ==> *final(indices) == *old(indices) && r.is_none(),
{
    if timer_finished {
        Some(indices.next())
    } else {
        None
    }
}

/// A texture-atlas grid category: the cell size of its sprites.
#[derive(Clone, Copy, Debug, PartialEq, Eq, Structural)]
pub enum SpriteScale {
    X32,
    X16,
    X8,
}

/// The geometry of a texture atlas: square cells of `cell_size` pixels laid
/// out in `columns` by `rows`.
#[derive(Clone, Copy, Debug, PartialEq, Eq, Structural)]
pub struct AtlasGrid {
    pub cell_size: u32,
    pub columns: u32,
    pub rows: u32,
}

impl SpriteScale {
    /// The cell size in pixels of this category.
    pub open spec fn cell(self) -> u32 {
        match self {
            SpriteScale::X32 => 32,
            SpriteScale::X16 => 16,
            SpriteScale::X8 => 8,
        }
    }
}

/// The atlas grid of a sprite-scale category: every category covers a
/// 128-pixel square sheet with cells of its own size.
pub fn get_texture_atlas_layout(scale: SpriteScale) -> (r: AtlasGrid)
    ensures
        r.cell_size == scale.cell(),
        r.columns * r.cell_size == 128,
        r.rows == r.columns,
{
    match scale {
        SpriteScale::X8 => AtlasGrid { cell_size: 8, columns: 16, rows: 16 },
        SpriteScale::X16 => AtlasGrid { cell_size: 16, columns: 8, rows: 8 },
        SpriteScale::X32 => AtlasGrid { cell_size: 32, columns: 4, rows: 4 },
    }
}

/// The offset from `first` of a bouncing animation over `n + 1` frames after
/// `k` advances: it climbs `0, 1, ..., n` and falls back `n - 1, ..., 1`.
pub open spec fn bounce_offset(n: nat, k: nat) -> nat {
    if n == 0 {
        0
    } else {
        let p = k % (2 * n);
        if p <= n {
            p
        } else {
            (2 * n - p) as nat
        }
    }
}

/// Whether a bouncing animation over `n + 1` frames moves forward after `k`
/// advances.
pub open spec fn bounce_forward(n: nat, k: nat) -> bool {
    n == 0 || k % (2 * n) < n
}

proof fn lemma_mod_succ(k: int, m: int)
    requires
        0 <= k,
        0 < m,
    ensures
        (k + 1) % m == if k % m + 1 < m {
            k % m + 1
        } else {
            0
        },
{
    lemma_mod_pos_bound(k, m);
    lemma_mod_pos_bound(k + 1, m);
    if m > 1 {
        lemma_small_mod(1, m as nat);
        assert(1int % m == 1);
        lemma_mod_adds(k, 1, m);
        if k % m + 1 >= m {
            lemma_div_by_self(m);
            assert(k % m + 1 == m);
            assert((k % m + 1int % m) / m == 1);
            assert(m * 1 == m);
            assert((k + 1) % m == 0);
        } else {
            assert((k + 1) % m == k % m + 1);
        }
    } else {
        assert(m == 1);
        assert(k % m == 0);
        assert((k + 1) % m == 0);
    }
}

proof fn lemma_cycle_state(first: nat, last: nat, k: nat)
    requires
        first <= last,
    ensures
        AnimationState::initial(first, last, AnimationMode::Cycle).advanced(k) == (AnimationState {
            first,
            last,
            mode: AnimationMode::Cycle,
            dir: AnimationDir::Forward,
            cur: first + k % ((last - first + 1) as nat),
        }),
    decreases k,
{
    let m = (last - first + 1) as nat;
    if k > 0 {
        lemma_cycle_state(first, last, (k - 1) as nat);
        lemma_mod_succ(k - 1, m as int);
        lemma_mod_pos_bound((k - 1) as int, m as int);
        assert((k - 1) + 1 == k);
    } else {
        lemma_small_mod(0, m);
    }
}

/// A cycling animation shows `first, first + 1, ..., last` and then starts
/// again at `first`: after `k` advances it shows `first + k mod (last - first + 1)`,
/// so its frames repeat with period `last - first + 1`.
pub proof fn lemma_cycle_frames(first: nat, last: nat, k: nat)
    requires
        first < last,
    ensures
        AnimationState::initial(first, last, AnimationMode::Cycle).advanced(k).cur == first + k
            % ((last - first + 1) as nat),
        AnimationState::initial(first, last, AnimationMode::Cycle).advanced(
            k + (last - first + 1) as nat,
        ).cur == AnimationState::initial(first, last, AnimationMode::Cycle).advanced(k).cur,
{
    let m = (last - first + 1) as int;
    lemma_cycle_state(first, last, k);
    lemma_cycle_state(first, last, k + (last - first + 1) as nat);
    vstd::arithmetic::div_mod::lemma_mod_add_multiples_vanish(k as int, m);
}

proof fn lemma_bounce_state(first: nat, last: nat, k: nat)
    requires
        first <= last,
    ensures
        AnimationState::initial(first, last, AnimationMode::Bounce).advanced(k) == (AnimationState {
            first,
            last,
            mode: AnimationMode::Bounce,
            dir: if bounce_forward((last - first) as nat, k) {
                AnimationDir::Forward
            } else {
                AnimationDir::Backward
            },
            cur: first + bounce_offset((last - first) as nat, k),
        }),
    decreases k,
{
    let n = (last - first) as nat;
    if k > 0 && n > 0 {
        lemma_bounce_state(first, last, (k - 1) as nat);
        lemma_mod_succ(k - 1, (2 * n) as int);
        lemma_mod_pos_bound((k - 1) as int, (2 * n) as int);
    } else if k > 0 {
        lemma_bounce_state(first, last, (k - 1) as nat);
    }
}

/// A bouncing animation climbs from `first` to `last` and falls back to
/// `first`, for ever, one frame per advance. Neither endpoint is shown twice
/// in a row, and its direction turns exactly on the advances that land on
/// `first` or `last`.
/// A range of one frame stays on that frame.
pub proof fn lemma_bounce_frames(first: nat, last: nat, k: nat)
    requires
        first <= last,
    ensures
        ({
            let s = AnimationState::initial(first, last, AnimationMode::Bounce);
            let n = (last - first) as nat;
            &&& s.advanced(k).cur == first + bounce_offset(n, k)
            &&& first <= s.advanced(k).cur <= last
            &&& s.advanced(k + 2 * n).cur == s.advanced(k).cur
            &&& first < last ==> (s.advanced(k + 1).cur == s.advanced(k).cur + 1
                || s.advanced(k + 1).cur + 1 == s.advanced(k).cur)
            &&& first < last ==> (s.advanced(k + 1).dir != s.advanced(k).dir <==> (s.advanced(
                k + 1,
            ).cur == first || s.advanced(k + 1).cur == last))
        }),
{
    let n = (last - first) as nat;
    lemma_bounce_state(first, last, k);
    lemma_bounce_state(first, last, k + 1);
    lemma_bounce_state(first, last, k + 2 * n);
    if n > 0 {
        lemma_mod_succ(k as int, (2 * n) as int);
        lemma_mod_pos_bound(k as int, (2 * n) as int);
        vstd::arithmetic::div_mod::lemma_mod_multiples_vanish(1, k as int, (2 * n) as int);
        assert(k + 2 * n == 2 * n * 1 + k);
    }
}

proof fn lemma_once_state(first: nat, last: nat, k: nat)
    requires
        first <= last,
    ensures
        AnimationState::initial(first, last, AnimationMode::Once).advanced(k) == (AnimationState {
            first,
            last,
            mode: AnimationMode::Once,
            dir: AnimationDir::Forward,
            cur: if first + k <= last + 1 {
                first + k
            } else {
                last + 1
            },
        }),
    decreases k,
{
    if k > 0 {
        lemma_once_state(first, last, (k - 1) as nat);
    }
}

/// A one-shot animation shows `first, ..., last` once and then holds frame
/// `last + 1` for every later advance.
pub proof fn lemma_once_frames(first: nat, last: nat, k: nat)
    requires
        first <= last,
    ensures
        AnimationState::initial(first, last, AnimationMode::Once).advanced(k).cur == if first + k
            <= last + 1 {
            first + k
        } else {
            last + 1
        },
        k >= last + 1 - first ==> AnimationState::initial(first, last, AnimationMode::Once).advanced(
            k + 1,
        ) == AnimationState::initial(first, last, AnimationMode::Once).advanced(k),
{
    lemma_once_state(first, last, k);
    lemma_once_state(first, last, k + 1);
}

} // verus!
