//! How controllers and envelopes move the sound of a voice while it plays.

use crate::sfz::params::SfzCurves;
use crate::sfz::parse::SfzNumber;
use crate::sfz::region::{place, position};
use vstd::prelude::*;

verus! {

/// How many steps go by from one evaluation of a modulation to the next.
pub const RECOMPUTE_INTERVAL: u32 = 8;

/// Counts the steps between evaluations.
#[derive(Debug, Clone, Copy, PartialEq, Eq, Structural)]
pub struct Countdown {
    /// Nothing moves, and nothing is evaluated.
    pub is_static: bool,
    /// How many steps are left until the next evaluation.
    pub left: u32,
}

/// The countdown after a step, and whether the step evaluates the modulation.
pub open spec fn ticked(c: Countdown) -> (Countdown, bool) {
    if c.is_static {
        (c, false)
    } else if c.left == 0 {
        (Countdown { left: (RECOMPUTE_INTERVAL - 1) as u32, ..c }, true)
    } else {
        (Countdown { left: (c.left - 1) as u32, ..c }, false)
    }
}

/// The countdown after `n` steps.
pub open spec fn after_steps(c: Countdown, n: nat) -> Countdown
    decreases n,
{
    if n == 0 {
        c
    } else {
        ticked(after_steps(c, (n - 1) as nat)).0
    }
}

impl Countdown {
    /// A countdown whose first step evaluates the modulation, unless nothing moves.
    pub fn new(is_static: bool) -> (r: Countdown)
        ensures
            r == (Countdown { is_static, left: 0 }),
    {
        Countdown { is_static, left: 0 }
    }

    /// Makes a step. Says whether it evaluates the modulation.
    pub fn tick(&mut self) -> (r: bool)
        ensures
            (*final(self), r) == ticked(*old(self)),
    {
        if self.is_static {
            return false;
        }
        if self.left == 0 {
            self.left = RECOMPUTE_INTERVAL - 1;
            true
        } else {
            self.left = self.left - 1;
            false
        }
    }
}

proof fn steps_left(c: Countdown, n: nat)
    requires
        !c.is_static,
        c.left < RECOMPUTE_INTERVAL,
    ensures
        !after_steps(c, n).is_static,
        after_steps(c, n).left < RECOMPUTE_INTERVAL,
        (after_steps(c, n).left + n) % (RECOMPUTE_INTERVAL as int) == c.left as int % (
        RECOMPUTE_INTERVAL as int),
    decreases n,
{
    if n > 0 {
        steps_left(c, (n - 1) as nat);
    }
}

/// A modulation is evaluated in the first step and in every eighth one from then on, and
/// in no other; one that does not move is never evaluated.
pub proof fn every_interval_has_one_evaluation(n: nat)
    ensures
        ticked(after_steps(Countdown { is_static: false, left: 0 }, n)).1 <==> n
            % (RECOMPUTE_INTERVAL as nat) == 0,
        !ticked(after_steps(Countdown { is_static: true, left: 0 }, n)).1,
{
    steps_left(Countdown { is_static: false, left: 0 }, n);
    static_stays(n);
}

proof fn static_stays(n: nat)
    ensures
        after_steps(Countdown { is_static: true, left: 0 }, n) == (Countdown {
            is_static: true,
            left: 0,
        }),
    decreases n,
{
    if n > 0 {
        static_stays((n - 1) as nat);
    }
}

/// How far a controller is turned.
#[derive(Debug, Clone, Copy, PartialEq, Eq, Structural)]
pub enum CcLevel {
    /// By so many of 127 parts.
    Linear(u8),
    /// By what a point of a curve says.
    Point { curve: usize, point: usize },
    /// Not at all: the curve has no such point.
    Zero,
}

/// How far a controller that stands at `value` is turned: by its share of the whole way,
/// or by what its curve says where it has one.
pub open spec fn turned(
    value: u8,
    cc: u8,
    curvecc: Seq<(u8, u8)>,
    curves: Seq<(u8, Seq<(u8, SfzNumber<Seq<char>>)>)>,
) -> CcLevel {
    let binding = position(curvecc, cc);
    if binding < curvecc.len() {
        let curve = position(curves, curvecc[binding].1);
        if curve < curves.len() {
            let point = position(curves[curve].1, value);
            if point < curves[curve].1.len() {
                CcLevel::Point { curve: curve as usize, point: point as usize }
            } else {
                CcLevel::Zero
            }
        } else {
            CcLevel::Linear(value)
        }
    } else {
        CcLevel::Linear(value)
    }
}

/// How far a controller that stands at `value` is turned. A curve goes no further than 127.
pub fn cc_lookup(value: u8, cc: u8, curvecc: &Vec<(u8, u8)>, curves: &SfzCurves) -> (r: CcLevel)
    requires
        value >= 128 ==> turned(value, cc, curvecc.deep_view(), curves.deep_view()) is Linear,
    ensures
        r == turned(value, cc, curvecc.deep_view(), curves.deep_view()),
{
    let binding = place(curvecc, cc);
    if binding < curvecc.len() {
        let id: u8 = curvecc[binding].1;
        assert(curvecc.deep_view()[binding as int].1 == id);
        let curve = place(curves, id);
        if curve < curves.len() {
            let points = &curves[curve].1;
            assert(curves.deep_view()[curve as int].1 == points.deep_view());
            let point = place(points, value);
            if point < points.len() {
                return CcLevel::Point { curve, point };
            }
            return CcLevel::Zero;
        }
    }
    CcLevel::Linear(value)
}

/// The stages of the envelope of a filter.
#[derive(Debug, Clone, Copy, PartialEq, Eq, Structural)]
pub enum FilegStage {
    Attack,
    Decay,
    Sustain,
    Release,
    Done,
}

impl FilegStage {
    /// Where the stage stands in the course of an envelope.
    pub open spec fn rank(&self) -> int {
        match self {
            FilegStage::Attack => 0,
            FilegStage::Decay => 1,
            FilegStage::Sustain => 2,
            FilegStage::Release => 3,
            FilegStage::Done => 4,
        }
    }

    /// The stage that a step belongs to.
    pub open spec fn with_key(self, released: bool) -> FilegStage {
        if released && self.rank() < 3 {
            FilegStage::Release
        } else {
            self
        }
    }

    /// The stage that a step belongs to: once the key has come up, the release, however
    /// far the envelope has come.
    pub fn entered(self, released: bool) -> (r: FilegStage)
        ensures
            r == self.with_key(released),
    {
        match self {
            FilegStage::Attack | FilegStage::Decay | FilegStage::Sustain => if released {
                FilegStage::Release
            } else {
                self
            },
            _ => self,
        }
    }

    /// The stage after a step. `reached` says that the level has come to where the stage
    /// leads.
    pub fn advanced(self, reached: bool) -> (r: FilegStage)
        ensures
            r == self.next(reached),
    {
        match self {
            FilegStage::Attack => if reached {
                FilegStage::Decay
            } else {
                self
            },
            FilegStage::Decay => if reached {
                FilegStage::Sustain
            } else {
                self
            },
            FilegStage::Release => if reached {
                FilegStage::Done
            } else {
                self
            },
            _ => self,
        }
    }

    /// The stage after a step.
    pub open spec fn next(self, reached: bool) -> FilegStage {
        match self {
            FilegStage::Attack if reached => FilegStage::Decay,
            FilegStage::Decay if reached => FilegStage::Sustain,
            FilegStage::Release if reached => FilegStage::Done,
            _ => self,
        }
    }
}

/// An envelope never goes back, and it holds its level while the key is down.
pub proof fn envelopes_go_forward(stage: FilegStage, reached: bool)
    ensures
        stage.rank() <= stage.next(reached).rank() <= stage.rank() + 1,
        stage is Sustain || stage is Done ==> stage.next(reached) == stage,
{
}

/// An envelope goes from its attack to its decay and on to the level that it holds, each time
/// that it has come to where the stage leads, and stays in its stage until then. The release
/// follows when the key comes up, and the end after it.
pub proof fn envelopes_run_through_their_stages()
    ensures
        FilegStage::Attack.next(true) is Decay,
        FilegStage::Decay.next(true) is Sustain,
        FilegStage::Release.next(true) is Done,
        forall|stage: FilegStage| #[trigger] stage.next(false) == stage,
{
}

/// A controller without a curve is turned by its share of the way, and so is one whose curve
/// there is not.
pub proof fn controllers_without_curves_are_even(
    value: u8,
    cc: u8,
    curvecc: Seq<(u8, u8)>,
    curves: Seq<(u8, Seq<(u8, SfzNumber<Seq<char>>)>)>,
)
    requires
        forall|i: int, j: int|
            0 <= i < curvecc.len() && 0 <= j < curves.len() && (#[trigger] curvecc[i]).0 == cc
                ==> (#[trigger] curves[j]).0 != curvecc[i].1,
    ensures
        turned(value, cc, curvecc, curves) == CcLevel::Linear(value),
{
    crate::sfz::region::position_bounds(curvecc, cc);
    let binding = position(curvecc, cc);
    if binding < curvecc.len() {
        let id = curvecc[binding].1;
        crate::sfz::region::position_bounds(curves, id);
        let curve = position(curves, id);
        if curve < curves.len() {
            assert(curves[curve].0 == id);
            assert(curvecc[binding].0 == cc);
        }
    }
}

/// A controller with a curve is turned by the point of that curve for its value, and not at all
/// where the curve has none.
pub proof fn controllers_follow_their_curves(
    value: u8,
    cc: u8,
    curvecc: Seq<(u8, u8)>,
    curves: Seq<(u8, Seq<(u8, SfzNumber<Seq<char>>)>)>,
    i: int,
    j: int,
    k: int,
)
    requires
        0 <= i < curvecc.len() <= usize::MAX,
        0 <= j < curves.len() <= usize::MAX,
        curvecc[i].0 == cc,
        curvecc[i].1 == curves[j].0,
        forall|a: int| 0 <= a < i ==> (#[trigger] curvecc[a]).0 != cc,
        forall|a: int| 0 <= a < j ==> (#[trigger] curves[a]).0 != curves[j].0,
        0 <= k <= curves[j].1.len() <= usize::MAX,
        k < curves[j].1.len() ==> curves[j].1[k].0 == value,
        forall|a: int| 0 <= a < k ==> (#[trigger] curves[j].1[a]).0 != value,
    ensures
        k < curves[j].1.len() ==> turned(value, cc, curvecc, curves) == (CcLevel::Point {
            curve: j as usize,
            point: k as usize,
        }),
        k == curves[j].1.len() ==> turned(value, cc, curvecc, curves) is Zero,
{
    crate::sfz::region::position_is_first(curvecc, cc, i);
    crate::sfz::region::position_is_first(curves, curves[j].0, j);
    crate::sfz::region::position_is_first(curves[j].1, value, k);
}


/// As long as the key is down, an envelope stays in its stage; once it has come up, every
/// stage before the release gives way to it, and the release goes on until it is done.
pub proof fn keys_end_every_stage()
    ensures
        forall|stage: FilegStage| #[trigger] stage.with_key(false) == stage,
        FilegStage::Attack.with_key(true) == FilegStage::Release,
        FilegStage::Decay.with_key(true) == FilegStage::Release,
        FilegStage::Sustain.with_key(true) == FilegStage::Release,
        FilegStage::Release.with_key(true) == FilegStage::Release,
        FilegStage::Done.with_key(true) == FilegStage::Done,
{
}

} // verus!
