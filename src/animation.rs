//! Timeline model: tweens, delays and the sequences that chain them.
use vstd::prelude::*;

use crate::easing::{EasingFunction, Fraction};
use crate::transform::{lerp_i32, lerp_value, valid_ratio, with_field, Transform, TransformField};

verus! {

/// Moves the x coordinate of a transform's position from `start` to `end`.
#[derive(Debug, Clone, Copy, PartialEq, Eq, Structural)]
pub struct TransformPositionXTween {
    pub start: i32,
    pub end: i32,
}

/// Turns a transform about the z axis from `start` to `end` (thousandths of a degree).
#[derive(Debug, Clone, Copy, PartialEq, Eq, Structural)]
pub struct TransformRotationZTween {
    pub start: i32,
    pub end: i32,
}

/// What a tween drives: one field of a transform, between two values.
#[derive(Debug, Clone, Copy, PartialEq, Eq, Structural)]
pub enum TweenTarget {
    PositionX(TransformPositionXTween),
    RotationZ(TransformRotationZTween),
}

impl TweenTarget {
    pub open spec fn field(self) -> TransformField {
        match self {
            TweenTarget::PositionX(_) => TransformField::PositionX,
            TweenTarget::RotationZ(_) => TransformField::RotationZ,
        }
    }

    pub open spec fn start(self) -> i32 {
        match self {
            TweenTarget::PositionX(t) => t.start,
            TweenTarget::RotationZ(t) => t.start,
        }
    }

    pub open spec fn end(self) -> i32 {
        match self {
            TweenTarget::PositionX(t) => t.end,
            TweenTarget::RotationZ(t) => t.end,
        }
    }

    /// `comp` with the driven field set to its value at ratio `num / den`.
    pub open spec fn lerp_spec(self, comp: Transform, num: int, den: int) -> Transform {
        with_field(
            comp,
            self.field(),
            lerp_value(self.start() as int, self.end() as int, num, den) as i32,
        )
    }

    /// Writes the driven field of `comp` at `ratio`.
    pub fn lerp(&self, comp: &mut Transform, ratio: Fraction)
        requires
            valid_ratio(ratio),
        ensures
            *final(comp) == self.lerp_spec(*old(comp), ratio.num as int, ratio.den as int),
    {
        match self {
            TweenTarget::PositionX(t) => {
                comp.position.x = lerp_i32(t.start, t.end, ratio);
            },
            TweenTarget::RotationZ(t) => {
                comp.rotation.z = lerp_i32(t.start, t.end, ratio);
            },
        }
    }
}

/// One timed interpolation of a transform field.
#[derive(Debug, Clone, Copy, PartialEq, Eq, Structural)]
pub struct Tween {
    /// Start time in milliseconds from the start of the owning sequence.
    pub start_abs: u64,
    pub ease: EasingFunction,
    /// Length in milliseconds.
    pub duration: u32,
    pub target: TweenTarget,
}

/// A pause that occupies time and changes nothing.
#[derive(Debug, Clone, Copy, PartialEq, Eq, Structural)]
pub struct Delay {
    /// Start time in milliseconds from the start of the owning sequence.
    pub start_abs: u64,
    /// Length in milliseconds.
    pub duration: u32,
}

/// An entry of a timeline: a tween or a delay.
#[derive(Debug, Clone, Copy, PartialEq, Eq, Structural)]
pub enum Tweenable {
    Tween(Tween),
    Delay(Delay),
}

impl Tweenable {
    pub open spec fn start_spec(&self) -> u64 {
        match self {
            Tweenable::Tween(t) => t.start_abs,
            Tweenable::Delay(d) => d.start_abs,
        }
    }

    pub open spec fn duration_spec(&self) -> u32 {
        match self {
            Tweenable::Tween(t) => t.duration,
            Tweenable::Delay(d) => d.duration,
        }
    }

    /// End time of the entry.
    pub open spec fn end_spec(self) -> int {
        self.start_spec() + self.duration_spec()
    }

    pub open spec fn ease_spec(&self) -> EasingFunction {
        match self {
            Tweenable::Tween(t) => t.ease,
            Tweenable::Delay(_) => EasingFunction::BounceOut,
        }
    }

    /// The entry placed at `v`, everything else kept.
    pub open spec fn placed_at(self, v: u64) -> Tweenable {
        match self {
            Tweenable::Tween(t) => Tweenable::Tween(Tween { start_abs: v, ..t }),
            Tweenable::Delay(d) => Tweenable::Delay(Delay { start_abs: v, ..d }),
        }
    }

    /// What applying the entry at ratio `num / den` makes of `comp`.
    pub open spec fn lerp_spec(self, comp: Transform, num: int, den: int) -> Transform {
        match self {
            Tweenable::Tween(t) => t.target.lerp_spec(comp, num, den),
            Tweenable::Delay(_) => comp,
        }
    }

    #[verifier::when_used_as_spec(duration_spec)]
    pub fn duration(&self) -> (r: u32)
        ensures
            r == self.duration_spec(),
    {
        match self {
            Tweenable::Tween(t) => t.duration,
            Tweenable::Delay(d) => d.duration,
        }
    }

    #[verifier::when_used_as_spec(start_spec)]
    pub fn start_abs(&self) -> (r: u64)
        ensures
            r == self.start_spec(),
    {
        match self {
            Tweenable::Tween(t) => t.start_abs,
            Tweenable::Delay(d) => d.start_abs,
        }
    }

    pub fn set_start_abs(&mut self, v: u64)
        ensures
            *final(self) == old(self).placed_at(v),
    {
        match self {
            Tweenable::Tween(t) => {
                t.start_abs = v;
            },
            Tweenable::Delay(d) => {
                d.start_abs = v;
            },
        }
    }

    /// The easing curve; a delay reports bounce-out, which is never evaluated.
    #[verifier::when_used_as_spec(ease_spec)]
    pub fn ease(&self) -> (r: EasingFunction)
        ensures
            r == self.ease_spec(),
    {
        match self {
            Tweenable::Tween(t) => t.ease,
            Tweenable::Delay(_) => EasingFunction::BounceOut,
        }
    }

    /// Applies the entry to `comp` at `ratio`; a delay leaves `comp` as it is.
    pub fn lerp(&self, comp: &mut Transform, ratio: Fraction)
        requires
            valid_ratio(ratio),
        ensures
            *final(comp) == self.lerp_spec(*old(comp), ratio.num as int, ratio.den as int),
    {
        match self {
            Tweenable::Tween(t) => t.target.lerp(comp, ratio),
            Tweenable::Delay(_) => {},
        }
    }
}

/// End time of a list of entries: the end of the last one, 0 when there is none.
pub open spec fn seq_end(s: Seq<Tweenable>) -> int {
    if s.len() == 0 {
        0
    } else {
        s.last().end_spec()
    }
}

/// The entries follow one another without gap or overlap from time 0, and
/// every end time fits the clock.
pub open spec fn contiguous(s: Seq<Tweenable>) -> bool {
    &&& s.len() > 0 ==> s[0].start_spec() == 0
    &&& forall|i: int| 0 <= i < s.len() - 1 ==> #[trigger] s[i + 1].start_spec() == s[i].end_spec()
    &&& forall|i: int| 0 <= i < s.len() ==> #[trigger] s[i].end_spec() <= u64::MAX
}

/// An ordered chain of entries; insertion order is execution order.
#[derive(Debug, Clone)]
pub struct Sequence {
    pub tweens: Vec<Tweenable>,
}

impl Sequence {
    pub open spec fn wf(&self) -> bool {
        contiguous(self.tweens@)
    }

    pub open spec fn end_time(&self) -> int {
        seq_end(self.tweens@)
    }

    pub fn new() -> (r: Sequence)
        ensures
            r.tweens@ == Seq::<Tweenable>::empty(),
            r.wf(),
    {
        Sequence { tweens: Vec::new() }
    }

    /// Whether the entries are contiguous from time 0 with every end time in range.
    pub fn is_contiguous(&self) -> (r: bool)
        ensures
            r == self.wf(),
    {
        let n = self.tweens.len();
        let mut i: usize = 0;
        let mut expected: u128 = 0;
        while i < n
            invariant
                n == self.tweens@.len(),
                0 <= i <= n,
                expected == (if i == 0 {
                    0
                } else {
                    self.tweens@[i - 1].end_spec()
                }),
                i > 0 ==> self.tweens@[0].start_spec() == 0,
                forall|j: int| 0 <= j < i - 1 ==> #[trigger] self.tweens@[j + 1].start_spec()
                    == self.tweens@[j].end_spec(),
                forall|j: int| 0 <= j < i ==> #[trigger] self.tweens@[j].end_spec() <= u64::MAX,
            decreases n - i,
        {
            let e = &self.tweens[i];
            if e.start_abs() as u128 != expected {
                proof {
                    if i > 0 {
                        let k = i - 1;
                        assert(self.tweens@[k + 1].start_spec() != self.tweens@[k].end_spec());
                    }
                }
                return false;
            }
            let end: u128 = e.start_abs() as u128 + e.duration() as u128;
            if end > u64::MAX as u128 {
                assert(self.tweens@[i as int].end_spec() > u64::MAX);
                return false;
            }
            expected = end;
            i = i + 1;
            proof {
                assert forall|j: int| 0 <= j < i - 1 implies #[trigger] self.tweens@[j + 1].start_spec()
                    == self.tweens@[j].end_spec() by {
                    if j == i - 2 {
                        assert(self.tweens@[j + 1].start_spec() == self.tweens@[j].end_spec());
                    }
                }
            }
        }
        true
    }

    /// The time at which the next appended entry starts.
    pub fn end_abs(&self) -> (r: u64)
        requires
            self.wf(),
        ensures
            r == self.end_time(),
    {
        let n = self.tweens.len();
        if n == 0 {
            0
        } else {
            let last = &self.tweens[n - 1];
            assert(self.tweens@[n - 1].end_spec() <= u64::MAX);
            last.start_abs() + last.duration() as u64
        }
    }

    /// Appends `tween`, starting it where the current last entry ends.
    pub fn then_tween(&mut self, tween: Tweenable)
        requires
            old(self).wf(),
            old(self).end_time() + tween.duration_spec() <= u64::MAX,
        ensures
            final(self).tweens@ == old(self).tweens@.push(
                tween.placed_at(old(self).end_time() as u64),
            ),
            final(self).wf(),
    {
        let start = self.end_abs();
        let mut entry = tween;
        entry.set_start_abs(start);
        self.tweens.push(entry);
        proof {
            let s = self.tweens@;
            assert forall|i: int| 0 <= i < s.len() - 1 implies #[trigger] s[i + 1].start_spec()
                == s[i].end_spec() by {
                if i + 1 < s.len() - 1 {
                    assert(s[i + 1] == old(self).tweens@[i + 1]);
                }
            }
        }
    }

    /// Appends a delay of `duration` milliseconds, starting it where the current
    /// last entry ends.
    pub fn then_delay(&mut self, duration: u32)
        requires
            old(self).wf(),
            old(self).end_time() + duration <= u64::MAX,
        ensures
            final(self).tweens@ == old(self).tweens@.push(
                Tweenable::Delay(Delay { start_abs: old(self).end_time() as u64, duration }),
            ),
            final(self).wf(),
    {
        let mut delay = Delay::new(duration);
        delay.start_abs = self.end_abs();
        self.then_tween(Tweenable::Delay(delay));
    }
}

impl Tween {
    /// A tween placed at time 0; a sequence moves it when it is appended.
    pub fn new(ease: EasingFunction, duration: u32, target: TweenTarget) -> (r: Tween)
        ensures
            r == (Tween { start_abs: 0, ease, duration, target }),
    {
        Tween { start_abs: 0, ease, duration, target }
    }

    /// A new sequence holding a copy of this tween followed by `tween`.
    pub fn then_tween(&self, tween: Tweenable) -> (r: Sequence)
        ensures
            r.tweens@ == seq![
                Tweenable::Tween(*self).placed_at(0),
                tween.placed_at(self.duration as u64),
            ],
            r.wf(),
    {
        let mut seq = Sequence::new();
        seq.then_tween(Tweenable::Tween(*self));
        seq.then_tween(tween);
        seq
    }

    /// A new sequence holding a copy of this tween followed by a delay.
    pub fn then_delay(&self, duration: u32) -> (r: Sequence)
        ensures
            r.tweens@ == seq![
                Tweenable::Tween(*self).placed_at(0),
                Tweenable::Delay(Delay { start_abs: self.duration as u64, duration }),
            ],
            r.wf(),
    {
        let mut seq = Sequence::new();
        seq.then_tween(Tweenable::Tween(*self));
        seq.then_delay(duration);
        seq
    }
}

impl Delay {
    /// A delay placed at time 0; a sequence moves it when it is appended.
    pub fn new(duration: u32) -> (r: Delay)
        ensures
            r == (Delay { start_abs: 0, duration }),
    {
        Delay { start_abs: 0, duration }
    }

    /// A new sequence holding a copy of this delay followed by `tween`.
    pub fn then_tween(&self, tween: Tweenable) -> (r: Sequence)
        ensures
            r.tweens@ == seq![
                Tweenable::Delay(Delay { start_abs: 0, ..*self }),
                tween.placed_at(self.duration as u64),
            ],
            r.wf(),
    {
        let mut seq = Sequence::new();
        seq.then_tween(Tweenable::Delay(*self));
        seq.then_tween(tween);
        seq
    }

    /// A new sequence holding a copy of this delay followed by another delay.
    pub fn then_delay(&self, duration: u32) -> (r: Sequence)
        ensures
            r.tweens@ == seq![
                Tweenable::Delay(Delay { start_abs: 0, ..*self }),
                Tweenable::Delay(Delay { start_abs: self.duration as u64, duration }),
            ],
            r.wf(),
    {
        let mut seq = Sequence::new();
        seq.then_tween(Tweenable::Delay(*self));
        seq.then_delay(duration);
        seq
    }
}

/// The sequences animating one entity; each runs independently of the others.
#[derive(Debug, Clone)]
pub struct AnimateComponent {
    pub sequences: Vec<Sequence>,
}

impl AnimateComponent {
    pub open spec fn wf(&self) -> bool {
        forall|i: int| 0 <= i < self.sequences@.len() ==> #[trigger] self.sequences@[i].wf()
    }

    /// Whether every sequence is contiguous; see `Sequence::is_contiguous`.
    pub fn is_well_formed(&self) -> (r: bool)
        ensures
            r == self.wf(),
    {
        let n = self.sequences.len();
        let mut i: usize = 0;
        while i < n
            invariant
                n == self.sequences@.len(),
                0 <= i <= n,
                forall|j: int| 0 <= j < i ==> #[trigger] self.sequences@[j].wf(),
            decreases n - i,
        {
            if !self.sequences[i].is_contiguous() {
                return false;
            }
            i = i + 1;
        }
        true
    }

    pub fn new() -> (r: AnimateComponent)
        ensures
            r.sequences@.len() == 0,
            r.wf(),
    {
        AnimateComponent { sequences: Vec::new() }
    }

    pub fn add_seq(&mut self, seq: Sequence)
        ensures
            final(self).sequences@ == old(self).sequences@.push(seq),
            old(self).wf() && seq.wf() ==> final(self).wf(),
    {
        self.sequences.push(seq);
    }

    /// Adds a sequence holding `t` alone.
    pub fn add_tween(&mut self, t: Tween)
        ensures
            final(self).sequences@.len() == old(self).sequences@.len() + 1,
            final(self).sequences@.drop_last() == old(self).sequences@,
            final(self).sequences@.last().tweens@ == seq![Tweenable::Tween(t).placed_at(0)],
            old(self).wf() ==> final(self).wf(),
    {
        let mut s = Sequence::new();
        s.then_tween(Tweenable::Tween(t));
        self.sequences.push(s);
    }
}

} // verus!
