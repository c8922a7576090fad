//! Playback clock, its state machine, and the pass that applies timelines
//! to transforms.
use vstd::prelude::*;

use crate::animation::{AnimateComponent, Sequence, Tweenable};
use crate::easing::{easing_function_to_ratio, ease_spec, Fraction};
use crate::transform::{lerp_value, valid_ratio, with_field, Transform, TransformField, RATIO_DEN_LIMIT};

verus! {

/// Playback modes of the clock.
#[derive(Debug, Clone, Copy, PartialEq, Eq, Structural)]
pub enum AnimationSystemState {
    Play,
    Pause,
    Reset,
    GoToTimeWithUpdate,
    GoToTimeWithoutUpdate,
}

/// The playback clock shared by every animated entity. Times are in milliseconds.
#[derive(Debug, Clone, Copy, PartialEq, Eq, Structural)]
pub struct AnimationSystemInfo {
    pub last_time: i64,
    pub current_time: i64,
    pub state: AnimationSystemState,
    pub dt: i64,
    /// The latest end time over all known entries, valid while `needs_update` is false.
    pub total_time: u64,
    pub needs_update: bool,
}

/// Time step of one frame at 60 frames per second, in whole milliseconds.
pub const DEFAULT_DT: i64 = 16;

impl Default for AnimationSystemInfo {
    fn default() -> (r: AnimationSystemInfo)
        ensures
            r == (AnimationSystemInfo {
                last_time: 0,
                current_time: 0,
                state: AnimationSystemState::Play,
                dt: DEFAULT_DT,
                total_time: 0,
                needs_update: true,
            }),
    {
        AnimationSystemInfo {
            last_time: 0,
            current_time: 0,
            state: AnimationSystemState::Play,
            dt: DEFAULT_DT,
            total_time: 0,
            needs_update: true,
        }
    }
}

/// `e` covers time `t`, both ends included.
pub open spec fn is_active(e: Tweenable, t: int) -> bool {
    e.start_spec() <= t <= e.end_spec()
}

/// Progress through `e` at time `t` as a numerator and a denominator; an entry
/// of length zero counts as complete.
pub open spec fn progress(e: Tweenable, t: int) -> (int, int) {
    if e.duration_spec() == 0 {
        (1, 1)
    } else {
        (t - e.start_spec(), e.duration_spec() as int)
    }
}

/// `c` after `e` is applied at its eased progress for time `t`.
pub open spec fn apply_eased(e: Tweenable, t: int, c: Transform) -> Transform {
    let p = progress(e, t);
    let r = ease_spec(e.ease_spec(), p.0, p.1);
    e.lerp_spec(c, r.0, r.1)
}

/// Play rule for one sequence, scanning from index `i`: the first entry that
/// covers `t` is applied and the scan stops.
pub open spec fn play_from(s: Seq<Tweenable>, t: int, i: int, c: Transform) -> Transform
    decreases s.len() - i,
{
    if i < 0 || i >= s.len() {
        c
    } else if is_active(s[i], t) {
        apply_eased(s[i], t, c)
    } else {
        play_from(s, t, i + 1, c)
    }
}

/// Reset rule: entries `n - 1` down to `0` applied at ratio 0, the first entry last.
pub open spec fn reset_upto(s: Seq<Tweenable>, n: int, c: Transform) -> Transform
    decreases n,
{
    if n <= 0 || n > s.len() {
        c
    } else {
        reset_upto(s, n - 1, s[n - 1].lerp_spec(c, 0, 1))
    }
}

/// Seek rule: entries `0` to `n - 1` that start at or before `t` applied at ratio 1, in order.
pub open spec fn seek_upto(s: Seq<Tweenable>, n: int, t: int, c: Transform) -> Transform
    decreases n,
{
    if n <= 0 || n > s.len() {
        c
    } else {
        let c1 = seek_upto(s, n - 1, t, c);
        if s[n - 1].start_spec() <= t {
            s[n - 1].lerp_spec(c1, 1, 1)
        } else {
            c1
        }
    }
}

/// One sequence processed under `state` at time `t`.
pub open spec fn sequence_step(
    state: AnimationSystemState,
    s: Seq<Tweenable>,
    t: int,
    c: Transform,
) -> Transform {
    match state {
        AnimationSystemState::Play => play_from(s, t, 0, c),
        AnimationSystemState::GoToTimeWithoutUpdate => play_from(s, t, 0, c),
        AnimationSystemState::Pause => c,
        AnimationSystemState::Reset => reset_upto(s, s.len() as int, c),
        AnimationSystemState::GoToTimeWithUpdate => seek_upto(s, s.len() as int, t, c),
    }
}

/// The first `n` sequences processed in order under `state` at time `t`.
pub open spec fn sequences_step(
    state: AnimationSystemState,
    seqs: Seq<Sequence>,
    n: int,
    t: int,
    c: Transform,
) -> Transform
    decreases n,
{
    if n <= 0 || n > seqs.len() {
        c
    } else {
        sequence_step(state, seqs[n - 1].tweens@, t, sequences_step(state, seqs, n - 1, t, c))
    }
}

/// What one tick makes of an entity's transform.
pub open spec fn animate_spec(
    state: AnimationSystemState,
    t: int,
    anim: AnimateComponent,
    c: Transform,
) -> Transform {
    sequences_step(state, anim.sequences@, anim.sequences@.len() as int, t, c)
}

/// The clock after one tick: a reset turns into a pause, and the time advances
/// by `dt` unless paused or outside `[0, total_time]`.
pub open spec fn tick_spec(info: AnimationSystemInfo) -> AnimationSystemInfo {
    let advances = info.state != AnimationSystemState::Pause && 0 <= info.current_time
        <= info.total_time;
    AnimationSystemInfo {
        state: if info.state == AnimationSystemState::Reset {
            AnimationSystemState::Pause
        } else {
            info.state
        },
        current_time: if advances {
            (info.current_time + info.dt) as i64
        } else {
            info.current_time
        },
        ..info
    }
}

/// When a tick advances the clock, the advanced time fits it.
pub open spec fn tick_fits(info: AnimationSystemInfo) -> bool {
    info.state != AnimationSystemState::Pause && 0 <= info.current_time <= info.total_time
        ==> info.current_time + info.dt <= i64::MAX
}

/// Eased ratio of `e` at time `t`, which `e` covers.
fn eased_ratio(e: &Tweenable, t: i64) -> (r: Fraction)
    requires
        is_active(*e, t as int),
    ensures
        r.num == ease_spec(e.ease_spec(), progress(*e, t as int).0, progress(*e, t as int).1).0,
        r.den == ease_spec(e.ease_spec(), progress(*e, t as int).0, progress(*e, t as int).1).1,
        valid_ratio(r),
{
    let d = e.duration();
    let r = if d == 0 {
        easing_function_to_ratio(e.ease(), 1, 1)
    } else {
        let n: i64 = t - e.start_abs() as i64;
        easing_function_to_ratio(e.ease(), n, d)
    };
    assert(r.den <= RATIO_DEN_LIMIT);
    r
}

/// Applies the play rule of one sequence to `comp`.
pub fn play_sequence(seq: &Sequence, t: i64, comp: &mut Transform)
    requires
        seq.wf(),
    ensures
        *final(comp) == play_from(seq.tweens@, t as int, 0, *old(comp)),
{
    let n = seq.tweens.len();
    let mut i: usize = 0;
    while i < n
        invariant
            n == seq.tweens@.len(),
            0 <= i <= n,
            *comp == *old(comp),
            play_from(seq.tweens@, t as int, 0, *old(comp)) == play_from(
                seq.tweens@,
                t as int,
                i as int,
                *old(comp),
            ),
        decreases n - i,
    {
        let e = &seq.tweens[i];
        let start = e.start_abs() as i128;
        if start <= t as i128 && t as i128 <= start + e.duration() as i128 {
            let r = eased_ratio(e, t);
            e.lerp(comp, r);
            return;
        }
        i = i + 1;
    }
}

/// Applies the reset rule of one sequence to `comp`: every entry at ratio 0,
/// last entry first.
pub fn reset_sequence(seq: &Sequence, comp: &mut Transform)
    ensures
        *final(comp) == reset_upto(seq.tweens@, seq.tweens@.len() as int, *old(comp)),
{
    let mut i: usize = seq.tweens.len();
    while i > 0
        invariant
            0 <= i <= seq.tweens@.len(),
            reset_upto(seq.tweens@, seq.tweens@.len() as int, *old(comp)) == reset_upto(
                seq.tweens@,
                i as int,
                *comp,
            ),
        decreases i,
    {
        let e = &seq.tweens[i - 1];
        e.lerp(comp, Fraction::zero());
        i = i - 1;
    }
}

/// Applies the seek rule of one sequence to `comp`: every entry that starts at
/// or before `t` at ratio 1, in order.
pub fn seek_sequence(seq: &Sequence, t: i64, comp: &mut Transform)
    ensures
        *final(comp) == seek_upto(seq.tweens@, seq.tweens@.len() as int, t as int, *old(comp)),
{
    let n = seq.tweens.len();
    let mut i: usize = 0;
    while i < n
        invariant
            n == seq.tweens@.len(),
            0 <= i <= n,
            *comp == seek_upto(seq.tweens@, i as int, t as int, *old(comp)),
        decreases n - i,
    {
        let e = &seq.tweens[i];
        if e.start_abs() as i128 <= t as i128 {
            e.lerp(comp, Fraction::one());
        }
        i = i + 1;
    }
}

/// Runs one entity's timelines against its transform under `state` at time `t`.
pub fn animate_entity(
    state: AnimationSystemState,
    t: i64,
    anim: &AnimateComponent,
    comp: &mut Transform,
)
    requires
        anim.wf(),
    ensures
        *final(comp) == animate_spec(state, t as int, *anim, *old(comp)),
{
    let n = anim.sequences.len();
    let mut i: usize = 0;
    while i < n
        invariant
            n == anim.sequences@.len(),
            0 <= i <= n,
            anim.wf(),
            *comp == sequences_step(state, anim.sequences@, i as int, t as int, *old(comp)),
        decreases n - i,
    {
        let seq = &anim.sequences[i];
        assert(anim.sequences@[i as int].wf());
        match state {
            AnimationSystemState::Play => play_sequence(seq, t, comp),
            AnimationSystemState::GoToTimeWithoutUpdate => play_sequence(seq, t, comp),
            AnimationSystemState::Pause => {},
            AnimationSystemState::Reset => reset_sequence(seq, comp),
            AnimationSystemState::GoToTimeWithUpdate => seek_sequence(seq, t, comp),
        }
        i = i + 1;
    }
}

/// Latest end time among the first `n` entries of `s`, 0 when there is none.
pub open spec fn entries_max_end(s: Seq<Tweenable>, n: int) -> int
    decreases n,
{
    if n <= 0 || n > s.len() {
        0
    } else {
        let m = entries_max_end(s, n - 1);
        if s[n - 1].end_spec() > m {
            s[n - 1].end_spec()
        } else {
            m
        }
    }
}

/// Latest end time among the entries of the first `n` sequences.
pub open spec fn sequences_max_end(seqs: Seq<Sequence>, n: int) -> int
    decreases n,
{
    if n <= 0 || n > seqs.len() {
        0
    } else {
        let m = sequences_max_end(seqs, n - 1);
        let e = entries_max_end(seqs[n - 1].tweens@, seqs[n - 1].tweens@.len() as int);
        if e > m {
            e
        } else {
            m
        }
    }
}

/// Latest end time among the entries of the first `n` entities.
pub open spec fn entities_max_end(anims: Seq<AnimateComponent>, n: int) -> int
    decreases n,
{
    if n <= 0 || n > anims.len() {
        0
    } else {
        let m = entities_max_end(anims, n - 1);
        let e = sequences_max_end(anims[n - 1].sequences@, anims[n - 1].sequences@.len() as int);
        if e > m {
            e
        } else {
            m
        }
    }
}

/// Latest end time over one sequence's entries.
fn sequence_max_end(seq: &Sequence) -> (r: u64)
    requires
        seq.wf(),
    ensures
        r == entries_max_end(seq.tweens@, seq.tweens@.len() as int),
{
    let n = seq.tweens.len();
    let mut m: u64 = 0;
    let mut i: usize = 0;
    while i < n
        invariant
            n == seq.tweens@.len(),
            0 <= i <= n,
            seq.wf(),
            m == entries_max_end(seq.tweens@, i as int),
        decreases n - i,
    {
        let e = &seq.tweens[i];
        assert(seq.tweens@[i as int].end_spec() <= u64::MAX);
        let end = e.start_abs() + e.duration() as u64;
        if end > m {
            m = end;
        }
        i = i + 1;
    }
    m
}

/// Latest end time over every entry of every entity.
pub fn total_time_of(anims: &Vec<AnimateComponent>) -> (r: u64)
    requires
        forall|k: int| 0 <= k < anims@.len() ==> #[trigger] anims@[k].wf(),
    ensures
        r == entities_max_end(anims@, anims@.len() as int),
{
    let na = anims.len();
    let mut m: u64 = 0;
    let mut k: usize = 0;
    while k < na
        invariant
            na == anims@.len(),
            0 <= k <= na,
            forall|k: int| 0 <= k < anims@.len() ==> #[trigger] anims@[k].wf(),
            m == entities_max_end(anims@, k as int),
        decreases na - k,
    {
        let anim = &anims[k];
        assert(anim.wf());
        let ns = anim.sequences.len();
        let mut ms: u64 = 0;
        let mut j: usize = 0;
        while j < ns
            invariant
                ns == anim.sequences@.len(),
                0 <= j <= ns,
                anim.wf(),
                ms == sequences_max_end(anim.sequences@, j as int),
            decreases ns - j,
        {
            assert(anim.sequences@[j as int].wf());
            let e = sequence_max_end(&anim.sequences[j]);
            if e > ms {
                ms = e;
            }
            j = j + 1;
        }
        if ms > m {
            m = ms;
        }
        k = k + 1;
    }
    m
}

/// Recomputes the total time when it is marked stale, then clears the mark.
pub fn animation_controller_sys(info: &mut AnimationSystemInfo, anims: &Vec<AnimateComponent>)
    requires
        forall|k: int| 0 <= k < anims@.len() ==> #[trigger] anims@[k].wf(),
    ensures
        old(info).needs_update ==> *final(info) == (AnimationSystemInfo {
            total_time: entities_max_end(anims@, anims@.len() as int) as u64,
            needs_update: false,
            ..*old(info)
        }),
        !old(info).needs_update ==> *final(info) == *old(info),
{
    if info.needs_update {
        info.needs_update = false;
        info.total_time = total_time_of(anims);
    }
}

/// Advances the clock by one tick; see `tick_spec`.
pub fn advance_clock(info: &mut AnimationSystemInfo)
    requires
        tick_fits(*old(info)),
    ensures
        *final(info) == tick_spec(*old(info)),
{
    let paused = match info.state {
        AnimationSystemState::Pause => true,
        _ => false,
    };
    let is_reset = match info.state {
        AnimationSystemState::Reset => true,
        _ => false,
    };
    if is_reset {
        info.state = AnimationSystemState::Pause;
    }
    if !paused && info.current_time >= 0 && info.current_time as i128 <= info.total_time as i128 {
        info.current_time = info.current_time + info.dt;
    }
}

/// Runs one tick of every entity's timelines against its transform, then
/// advances the clock.
///
/// `anims[i]` drives `targets[i]`.
pub fn animation_sys(
    info: &mut AnimationSystemInfo,
    anims: &Vec<AnimateComponent>,
    targets: &mut Vec<Transform>,
)
    requires
        anims@.len() == old(targets)@.len(),
        forall|k: int| 0 <= k < anims@.len() ==> #[trigger] anims@[k].wf(),
        tick_fits(*old(info)),
    ensures
        final(targets)@.len() == old(targets)@.len(),
        forall|k: int|
            0 <= k < old(targets)@.len() ==> #[trigger] final(targets)@[k] == animate_spec(
                old(info).state,
                old(info).current_time as int,
                anims@[k],
                old(targets)@[k],
            ),
        *final(info) == tick_spec(*old(info)),
{
    let n = targets.len();
    let mut k: usize = 0;
    while k < n
        invariant
            n == targets@.len(),
            n == anims@.len(),
            0 <= k <= n,
            *info == *old(info),
            forall|k: int| 0 <= k < anims@.len() ==> #[trigger] anims@[k].wf(),
            forall|j: int|
                0 <= j < k ==> #[trigger] targets@[j] == animate_spec(
                    old(info).state,
                    old(info).current_time as int,
                    anims@[j],
                    old(targets)@[j],
                ),
            forall|j: int| k <= j < n ==> #[trigger] targets@[j] == old(targets)@[j],
        decreases n - k,
    {
        let mut c = targets[k];
        animate_entity(info.state, info.current_time, &anims[k], &mut c);
        targets.set(k, c);
        k = k + 1;
    }
    advance_clock(info);
}

/// Toggles between play and pause; other modes are left alone.
pub fn toggle_play(info: &mut AnimationSystemInfo)
    ensures
        old(info).state == AnimationSystemState::Play ==> final(info).state
            == AnimationSystemState::Pause,
        old(info).state == AnimationSystemState::Pause ==> final(info).state
            == AnimationSystemState::Play,
        old(info).state != AnimationSystemState::Play && old(info).state
            != AnimationSystemState::Pause ==> final(info).state == old(info).state,
        *final(info) == (AnimationSystemInfo { state: final(info).state, ..*old(info) }),
{
    match info.state {
        AnimationSystemState::Play => {
            info.state = AnimationSystemState::Pause;
        },
        AnimationSystemState::Pause => {
            info.state = AnimationSystemState::Play;
        },
        _ => {},
    }
}

/// Rewinds the clock to 0 and asks for a reset on the next tick.
pub fn request_reset(info: &mut AnimationSystemInfo)
    ensures
        *final(info) == (AnimationSystemInfo {
            current_time: 0,
            state: AnimationSystemState::Reset,
            ..*old(info)
        }),
{
    info.current_time = 0;
    info.state = AnimationSystemState::Reset;
}

/// Seeks to `time`, evaluating timelines with the play rule there.
pub fn go_to_time(info: &mut AnimationSystemInfo, time: i64)
    ensures
        *final(info) == (AnimationSystemInfo {
            current_time: time,
            state: AnimationSystemState::GoToTimeWithoutUpdate,
            ..*old(info)
        }),
{
    info.current_time = time;
    info.state = AnimationSystemState::GoToTimeWithoutUpdate;
}

/// Seeks to `time`, completing every entry that has started by then; the time
/// left is kept in `last_time`.
pub fn go_to_time_with_update(info: &mut AnimationSystemInfo, time: i64)
    ensures
        *final(info) == (AnimationSystemInfo {
            last_time: old(info).current_time,
            current_time: time,
            state: AnimationSystemState::GoToTimeWithUpdate,
            ..*old(info)
        }),
{
    info.last_time = info.current_time;
    info.current_time = time;
    info.state = AnimationSystemState::GoToTimeWithUpdate;
}

/// Every tween in `s` drives the field `f`.
pub open spec fn drives_only(s: Seq<Tweenable>, f: TransformField) -> bool {
    forall|i: int|
        0 <= i < s.len() ==> match #[trigger] s[i] {
            Tweenable::Tween(t) => t.target.field() == f,
            Tweenable::Delay(_) => true,
        }
}

proof fn lemma_reset_prefix(s: Seq<Tweenable>, f: TransformField, n: int, c: Transform)
    requires
        1 <= n <= s.len(),
        s[0] is Tween,
        drives_only(s, f),
        s[0]->Tween_0.target.field() == f,
    ensures
        reset_upto(s, n, c) == s[0].lerp_spec(c, 0, 1),
    decreases n,
{
    let first = s[0]->Tween_0.target;
    if n == 1 {
        assert(reset_upto(s, 0, s[0].lerp_spec(c, 0, 1)) == s[0].lerp_spec(c, 0, 1));
    } else {
        let c1 = s[n - 1].lerp_spec(c, 0, 1);
        lemma_reset_prefix(s, f, n - 1, c1);
        match s[n - 1] {
            Tweenable::Tween(t) => {
                assert(t.target.field() == f);
                let v = lerp_value(first.start() as int, first.end() as int, 0, 1) as i32;
                let w = lerp_value(t.target.start() as int, t.target.end() as int, 0, 1) as i32;
                assert(with_field(with_field(c, f, w), f, v) == with_field(c, f, v));
            },
            Tweenable::Delay(_) => {},
        }
    }
}

/// Resetting a sequence whose tweens all drive one field, and whose first entry
/// is a tween, leaves the component as that first tween's start state: later
/// entries are undone first and the earliest one is applied last.
pub proof fn lemma_reset_restores_first_start(s: Seq<Tweenable>, c: Transform)
    requires
        s.len() >= 1,
        s[0] is Tween,
        drives_only(s, s[0]->Tween_0.target.field()),
    ensures
        sequence_step(AnimationSystemState::Reset, s, 0, c) == s[0].lerp_spec(c, 0, 1),
{
    lemma_reset_prefix(s, s[0]->Tween_0.target.field(), s.len() as int, c);
}

/// The field write, if any, that entry `e` makes at time `t` under the play rule.
pub open spec fn entry_write(e: Tweenable, t: int) -> Option<(TransformField, i32)> {
    match e {
        Tweenable::Tween(tw) => {
            let p = progress(e, t);
            let r = ease_spec(e.ease_spec(), p.0, p.1);
            Some(
                (
                    tw.target.field(),
                    lerp_value(tw.target.start() as int, tw.target.end() as int, r.0, r.1) as i32,
                ),
            )
        },
        Tweenable::Delay(_) => None,
    }
}

/// The field write, if any, that the play rule makes for `s` scanning from `i`.
pub open spec fn play_write(s: Seq<Tweenable>, t: int, i: int) -> Option<(TransformField, i32)>
    decreases s.len() - i,
{
    if i < 0 || i >= s.len() {
        None
    } else if is_active(s[i], t) {
        entry_write(s[i], t)
    } else {
        play_write(s, t, i + 1)
    }
}

pub open spec fn apply_write(c: Transform, w: Option<(TransformField, i32)>) -> Transform {
    match w {
        None => c,
        Some((f, v)) => with_field(c, f, v),
    }
}

/// The last value written to each driven field, position x first.
pub open spec fn set_pending(c: Transform, p: (Option<i32>, Option<i32>)) -> Transform {
    let c1 = match p.0 {
        Some(v) => with_field(c, TransformField::PositionX, v),
        None => c,
    };
    match p.1 {
        Some(v) => with_field(c1, TransformField::RotationZ, v),
        None => c1,
    }
}

pub open spec fn add_write(p: (Option<i32>, Option<i32>), w: Option<(TransformField, i32)>) -> (
    Option<i32>,
    Option<i32>,
) {
    match w {
        None => p,
        Some((TransformField::PositionX, v)) => (Some(v), p.1),
        Some((TransformField::RotationZ, v)) => (p.0, Some(v)),
    }
}

pub open spec fn play_pending(seqs: Seq<Sequence>, n: int, t: int) -> (Option<i32>, Option<i32>)
    decreases n,
{
    if n <= 0 || n > seqs.len() {
        (None, None)
    } else {
        add_write(play_pending(seqs, n - 1, t), play_write(seqs[n - 1].tweens@, t, 0))
    }
}

proof fn lemma_play_from_write(s: Seq<Tweenable>, t: int, i: int, c: Transform)
    requires
        0 <= i,
    ensures
        play_from(s, t, i, c) == apply_write(c, play_write(s, t, i)),
    decreases s.len() - i,
{
    if i < s.len() && !is_active(s[i], t) {
        lemma_play_from_write(s, t, i + 1, c);
    }
}

proof fn lemma_add_write(c: Transform, p: (Option<i32>, Option<i32>), w: Option<(TransformField, i32)>)
    ensures
        apply_write(set_pending(c, p), w) == set_pending(c, add_write(p, w)),
{
}

proof fn lemma_play_pending(seqs: Seq<Sequence>, n: int, t: int, c: Transform)
    requires
        0 <= n <= seqs.len(),
    ensures
        sequences_step(AnimationSystemState::Play, seqs, n, t, c) == set_pending(
            c,
            play_pending(seqs, n, t),
        ),
    decreases n,
{
    if n > 0 {
        lemma_play_pending(seqs, n - 1, t, c);
        let prev = sequences_step(AnimationSystemState::Play, seqs, n - 1, t, c);
        lemma_play_from_write(seqs[n - 1].tweens@, t, 0, prev);
        lemma_add_write(c, play_pending(seqs, n - 1, t), play_write(seqs[n - 1].tweens@, t, 0));
    }
}

/// With no time step, a second play tick changes nothing: the clock stays put
/// and applying the timelines again gives the component it already has.
pub proof fn lemma_play_idempotent(info: AnimationSystemInfo, anim: AnimateComponent, c: Transform)
    requires
        info.state == AnimationSystemState::Play,
        info.dt == 0,
    ensures
        tick_spec(info) == info,
        animate_spec(
            info.state,
            info.current_time as int,
            anim,
            animate_spec(info.state, info.current_time as int, anim, c),
        ) == animate_spec(info.state, info.current_time as int, anim, c),
{
    let seqs = anim.sequences@;
    let t = info.current_time as int;
    let c1 = animate_spec(info.state, t, anim, c);
    lemma_play_pending(seqs, seqs.len() as int, t, c);
    lemma_play_pending(seqs, seqs.len() as int, t, c1);
}

} // verus!
