use mylib::animation::{
    AnimateComponent, Delay, Sequence, Tween, TweenTarget, Tweenable, TransformPositionXTween,
    TransformRotationZTween,
};
use mylib::easing::EasingFunction;
use mylib::playback::{
    animate_entity, animation_controller_sys, animation_sys, go_to_time, go_to_time_with_update,
    request_reset, toggle_play, AnimationSystemInfo, AnimationSystemState,
};
use mylib::transform::{Transform, Vector3};

fn pos_x(start: i32, end: i32) -> TweenTarget {
    TweenTarget::PositionX(TransformPositionXTween { start, end })
}

fn quad(duration: u32, start: i32, end: i32) -> Tween {
    Tween::new(EasingFunction::QuadraticIn, duration, pos_x(start, end))
}

fn there_and_back() -> Sequence {
    let mut seq = Sequence::new();
    seq.then_tween(Tweenable::Tween(quad(2000, 0, 5000)));
    seq.then_delay(2000);
    seq.then_tween(Tweenable::Tween(quad(2000, 5000, 0)));
    seq
}

fn start_of(e: &Tweenable) -> u64 {
    e.start_abs()
}

fn info_at(time: i64, state: AnimationSystemState) -> AnimationSystemInfo {
    let mut info = AnimationSystemInfo::default();
    info.current_time = time;
    info.state = state;
    info.dt = 0;
    info
}

fn x_after(info: AnimationSystemInfo, anim: &AnimateComponent, start: Transform) -> i32 {
    let mut c = start;
    animate_entity(info.state, info.current_time, anim, &mut c);
    c.position.x
}

#[test]
fn sequence_entries_are_contiguous() {
    let mut seq = Sequence::new();
    seq.then_tween(Tweenable::Tween(quad(300, 0, 1)));
    seq.then_delay(0);
    seq.then_tween(Tweenable::Delay(Delay::new(150)));
    seq.then_tween(Tweenable::Tween(quad(1000, 1, 2)));
    seq.then_delay(70);
    let starts: Vec<u64> = seq.tweens.iter().map(start_of).collect();
    assert_eq!(starts, vec![0, 300, 300, 450, 1450]);
    for w in seq.tweens.windows(2) {
        assert_eq!(w[1].start_abs(), w[0].start_abs() + w[0].duration() as u64);
    }
    assert_eq!(seq.end_abs(), 1520);
}

#[test]
fn tween_and_delay_builders_start_new_sequences() {
    let t = quad(400, 0, 10);
    let s = t.then_tween(Tweenable::Delay(Delay::new(100)));
    assert_eq!(s.tweens.len(), 2);
    assert_eq!(s.tweens[1].start_abs(), 400);
    let s = t.then_delay(250);
    assert_eq!(s.end_abs(), 650);
    let d = Delay::new(50);
    let s = d.then_tween(Tweenable::Tween(t));
    assert_eq!(s.tweens[1].start_abs(), 50);
    assert_eq!(s.tweens[0].ease(), EasingFunction::BounceOut);
    let s = d.then_delay(5);
    assert_eq!(s.end_abs(), 55);
}

#[test]
fn play_scenario_with_delay_between_tweens() {
    let mut anim = AnimateComponent::new();
    anim.add_seq(there_and_back());
    let start = Transform::default();
    assert_eq!(x_after(info_at(1000, AnimationSystemState::Play), &anim, start), 1250);
    let at_two = x_after(info_at(2000, AnimationSystemState::Play), &anim, start);
    assert_eq!(at_two, 5000);
    let mut held = start;
    held.position.x = at_two;
    assert_eq!(x_after(info_at(3000, AnimationSystemState::Play), &anim, held), 5000);
    assert_eq!(x_after(info_at(5000, AnimationSystemState::Play), &anim, held), 3750);
}

#[test]
fn play_twice_without_time_step_is_stable() {
    let mut anim = AnimateComponent::new();
    anim.add_seq(there_and_back());
    let mut rot = Sequence::new();
    rot.then_tween(Tweenable::Tween(Tween::new(
        EasingFunction::BounceOut,
        3000,
        TweenTarget::RotationZ(TransformRotationZTween { start: 0, end: 180_000 }),
    )));
    anim.add_seq(rot);
    let anims = vec![anim];
    let mut targets = vec![Transform::default()];
    let mut info = info_at(1234, AnimationSystemState::Play);
    info.total_time = 6000;
    info.needs_update = false;
    animation_sys(&mut info, &anims, &mut targets);
    let once = targets[0];
    assert_eq!(info.current_time, 1234);
    animation_sys(&mut info, &anims, &mut targets);
    assert_eq!(targets[0], once);
    assert_ne!(once.rotation.z, 0);
}

#[test]
fn reset_restores_earliest_start_state() {
    let mut seq = Sequence::new();
    seq.then_tween(Tweenable::Tween(quad(1000, 100, 200)));
    seq.then_delay(500);
    seq.then_tween(Tweenable::Tween(quad(1000, 300, 400)));
    seq.then_tween(Tweenable::Tween(quad(1000, 700, 900)));
    let mut anim = AnimateComponent::new();
    anim.add_seq(seq);
    let mut c = Transform::default();
    c.position.x = 777;
    c.position.y = 12;
    animate_entity(AnimationSystemState::Reset, 2500, &anim, &mut c);
    assert_eq!(c.position.x, 100);
    assert_eq!(c.position.y, 12);
}

#[test]
fn reset_tick_moves_to_pause() {
    let anims = vec![AnimateComponent::new()];
    let mut targets = vec![Transform::default()];
    let mut info = AnimationSystemInfo::default();
    info.total_time = 100;
    info.current_time = 40;
    request_reset(&mut info);
    assert_eq!(info.current_time, 0);
    assert_eq!(info.state, AnimationSystemState::Reset);
    animation_sys(&mut info, &anims, &mut targets);
    assert_eq!(info.state, AnimationSystemState::Pause);
}

#[test]
fn seek_with_update_completes_started_entries() {
    let mut anim = AnimateComponent::new();
    anim.add_seq(there_and_back());
    let start = Transform::default();
    // at 1000 only the first tween has started: it is snapped to its end value
    assert_eq!(x_after(info_at(1000, AnimationSystemState::GoToTimeWithUpdate), &anim, start), 5000);
    // at 4500 the last tween has started too and is completed
    assert_eq!(x_after(info_at(4500, AnimationSystemState::GoToTimeWithUpdate), &anim, start), 0);
    // before anything starts nothing changes
    assert_eq!(x_after(info_at(-1, AnimationSystemState::GoToTimeWithUpdate), &anim, start), 0);
}

#[test]
fn seek_without_update_uses_play_rule() {
    let mut anim = AnimateComponent::new();
    anim.add_seq(there_and_back());
    let mut info = AnimationSystemInfo::default();
    go_to_time(&mut info, 5000);
    assert_eq!(info.state, AnimationSystemState::GoToTimeWithoutUpdate);
    assert_eq!(x_after(info, &anim, Transform::default()), 3750);
    go_to_time_with_update(&mut info, 100);
    assert_eq!(info.last_time, 5000);
    assert_eq!(info.current_time, 100);
    assert_eq!(info.state, AnimationSystemState::GoToTimeWithUpdate);
}

#[test]
fn pause_freezes_clock_and_components() {
    let mut anim = AnimateComponent::new();
    anim.add_seq(there_and_back());
    let anims = vec![anim];
    let mut targets = vec![Transform::default()];
    let mut info = AnimationSystemInfo::default();
    info.total_time = 6000;
    info.current_time = 1000;
    toggle_play(&mut info);
    assert_eq!(info.state, AnimationSystemState::Pause);
    animation_sys(&mut info, &anims, &mut targets);
    assert_eq!(info.current_time, 1000);
    assert_eq!(targets[0], Transform::default());
    toggle_play(&mut info);
    assert_eq!(info.state, AnimationSystemState::Play);
}

#[test]
fn play_advances_only_inside_total_time() {
    let anims: Vec<AnimateComponent> = vec![];
    let mut targets: Vec<Transform> = vec![];
    let mut info = AnimationSystemInfo::default();
    info.total_time = 100;
    info.current_time = 90;
    animation_sys(&mut info, &anims, &mut targets);
    assert_eq!(info.current_time, 106);
    animation_sys(&mut info, &anims, &mut targets);
    assert_eq!(info.current_time, 106);
    info.current_time = -5;
    animation_sys(&mut info, &anims, &mut targets);
    assert_eq!(info.current_time, -5);
}

#[test]
fn controller_recomputes_total_time_once() {
    let mut anim = AnimateComponent::new();
    anim.add_seq(there_and_back());
    anim.add_tween(quad(9000, 0, 1));
    let mut anims = vec![anim, AnimateComponent::new()];
    let mut info = AnimationSystemInfo::default();
    assert!(info.needs_update);
    animation_controller_sys(&mut info, &anims);
    assert_eq!(info.total_time, 9000);
    assert!(!info.needs_update);
    anims[1].add_tween(quad(20000, 0, 1));
    animation_controller_sys(&mut info, &anims);
    assert_eq!(info.total_time, 9000);
}

#[test]
fn zero_length_tween_snaps_to_end() {
    let mut anim = AnimateComponent::new();
    anim.add_tween(quad(0, 10, 20));
    assert_eq!(x_after(info_at(0, AnimationSystemState::Play), &anim, Transform::default()), 20);
}

#[test]
fn rotation_tween_drives_rotation_only() {
    let mut anim = AnimateComponent::new();
    anim.add_tween(Tween::new(
        EasingFunction::QuadraticIn,
        1000,
        TweenTarget::RotationZ(TransformRotationZTween { start: 0, end: 180_000 }),
    ));
    let mut c = Transform::default();
    animate_entity(AnimationSystemState::Play, 500, &anim, &mut c);
    assert_eq!(c.rotation.z, 45_000);
    assert_eq!(c.position, Vector3 { x: 0, y: 0, z: 0 });
    assert_eq!(c.scale, Vector3 { x: 1000, y: 1000, z: 1000 });
}

#[test]
fn contiguity_check_spots_gaps() {
    let seq = there_and_back();
    assert!(seq.is_contiguous());
    let mut broken = seq.clone();
    broken.tweens[1].set_start_abs(2500);
    assert!(!broken.is_contiguous());
    let mut late_start = Sequence::new();
    late_start.tweens.push(Tweenable::Delay(Delay { start_abs: 10, duration: 5 }));
    assert!(!late_start.is_contiguous());
    let mut anim = AnimateComponent::new();
    anim.add_seq(seq);
    assert!(anim.is_well_formed());
    anim.add_seq(broken);
    assert!(!anim.is_well_formed());
}
