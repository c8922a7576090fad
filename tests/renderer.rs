use mylib::atlas::{AtlasError, Rect, ATLAS_MAX_PLACEMENTS};
use mylib::renderer::{plan_draw_calls, DrawCall, Size, SpriteRenderer, SPRITE_PER_DRAW_CALL_MAX_COUNT};
use mylib::transform::Transform;

fn ceil_div(n: usize, m: usize) -> usize {
    (n + m - 1) / m
}

#[test]
fn draw_call_count_is_ceiling() {
    for m in 1..8usize {
        for n in 1..40usize {
            assert_eq!(plan_draw_calls(n, m, false).len(), ceil_div(n, m));
        }
    }
}

#[test]
fn small_batch_uploads_only_when_dirty() {
    assert_eq!(plan_draw_calls(5, 5, true), vec![DrawCall { first: 0, count: 5, upload: true }]);
    assert_eq!(plan_draw_calls(3, 5, false), vec![DrawCall { first: 0, count: 3, upload: false }]);
    assert_eq!(plan_draw_calls(0, 5, false), vec![DrawCall { first: 0, count: 0, upload: false }]);
}

#[test]
fn large_batch_splits_with_exact_remainder() {
    let calls = plan_draw_calls(12, 5, false);
    assert_eq!(
        calls,
        vec![
            DrawCall { first: 0, count: 5, upload: true },
            DrawCall { first: 5, count: 5, upload: true },
            DrawCall { first: 10, count: 2, upload: true },
        ]
    );
    let calls = plan_draw_calls(10, 5, false);
    assert_eq!(calls.len(), 2);
    assert_eq!(calls[1], DrawCall { first: 5, count: 5, upload: true });
}

#[test]
fn transform_updates_append_then_overwrite() {
    let mut r = SpriteRenderer::new(512, 512);
    let mut t = Transform::default();
    let size = Size { width: 50_000, height: 50_000 };
    r.update_sprite_transform(7, t, size);
    r.update_sprite_transform(9, t, size);
    assert_eq!(r.index_of(7), Some(0));
    assert_eq!(r.index_of(9), Some(1));
    assert_eq!(r.index_of(3), None);
    t.position.x = 1500;
    r.update_sprite_transform(7, t, size);
    assert_eq!(r.sprite_data().len(), 2);
    assert_eq!(r.sprite_data()[0].transform.position.x, 1500);
    assert_eq!(r.sprite_data()[1].transform.position.x, 0);
    assert_eq!(r.sprite_data()[1].uv, Rect { min_x: 0, min_y: 0, max_x: 512, max_y: 512 });
}

#[test]
fn upload_flag_follows_changes() {
    let mut r = SpriteRenderer::new(64, 64);
    assert_eq!(r.draw_calls(), vec![DrawCall { first: 0, count: 0, upload: true }]);
    r.mark_uploaded();
    assert_eq!(r.draw_calls(), vec![DrawCall { first: 0, count: 0, upload: false }]);
    r.update_sprite_transform(1, Transform::default(), Size { width: 1, height: 1 });
    assert_eq!(r.draw_calls(), vec![DrawCall { first: 0, count: 1, upload: true }]);
    r.mark_uploaded();
    assert_eq!(r.draw_calls(), vec![DrawCall { first: 0, count: 1, upload: false }]);
    assert!(SPRITE_PER_DRAW_CALL_MAX_COUNT > 1);
}

#[test]
fn texture_updates_share_atlas_space() {
    let mut r = SpriteRenderer::new(128, 128);
    let size = Size { width: 10, height: 10 };
    r.update_sprite_transform(1, Transform::default(), size);
    r.update_sprite_transform(2, Transform::default(), size);
    r.mark_uploaded();
    let key = String::from("http://localhost:8080/images/image0.jpg");
    assert_eq!(r.update_sprite_texture(1, &key, 32, 16), Ok(true));
    assert_eq!(r.update_sprite_texture(2, &key, 32, 16), Ok(false));
    let a = r.sprite_data()[0].uv;
    assert_eq!(a, r.sprite_data()[1].uv);
    assert_eq!((a.max_x - a.min_x, a.max_y - a.min_y), (32, 16));
    assert!(r.draw_calls()[0].upload);
}

#[test]
fn texture_that_does_not_fit_leaves_record() {
    let mut r = SpriteRenderer::new(16, 16);
    r.update_sprite_transform(4, Transform::default(), Size { width: 1, height: 1 });
    r.mark_uploaded();
    let before = r.sprite_data()[0];
    assert_eq!(
        r.update_sprite_texture(4, &String::from("big"), 64, 64),
        Err(AtlasError::AllocationFailed)
    );
    assert_eq!(r.sprite_data()[0], before);
    assert!(!r.draw_calls()[0].upload);
}

#[test]
fn new_renderer_starts_dirty_and_empty() {
    let r = SpriteRenderer::new(32, 32);
    assert!(r.draw_calls()[0].upload);
    assert_eq!(r.sprite_data().len(), 0);
    assert_eq!(r.texture_count(), 0);
    assert_eq!(r.atlas_size(), (32, 32));
    assert!(ATLAS_MAX_PLACEMENTS < (1 << 22));
}

#[test]
fn texture_count_follows_placements() {
    let mut r = SpriteRenderer::new(64, 64);
    r.update_sprite_transform(1, Transform::default(), Size { width: 1, height: 1 });
    r.update_sprite_transform(2, Transform::default(), Size { width: 1, height: 1 });
    assert_eq!(r.update_sprite_texture(1, &String::from("a"), 8, 8), Ok(true));
    assert_eq!(r.update_sprite_texture(2, &String::from("a"), 8, 8), Ok(false));
    assert_eq!(r.texture_count(), 1);
    assert_eq!(r.update_sprite_texture(2, &String::from("b"), 4, 4), Ok(true));
    assert_eq!(r.texture_count(), 2);
}
