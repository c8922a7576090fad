use mylib::atlas::{AtlasError, Rect, TextureAtlas};

fn overlap(a: Rect, b: Rect) -> bool {
    a.min_x < b.max_x && b.min_x < a.max_x && a.min_y < b.max_y && b.min_y < a.max_y
}

#[test]
fn same_key_twice_returns_cached_rect() {
    let mut atlas = TextureAtlas::new(256, 256);
    let key = String::from("images/image0.jpg");
    let (first, placed) = atlas.allocate_or_get(&key, 40, 30).unwrap();
    assert!(placed);
    assert_eq!(first.max_x - first.min_x, 40);
    assert_eq!(first.max_y - first.min_y, 30);
    let (second, placed_again) = atlas.allocate_or_get(&key, 40, 30).unwrap();
    assert!(!placed_again);
    assert_eq!(first, second);
    assert_eq!(atlas.get(&key), Some(first));
}

#[test]
fn distinct_keys_do_not_overlap() {
    let mut atlas = TextureAtlas::new(200, 200);
    let mut rects = Vec::new();
    for i in 0..6 {
        let key = format!("tex{}", i);
        let (r, placed) = atlas.allocate_or_get(&key, 50 + i, 40).unwrap();
        assert!(placed);
        assert!(r.min_x >= 0 && r.min_y >= 0 && r.max_x <= 200 && r.max_y <= 200);
        rects.push(r);
    }
    for i in 0..rects.len() {
        for j in 0..rects.len() {
            if i != j {
                assert!(!overlap(rects[i], rects[j]));
            }
        }
    }
}

#[test]
fn atlas_fills_up_then_refuses() {
    let mut atlas = TextureAtlas::new(100, 100);
    assert!(atlas.allocate_or_get(&String::from("a"), 60, 40).is_ok());
    assert!(atlas.allocate_or_get(&String::from("b"), 30, 30).is_ok());
    assert_eq!(
        atlas.allocate_or_get(&String::from("c"), 90, 90),
        Err(AtlasError::AllocationFailed)
    );
    assert_eq!(atlas.get(&String::from("c")), None);
}

#[test]
fn empty_bitmap_is_refused() {
    let mut atlas = TextureAtlas::new(64, 64);
    assert_eq!(
        atlas.allocate_or_get(&String::from("empty"), 0, 10),
        Err(AtlasError::AllocationFailed)
    );
}

#[test]
fn atlas_reports_its_size() {
    let atlas = TextureAtlas::new(300, 120);
    assert_eq!(atlas.size(), (300, 120));
}

#[test]
fn whole_atlas_request_on_empty_atlas_succeeds() {
    let mut atlas = TextureAtlas::new(50, 70);
    let (r, placed) = atlas.allocate_or_get(&String::from("full"), 50, 70).unwrap();
    assert!(placed);
    assert_eq!(r, Rect { min_x: 0, min_y: 0, max_x: 50, max_y: 70 });
    assert_eq!(atlas.len(), 1);
}
