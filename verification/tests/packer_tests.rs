use font_atlas::packer::ShelfPacker;
use font_atlas::rect::Rect;
use font_atlas::AtlasError;

fn overlap(a: &Rect, b: &Rect) -> bool {
    a.x < b.x + b.width && b.x < a.x + a.width && a.y < b.y + b.height && b.y < a.y + a.height
}

#[test]
fn returned_rectangles_never_overlap() {
    let mut packer = ShelfPacker::new(64, 64);
    let requests = [
        (10, 10),
        (20, 5),
        (30, 12),
        (64, 8),
        (7, 7),
        (50, 20),
        (64, 64),
        (3, 3),
        (40, 10),
        (15, 15),
    ];
    let mut placed: Vec<Rect> = Vec::new();
    for (w, h) in requests {
        if let Ok(r) = packer.allocate(w, h) {
            placed.push(r);
        }
    }
    assert!(placed.len() >= 2);
    for i in 0..placed.len() {
        for j in 0..placed.len() {
            if i != j {
                assert!(!overlap(&placed[i], &placed[j]));
            }
        }
    }
}

#[test]
fn returned_rectangles_stay_in_bounds() {
    let mut packer = ShelfPacker::new(40, 30);
    let requests = [(10, 10), (40, 5), (25, 12), (7, 30), (40, 30), (1, 1)];
    for (w, h) in requests {
        if let Ok(r) = packer.allocate(w, h) {
            assert!(r.x + r.width <= 40);
            assert!(r.y + r.height <= 30);
            assert!(r.width == w && r.height == h);
        }
    }
}

#[test]
fn replaying_a_sequence_is_deterministic() {
    let requests = [(10, 10), (20, 5), (64, 8), (7, 7), (50, 20), (3, 3), (40, 10)];
    let mut first = ShelfPacker::new(64, 64);
    let mut second = ShelfPacker::new(64, 64);
    for (w, h) in requests {
        assert_eq!(first.allocate(w, h), second.allocate(w, h));
    }
}

#[test]
fn shelf_placement_goes_left_to_right_then_down() {
    let mut packer = ShelfPacker::new(16, 16);
    assert_eq!(packer.allocate(8, 8), Ok(Rect { x: 0, y: 0, width: 8, height: 8 }));
    assert_eq!(packer.allocate(8, 8), Ok(Rect { x: 8, y: 0, width: 8, height: 8 }));
    assert_eq!(packer.allocate(8, 8), Ok(Rect { x: 0, y: 8, width: 8, height: 8 }));
    assert_eq!(packer.allocate(9, 9), Err(AtlasError::OutOfSpace));
    assert_eq!(packer.allocate(8, 8), Ok(Rect { x: 8, y: 8, width: 8, height: 8 }));
}

#[test]
fn a_shelf_grows_to_its_tallest_resident() {
    let mut packer = ShelfPacker::new(20, 20);
    assert_eq!(packer.allocate(5, 3), Ok(Rect { x: 0, y: 0, width: 5, height: 3 }));
    assert_eq!(packer.allocate(5, 7), Ok(Rect { x: 5, y: 0, width: 5, height: 7 }));
    // the next shelf starts below the tallest rectangle of the first
    assert_eq!(packer.allocate(20, 4), Ok(Rect { x: 0, y: 7, width: 20, height: 4 }));
}

#[test]
fn invalid_requests_are_rejected() {
    let mut packer = ShelfPacker::new(16, 16);
    assert_eq!(packer.allocate(0, 4), Err(AtlasError::InvalidSize));
    assert_eq!(packer.allocate(4, 0), Err(AtlasError::InvalidSize));
    assert_eq!(packer.allocate(17, 4), Err(AtlasError::InvalidSize));
    assert_eq!(packer.allocate(4, 17), Err(AtlasError::InvalidSize));
    // a rejected request consumed no space
    assert_eq!(packer.allocate(16, 16), Ok(Rect { x: 0, y: 0, width: 16, height: 16 }));
}
