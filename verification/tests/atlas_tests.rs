use font_atlas::atlas::FontAtlas;
use font_atlas::canvas::Bitmap;
use font_atlas::rect::Rect;
use font_atlas::AtlasError;

fn bmp(width: u32, height: u32, value: u8) -> Bitmap {
    Bitmap::filled(width, height, value).unwrap()
}

fn rect(x: u32, y: u32, width: u32, height: u32) -> Rect {
    Rect { x, y, width, height }
}

#[test]
fn concrete_scenario_16x16() {
    let mut atlas = FontAtlas::new(16, 16);
    assert_eq!(atlas.add_char('A', &bmp(8, 8, 1)), Ok(rect(0, 0, 8, 8)));
    assert_eq!(atlas.add_char('B', &bmp(8, 8, 2)), Ok(rect(8, 0, 8, 8)));
    assert_eq!(atlas.add_char('C', &bmp(8, 8, 3)), Ok(rect(0, 8, 8, 8)));
    assert_eq!(atlas.add_char('D', &bmp(9, 9, 4)), Err(AtlasError::OutOfSpace));
}

#[test]
fn miss_before_insert() {
    let mut atlas = FontAtlas::new(16, 16);
    assert_eq!(atlas.lookup('x'), None);
    assert_eq!(atlas.get_char_index('x'), None);
    atlas.add_char('a', &bmp(4, 4, 9)).unwrap();
    assert_eq!(atlas.lookup('x'), None);
}

#[test]
fn hit_after_insert() {
    let mut atlas = FontAtlas::new(16, 16);
    let r = atlas.add_char('a', &bmp(5, 3, 9)).unwrap();
    assert_eq!(atlas.lookup('a'), Some(r));
    let i = atlas.get_char_index('a').unwrap();
    assert_eq!(atlas.glyph_rect(i), Some(r));
}

#[test]
fn insert_is_idempotent() {
    let mut atlas = FontAtlas::new(16, 16);
    let first = atlas.add_char('a', &bmp(4, 4, 7)).unwrap();
    let second = atlas.add_char('a', &bmp(6, 6, 200)).unwrap();
    assert_eq!(first, second);
    // the second call copied nothing: the region still holds the first bitmap
    for dy in 0..4 {
        for dx in 0..4 {
            assert_eq!(atlas.canvas.byte(first.x + dx, first.y + dy), 7);
        }
    }
    assert_eq!(atlas.lookup('a'), Some(first));
}

#[test]
fn blit_writes_inside_and_leaves_outside_zero() {
    let mut atlas = FontAtlas::new(8, 8);
    let r = atlas.add_char('g', &bmp(3, 2, 250)).unwrap();
    assert_eq!(r, rect(0, 0, 3, 2));
    for y in 0..8 {
        for x in 0..8 {
            let inside = x < 3 && y < 2;
            assert_eq!(atlas.canvas.byte(x, y), if inside { 250 } else { 0 });
        }
    }
}

#[test]
fn blit_copies_the_exact_pixels() {
    let mut atlas = FontAtlas::new(4, 4);
    let pixels = vec![1, 2, 3, 4, 5, 6];
    let glyph = Bitmap::new(3, 2, pixels).unwrap();
    let r = atlas.add_char('p', &glyph).unwrap();
    assert_eq!(r, rect(0, 0, 3, 2));
    assert_eq!(atlas.canvas.byte(0, 0), 1);
    assert_eq!(atlas.canvas.byte(1, 0), 2);
    assert_eq!(atlas.canvas.byte(2, 0), 3);
    assert_eq!(atlas.canvas.byte(0, 1), 4);
    assert_eq!(atlas.canvas.byte(1, 1), 5);
    assert_eq!(atlas.canvas.byte(2, 1), 6);
    assert_eq!(atlas.canvas.byte(3, 0), 0);
    assert_eq!(atlas.canvas.byte(0, 2), 0);
}

#[test]
fn invalid_size_is_reported_and_mutates_nothing() {
    let mut atlas = FontAtlas::new(16, 16);
    assert_eq!(atlas.add_char('z', &bmp(0, 4, 1)), Err(AtlasError::InvalidSize));
    assert_eq!(atlas.add_char('z', &bmp(4, 0, 1)), Err(AtlasError::InvalidSize));
    assert_eq!(atlas.add_char('z', &bmp(17, 4, 1)), Err(AtlasError::InvalidSize));
    assert_eq!(atlas.add_char('z', &bmp(4, 17, 1)), Err(AtlasError::InvalidSize));
    assert_eq!(atlas.lookup('z'), None);
}

#[test]
fn failed_insert_leaves_the_cache_untouched() {
    let mut atlas = FontAtlas::new(16, 16);
    let ra = atlas.add_char('A', &bmp(8, 8, 11)).unwrap();
    let rb = atlas.add_char('B', &bmp(8, 8, 22)).unwrap();
    let rc = atlas.add_char('C', &bmp(8, 8, 33)).unwrap();
    let mut before = Vec::new();
    for y in 0..16 {
        for x in 0..16 {
            before.push(atlas.canvas.byte(x, y));
        }
    }
    assert_eq!(atlas.add_char('D', &bmp(9, 9, 44)), Err(AtlasError::OutOfSpace));
    assert_eq!(atlas.lookup('D'), None);
    assert_eq!(atlas.lookup('A'), Some(ra));
    assert_eq!(atlas.lookup('B'), Some(rb));
    assert_eq!(atlas.lookup('C'), Some(rc));
    let mut after = Vec::new();
    for y in 0..16 {
        for x in 0..16 {
            after.push(atlas.canvas.byte(x, y));
        }
    }
    assert_eq!(before, after);
}

#[test]
fn bitmap_new_checks_the_buffer_length() {
    assert!(Bitmap::new(3, 2, vec![0; 6]).is_some());
    assert!(Bitmap::new(3, 2, vec![0; 5]).is_none());
    assert!(Bitmap::new(3, 2, vec![0; 7]).is_none());
    assert!(Bitmap::new(0, 2, vec![]).is_some());
}
