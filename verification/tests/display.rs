use rand::{rngs::StdRng, SeedableRng};
use chip_8::{Chip8Context, Chip8Error, Display, Pixel, Quirks, Renderer, ScreenUpdate};

fn generator() -> StdRng {
    StdRng::seed_from_u64(0x00C8)
}

fn fetched() -> Chip8Context {
    let mut c = Chip8Context::new(Vec::new(), Quirks::default(), generator()).unwrap();
    c.execute(0x1202, 0).unwrap();
    c
}

fn lit_count(d: &Display) -> usize {
    let mut count = 0;
    for y in 0..32u8 {
        for x in 0..64u8 {
            if d.read_pixel_at(x, y) {
                count += 1;
            }
        }
    }
    count
}

#[test]
fn new_display_is_blank() {
    let d = Display::new();
    assert_eq!(lit_count(&d), 0);
    assert!(d.renderer().points().is_empty());
}

#[test]
fn new_renderer_has_nothing_to_show() {
    let r = Renderer::new();
    assert!(r.points().is_empty());
}

#[test]
fn clear_screen_unlights_every_pixel() {
    let mut d = Display::new();
    d.draw_sprite(0, 0, &vec![0xFF; 15]);
    d.draw_sprite(60, 30, &vec![0xFF; 15]);
    assert!(lit_count(&d) > 0);
    d.clear_screen();
    for y in 0..32u8 {
        for x in 0..64u8 {
            assert!(!d.read_pixel_at(x, y));
        }
    }
    assert!(d.renderer().points().is_empty());
}

#[test]
fn clear_instruction_unlights_every_pixel() {
    let mut c = fetched();
    c.execute(0xA050, 0).unwrap();
    c.execute(0xD005, 0).unwrap();
    assert!(c.read_pixel_at(0, 0));
    assert_eq!(c.execute(0x00E0, 0), Ok(ScreenUpdate::Cleared));
    for y in 0..32u8 {
        for x in 0..64u8 {
            assert!(!c.read_pixel_at(x, y));
        }
    }
    assert!(c.display().renderer().points().is_empty());
}

#[test]
fn sprite_bits_map_to_columns_high_bit_first() {
    let mut d = Display::new();
    let outcome = d.draw_sprite(3, 5, &vec![0xA1]);
    assert!(!outcome.collision);
    assert!(outcome.changed);
    let lit: Vec<u8> = (0..64u8).filter(|x| d.read_pixel_at(*x, 5)).collect();
    assert_eq!(lit, vec![3, 5, 10]);
    assert_eq!(lit_count(&d), 3);
}

#[test]
fn draw_twice_restores_and_collides() {
    let mut d = Display::new();
    let sprite = vec![0xF0, 0x90, 0x90, 0x90, 0xF0];
    let first = d.draw_sprite(10, 7, &sprite);
    assert!(!first.collision);
    assert_eq!(lit_count(&d), 14);
    let second = d.draw_sprite(10, 7, &sprite);
    assert!(second.collision);
    assert!(second.changed);
    assert_eq!(lit_count(&d), 0);
    assert!(d.renderer().points().is_empty());
}

#[test]
fn draw_instruction_twice_sets_the_flag() {
    let mut c = fetched();
    c.execute(0x610A, 0).unwrap();
    c.execute(0x6207, 0).unwrap();
    c.execute(0xA050, 0).unwrap();
    assert_eq!(c.execute(0xD125, 0), Ok(ScreenUpdate::Redrawn));
    assert_eq!(c.register(0xF), 0);
    assert!(c.read_pixel_at(10, 7));
    assert!(c.read_pixel_at(13, 11));
    assert!(!c.read_pixel_at(11, 8));
    assert_eq!(c.execute(0xD125, 0), Ok(ScreenUpdate::Redrawn));
    assert_eq!(c.register(0xF), 1);
    assert!(!c.read_pixel_at(10, 7));
    assert!(c.display().renderer().points().is_empty());
}

#[test]
fn empty_sprite_changes_nothing() {
    let mut d = Display::new();
    let outcome = d.draw_sprite(0, 0, &vec![0x00, 0x00]);
    assert!(!outcome.collision);
    assert!(!outcome.changed);
    let outcome = d.draw_sprite(0, 0, &Vec::new());
    assert!(!outcome.changed);
    let mut c = fetched();
    assert_eq!(c.execute(0xD120, 0), Ok(ScreenUpdate::Unchanged));
    c.execute(0xA000, 0).unwrap();
    assert_eq!(c.execute(0xD123, 0), Ok(ScreenUpdate::Unchanged));
    assert_eq!(c.register(0xF), 0);
}

#[test]
fn position_wraps_but_sprite_is_clipped() {
    let mut d = Display::new();
    // 70 % 64 == 6, 33 % 32 == 1
    d.draw_sprite(70, 33, &vec![0x80]);
    assert!(d.read_pixel_at(6, 1));
    assert_eq!(lit_count(&d), 1);
    d.clear_screen();
    // columns 60..63 are drawn, the other four bits are dropped
    d.draw_sprite(60, 0, &vec![0xFF]);
    assert_eq!(lit_count(&d), 4);
    assert!(d.read_pixel_at(63, 0));
    assert!(!d.read_pixel_at(0, 0));
    d.clear_screen();
    // rows 30 and 31 are drawn, the third row is dropped
    d.draw_sprite(0, 30, &vec![0x80, 0x80, 0x80]);
    assert_eq!(lit_count(&d), 2);
    assert!(d.read_pixel_at(0, 31));
    assert!(!d.read_pixel_at(0, 0));
}

#[test]
fn partial_overlap_collides_and_flips() {
    let mut d = Display::new();
    d.draw_sprite(0, 0, &vec![0xC0]);
    let outcome = d.draw_sprite(1, 0, &vec![0xC0]);
    assert!(outcome.collision);
    assert!(d.read_pixel_at(0, 0));
    assert!(!d.read_pixel_at(1, 0));
    assert!(d.read_pixel_at(2, 0));
}

#[test]
fn renderer_lists_the_lit_pixels_once() {
    let mut d = Display::new();
    d.draw_sprite(0, 0, &vec![0xF0, 0x0F]);
    d.draw_sprite(2, 0, &vec![0xF0]);
    let points = d.renderer().points().clone();
    assert_eq!(points.len(), lit_count(&d));
    for p in &points {
        assert!(d.read_pixel_at(p.x, p.y));
    }
    for a in 0..points.len() {
        for b in 0..a {
            assert_ne!(points[a], points[b]);
        }
    }
    assert!(points.contains(&Pixel { x: 0, y: 0 }));
    assert!(!points.contains(&Pixel { x: 2, y: 0 }));
    assert!(points.contains(&Pixel { x: 5, y: 0 }));
    assert!(points.contains(&Pixel { x: 7, y: 1 }));
}

#[test]
fn single_pixel_operations() {
    let mut d = Display::new();
    d.draw_pixel_at(4, 9);
    assert!(d.read_pixel_at(4, 9));
    assert_eq!(d.renderer().points().clone(), vec![Pixel { x: 4, y: 9 }]);
    d.draw_pixel_at(5, 9);
    d.remove_pixel_at(4, 9);
    assert!(!d.read_pixel_at(4, 9));
    assert_eq!(d.renderer().points().clone(), vec![Pixel { x: 5, y: 9 }]);
    d.remove_pixel_at(4, 9);
    assert_eq!(lit_count(&d), 1);
    // lighting a lit pixel lists it once
    d.draw_pixel_at(5, 9);
    assert_eq!(d.renderer().points().clone(), vec![Pixel { x: 5, y: 9 }]);
}

#[test]
fn sprite_past_memory_is_an_error() {
    let mut c = fetched();
    c.execute(0xAFFE, 0).unwrap();
    assert_eq!(c.execute(0xD003, 0), Err(Chip8Error::AddressOutOfBounds));
    assert_eq!(c.register(0xF), 0);
    assert_eq!(c.execute(0xD002, 0), Ok(ScreenUpdate::Unchanged));
}

#[test]
fn memory_region_is_a_copy_of_memory() {
    let c = Chip8Context::new(vec![1, 2, 3, 4], Quirks::default(), generator()).unwrap();
    assert_eq!(c.get_mem_region(0x200, 0x204), vec![1, 2, 3, 4]);
    assert_eq!(c.get_mem_region(0x50, 0x55), vec![0xF0, 0x90, 0x90, 0x90, 0xF0]);
    assert!(c.get_mem_region(0x1000, 0x1000).is_empty());
}

#[test]
fn lighting_appends_to_the_list() {
    let mut d = Display::new();
    d.draw_pixel_at(9, 1);
    d.draw_pixel_at(2, 8);
    d.draw_pixel_at(5, 5);
    assert_eq!(
        d.renderer().points().clone(),
        vec![Pixel { x: 9, y: 1 }, Pixel { x: 2, y: 8 }, Pixel { x: 5, y: 5 }]
    );
}

#[test]
fn removing_keeps_the_order_of_the_rest() {
    let mut d = Display::new();
    d.draw_pixel_at(9, 1);
    d.draw_pixel_at(2, 8);
    d.draw_pixel_at(5, 5);
    d.draw_pixel_at(0, 0);
    d.remove_pixel_at(2, 8);
    assert_eq!(
        d.renderer().points().clone(),
        vec![Pixel { x: 9, y: 1 }, Pixel { x: 5, y: 5 }, Pixel { x: 0, y: 0 }]
    );
    assert!(!d.read_pixel_at(2, 8));
}

#[test]
fn removing_an_unlisted_point_changes_nothing() {
    let mut d = Display::new();
    d.draw_pixel_at(9, 1);
    d.draw_pixel_at(2, 8);
    d.remove_pixel_at(3, 3);
    assert_eq!(
        d.renderer().points().clone(),
        vec![Pixel { x: 9, y: 1 }, Pixel { x: 2, y: 8 }]
    );
    assert_eq!(lit_count(&d), 2);
}

#[test]
fn sprite_lists_points_in_scan_order() {
    let mut d = Display::new();
    d.draw_sprite(1, 2, &vec![0xA0, 0x40]);
    assert_eq!(
        d.renderer().points().clone(),
        vec![Pixel { x: 1, y: 2 }, Pixel { x: 3, y: 2 }, Pixel { x: 2, y: 3 }]
    );
    // the second sprite turns (3, 2) off and lights (4, 2) and (1, 3)
    d.draw_sprite(3, 2, &vec![0xC0]);
    d.draw_sprite(1, 3, &vec![0x80]);
    assert_eq!(
        d.renderer().points().clone(),
        vec![
            Pixel { x: 1, y: 2 },
            Pixel { x: 2, y: 3 },
            Pixel { x: 4, y: 2 },
            Pixel { x: 1, y: 3 }
        ]
    );
}
