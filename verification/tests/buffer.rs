use correct_bar::{AlphaBuffer, Buffer, Color, DynamicBuffer, Padding, Pos, Proximity, Rect, Section, WindowConfig};

#[test]
fn pixels_round_trip_inside_the_canvas() {
    let mut b = Buffer::new(10, 5);
    let red = Color { r: 255, g: 0, b: 0 };
    b.draw_pixel(Pos { x: 3, y: 2 }, red);
    assert_eq!(b.get_pixel(Pos { x: 3, y: 2 }), red);
    assert_eq!(b.get_pixel(Pos { x: 4, y: 2 }), Color::black());
}

#[test]
fn the_outer_edge_is_not_drawable() {
    let mut b = Buffer::new(10, 5);
    let red = Color { r: 255, g: 0, b: 0 };
    b.draw_pixel(Pos { x: 0, y: 2 }, red);
    b.draw_pixel(Pos { x: 3, y: 0 }, red);
    b.draw_pixel(Pos { x: -1, y: 2 }, red);
    b.draw_pixel(Pos { x: 10, y: 2 }, red);
    assert_eq!(b.get_pixel(Pos { x: 0, y: 2 }), Color::black());
    assert_eq!(b.get_pixel(Pos { x: 3, y: 0 }), Color::black());
    assert_eq!(b.get_pixel(Pos { x: 10, y: 2 }), Color::black());
}

#[test]
fn alpha_buffer_stores_coverage() {
    let mut a = AlphaBuffer::new(4, 4);
    a.draw_pixel(Pos { x: 1, y: 2 }, 200);
    assert_eq!(a.get_pixel(Pos { x: 1, y: 2 }), 200);
    assert_eq!(a.get_pixel(Pos { x: 2, y: 2 }), 0);
    assert_eq!(a.get_pixel(Pos { x: 0, y: 0 }), 0);
}

#[test]
fn fill_paints_the_whole_canvas() {
    let mut b = Buffer::new(6, 4);
    let c = Color { r: 1, g: 2, b: 3 };
    b.fill(c);
    assert_eq!(b.get_pixel(Pos { x: 1, y: 1 }), c);
    assert_eq!(b.get_pixel(Pos { x: 5, y: 3 }), c);
    assert_eq!(b.get_pixel(Pos { x: 0, y: 1 }), Color::black());
}

#[test]
fn draw_rect_covers_a_half_open_box() {
    let mut b = Buffer::new(10, 10);
    let c = Color { r: 9, g: 9, b: 9 };
    b.draw_rect(Rect { pos: Pos { x: 2, y: 3 }, width: 3, height: 2 }, c);
    assert_eq!(b.get_pixel(Pos { x: 2, y: 3 }), c);
    assert_eq!(b.get_pixel(Pos { x: 4, y: 4 }), c);
    assert_eq!(b.get_pixel(Pos { x: 5, y: 3 }), Color::black());
    assert_eq!(b.get_pixel(Pos { x: 2, y: 5 }), Color::black());
}

#[test]
fn copy_from_places_the_other_buffer_at_the_offset() {
    let mut src = Buffer::new(4, 4);
    let c = Color { r: 7, g: 8, b: 9 };
    src.draw_pixel(Pos { x: 1, y: 1 }, c);
    let mut dst = Buffer::new(10, 10);
    dst.copy_from(Pos { x: 5, y: 5 }, &src);
    assert_eq!(dst.get_pixel(Pos { x: 6, y: 6 }), c);
    // Source pixels the source canvas excludes copy as black.
    assert_eq!(dst.get_pixel(Pos { x: 7, y: 6 }), Color::black());
}

#[test]
fn copy_from_alpha_blends_through_the_mask() {
    let mut mask = AlphaBuffer::new(4, 4);
    mask.draw_pixel(Pos { x: 1, y: 1 }, 255);
    let mut dst = Buffer::new(10, 10);
    let bg = Color { r: 10, g: 10, b: 10 };
    dst.fill(bg);
    let ink = Color { r: 200, g: 100, b: 50 };
    dst.copy_from_alpha(Pos { x: 2, y: 2 }, ink, &mask);
    assert_eq!(dst.get_pixel(Pos { x: 3, y: 3 }), ink, "full coverage paints the ink");
    assert_eq!(dst.get_pixel(Pos { x: 4, y: 3 }), bg, "zero coverage keeps the ground");
}

#[test]
fn draw_pixel_alpha_half_blends() {
    let mut b = Buffer::new(4, 4);
    b.draw_pixel(Pos { x: 1, y: 1 }, Color::black());
    b.draw_pixel_alpha(Pos { x: 1, y: 1 }, Color::white(), 128);
    assert_eq!(b.get_pixel(Pos { x: 1, y: 1 }), Color::gray(128));
}

#[test]
fn dynamic_buffer_grows_and_keeps_its_pixels() {
    let bg = Color { r: 4, g: 5, b: 6 };
    let mut d = DynamicBuffer::new(8, bg);
    assert_eq!(d.width(), 0);
    assert_eq!(d.height(), 8);
    let ink = Color { r: 70, g: 80, b: 90 };
    d.draw_rect(Rect { pos: Pos { x: 1, y: 1 }, width: 3, height: 3 }, ink);
    assert_eq!(d.width(), 4);
    assert_eq!(d.buf.get_pixel(Pos { x: 2, y: 2 }), ink);
    d.resize(10);
    assert_eq!(d.width(), 10);
    assert_eq!(d.buf.get_pixel(Pos { x: 2, y: 2 }), ink, "growth keeps old pixels");
    assert_eq!(d.buf.get_pixel(Pos { x: 7, y: 2 }), bg, "new area takes the background");
    d.resize(5);
    assert_eq!(d.width(), 10, "shrinking is never done");
}

#[test]
fn geometry_helpers_are_exact() {
    let r = Rect { pos: Pos { x: 10, y: -5 }, width: 20, height: 8 };
    assert_eq!(r.left(), 10);
    assert_eq!(r.right(), 30);
    assert_eq!(r.top(), -5);
    assert_eq!(r.bottom(), 3);
    assert_eq!(r.center(), Pos { x: 20, y: -1 });
    assert!(Pos { x: 10, y: -5 }.within(r));
    assert!(Pos { x: 30, y: 3 }.within(r));
    assert!(!Pos { x: 31, y: 3 }.within(r));

    let mut r2 = r;
    r2.resize_to(10, 4);
    assert_eq!(r2, Rect { pos: Pos { x: 15, y: -3 }, width: 10, height: 4 });

    assert_eq!(Pos { x: 1, y: 9 }.max(Pos { x: 5, y: 2 }), Pos { x: 5, y: 9 });
    assert_eq!(Pos { x: 1, y: 9 }.min(Pos { x: 5, y: 2 }), Pos { x: 1, y: 2 });
    assert_eq!(r.with_x(0).pos.x, 0);
    assert_eq!(r.with_y(1).pos.y, 1);
    assert_eq!(r.with_width(7).width, 7);
    assert_eq!(r.with_height(9).height, 9);
    assert_eq!(Pos { x: 1, y: 2 }.with_x(8), Pos { x: 8, y: 2 });
    assert_eq!(Pos { x: 1, y: 2 }.with_y(8), Pos { x: 1, y: 8 });
}

#[test]
fn pointer_proximity_has_three_zones() {
    let r = Rect { pos: Pos { x: 100, y: 10 }, width: 40, height: 20 };
    assert_eq!(r.proximity(Pos { x: 120, y: 20 }, 20), Proximity::Inside);
    assert_eq!(r.proximity(Pos { x: 100, y: 10 }, 20), Proximity::Inside);
    // 15 to the left of the shape: nearer than the radius.
    assert_eq!(r.proximity(Pos { x: 85, y: 20 }, 20), Proximity::Near);
    // 12 left and 16 up is exactly 20 away: not strictly within.
    assert_eq!(r.proximity(Pos { x: 88, y: -6 }, 20), Proximity::Far);
    assert_eq!(r.proximity(Pos { x: 88, y: -5 }, 20), Proximity::Near);
    assert_eq!(r.proximity(Pos { x: 0, y: 20 }, 20), Proximity::Far);
}

#[test]
fn window_config_scales_for_the_real_display_width() {
    let cfg = WindowConfig {
        height: 50,
        expected_width: 1920,
        margin_top: 10,
        margin_left: 8,
        margin_right: 8,
        margin_bottom: 0,
    };
    let scaled = cfg.scaled_for_width(3840);
    assert_eq!(scaled.height, 100);
    assert_eq!(scaled.margin_top, 20);
    assert_eq!(scaled.margin_left, 16);
    assert_eq!(scaled.expected_width, 1920);

    let p = Padding { left: 6, right: 6, top: 2, bottom: 2 };
    let sp = p.scaled_for_width(2880, 1920);
    assert_eq!(sp.left, 9);
    assert_eq!(sp.top, 3);
}

#[test]
fn sections_carry_their_styling() {
    let s = Section::new("42%").with_color(0xff8800).with_clickable(true);
    assert_eq!(s.text, "42%");
    assert_eq!(s.color, Some(0xff8800));
    assert!(s.clickable);
    let plain = Section::new("idle");
    assert_eq!(plain.color, None);
    assert!(!plain.clickable);
    assert_eq!(Padding::none(), Padding { left: 0, right: 0, top: 0, bottom: 0 });
}

#[test]
fn bar_ids_compare_by_value() {
    assert_eq!(correct_bar::BarId::new(7), correct_bar::BarId(7));
    assert_ne!(correct_bar::BarId::new(7), correct_bar::BarId(8));
}
