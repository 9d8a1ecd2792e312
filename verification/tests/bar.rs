use correct_bar::{BarLayout, ModuleKey, Updater};

fn three_group_bar() -> BarLayout {
    let mut bar = BarLayout::new(1000, 30, 120);
    bar.push_module(ModuleKey::Left(0), Updater::Never);
    bar.push_module(ModuleKey::Left(0), Updater::Never);
    bar.push_module(ModuleKey::Middle(0), Updater::Never);
    bar.push_module(ModuleKey::Right(0), Updater::Never);
    bar.push_module(ModuleKey::Right(0), Updater::Never);
    bar.set_width(ModuleKey::Left(0), 100);
    bar.set_width(ModuleKey::Left(1), 50);
    bar.set_width(ModuleKey::Middle(0), 200);
    bar.set_width(ModuleKey::Right(0), 80);
    bar.set_width(ModuleKey::Right(1), 20);
    bar.update_positions();
    bar
}

#[test]
fn groups_are_packed_left_centered_and_right() {
    let bar = three_group_bar();
    assert_eq!(bar.left[0].pos, 0);
    assert_eq!(bar.left[1].pos, 100);
    // Centered block: 1000/2 - 200/2 = 400.
    assert_eq!(bar.center[0].pos, 400);
    // Right block packed against the right edge: 1000 - 100 = 900.
    assert_eq!(bar.right[0].pos, 900);
    assert_eq!(bar.right[1].pos, 980);
}

#[test]
fn hit_test_finds_first_module_in_paint_order() {
    let bar = three_group_bar();
    assert_eq!(bar.hit_test(10, 5), Some(ModuleKey::Left(0)));
    assert_eq!(bar.hit_test(120, 5), Some(ModuleKey::Left(1)));
    assert_eq!(bar.hit_test(450, 5), Some(ModuleKey::Middle(0)));
    assert_eq!(bar.hit_test(990, 5), Some(ModuleKey::Right(1)));
    assert_eq!(bar.hit_test(300, 5), None);
    // Below the strip nothing is hit.
    assert_eq!(bar.hit_test(10, 31), None);
}

#[test]
fn pointer_leave_clears_hover() {
    let mut bar = three_group_bar();
    let change = bar.move_mouse(Some((450, 5))).expect("hover should change");
    assert_eq!(change.from, None);
    assert_eq!(change.to, Some(ModuleKey::Middle(0)));
    assert_eq!(bar.hover, Some(ModuleKey::Middle(0)));
    assert!(bar.force_dirty);

    let change = bar.move_mouse(None).expect("leave should change hover");
    assert_eq!(change.from, Some(ModuleKey::Middle(0)));
    assert_eq!(change.to, None);
    assert_eq!(bar.hover, None);
}

#[test]
fn unchanged_hover_reports_no_change() {
    let mut bar = three_group_bar();
    bar.move_mouse(Some((450, 5)));
    assert!(bar.move_mouse(Some((460, 6))).is_none());
}

#[test]
fn click_is_delivered_in_module_local_coordinates() {
    let bar = three_group_bar();
    // The center module spans 400..600; a click at 450 lands 50 into it.
    let (key, lx, ly) = bar.click_mouse(450, 12).expect("click should hit");
    assert_eq!(key, ModuleKey::Middle(0));
    assert_eq!(lx, 50);
    assert_eq!(ly, 12);
    assert!(bar.click_mouse(300, 12).is_none());
}

#[test]
fn interval_module_is_dirty_only_after_its_interval() {
    let mut bar = BarLayout::new(1000, 30, 120);
    bar.push_module(ModuleKey::Left(0), Updater::Every(1000));
    bar.mark_rendered(0);
    // An Every(1s) module last rendered at t=0: dirty at t=1.001s,
    // not at t=0.5s.
    assert!(!bar.render_dirty(500));
    assert!(bar.render_dirty(1001));
    assert!(!bar.layout_dirty(500));
    assert!(bar.layout_dirty(1001));
}

#[test]
fn animation_forces_render_but_not_layout() {
    let mut bar = BarLayout::new(1000, 30, 120);
    bar.push_module(ModuleKey::Left(0), Updater::Animation);
    bar.push_module(ModuleKey::Right(0), Updater::Never);
    bar.mark_rendered(0);
    assert!(bar.render_dirty(0));
    assert!(!bar.layout_dirty(0));
}

#[test]
fn never_modules_contribute_no_dirtiness() {
    let mut bar = BarLayout::new(1000, 30, 120);
    bar.push_module(ModuleKey::Left(0), Updater::Never);
    bar.push_module(ModuleKey::Middle(0), Updater::Never);
    assert!(bar.render_dirty(0), "creation forces the first render");
    bar.mark_rendered(0);
    assert!(!bar.render_dirty(100_000));
}

#[test]
fn render_consumes_level_triggered_flags() {
    let mut bar = BarLayout::new(1000, 30, 120);
    bar.push_module(ModuleKey::Left(0), Updater::Flag);
    bar.push_module(ModuleKey::Left(0), Updater::Animation);
    bar.mark_rendered(0);
    bar.mark_module_dirty(ModuleKey::Left(0));
    assert!(bar.render_dirty(5));
    assert!(bar.layout_dirty(5));
    // The render that follows is driven by the animation as well, but
    // it must still consume the flag: no spurious extra render.
    bar.mark_rendered(5);
    assert!(!bar.left[0].pending);
    assert!(!bar.layout_dirty(5));
    assert!(bar.render_dirty(5), "the animation still runs");
}

#[test]
fn scale_change_forces_render() {
    let mut bar = BarLayout::new(1000, 30, 120);
    bar.mark_rendered(0);
    assert!(!bar.render_dirty(0));
    bar.set_scale(240);
    assert!(bar.render_dirty(0));
    assert_eq!(bar.scale_120, 240);
}

#[test]
fn needs_render_is_the_or_over_bars() {
    let mut quiet = BarLayout::new(1000, 30, 120);
    quiet.mark_rendered(0);
    let mut busy = BarLayout::new(1000, 30, 120);
    busy.push_module(ModuleKey::Left(0), Updater::Animation);
    busy.mark_rendered(0);

    let mut only_quiet = Vec::new();
    only_quiet.push(quiet);
    assert!(!correct_bar::needs_render(&only_quiet, 0));
    only_quiet.push(busy);
    assert!(correct_bar::needs_render(&only_quiet, 0));
}
