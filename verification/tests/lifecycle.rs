use correct_bar::{Action, BarId, GlobalKind, Lifecycle, Phase};

fn bound_manager_with_output(name: u32) -> Lifecycle {
    let mut lc = Lifecycle::new();
    lc.bind_global(0, GlobalKind::Compositor);
    lc.reconcile();
    lc.bind_global(0, GlobalKind::LayerShell);
    lc.reconcile();
    lc.bind_global(name, GlobalKind::Output);
    let acts = lc.reconcile();
    assert_eq!(
        acts,
        vec![
            Action::CreateSurface(BarId(name)),
            Action::CreateLayerSurface(BarId(name)),
            Action::CommitSurface(BarId(name)),
        ]
    );
    lc
}

#[test]
fn surfaces_wait_for_compositor_and_shell() {
    let mut lc = Lifecycle::new();
    lc.bind_global(7, GlobalKind::Output);
    assert!(lc.reconcile().is_empty(), "nothing can be created yet");
    lc.bind_global(0, GlobalKind::Compositor);
    assert!(lc.reconcile().is_empty());
    lc.bind_global(0, GlobalKind::LayerShell);
    let acts = lc.reconcile();
    assert_eq!(
        acts,
        vec![
            Action::CreateSurface(BarId(7)),
            Action::CreateLayerSurface(BarId(7)),
            Action::CommitSurface(BarId(7)),
        ]
    );
    assert_eq!(lc.monitors[0].phase, Phase::LayerSurfaceRequested);
}

#[test]
fn fractional_scale_object_is_requested_when_bound() {
    let mut lc = Lifecycle::new();
    lc.bind_global(0, GlobalKind::Compositor);
    lc.bind_global(0, GlobalKind::LayerShell);
    lc.bind_global(0, GlobalKind::FractionalScaleManager);
    lc.bind_global(3, GlobalKind::Output);
    let acts = lc.reconcile();
    assert_eq!(
        acts,
        vec![
            Action::CreateSurface(BarId(3)),
            Action::GetFractionalScale(BarId(3)),
            Action::CreateLayerSurface(BarId(3)),
            Action::CommitSurface(BarId(3)),
        ]
    );
}

#[test]
fn gpu_surface_appears_exactly_on_nonzero_configure() {
    let mut lc = bound_manager_with_output(5);
    let id = BarId(5);
    assert!(!lc.store.contains(id), "no target before configure");

    // A configure with zero dimensions is acknowledged but creates
    // nothing.
    let acts = lc.handle_configure(id, 1, 0, 30);
    assert_eq!(acts, vec![Action::AckConfigure(id, 1)]);
    assert!(!lc.store.contains(id));
    assert_eq!(lc.monitors[0].phase, Phase::LayerSurfaceRequested);

    // The real configure creates the target.
    let acts = lc.handle_configure(id, 2, 1920, 30);
    assert_eq!(
        acts,
        vec![
            Action::AckConfigure(id, 2),
            Action::CreateGpuSurface(id, 1920, 30),
            Action::RenderBar(id),
        ]
    );
    assert!(lc.store.contains(id));
    assert_eq!(lc.monitors[0].phase, Phase::Configured);

    // A replayed configure only re-acknowledges.
    let acts = lc.handle_configure(id, 3, 1920, 30);
    assert_eq!(acts, vec![Action::AckConfigure(id, 3)]);

    lc.mark_presented(id);
    assert_eq!(lc.monitors[0].phase, Phase::Presenting);
}

#[test]
fn stale_configure_for_unknown_output_is_ignored() {
    let mut lc = bound_manager_with_output(5);
    let acts = lc.handle_configure(BarId(99), 1, 1920, 30);
    assert!(acts.is_empty());
    assert!(!lc.store.contains(BarId(99)));
}

#[test]
fn integer_scale_two_doubles_the_texture() {
    // A monitor announced with logical size 1920x30 and integer
    // scale 2 yields a 3840x60 offscreen texture after configure.
    let mut lc = bound_manager_with_output(5);
    let id = BarId(5);
    let acts = lc.handle_integer_scale(id, 2);
    assert_eq!(
        acts,
        vec![
            Action::SetBufferScale(id, 2),
            Action::SetBarScale(id, 240),
            Action::CommitSurface(id),
            Action::RenderBar(id),
        ]
    );
    lc.handle_configure(id, 1, 1920, 30);
    assert_eq!(lc.store.tex_size(id), Some((3840, 60)));
}

#[test]
fn scale_round_trip_restores_texture_size() {
    let mut lc = bound_manager_with_output(5);
    let id = BarId(5);
    lc.handle_configure(id, 1, 1920, 30);
    assert_eq!(lc.store.tex_size(id), Some((1920, 30)));
    lc.handle_integer_scale(id, 2);
    assert_eq!(lc.store.tex_size(id), Some((3840, 60)));
    lc.handle_integer_scale(id, 3);
    assert_eq!(lc.store.tex_size(id), Some((5760, 90)));
    lc.handle_integer_scale(id, 1);
    assert_eq!(lc.store.tex_size(id), Some((1920, 30)));
}

#[test]
fn fractional_scale_wins_over_integer() {
    let mut lc = Lifecycle::new();
    lc.bind_global(0, GlobalKind::Compositor);
    lc.bind_global(0, GlobalKind::LayerShell);
    lc.bind_global(0, GlobalKind::FractionalScaleManager);
    lc.bind_global(5, GlobalKind::Output);
    lc.reconcile();
    let id = BarId(5);
    lc.handle_configure(id, 1, 1920, 30);

    // While the fractional extension is bound, integer events are
    // ignored.
    let acts = lc.handle_integer_scale(id, 2);
    assert!(acts.is_empty());
    assert_eq!(lc.store.tex_size(id), Some((1920, 30)));

    // 1.25x = 150/120ths.
    let acts = lc.handle_fractional_scale(id, 150);
    assert_eq!(
        acts,
        vec![
            Action::SetBarScale(id, 150),
            Action::CommitSurface(id),
            Action::RenderBar(id),
        ]
    );
    assert_eq!(lc.store.tex_size(id), Some((2400, 37)));

    // An unchanged scale is not re-applied.
    assert!(lc.handle_fractional_scale(id, 150).is_empty());
}

#[test]
fn removed_output_loses_monitor_and_target() {
    let mut lc = bound_manager_with_output(5);
    let id = BarId(5);
    lc.handle_configure(id, 1, 1920, 30);
    assert!(lc.store.contains(id));
    lc.remove_output(id);
    assert!(lc.monitors.is_empty());
    assert!(!lc.store.contains(id));
}

#[test]
fn mode_and_geometry_update_the_monitor() {
    let mut lc = bound_manager_with_output(5);
    let id = BarId(5);
    lc.handle_mode(id, 3840, 2160);
    lc.handle_geometry(id, 100, 200);
    assert_eq!(lc.monitors[0].width, 3840);
    assert_eq!(lc.monitors[0].height, 2160);
    assert_eq!(lc.monitors[0].x, 100);
    assert_eq!(lc.monitors[0].y, 200);
    // Events for torn-down outputs are tolerated.
    lc.handle_mode(BarId(42), 1, 1);
}
