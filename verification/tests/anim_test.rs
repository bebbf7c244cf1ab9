use novelter::anim::{
    AnimTarget, AnimationTransformer, Ecomp, Interaction, InteractionState, TransformerMode,
    interaction_step,
};
use novelter::context::{AnimationContext, RepaintManager, RepaintStats};
use novelter::timeline::Timeline;

#[test]
fn timeline_measures_and_pauses() {
    let mut t = Timeline::new();
    assert_eq!(t.elapsed(500), 0);
    t.start(100);
    assert_eq!(t.elapsed(100), 0);
    assert_eq!(t.elapsed(150), 50);
    t.pause(150);
    assert_eq!(t.elapsed(999), 50);
    t.resume(200);
    assert_eq!(t.elapsed(230), 30);
    t.reset();
    assert_eq!(t.elapsed(230), 0);
}

#[test]
fn timeline_repeat_pause_and_resume_do_nothing() {
    let mut t = Timeline::new();
    t.pause(10);
    assert!(!t.is_paused);
    t.start(10);
    t.pause(20);
    let frozen = t.elapsed(100);
    t.pause(100);
    assert_eq!(t.elapsed(100), frozen);
    t.resume(100);
    t.resume(150);
    assert_eq!(t.elapsed(150), 50);
}

#[test]
fn animation_registry_has_no_duplicates() {
    let mut ctx = AnimationContext::init();
    assert!(!ctx.has_active_animations());
    ctx.register_active_animation("spin".to_string());
    ctx.register_active_animation("spin".to_string());
    ctx.register_active_animation("fade".to_string());
    assert_eq!(ctx.active.len(), 2);
    assert!(ctx.has_active_animations());
    ctx.unregister_active_animation("spin");
    assert_eq!(ctx.active.len(), 1);
    assert_eq!(ctx.active[0], "fade");
    ctx.clear_active_animations();
    assert!(!ctx.has_active_animations());
}

#[test]
fn repaints_are_throttled_to_sixteen_milliseconds() {
    let mut ctx = AnimationContext::init();
    assert!(ctx.request_optimized_repaint(1000));
    assert!(!ctx.request_optimized_repaint(1010));
    assert!(ctx.request_optimized_repaint(1016));
    assert_eq!(ctx.total_repaints, 2);
    ctx.force_repaint(1017);
    assert_eq!(ctx.total_repaints, 3);
    assert_eq!(ctx.last_repaint_ms, Some(1017));
}

#[test]
fn repaint_statistics_average_recent_intervals() {
    let mut stats = RepaintStats::new();
    stats.record_repaint(0);
    stats.record_repaint(10);
    stats.record_repaint(30);
    assert_eq!(stats.count, 2);
    let snapshot = stats.get_stats(7, 9);
    assert_eq!(snapshot.total_repaints, 7);
    assert_eq!(snapshot.animation_updates, 9);
    assert_eq!(snapshot.average_interval_ms, 15);
}

#[test]
fn repaint_manager_counts_and_averages() {
    let mut manager = RepaintManager::new();
    manager.record_repaint(0);
    manager.record_repaint(20);
    manager.record_animation_update();
    let snapshot = manager.get_statistics();
    assert_eq!(snapshot.total_repaints, 2);
    assert_eq!(snapshot.animation_updates, 1);
    assert_eq!(snapshot.average_interval_ms, 20);
}

#[test]
fn interactions_retarget_animations() {
    let hover = interaction_step(Interaction::HoverStart, InteractionState::Idle, None, false)
        .expect("hover starts");
    assert_eq!(hover.0, InteractionState::Hovered);
    assert_eq!(hover.1, Some(InteractionState::Idle));
    assert_eq!(hover.3, AnimTarget::InitialEnd);

    assert!(interaction_step(Interaction::HoverStart, InteractionState::Hovered, None, false)
        .is_none());

    let unhover = interaction_step(
        Interaction::HoverEnd,
        InteractionState::Hovered,
        Some(InteractionState::Clicked),
        true,
    )
    .expect("hover ends");
    assert_eq!(unhover.0, InteractionState::Clicked);
    assert_eq!(unhover.3, AnimTarget::InitialEnd);

    let toggled_on = interaction_step(Interaction::Toggle, InteractionState::Idle, None, false)
        .expect("toggle");
    assert_eq!(toggled_on.2, true);
    assert_eq!(toggled_on.3, AnimTarget::InitialEnd);
    let toggled_off = interaction_step(Interaction::Toggle, InteractionState::Clicked, None, true)
        .expect("toggle back");
    assert_eq!(toggled_off.2, false);
    assert_eq!(toggled_off.3, AnimTarget::InitialStart);
}

#[test]
fn attribute_events_match_their_conditions() {
    let transformer = AnimationTransformer::new(TransformerMode::Init);
    assert!(transformer.events_match("auto", None));
    assert!(transformer.events_match("auto", Some("clicked")));
    assert!(transformer.events_match("clicked", Some("clicked")));
    assert!(!transformer.events_match("clicked", Some("hovered")));
    assert!(!transformer.events_match("clicked", None));
}

#[test]
fn component_toolkit_constructs() {
    let _ = Ecomp::new();
    let _ = Ecomp::default();
    let _ = AnimationTransformer::new(TransformerMode::Fn);
    let _ = AnimationTransformer::new(TransformerMode::Impl);
}
