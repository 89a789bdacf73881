use krankulator_core::overlay::{DrawOp, Overlay, TransportStatus, MAX_TOASTS, TOAST_DURATION};

#[test]
fn overlay_starts_hidden_and_empty() {
    let o = Overlay::new();
    assert!(!o.enabled);
    assert!(o.frame_time_text.is_empty());
    assert!(o.toasts.is_empty());
    assert!(o.banner.is_none());
    assert!(o.transport.is_none());
    assert_eq!(o.overscan, 0);
}

#[test]
fn overlay_toggle_twice_restores() {
    let mut o = Overlay::new();
    o.toggle();
    assert!(o.enabled);
    o.toggle();
    assert!(!o.enabled);
}

#[test]
fn overlay_full_queue_drops_oldest() {
    let mut o = Overlay::new();
    for i in 0..5 {
        o.toast(format!("t{i}"));
    }
    assert_eq!(o.toasts.len(), MAX_TOASTS);
    assert_eq!(o.toasts[0].text, "t1");
    assert_eq!(o.toasts[3].text, "t4");
    assert_eq!(o.toasts[3].frames_remaining, TOAST_DURATION);
}

#[test]
fn overlay_toast_expires_after_its_duration() {
    let mut o = Overlay::new();
    o.toast("hello".to_string());
    for _ in 0..TOAST_DURATION - 1 {
        o.tick();
    }
    assert_eq!(o.toasts.len(), 1);
    assert_eq!(o.toasts[0].frames_remaining, 1);
    o.tick();
    assert!(o.toasts.is_empty());
}

#[test]
fn overlay_tick_keeps_order_of_survivors() {
    let mut o = Overlay::new();
    o.toast("a".to_string());
    for _ in 0..10 {
        o.tick();
    }
    o.toast("b".to_string());
    o.toast("c".to_string());
    for _ in 0..TOAST_DURATION - 10 {
        o.tick();
    }
    assert_eq!(o.toasts.len(), 2);
    assert_eq!(o.toasts[0].text, "b");
    assert_eq!(o.toasts[1].text, "c");
    assert_eq!(o.toasts[0].frames_remaining, 10);
}

#[test]
fn overlay_fast_forward_does_not_replace_rewind() {
    let mut o = Overlay::new();
    o.set_rewind_status(Some("0:05".to_string()));
    o.set_fast_forward(true);
    assert!(matches!(o.transport, Some(TransportStatus::Rewind(ref t)) if t == "0:05"));
    o.set_fast_forward(false);
    assert!(matches!(o.transport, Some(TransportStatus::Rewind(_))));
    o.set_rewind_status(None);
    assert!(o.transport.is_none());
    o.set_fast_forward(true);
    assert!(matches!(o.transport, Some(TransportStatus::FastForward)));
    o.set_fast_forward(false);
    assert!(o.transport.is_none());
}

#[test]
fn overlay_banner_overscan_and_frame_time_text() {
    let mut o = Overlay::new();
    o.set_banner(Some("PAUSED".to_string()));
    o.set_overscan(8);
    o.set_frame_time_text("4.2ms (25%)".to_string());
    assert_eq!(o.banner.as_deref(), Some("PAUSED"));
    assert_eq!(o.overscan, 8);
    assert_eq!(o.frame_time_text, "4.2ms (25%)");
    o.set_banner(None);
    assert!(o.banner.is_none());
}

fn describe(ops: &[DrawOp]) -> Vec<(i32, i32, String)> {
    ops.iter()
        .map(|op| match op {
            DrawOp::Text { x, y, text } => (*x, *y, text.clone()),
            DrawOp::DoubleArrow { x, y, left } => {
                (*x, *y, if *left { "<<".to_string() } else { ">>".to_string() })
            }
        })
        .collect()
}

#[test]
fn overlay_plan_of_empty_display_is_empty() {
    let o = Overlay::new();
    assert!(o.draw_plan(256, 240).is_empty());
}

#[test]
fn overlay_plan_places_timing_and_centres_banner() {
    let mut o = Overlay::new();
    o.toggle();
    o.set_frame_time_text("1.0ms (6%)".to_string());
    o.set_overscan(8);
    o.set_banner(Some("PAUSED".to_string()));
    assert_eq!(
        describe(&o.draw_plan(256, 240)),
        vec![(2, 10, "1.0ms (6%)".to_string()), (104, 116, "PAUSED".to_string())]
    );
}

#[test]
fn overlay_plan_hides_timing_when_disabled() {
    let mut o = Overlay::new();
    o.set_frame_time_text("1.0ms (6%)".to_string());
    assert!(o.draw_plan(256, 240).is_empty());
}

#[test]
fn overlay_plan_stacks_toasts_above_rewind_line() {
    let mut o = Overlay::new();
    o.set_rewind_status(Some("0:05".to_string()));
    o.toast("a".to_string());
    o.toast("bb".to_string());
    assert_eq!(
        describe(&o.draw_plan(256, 240)),
        vec![
            (77, 228, "REWIND ".to_string()),
            (133, 228, "<<".to_string()),
            (147, 228, "0:05".to_string()),
            (120, 218, "bb".to_string()),
            (124, 208, "a".to_string()),
        ]
    );
}

#[test]
fn overlay_plan_fast_forward_line_and_overscan() {
    let mut o = Overlay::new();
    o.set_fast_forward(true);
    o.set_overscan(8);
    o.toast("x".to_string());
    assert_eq!(
        describe(&o.draw_plan(256, 240)),
        vec![
            (111, 220, "FF ".to_string()),
            (135, 220, ">>".to_string()),
            (124, 210, "x".to_string()),
        ]
    );
}

#[test]
fn overlay_plan_toasts_start_at_bottom_without_transport() {
    let mut o = Overlay::new();
    o.toast("hi".to_string());
    assert_eq!(describe(&o.draw_plan(256, 240)), vec![(120, 228, "hi".to_string())]);
}

#[test]
fn overlay_plan_centring_rounds_toward_zero() {
    let mut o = Overlay::new();
    o.set_banner(Some("ABC".to_string()));
    assert_eq!(describe(&o.draw_plan(17, 10)), vec![(-3, 1, "ABC".to_string())]);
    o.set_banner(Some("ABCDEFGHIJ".to_string()));
    assert_eq!(describe(&o.draw_plan(16, 10)), vec![(-32, 1, "ABCDEFGHIJ".to_string())]);
}

#[test]
fn overlay_plan_measures_text_in_bytes() {
    let mut o = Overlay::new();
    o.toast("\u{e9}".to_string());
    assert_eq!(describe(&o.draw_plan(256, 240)), vec![(120, 228, "\u{e9}".to_string())]);
}
