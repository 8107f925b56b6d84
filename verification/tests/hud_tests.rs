use clipboard_hud::hud::HudState;

#[test]
fn starts_hidden_with_given_baseline() {
    let hud = HudState::new(42);
    assert_eq!(hud.last_seen_counter, 42);
    assert!(!hud.visible);
    assert!(hud.armed_timer.is_none());
    assert_eq!(hud.display_text, "");
}

#[test]
fn unchanged_counter_is_a_no_op() {
    let mut hud = HudState::new(7);
    assert!(!hud.observe_counter(7));
    assert!(!hud.observe_counter(7));
    assert_eq!(hud.last_seen_counter, 7);
    assert!(!hud.visible);
    assert!(hud.armed_timer.is_none());
    assert_eq!(hud.display_text, "");
}

#[test]
fn changed_counter_updates_baseline_before_any_read() {
    let mut hud = HudState::new(7);
    assert!(hud.observe_counter(8));
    // The baseline moved even though no text was read: the next poll with
    // the same counter must not re-trigger.
    assert_eq!(hud.last_seen_counter, 8);
    assert!(!hud.observe_counter(8));
    // No display side effect happened.
    assert!(!hud.visible);
    assert!(hud.armed_timer.is_none());
    assert_eq!(hud.display_text, "");
}

#[test]
fn show_truncates_text_and_arms_a_timer() {
    let mut hud = HudState::new(0);
    let plan = hud.show("abcdefghijklmnopqrstuvwxyz\nsecond line");
    assert_eq!(plan.cancel_timer, None);
    assert_eq!(hud.armed_timer, Some(plan.arm_timer));
    assert!(hud.visible);
    assert_eq!(hud.display_text, "abcdefghijklmnopqrstuvwxyz\nsecond line");
    assert_eq!(plan.display_text, hud.display_text);

    let long = "x".repeat(150);
    let plan = hud.show(&long);
    let mut expected = "x".repeat(97);
    expected.push_str("...");
    assert_eq!(hud.display_text, expected);
    assert_eq!(plan.display_text, expected);
}

#[test]
fn armed_timer_hides_and_clears() {
    let mut hud = HudState::new(0);
    let plan = hud.show("hello");
    assert!(hud.hide_timer_fired(plan.arm_timer));
    assert!(!hud.visible);
    assert!(hud.armed_timer.is_none());
}

#[test]
fn second_show_within_duration_replaces_the_timer() {
    let mut hud = HudState::new(0);
    let first = hud.show("first");
    let second = hud.show("second");
    // The second show cancels the first timer and arms a fresh one.
    assert_eq!(second.cancel_timer, Some(first.arm_timer));
    assert_ne!(first.arm_timer, second.arm_timer);
    assert_eq!(hud.armed_timer, Some(second.arm_timer));

    // The stale timer fires with no effect at all.
    assert!(!hud.hide_timer_fired(first.arm_timer));
    assert!(hud.visible);
    assert_eq!(hud.armed_timer, Some(second.arm_timer));
    assert_eq!(hud.display_text, "second");

    // Only the timer of the last show hides the overlay: exactly one hide.
    assert!(hud.hide_timer_fired(second.arm_timer));
    assert!(!hud.visible);
    assert!(hud.armed_timer.is_none());
}

#[test]
fn stale_timer_after_hide_does_nothing() {
    let mut hud = HudState::new(0);
    let plan = hud.show("hello");
    assert!(hud.hide_timer_fired(plan.arm_timer));
    // The same timer firing again (or any stale id) is a no-op.
    assert!(!hud.hide_timer_fired(plan.arm_timer));
    assert!(!hud.visible);
    assert!(hud.armed_timer.is_none());
}

#[test]
fn poll_then_show_cycle() {
    let mut hud = HudState::new(10);
    // A new copy arrives.
    assert!(hud.observe_counter(11));
    let plan = hud.show("copied text");
    assert_eq!(hud.display_text, "copied text");
    assert!(hud.visible);
    // Polls between the show and the hide see no change.
    assert!(!hud.observe_counter(11));
    assert!(hud.visible);
    // The hide timer fires.
    assert!(hud.hide_timer_fired(plan.arm_timer));
    assert!(!hud.visible);
    // Content already seen never re-triggers.
    assert!(!hud.observe_counter(11));
    assert!(!hud.visible);
}
