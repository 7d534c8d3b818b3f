use byetype::bubble::{gen_index, label_for, pool_labels, BubbleGenerations};
use byetype::preview::{preview_size, PreviewWindows, ShowTarget};

#[test]
fn labels_are_numbered_and_never_reused() {
    let mut w = PreviewWindows::new();
    assert_eq!(w.next_label(), "preview-0");
    assert_eq!(w.next_label(), "preview-1");
    assert_eq!(w.next_label(), "preview-2");
}

#[test]
fn pinning_the_active_window_frees_the_slot() {
    let mut w = PreviewWindows::new();
    let label = w.next_label();
    w.set_active(label.clone());
    w.set_pinned(&label, true);

    assert!(w.is_pinned(&label));
    assert_eq!(w.active(), None);

    w.set_pinned(&label, false);
    assert!(!w.is_pinned(&label));
}

#[test]
fn pinning_another_window_keeps_the_active_one() {
    let mut w = PreviewWindows::new();
    w.set_active("preview-5".to_string());
    w.set_pinned("preview-3", true);

    assert_eq!(w.active(), Some("preview-5".to_string()));
}

#[test]
fn blur_closes_only_unpinned_windows_after_the_grace_period() {
    let mut w = PreviewWindows::new();
    w.set_created_at("preview-0", 10_000);

    assert!(!w.closes_on_blur("preview-0", 10_500));
    assert!(w.closes_on_blur("preview-0", 10_800));
    w.set_pinned("preview-0", true);
    assert!(!w.closes_on_blur("preview-0", 20_000));
    assert!(w.closes_on_blur("preview-9", 800));
}

#[test]
fn destroyed_window_is_forgotten() {
    let mut w = PreviewWindows::new();
    w.set_active("preview-0".to_string());
    w.set_ready("preview-0", true);
    w.set_pinned("preview-1", true);
    assert!(w.register("preview-0"));
    assert!(!w.register("preview-0"));

    w.destroyed("preview-0");

    assert_eq!(w.active(), None);
    assert!(!w.is_ready("preview-0"));
    assert!(w.register("preview-0"));
    assert!(w.is_pinned("preview-1"));
}

#[test]
fn preview_size_follows_the_text() {
    assert_eq!(preview_size(""), (400, 206));
    assert_eq!(preview_size("短"), (320, 206));
    let long = "a".repeat(100);
    assert_eq!(preview_size(&long), (600, 206));
    let many = "x\n".repeat(30);
    assert_eq!(preview_size(&many), (320, 460));
    assert_eq!(preview_size("一二三四五六七八九十一二三四五六七八九十\n\n\n\n"), (560, 228));
}

#[test]
fn bubble_slots_and_labels() {
    assert_eq!(gen_index(0), 0);
    assert_eq!(gen_index(1), 0);
    assert_eq!(gen_index(2), 1);
    assert_eq!(gen_index(3), 2);
    assert_eq!(gen_index(9), 2);
    assert_eq!(label_for(2), "bubble-2");
    assert_eq!(pool_labels(), vec!["bubble-1", "bubble-2", "bubble-3"]);
}

#[test]
fn showing_again_cancels_a_pending_hide() {
    let mut g = BubbleGenerations::new();
    g.shown(1);
    let scheduled = g.hide_scheduled(1);
    assert!(g.hide_still_due(1, scheduled));

    g.shown(2);
    assert!(g.hide_still_due(1, scheduled));

    g.shown(1);
    assert!(!g.hide_still_due(1, scheduled));
}

#[test]
fn a_new_text_reuses_the_active_window_or_creates_one() {
    let mut w = PreviewWindows::new();

    assert_eq!(w.begin_show(false), ShowTarget::Create { label: "preview-0".to_string() });
    assert!(!w.is_ready("preview-0"));
    w.set_active("preview-0".to_string());

    assert_eq!(
        w.begin_show(true),
        ShowTarget::Reuse { label: "preview-0".to_string(), wait_for_ready: true }
    );
    w.set_ready("preview-0", true);
    assert_eq!(
        w.begin_show(true),
        ShowTarget::Reuse { label: "preview-0".to_string(), wait_for_ready: false }
    );
    assert_eq!(w.begin_show(false), ShowTarget::Create { label: "preview-1".to_string() });
}

#[test]
fn prewarming_happens_only_with_an_empty_active_slot() {
    let mut w = PreviewWindows::new();
    assert_eq!(w.prewarm_label(), Some("preview-0".to_string()));
    w.set_active("preview-0".to_string());
    assert_eq!(w.prewarm_label(), None);
}
