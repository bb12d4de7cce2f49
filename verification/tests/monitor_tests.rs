use trisig::monitor::{initial_monitor_index, monitor_item_id, monitor_label, pixel_area, select_monitor};

#[test]
fn select_monitor_falls_back_to_first() {
    assert_eq!(select_monitor(1, 3), Some(1));
    assert_eq!(select_monitor(3, 3), Some(0));
    assert_eq!(select_monitor(0, 0), None);
    assert_eq!(select_monitor(5, 0), None);
}

#[test]
fn saved_monitor_is_kept_when_connected() {
    let sizes = vec![(1920, 1080), (2560, 1440)];
    assert_eq!(initial_monitor_index(Some(0), &sizes), 0);
    assert_eq!(initial_monitor_index(Some(1), &sizes), 1);
}

#[test]
fn largest_monitor_is_chosen_otherwise() {
    let sizes = vec![(1920, 1080), (2560, 1440), (1280, 800)];
    assert_eq!(initial_monitor_index(None, &sizes), 1);
    assert_eq!(initial_monitor_index(Some(3), &sizes), 1);
}

#[test]
fn last_of_equally_large_monitors_is_chosen() {
    let sizes = vec![(1920, 1080), (1080, 1920), (800, 600)];
    assert_eq!(initial_monitor_index(None, &sizes), 1);
}

#[test]
fn no_monitor_gives_zero() {
    assert_eq!(initial_monitor_index(None, &vec![]), 0);
    assert_eq!(initial_monitor_index(Some(2), &vec![]), 0);
}

#[test]
fn huge_monitor_area_does_not_overflow() {
    assert_eq!(pixel_area((u32::MAX, u32::MAX)), (u32::MAX as u64) * (u32::MAX as u64));
    let sizes = vec![(u32::MAX, 1), (u32::MAX, u32::MAX)];
    assert_eq!(initial_monitor_index(None, &sizes), 1);
}

#[test]
fn monitor_labels() {
    assert_eq!(monitor_label(Some("DELL U2720Q".to_string()), 0), "DELL U2720Q");
    assert_eq!(monitor_label(Some(String::new()), 0), "显示器 1");
    assert_eq!(monitor_label(None, 2), "显示器 3");
}

#[test]
fn monitor_ids() {
    assert_eq!(monitor_item_id(0), "monitor:0");
    assert_eq!(monitor_item_id(12), "monitor:12");
}
