use resman::display::{
    core_grid, cores_in_row, detail_cpu_level, gpu_usage_level, process_cpu_level,
    scroll_offset_for, status_spacing, temp_level, usage_level, Heat,
};
use resman::history::HistoryBuffer;
use resman::refresh::RefreshRate;
use resman::text::{chars_of, contains_chars, decimal_chars, truncate_string};
use resman::toast::{Toast, ToastLevel, TOAST_DURATION_MS};

#[test]
fn history_keeps_last_window() {
    let mut h: HistoryBuffer<u32> = HistoryBuffer::new(3);
    for v in 1..=5u32 {
        h.record(v);
    }
    assert_eq!(h.series(), &vec![3, 4, 5]);
    assert_eq!(h.len(), 3);
    assert_eq!(h.capacity_of(), 3);
}

#[test]
fn history_below_capacity_keeps_all() {
    let mut h: HistoryBuffer<u32> = HistoryBuffer::new(60);
    h.record(7);
    h.record(9);
    assert_eq!(h.series(), &vec![7, 9]);
}

#[test]
fn history_evicts_one_at_a_time() {
    let mut h: HistoryBuffer<u32> = HistoryBuffer::new(2);
    h.record(1);
    h.record(2);
    h.record(3);
    assert_eq!(h.series(), &vec![2, 3]);
    h.record(4);
    assert_eq!(h.series(), &vec![3, 4]);
}

#[test]
fn refresh_ladder_clamps_and_inverts() {
    let mut r = RefreshRate::new();
    assert_eq!(r.interval_ms(), 500);
    r.faster();
    assert_eq!(r.interval_ms(), 250);
    r.faster();
    r.faster();
    assert_eq!(r.interval_ms(), 250);
    for _ in 0..10 {
        r.slower();
    }
    assert_eq!(r.interval_ms(), 5000);
    r.faster();
    assert_eq!(r.interval_ms(), 2000);
    r.faster();
    r.slower();
    assert_eq!(r.interval_ms(), 2000);
    r.slower();
    r.faster();
    assert_eq!(r.interval_ms(), 2000);
}

#[test]
fn toast_expires_at_duration() {
    let t = Toast::new("done".to_string(), ToastLevel::Success, 1000);
    assert_eq!(t.expires_at, 1000 + TOAST_DURATION_MS);
    assert!(!t.is_expired(3999));
    assert!(t.is_expired(4000));
    assert!(t.is_expired(5000));
    assert_eq!(t.level, ToastLevel::Success);
    assert_eq!(t.message, "done");
}

#[test]
fn truncate_short_and_long() {
    assert_eq!(truncate_string("short", 30), "short");
    assert_eq!(truncate_string("hello world", 8), "hello...");
    assert_eq!(truncate_string("abcdefgh", 8), "abcdefgh");
    assert_eq!(truncate_string("abcdefghi", 8), "abcde...");
    assert_eq!(truncate_string("", 3), "");
    assert_eq!(truncate_string("ab", 2), "ab");
    assert_eq!(truncate_string("", 0), "");
}

#[test]
fn truncate_counts_bytes() {
    // Two characters of two bytes each: four bytes, over a limit of three.
    assert_eq!(truncate_string("éé", 3), "...");
    assert_eq!(truncate_string("aé", 3), "aé");
    assert_eq!(truncate_string("éabcdef", 6), "éa...");
    assert_eq!(truncate_string("éé", 4), "éé");
}

#[test]
fn decimal_digits_of_numbers() {
    assert_eq!(decimal_chars(0), vec!['0']);
    assert_eq!(decimal_chars(1234), vec!['1', '2', '3', '4']);
    assert_eq!(decimal_chars(4294967295), chars_of("4294967295"));
}

#[test]
fn substring_search() {
    let hay = chars_of("firefox");
    assert!(contains_chars(&hay, &chars_of("fox")));
    assert!(contains_chars(&hay, &chars_of("")));
    assert!(!contains_chars(&hay, &chars_of("foxy")));
    assert!(!contains_chars(&chars_of("ab"), &chars_of("abc")));
}

#[test]
fn heat_bands() {
    assert_eq!(usage_level(4999), Heat::Low);
    assert_eq!(usage_level(5000), Heat::Medium);
    assert_eq!(usage_level(7500), Heat::High);
    assert_eq!(gpu_usage_level(59), Heat::Low);
    assert_eq!(gpu_usage_level(60), Heat::Medium);
    assert_eq!(gpu_usage_level(85), Heat::High);
    assert_eq!(temp_level(79), Heat::Medium);
    assert_eq!(temp_level(80), Heat::High);
    assert_eq!(process_cpu_level(8499), Heat::Medium);
    assert_eq!(process_cpu_level(8500), Heat::High);
    assert_eq!(detail_cpu_level(5000), Heat::Low);
    assert_eq!(detail_cpu_level(5001), Heat::Medium);
    assert_eq!(detail_cpu_level(7501), Heat::High);
}

#[test]
fn scroll_follows_selection() {
    assert_eq!(scroll_offset_for(None, 5, 10), 0);
    assert_eq!(scroll_offset_for(Some(3), 5, 10), 3);
    assert_eq!(scroll_offset_for(Some(14), 5, 10), 5);
    assert_eq!(scroll_offset_for(Some(15), 5, 10), 6);
}

#[test]
fn core_grid_layout() {
    assert_eq!(core_grid(1), (1, 1));
    assert_eq!(core_grid(4), (4, 1));
    assert_eq!(core_grid(6), (4, 2));
    assert_eq!(core_grid(8), (4, 2));
    assert_eq!(cores_in_row(6, 4, 1), 2);
    assert_eq!(cores_in_row(6, 4, 0), 4);
}

#[test]
fn status_bar_spacing() {
    assert_eq!(status_spacing(100, 20, 30), 50);
    assert_eq!(status_spacing(50, 20, 30), 3);
    assert_eq!(status_spacing(54, 20, 30), 4);
    assert_eq!(status_spacing(53, 20, 30), 3);
}
