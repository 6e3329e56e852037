use govee::dreamview::{activate, apply_mirror, merge_segments, segment_count, shutdown};

#[test]
fn segment_count_razer_on() {
    assert_eq!(segment_count(true, 5), 5);
    assert_eq!(segment_count(true, 0), 1);
}

#[test]
fn segment_count_razer_off() {
    assert_eq!(segment_count(false, 5), 1);
    assert_eq!(segment_count(false, 0), 1);
}

#[test]
fn mirror_enabled() {
    let colors = vec![(255, 0, 0), (0, 255, 0), (0, 0, 255)];
    let result = apply_mirror(&colors, true);
    assert_eq!(
        result,
        vec![
            (255, 0, 0), (0, 255, 0), (0, 0, 255),
            (0, 0, 255), (0, 255, 0), (255, 0, 0),
        ]
    );
}

#[test]
fn mirror_disabled() {
    let colors = vec![(255, 0, 0), (0, 255, 0)];
    let result = apply_mirror(&colors, false);
    assert_eq!(result, vec![(255, 0, 0), (0, 255, 0)]);
}

#[test]
fn mirror_of_empty_is_empty() {
    assert!(apply_mirror(&[], true).is_empty());
}

#[test]
fn mirror_reads_the_same_from_both_ends() {
    let colors = vec![(1, 2, 3), (4, 5, 6), (7, 8, 9), (10, 11, 12)];
    let m = apply_mirror(&colors, true);
    assert_eq!(m.len(), 8);
    for i in 0..m.len() {
        assert_eq!(m[i], m[m.len() - 1 - i]);
    }
}

#[test]
fn merge_segments_even_chunks() {
    let colors = vec![(10, 0, 0), (30, 0, 0), (0, 10, 0), (0, 30, 0)];
    assert_eq!(merge_segments(&colors, 2), vec![(20, 0, 0), (0, 20, 0)]);
}

#[test]
fn merge_segments_fewer_inputs_than_n() {
    let colors = vec![(100, 100, 100), (200, 200, 200)];
    let out = merge_segments(&colors, 5);
    assert_eq!(out.len(), 5);
}

#[test]
fn merge_segments_empty_input() {
    let out = merge_segments(&[], 4);
    assert_eq!(out, vec![(0, 0, 0); 4]);
}

#[test]
fn merge_segments_zero_n() {
    assert!(merge_segments(&[(1, 2, 3)], 0).is_empty());
}

#[test]
fn merge_into_as_many_segments_is_identity() {
    let colors = vec![(1, 2, 3), (250, 0, 7), (9, 9, 9)];
    assert_eq!(merge_segments(&colors, 3), colors);
}

#[test]
fn merge_spreads_remainder_and_widens_empty_groups() {
    // Five colours into two groups: cut at 5 * 1 / 2 = 2.
    let colors = vec![(10, 0, 0), (20, 0, 0), (30, 0, 0), (40, 0, 0), (51, 0, 0)];
    assert_eq!(merge_segments(&colors, 2), vec![(15, 0, 0), (40, 0, 0)]);
    // Two colours into five groups: the empty groups take one colour each.
    let out = merge_segments(&[(100, 100, 100), (200, 200, 200)], 5);
    assert_eq!(
        out,
        vec![
            (100, 100, 100),
            (100, 100, 100),
            (100, 100, 100),
            (200, 200, 200),
            (200, 200, 200),
        ]
    );
}

#[test]
fn activate_sends_brightness_then_dreamview() {
    let (first, second) = activate("192.168.1.20", 60, true);
    let first = first.unwrap();
    assert_eq!(first.to, (192, 168, 1, 20));
    assert_eq!(first.message, r#"{"msg":{"cmd":"brightness","data":{"value":60}}}"#);
    let second = second.unwrap().unwrap();
    assert_eq!(second.message, r#"{"msg":{"cmd":"razer","data":{"pt":"uwABsQEK"}}}"#);
    let (_, none) = activate("192.168.1.20", 60, false);
    assert!(none.is_none());
}

#[test]
fn shutdown_switches_dreamview_off_only_when_used() {
    let cmd = shutdown("10.0.0.5", true).unwrap().unwrap();
    assert_eq!(cmd.message, r#"{"msg":{"cmd":"razer","data":{"pt":"uwABsQAL"}}}"#);
    assert!(shutdown("10.0.0.5", false).is_none());
}
