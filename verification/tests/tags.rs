use hexview_core::session::FileState;
use hexview_core::tag::Tag;

fn tag(start: u64, end: u64, name: &str) -> Tag {
    Tag {
        start,
        end,
        name: name.to_string(),
        display_name: format!("Tag {}", name),
        color: if name == "a" { Some("#ff0000".to_string()) } else { None },
    }
}

/// A session over a 1024-byte file with tags A=[0,99], B=[100,199], C=[500,500].
fn session_with_tags() -> FileState {
    let mut s = FileState::new();
    s.record_open(1024);
    s.add_tag(tag(0, 99, "a"));
    s.add_tag(tag(100, 199, "b"));
    s.add_tag(tag(500, 500, "c"));
    s
}

fn names(tags: &[Tag]) -> Vec<String> {
    tags.iter().map(|t| t.name.clone()).collect()
}

#[test]
fn boundary_touch_returns_both_neighbors() {
    let s = session_with_tags();
    let r = s.get_tags_in_range(99, 100);
    assert_eq!(names(&r), vec!["a".to_string(), "b".to_string()]);
}

#[test]
fn gap_returns_nothing() {
    let s = session_with_tags();
    let r = s.get_tags_in_range(200, 499);
    assert!(r.is_empty());
}

#[test]
fn point_query_hits_point_tag() {
    let s = session_with_tags();
    let r = s.get_tags_in_range(500, 500);
    assert_eq!(names(&r), vec!["c".to_string()]);
}

#[test]
fn overlap_includes_single_byte_touch() {
    let s = session_with_tags();
    // A tag ending exactly at the query start, and one starting exactly at
    // the query end, are both included.
    let r = s.get_tags_in_range(199, 500);
    assert_eq!(names(&r), vec!["b".to_string(), "c".to_string()]);
}

#[test]
fn wider_query_keeps_narrower_results() {
    let s = session_with_tags();
    let narrow = s.get_tags_in_range(99, 100);
    let wide = s.get_tags_in_range(0, 600);
    for t in &narrow {
        assert!(wide.iter().any(|w| w == t));
    }
    assert_eq!(names(&wide), vec!["a".to_string(), "b".to_string(), "c".to_string()]);
}

#[test]
fn all_tags_returned_in_order() {
    let s = session_with_tags();
    let all = s.get_all_tags();
    assert_eq!(names(&all), vec!["a".to_string(), "b".to_string(), "c".to_string()]);
    assert_eq!(all[0], tag(0, 99, "a"));
    assert_eq!(all[1], tag(100, 199, "b"));
    assert_eq!(all[2], tag(500, 500, "c"));
}

#[test]
fn open_clears_tags() {
    let mut s = session_with_tags();
    assert_eq!(s.get_all_tags().len(), 3);
    s.record_open(2048);
    assert!(s.get_all_tags().is_empty());
    assert!(s.get_tags_in_range(0, u64::MAX).is_empty());
    assert_eq!(s.size(), 2048);
}

#[test]
fn fresh_session_has_no_tags() {
    let s = FileState::new();
    assert!(s.get_all_tags().is_empty());
    assert_eq!(s.size(), 0);
    assert!(!s.is_open());
}

#[test]
fn returned_tags_are_independent_copies() {
    let s = session_with_tags();
    let mut copy = s.get_all_tags();
    copy[0].name = "changed".to_string();
    assert_eq!(s.get_all_tags()[0].name, "a");
}
