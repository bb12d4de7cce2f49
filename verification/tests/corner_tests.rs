use trisig::corner::{corner_named, Corner};

#[test]
fn corner_names_round_trip() {
    for c in Corner::all() {
        assert_eq!(Corner::parse(c.as_str()), c);
    }
}

#[test]
fn corner_names() {
    assert_eq!(Corner::TopLeft.as_str(), "top-left");
    assert_eq!(Corner::TopRight.as_str(), "top-right");
    assert_eq!(Corner::BottomLeft.as_str(), "bottom-left");
    assert_eq!(Corner::BottomRight.as_str(), "bottom-right");
}

#[test]
fn unknown_corner_name_is_top_right() {
    assert_eq!(Corner::parse("middle"), Corner::TopRight);
    assert_eq!(Corner::parse(""), Corner::TopRight);
    assert_eq!(Corner::parse("Top-Left"), Corner::TopRight);
    assert_eq!(Corner::parse("top-right"), Corner::TopRight);
}

#[test]
fn corner_edges() {
    assert!(Corner::TopLeft.is_left() && Corner::TopLeft.is_top());
    assert!(!Corner::TopRight.is_left() && Corner::TopRight.is_top());
    assert!(Corner::BottomLeft.is_left() && !Corner::BottomLeft.is_top());
    assert!(!Corner::BottomRight.is_left() && !Corner::BottomRight.is_top());
}

#[test]
fn corner_menu_entries() {
    assert_eq!(
        Corner::all(),
        vec![Corner::TopLeft, Corner::TopRight, Corner::BottomLeft, Corner::BottomRight]
    );
    assert_eq!(Corner::TopLeft.menu_id(), "corner:top-left");
    assert_eq!(Corner::BottomRight.menu_id(), "corner:bottom-right");
    assert_eq!(Corner::TopLeft.label(), "左上角");
    assert_eq!(Corner::TopRight.label(), "右上角");
    assert_eq!(Corner::BottomLeft.label(), "左下角");
    assert_eq!(Corner::BottomRight.label(), "右下角");
}

#[test]
fn exact_corner_names() {
    assert_eq!(corner_named("top-right"), Some(Corner::TopRight));
    assert_eq!(corner_named("bottom-left"), Some(Corner::BottomLeft));
    assert_eq!(corner_named("middle"), None);
}
