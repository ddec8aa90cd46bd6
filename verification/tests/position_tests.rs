use raster::{Position, PositionMode};

fn place(mode: PositionMode, offset_x: i32, offset_y: i32) -> (i32, i32) {
    Position::new(mode, offset_x, offset_y).get_x_y(100, 50, 30, 20).unwrap()
}

#[test]
fn anchors_without_offsets() {
    assert_eq!(place(PositionMode::TopLeft, 0, 0), (0, 0));
    assert_eq!(place(PositionMode::TopCenter, 0, 0), (35, 0));
    assert_eq!(place(PositionMode::TopRight, 0, 0), (70, 0));
    assert_eq!(place(PositionMode::CenterLeft, 0, 0), (0, 15));
    assert_eq!(place(PositionMode::Center, 0, 0), (35, 15));
    assert_eq!(place(PositionMode::CenterRight, 0, 0), (70, 15));
    assert_eq!(place(PositionMode::BottomLeft, 0, 0), (0, 30));
    assert_eq!(place(PositionMode::BottomCenter, 0, 0), (35, 30));
    assert_eq!(place(PositionMode::BottomRight, 0, 0), (70, 30));
}

#[test]
fn offsets_are_added_on_their_own_axis() {
    assert_eq!(place(PositionMode::TopLeft, 3, -4), (3, -4));
    assert_eq!(place(PositionMode::TopCenter, 3, -4), (38, -4));
    assert_eq!(place(PositionMode::TopRight, 3, -4), (73, -4));
    assert_eq!(place(PositionMode::CenterLeft, 3, -4), (3, 11));
    assert_eq!(place(PositionMode::Center, 3, -4), (38, 11));
    assert_eq!(place(PositionMode::CenterRight, 3, -4), (73, 11));
    assert_eq!(place(PositionMode::BottomLeft, 3, -4), (3, 26));
    assert_eq!(place(PositionMode::BottomCenter, 3, -4), (38, 26));
    assert_eq!(place(PositionMode::BottomRight, 3, -4), (73, 26));
}

#[test]
fn centering_halves_each_extent_by_itself() {
    // 5 / 2 - 2 / 2 is 1, not (5 - 2) / 2.
    let p = Position::new(PositionMode::Center, 0, 0).get_x_y(5, 7, 2, 4).unwrap();
    assert_eq!(p, (1, 1));
    let p = Position::new(PositionMode::Center, 0, 0).get_x_y(4, 4, 7, 7).unwrap();
    assert_eq!(p, (-1, -1));
}

#[test]
fn an_item_larger_than_the_canvas_starts_before_it() {
    let p = Position::new(PositionMode::BottomRight, 0, 0).get_x_y(10, 10, 30, 40).unwrap();
    assert_eq!(p, (-20, -30));
}
