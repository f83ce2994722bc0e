use gnvim::common::{
    calc_line_space, get_preferred_horizontal_position, get_preferred_vertical_position,
    tooltip_position, Gravity, Rectangle,
};

#[test]
fn test_calc_line_space() {
    assert_eq!((1, 0), calc_line_space(1));
    assert_eq!((1, 1), calc_line_space(2));
    assert_eq!((3, 2), calc_line_space(5));
}

#[test]
fn line_space_edges() {
    assert_eq!((0, 0), calc_line_space(0));
    assert_eq!((2, 2), calc_line_space(4));
    assert_eq!((0, -1), calc_line_space(-1));
    assert_eq!((-1, -2), calc_line_space(-3));
    assert_eq!((i32::MAX, i32::MAX), calc_line_space(i64::MAX));
    assert_eq!((i32::MIN, i32::MIN), calc_line_space(i64::MIN));
}

#[test]
fn test_get_preferred_vertical_position1() {
    // Case 1: there is room just fine in the obvious position.
    let area = Rectangle { x: 0, y: 0, width: 300, height: 300 };
    let pos = Rectangle { x: 0, y: 30, width: 300, height: 15 };
    let height = 30;
    let (y, h) = get_preferred_vertical_position(&area, &pos, height);
    assert_eq!(y, 0);
    assert_eq!(h, 30);
}

#[test]
fn test_get_preferred_vertical_position2() {
    // Case 2: there is no room above the `pos`, so we should position our
    // selves below the pos.
    let area = Rectangle { x: 0, y: 0, width: 300, height: 300 };
    let pos = Rectangle { x: 0, y: 0, width: 300, height: 15 };
    let height = 30;
    let (y, h) = get_preferred_vertical_position(&area, &pos, height);
    assert_eq!(y, 15);
    assert_eq!(h, 30);
}

#[test]
fn test_get_preferred_vertical_position3() {
    // Case 3: there is no room above the `pos`, so we should position our
    // selves below the pos but in this case, we need to truncate our height too.
    let area = Rectangle { x: 0, y: 0, width: 300, height: 35 };
    let pos = Rectangle { x: 0, y: 0, width: 300, height: 15 };
    let height = 30;
    let (y, h) = get_preferred_vertical_position(&area, &pos, height);
    assert_eq!(y, 15);
    assert_eq!(h, 20);
}

#[test]
fn test_get_preferred_vertical_position4() {
    // Case 4: there is no room above the `pos`, but below it there is even less
    // space. We should go above, but truncate our height.
    let area = Rectangle { x: 0, y: 0, width: 300, height: 40 };
    let pos = Rectangle { x: 0, y: 30, width: 300, height: 50 };
    let height = 80;
    let (y, h) = get_preferred_vertical_position(&area, &pos, height);
    assert_eq!(y, 0);
    assert_eq!(h, 30);
}

#[test]
fn test_get_preferred_horizontal_position1() {
    // Case 1: Everything fits.
    let area = Rectangle { x: 0, y: 0, height: 0, width: 10 };
    let pos = Rectangle { x: 0, y: 0, width: 0, height: 0 };
    let width = 10;
    let (x, w) = get_preferred_horizontal_position(&area, &pos, width);
    assert_eq!(x, 0);
    assert_eq!(w, 10);
}

#[test]
fn test_get_preferred_horizontal_position2() {
    // Case 2: Width is trucated.
    let area = Rectangle { x: 0, y: 0, height: 0, width: 5 };
    let pos = Rectangle { x: 0, y: 0, width: 0, height: 0 };
    let width = 10;
    let (x, w) = get_preferred_horizontal_position(&area, &pos, width);
    assert_eq!(x, 0);
    assert_eq!(w, 5);
}

#[test]
fn test_get_preferred_horizontal_position3() {
    // Case 3: X is moved to left.
    let area = Rectangle { x: 0, y: 0, height: 0, width: 20 };
    let pos = Rectangle { x: 15, y: 0, width: 0, height: 0 };
    let width = 15;
    let (x, w) = get_preferred_horizontal_position(&area, &pos, width);
    assert_eq!(x, 5);
    assert_eq!(w, 15);
}

#[test]
fn test_get_preferred_horizontal_position4() {
    // Case 4: X is moved to left and width is truncated
    let area = Rectangle { x: 0, y: 0, height: 0, width: 20 };
    let pos = Rectangle { x: 15, y: 0, width: 0, height: 0 };
    let width = 150;
    let (x, w) = get_preferred_horizontal_position(&area, &pos, width);
    assert_eq!(x, 0);
    assert_eq!(w, 20);
}

#[test]
fn horizontal_never_past_right_edge() {
    let area = Rectangle { x: 0, y: 0, height: 0, width: 50 };
    for px in [0, 10, 30, 49] {
        for width in [1, 20, 50, 70] {
            let pos = Rectangle { x: px, y: 0, width: 0, height: 0 };
            let (x, w) = get_preferred_horizontal_position(&area, &pos, width);
            assert!(x + w <= area.width);
            assert!(w <= width);
        }
    }
}

#[test]
fn tooltip_forced_below() {
    let area = Rectangle { x: 0, y: 0, width: 300, height: 300 };
    let anchor = Rectangle { x: 10, y: 100, width: 20, height: 15 };
    // Without gravity there is room above the anchor.
    assert_eq!(tooltip_position(&area, &anchor, None, 40, 30), (10, 70, 40, 30));
    // Forced below, the area starts under the anchor; with more room above
    // the area top than below the anchor, the popup takes the height above.
    assert_eq!(tooltip_position(&area, &anchor, Some(Gravity::Down), 40, 30), (10, 115, 40, 215));
    // Forced above, the area ends at the anchor.
    assert_eq!(tooltip_position(&area, &anchor, Some(Gravity::Up), 40, 30), (10, 70, 40, 30));
}
