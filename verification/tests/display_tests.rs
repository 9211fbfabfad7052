use light_control::display;
use light_control::display::{
    backlight_update, changed_rows, translate_bbox, translate_point, translate_reverse, BooleanImage,
    OrientationFormat, Point, Rectangle, Size,
};
use light_control::layout::{
    distribute, pair_size, place, text_block_size, ComponentSize, Horizontal, ValueRange, Vertical,
};
use light_control::screen::{
    screen_step, AdjustEvent, AdjustableValue, Adjustment, ScreenAction, ScreenData, ScreenEvent,
};
use light_control::wiring::Orientation;

const ORIENTATIONS: [Orientation; 4] = [
    Orientation::Straight,
    Orientation::LeftDown,
    Orientation::UpsideDown,
    Orientation::RightDown,
];

#[test]
fn test_translate_and_reverse() {
    for o in ORIENTATIONS {
        let p = Point { x: 7, y: 13 };
        let p1 = translate_point(&o, p);
        let p2 = translate_reverse(&o, p1);
        assert_eq!(p, p2, "Orientation {o:?}");
    }
}

#[test]
fn translated_points() {
    let p = Point { x: 7, y: 13 };
    assert_eq!(p, translate_point(&Orientation::Straight, p));
    assert_eq!(Point { x: 115, y: 7 }, translate_point(&Orientation::LeftDown, p));
    assert_eq!(Point { x: 120, y: 50 }, translate_point(&Orientation::UpsideDown, p));
    assert_eq!(Point { x: 13, y: 56 }, translate_point(&Orientation::RightDown, p));
}

#[test]
fn formats_and_bounding_boxes() {
    assert_eq!(OrientationFormat::Landscape, display::format(&Orientation::Straight));
    assert_eq!(OrientationFormat::Portrait, display::format(&Orientation::LeftDown));
    let bbox = Rectangle { top_left: Point { x: 0, y: 0 }, size: Size { width: 128, height: 64 } };
    assert_eq!(bbox, translate_bbox(&Orientation::UpsideDown, bbox));
    assert_eq!(
        Rectangle { top_left: Point { x: 0, y: 0 }, size: Size { width: 64, height: 128 } },
        translate_bbox(&Orientation::RightDown, bbox)
    );
    assert!(bbox.contains(Point { x: 127, y: 63 }));
    assert!(!bbox.contains(Point { x: 128, y: 0 }));
    assert!(!bbox.contains(Point { x: -1, y: 0 }));
}

#[test]
fn pixel_image_and_changed_rows() {
    let mut img = BooleanImage::new(128, 128 * 64);
    assert_eq!(
        Rectangle { top_left: Point { x: 0, y: 0 }, size: Size { width: 128, height: 64 } },
        img.bounding_box()
    );
    let before = img.data.clone();
    img.draw_pixel(Point { x: 3, y: 2 }, true);
    img.draw_pixel(Point { x: 5, y: 9 }, true);
    img.draw_pixel(Point { x: 200, y: 1 }, true);
    img.draw_pixel(Point { x: 1, y: 70 }, true);
    assert!(img.data[2 * 128 + 3]);
    assert_eq!(2, img.data.iter().filter(|p| **p).count());
    assert_eq!(Some((2, 9)), changed_rows(&img.data, &before));
    assert_eq!(None, changed_rows(&before, &before));
    img.clear(true);
    assert!(img.data.iter().all(|p| *p));
}

fn range(preferred_value: u32, min_value: u32, max_value: u32) -> ValueRange {
    ValueRange { preferred_value, min_value, max_value }
}

#[test]
fn value_ranges() {
    let mut v = range(5, 1, 10);
    v.expand(&range(3, 4, 20));
    assert_eq!(range(5, 4, 20), v);
    v.add_assign(ValueRange::fixed(2));
    assert_eq!(range(7, 6, 22), v);
    assert_eq!(range(7, 22, u32::MAX), v.expand_max());
    let c = ComponentSize::new(10, 20, 5..15, 8..30);
    assert_eq!(range(10, 5, 15), c.width);
    assert_eq!(range(10, 15, u32::MAX), c.expanded().width);
}

#[test]
fn pairs_add_along_and_widen_across() {
    let a = ComponentSize::fixed_size(10, 20);
    let b = ComponentSize::new(5, 30, 5..8, 25..40);
    let h = pair_size::<Horizontal>(&a, &b);
    assert_eq!(range(15, 15, 18), h.width);
    assert_eq!(range(30, 25, 40), h.height);
    let v = pair_size::<Vertical>(&a, &b);
    assert_eq!(range(50, 45, 60), v.height);
    assert_eq!(range(10, 10, 10), v.width);
}

#[test]
fn distribution_of_room() {
    // exactly the preferred lengths
    assert_eq!([3, 7], distribute(10, [range(3, 0, 5), range(7, 0, 9)], [1, 1]));
    // room for both maxima
    assert_eq!([5, 9], distribute(20, [range(3, 0, 5), range(7, 0, 9)], [1, 1]));
    // the rest of 10 is shared by weight: 5 and 5
    assert_eq!([15, 15], distribute(30, [range(10, 0, 100), range(10, 0, 100)], [1, 1]));
    // the first one is capped at its maximum; the share it could not take is not handed on
    assert_eq!([12, 15], distribute(30, [range(10, 0, 12), range(10, 0, 100)], [1, 1]));
    // weights 1:3
    assert_eq!([12, 18], distribute(30, [range(10, 0, 100), range(10, 0, 100)], [1, 3]));
    // a component of weight 0 gets nothing more
    assert_eq!([10, 20], distribute(30, [range(10, 0, 100), range(10, 0, 100)], [0, 1]));
}

#[test]
fn placing_two_components() {
    let position = Rectangle { top_left: Point { x: 2, y: 3 }, size: Size { width: 40, height: 10 } };
    let [a, b] = place::<Horizontal>(position, [15, 25]);
    assert_eq!(Rectangle { top_left: Point { x: 2, y: 3 }, size: Size { width: 15, height: 10 } }, a);
    assert_eq!(Rectangle { top_left: Point { x: 17, y: 3 }, size: Size { width: 25, height: 10 } }, b);
    let [c, d] = place::<Vertical>(position, [4, 6]);
    assert_eq!(Rectangle { top_left: Point { x: 2, y: 3 }, size: Size { width: 40, height: 4 } }, c);
    assert_eq!(Rectangle { top_left: Point { x: 2, y: 7 }, size: Size { width: 40, height: 6 } }, d);
}

fn button(x: i32) -> Option<Rectangle> {
    Some(Rectangle { top_left: Point { x, y: 0 }, size: Size { width: 10, height: 10 } })
}

#[test]
fn touch_adjusts_values() {
    let v = AdjustableValue {
        current_value: 140,
        max_value: 370,
        min_value: 133,
        step_size: 30,
        plus_button: button(20),
        minus_button: button(0),
    };
    assert_eq!(
        Some(Adjustment { old_value: 140, new_value: 133 }),
        v.detect_adjustment(Point { x: 5, y: 5 }, u16::MAX)
    );
    assert_eq!(
        Some(Adjustment { old_value: 140, new_value: 170 }),
        v.detect_adjustment(Point { x: 25, y: 5 }, u16::MAX)
    );
    assert_eq!(None, v.detect_adjustment(Point { x: 15, y: 5 }, u16::MAX));

    let mut screen = ScreenData::new(false, true);
    assert_eq!(None, screen.whitebalance);
    screen.brightness = Some(AdjustableValue {
        current_value: 240,
        max_value: 255,
        min_value: 0,
        step_size: 30,
        plus_button: button(20),
        minus_button: button(0),
    });
    screen.set_brightness(250);
    let e = screen.process_touch(Point { x: 21, y: 1 });
    assert_eq!(Some(AdjustEvent::Brightness(Adjustment { old_value: 250, new_value: 255 })), e);
    if let Some(AdjustEvent::Brightness(a)) = e {
        assert_eq!(250, *a.old_value());
        assert_eq!(255, *a.new_value());
    }
}

#[test]
fn screen_backlight() {
    assert_eq!(ScreenAction { backlight: Some(100), restart_dimm_timer: true }, screen_step(ScreenEvent::Touched));
    assert_eq!(ScreenAction { backlight: Some(0), restart_dimm_timer: false }, screen_step(ScreenEvent::Dimm));
    assert_eq!(ScreenAction { backlight: None, restart_dimm_timer: false }, screen_step(ScreenEvent::Other));
    // the display writes the backlight only when it changes
    assert_eq!(Some(100), backlight_update(0, 100));
    assert_eq!(None, backlight_update(100, 100));
    assert_eq!(Some(0), backlight_update(100, 0));
    assert_eq!(None, backlight_update(0, 0));
}

#[test]
fn text_is_as_wide_as_its_widest_line() {
    let size = text_block_size(&vec![(12, 8), (30, 8), (6, 9)]);
    assert_eq!(ComponentSize::fixed_size(30, 25), size);
    assert_eq!(ComponentSize::fixed_size(0, 0), text_block_size(&vec![]));
}
