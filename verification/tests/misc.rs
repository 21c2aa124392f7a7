use sundries::boolExt;
use sundries::debug::rng;
use sundries::animation::{FrameStep, frame_step};
use sundries::element_ext::{
    HorizontalAnchor, HorizontalSide, VerticalAnchor, VerticalSide, flip_horizontal,
    flip_vertical,
};
use sundries::logger::{LevelColor, LogLevel, dimmed_color};
use sundries::restyle::{
    hex_color_literal, render_property, snake_property_name, spaced_px,
};

#[test]
fn default_is_the_type_default() {
    let n: i32 = sundries::default();
    assert_eq!(n, 0);
    let v: Vec<u8> = sundries::default();
    assert!(v.is_empty());
}

#[test]
fn flip_negates_in_place() {
    let mut b = false;
    b.flip();
    assert!(b);
    b.flip();
    assert!(!b);
}

#[test]
fn log_levels_have_their_labels_and_colors() {
    assert_eq!(LogLevel::Trace.label(), "TRACE");
    assert_eq!(LogLevel::Debug.label(), "DEBUG");
    assert_eq!(LogLevel::Info.label(), "INFO ");
    assert_eq!(LogLevel::Warn.label(), "WARN ");
    assert_eq!(LogLevel::Error.label(), "ERROR");
    assert_eq!(LogLevel::Trace.color(), LevelColor::Rgb(169, 169, 169));
    assert_eq!(LogLevel::Debug.color(), LevelColor::Cyan);
    assert_eq!(LogLevel::Info.color(), LevelColor::Green);
    assert_eq!(LogLevel::Warn.color(), LevelColor::Yellow);
    assert_eq!(LogLevel::Error.color(), LevelColor::Red);
    assert_eq!(dimmed_color(), LevelColor::Rgb(126, 126, 126));
}

#[test]
fn rng_stays_in_its_range() {
    for _ in 0..100 {
        let x = rng(0, 10);
        assert!((0..10).contains(&x));
    }
    assert_eq!(rng(5, 6), 5);
}

#[test]
fn offscreen_elements_flip_to_the_mirrored_side() {
    // parent at y 700..740 in a 768-high window: 40 px below runs offscreen
    let v = flip_vertical(VerticalAnchor::Top { offset: 8 }, 700, 740, 40, 768);
    assert_eq!(v, VerticalSide::Bottom);
    let v = flip_vertical(VerticalAnchor::Top { offset: 8 }, 100, 140, 40, 768);
    assert_eq!(v, VerticalSide::Top);
    let v = flip_vertical(VerticalAnchor::Bottom { offset: 8 }, 30, 70, 40, 768);
    assert_eq!(v, VerticalSide::Top);

    let h = flip_horizontal(HorizontalAnchor::Left { offset: 36 }, 900, 1000, 120, 1024);
    assert_eq!(h, HorizontalSide::Right);
    let h = flip_horizontal(HorizontalAnchor::Right { offset: 36 }, 50, 150, 120, 1024);
    assert_eq!(h, HorizontalSide::Left);
    let h = flip_horizontal(HorizontalAnchor::Right { offset: 36 }, 500, 600, 120, 1024);
    assert_eq!(h, HorizontalSide::Right);
}

#[test]
fn frame_loop_skips_first_measures_later_and_stops_when_closed() {
    assert_eq!(frame_step(None, 1_000, false), (Some(1_000), FrameStep::Skip));
    assert_eq!(
        frame_step(Some(1_000), 17_500, false),
        (Some(17_500), FrameStep::Run { delta: 16_500 }),
    );
    assert_eq!(frame_step(Some(1_000), 17_500, true), (Some(1_000), FrameStep::Stop));
}

#[test]
fn css_text_transforms_are_exact() {
    assert_eq!(snake_property_name(b"  margin-top "), b"margin_top".to_vec());
    assert_eq!(snake_property_name(b"color"), b"color".to_vec());
    assert_eq!(snake_property_name(b"   "), Vec::<u8>::new());
    assert_eq!(spaced_px(b"8px"), b"8 px".to_vec());
    assert_eq!(spaced_px(b"1px 2px"), b"1 px 2 px".to_vec());
    assert_eq!(spaced_px(b"auto"), b"auto".to_vec());
    assert_eq!(hex_color_literal(0xFF, 0x00, 0xA5, 0x80), b"0xFF_00_A5_80".to_vec());
    assert_eq!(
        render_property(&b"margin_top".to_vec(), &b"8 px".to_vec()),
        b"css::margin_top!(8 px),".to_vec(),
    );
}
