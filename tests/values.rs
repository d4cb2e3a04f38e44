use yeelight::values::{Brightness, Color, Delay, Percentage, TransitionDuration};

#[test]
fn it_works() {
    assert_eq!(2 + 2, 4);
}

#[test]
fn brightness_bounds() {
    assert_eq!(Brightness::create(0).unwrap().as_u32(), 0);
    assert_eq!(Brightness::create(100).unwrap().as_u32(), 100);
    assert!(Brightness::create(101).is_none());
}

#[test]
fn percentage_bounds() {
    assert_eq!(Percentage::create(55).unwrap().as_u32(), 55);
    assert!(Percentage::create(101).is_none());
}

#[test]
fn delay_and_duration_accept_everything() {
    assert_eq!(Delay::create(u32::MAX).unwrap().as_u32(), u32::MAX);
    assert_eq!(TransitionDuration::create(0).unwrap().as_u32(), 0);
    assert_eq!(TransitionDuration::create(1000).unwrap().as_u32(), 1000);
}

#[test]
fn color_temperature_bounds() {
    assert_eq!(Color::create_temp(1700), Some(Color::Temp(1700)));
    assert_eq!(Color::create_temp(6500), Some(Color::Temp(6500)));
    assert!(Color::create_temp(1699).is_none());
    assert!(Color::create_temp(6501).is_none());
}

#[test]
fn hue_saturation_bounds() {
    assert_eq!(Color::create_hsv(100, 359), Some(Color::Hsv(100, 359)));
    assert!(Color::create_hsv(101, 0).is_none());
    assert!(Color::create_hsv(0, 360).is_none());
}

#[test]
fn rgb_always_accepted() {
    assert_eq!(Color::create_rgb(1, 2, 3), Some(Color::Rgb(1, 2, 3)));
}
