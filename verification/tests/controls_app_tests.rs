use fx_core::app::{App, AppEvent, AppRequest, PowerState};
use fx_core::controls::{Edge, Encoder, Gpio};
use fx_core::display::DisplayController;

#[test]
fn gpio_counters_saturate_at_fifteen() {
    let mut gpio = Gpio::new();
    for _ in 0..20 {
        gpio.record_edge(2, Edge::Rising);
    }
    gpio.record_edge(2, Edge::Falling);
    let bytes = gpio.as_bytes();
    assert_eq!(bytes[2], 0x01 | (15 << 4));
    assert_eq!(bytes[0], 0);
}

#[test]
fn gpio_lines_count_independently() {
    let mut gpio = Gpio::new();
    gpio.record_edge(0, Edge::Rising);
    gpio.record_edge(1, Edge::Falling);
    gpio.record_edge(1, Edge::Falling);
    gpio.record_edge(3, Edge::Rising);
    assert_eq!(gpio.as_bytes(), [0x10, 0x02, 0x00, 0x10]);
    assert_eq!(gpio.as_bytes(), [0, 0, 0, 0]);
}

#[test]
fn encoder_bytes_are_big_endian_halved() {
    let mut encoder = Encoder::new();
    assert_eq!(encoder.as_bytes(), [0, 0, 0, 0]);
    encoder.set_state(7, false);
    assert_eq!(encoder.as_bytes(), [0, 3, 0, 0]);
    encoder.set_state(0x0300, true);
    assert_eq!(encoder.as_bytes(), [0x01, 0x80, 0x01, 0x00]);
    // Non-destructive: the same snapshot reads the same twice.
    assert_eq!(encoder.as_bytes(), [0x01, 0x80, 0x01, 0x00]);
}

#[test]
fn backlight_level_clamps_to_scale() {
    let mut display = DisplayController::new(1600);
    display.set_backlight(200);
    assert_eq!(display.duty(), 15 * 1600 / 16);
    display.set_backlight(0);
    assert_eq!(display.duty(), 0);
}

#[test]
fn display_config_round_trip() {
    let mut display = DisplayController::new(1600);
    display.set_config([0x01, 0x0F, 0xAA, 0xBB]);
    assert_eq!(display.config(), [0x01, 0x0F, 0xAA, 0xBB]);
    assert!(display.is_on());
    display.set_config([0x00, 0x00, 0x00, 0x00]);
    assert!(!display.is_on());
    assert_eq!(display.duty(), 0);
}

#[test]
fn app_animates_frames() {
    let mut app = App::new();
    assert_eq!(app.state().frame, 0);
    app.animate();
    app.animate();
    assert_eq!(app.state().frame, 2);
}

#[test]
fn app_events_drive_the_frame_counter() {
    let mut app = App::new();
    assert_eq!(app.handle_event(AppEvent::AnimationFrame), None);
    assert_eq!(app.state().frame, 1);
    let power = PowerState { overcurrent: false, vcc: 3300, status: 0, faults: 0 };
    let r: Option<AppRequest> = app.handle_event(AppEvent::Power(power));
    assert_eq!(r, None);
    assert_eq!(app.state().frame, 1);
}
