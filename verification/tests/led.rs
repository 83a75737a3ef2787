use esp32_netcfg::led::{count_commas, parse_color_str, LedController, Rgb8, CHECK_INTERVAL_MS, COMMAND_HOLD_SECS};

fn rgb(r: u8, g: u8, b: u8) -> Rgb8 {
    Rgb8 { r, g, b }
}

#[test]
fn reads_colour_commands() {
    assert_eq!(parse_color_str("255,0,16"), Some(rgb(255, 0, 16)));
    assert_eq!(parse_color_str("+1,2,3"), Some(rgb(1, 2, 3)));
    assert_eq!(parse_color_str("007,0,0"), Some(rgb(7, 0, 0)));
    assert_eq!(parse_color_str("256,0,0"), None);
    assert_eq!(parse_color_str("1,2"), None);
    assert_eq!(parse_color_str("1,,3"), None);
    assert_eq!(parse_color_str(" 1,2,3"), None);
    assert_eq!(parse_color_str("-1,2,3"), None);
    assert_eq!(parse_color_str(""), None);
}

#[test]
fn led_starts_dark() {
    let led = LedController::new(42);
    assert_eq!(led.color_now(), rgb(0, 0, 0));
    assert_eq!(led.cycle_index(), 0);
    assert_eq!(led.command_until(), 42);
}

#[test]
fn led_cycles_red_green_blue() {
    let mut led = LedController::new(0);
    assert_eq!(led.on_tick(0), Some(rgb(50, 0, 0)));
    assert_eq!(led.on_tick(500), Some(rgb(0, 50, 0)));
    assert_eq!(led.on_tick(1000), Some(rgb(0, 0, 50)));
    assert_eq!(led.on_tick(1500), Some(rgb(50, 0, 0)));
    assert_eq!(led.cycle_index(), 4);
    assert_eq!(led.color_now(), rgb(50, 0, 0));
}

#[test]
fn command_holds_off_the_cycle() {
    let mut led = LedController::new(0);
    led.on_tick(0);
    assert_eq!(led.on_command("1,2,3", 100, 3000), Some(rgb(1, 2, 3)));
    assert_eq!(led.command_until(), 3100);
    assert_eq!(led.on_tick(3099), None);
    assert_eq!(led.color_now(), rgb(1, 2, 3));
    assert_eq!(led.on_tick(3100), Some(rgb(0, 50, 0)));
}

#[test]
fn unreadable_command_changes_nothing() {
    let mut led = LedController::new(10);
    assert_eq!(led.on_command("red", 20, 5), None);
    assert_eq!(led.command_until(), 10);
    assert_eq!(led.color_now(), rgb(0, 0, 0));
    assert_eq!(led.cycle_index(), 0);
}

#[test]
fn led_timing_constants() {
    assert_eq!(CHECK_INTERVAL_MS, 500);
    assert_eq!(COMMAND_HOLD_SECS, 3);
}

#[test]
fn counts_commas() {
    assert_eq!(count_commas(""), 0);
    assert_eq!(count_commas("1,2,3"), 2);
    assert_eq!(count_commas(",,,,"), 4);
}
