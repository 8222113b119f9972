use cheap8::{parse_color, Cli, Timer};

#[test]
fn timer_stops_at_zero() {
    let mut t = Timer::new();
    assert!(!t.decrement());
    assert_eq!(t.timer, 0);
    t.timer = 2;
    assert!(t.decrement());
    assert!(t.decrement());
    assert!(!t.decrement());
    assert_eq!(t.timer, 0);
    t.timer = 9;
    t.reset();
    assert_eq!(t.timer, 0);
}

#[test]
fn rgb_color_splits_channels() {
    assert_eq!(Cli::rgb_color(0x123456), (0x12, 0x34, 0x56));
    assert_eq!(Cli::rgb_color(0xFF00_00FF), (0x00, 0x00, 0xFF));
    assert_eq!(Cli::rgb_color(0x00F), (0, 0, 0x0F));
}

#[test]
fn parse_color_reads_hex_and_decimal() {
    assert_eq!(parse_color("0x00F").unwrap(), 15);
    assert_eq!(parse_color("0xff8000").unwrap(), 0xFF8000);
    assert_eq!(parse_color("14").unwrap(), 14);
    assert_eq!(parse_color("+7").unwrap(), 7);
    assert_eq!(parse_color("4294967295").unwrap(), u32::MAX);
}

#[test]
fn parse_color_rejects_bad_text() {
    assert!(parse_color("").is_err());
    assert!(parse_color("0x").is_err());
    assert!(parse_color("0xZZ").is_err());
    assert!(parse_color("ff").is_err());
    assert!(parse_color("-1").is_err());
    assert!(parse_color("4294967296").is_err());
    assert!(parse_color("0X10").is_err());
}

#[test]
fn cli_holds_settings() {
    let cli = Cli {
        path: String::from("game.ch8"),
        pixel_color: 0x00F,
        bg_color: 0,
        scale_factor: 14,
    };
    assert_eq!(Cli::rgb_color(cli.pixel_color), (0, 0, 15));
    assert_eq!(cli.scale_factor, 14);
    assert_eq!(cli.path, "game.ch8");
}
