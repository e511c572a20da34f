use chirp::chip_timer::ChipTimer;
use chirp::{help_text, lit_pixel_corners, Flag, CHIP8_DISPLAY_SIZE, SCREEN_H, SCREEN_SCALE, SCREEN_W};

#[test]
fn timer_counts_down_and_beeps() {
    let mut t = ChipTimer::new();
    assert_eq!(t.read_dt(), 0);
    assert!(!t.should_beep());
    t.write_dt(2);
    t.write_st(1);
    assert_eq!(t.read_dt(), 2);
    t.tick();
    assert_eq!(t.read_dt(), 1);
    assert!(t.should_beep());
    t.tick();
    assert_eq!(t.read_dt(), 0);
    assert!(!t.should_beep());
    t.tick();
    assert_eq!(t.read_dt(), 0);
}

#[test]
fn timer_reaches_zero_after_255_ticks() {
    let mut t = ChipTimer::new();
    t.write_dt(255);
    t.write_st(255);
    for _ in 0..254 {
        t.tick();
    }
    assert_eq!(t.read_dt(), 1);
    t.tick();
    assert_eq!(t.read_dt(), 0);
    assert!(t.should_beep());
    t.tick();
    assert!(!t.should_beep());
}

#[test]
fn thread_timer_ticks() {
    let mut t = chirp::timers::ChipTimer::new();
    t.tick();
}

#[test]
fn flag_keeps_its_text() {
    let on = true;
    let f = Flag::new("-o", "--original", "Emulate original hardware", &on);
    assert_eq!(&*f.short, "-o");
    assert_eq!(&*f.long, "--original");
    assert_eq!(&*f.desc, "Emulate original hardware");
    assert!(*f.active);
}

#[test]
fn help_text_pads_columns() {
    let a = false;
    let b = true;
    let flags = vec![
        Flag::new("-f", "--show-fps", "Display current framerate", &a),
        Flag::new("-abcdef", "--a-very-long-option", "x", &b),
    ];
    let text = help_text(&flags);
    assert_eq!(
        text,
        "USAGE:\n chirp [FLAGS] [ROM]\n\nFLAGS:\n  -f   --show-fps     Display current framerate\n  -abcdef--a-very-long-optionx\n"
    );
    let expected: String = format!(
        "USAGE:\n chirp [FLAGS] [ROM]\n\nFLAGS:\n  {:<5}{:<15}{:}\n  {:<5}{:<15}{:}\n",
        "-f", "--show-fps", "Display current framerate", "-abcdef", "--a-very-long-option", "x"
    );
    assert_eq!(text, expected);
    assert_eq!(help_text(&vec![]), "USAGE:\n chirp [FLAGS] [ROM]\n\nFLAGS:\n");
}

#[test]
fn corners_of_lit_pixels() {
    let mut screen = [false; CHIP8_DISPLAY_SIZE];
    assert!(lit_pixel_corners(&screen).is_empty());
    screen[0] = true;
    screen[65] = true;
    screen[2047] = true;
    assert_eq!(
        lit_pixel_corners(&screen),
        vec![(0, 0), (SCREEN_SCALE, SCREEN_SCALE), (63 * SCREEN_SCALE, 31 * SCREEN_SCALE)]
    );
    assert_eq!(SCREEN_W, 64 * SCREEN_SCALE);
    assert_eq!(SCREEN_H, 32 * SCREEN_SCALE);
}
