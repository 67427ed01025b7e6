use arith_expr::console::{
    build_escape, build_string_str, ColorContext, ConsoleColor, RESET, RESET_NUM,
};

const COLORS: [ConsoleColor; 16] = [
    ConsoleColor::Black,
    ConsoleColor::Red,
    ConsoleColor::Green,
    ConsoleColor::Yellow,
    ConsoleColor::Blue,
    ConsoleColor::Magenta,
    ConsoleColor::Cyan,
    ConsoleColor::White,
    ConsoleColor::Gray,
    ConsoleColor::BrightRed,
    ConsoleColor::BrightGreen,
    ConsoleColor::BrightYellow,
    ConsoleColor::BrightBlue,
    ConsoleColor::BrightMagenta,
    ConsoleColor::BrightCyan,
    ConsoleColor::BrightWhite,
];

fn build_expected_str(
    foreground: &Option<&ConsoleColor>,
    background: &Option<&ConsoleColor>,
    id: usize,
    text: &str,
) -> String {
    format!("{}<<contain>>{}{}\x1B[0m", build_escape(foreground, background), id, text)
}

#[test]
fn foreground_test() {
    assert_eq!(ConsoleColor::Black.foreground(), 30);
    assert_eq!(ConsoleColor::Red.foreground(), 31);
    assert_eq!(ConsoleColor::Green.foreground(), 32);
    assert_eq!(ConsoleColor::Yellow.foreground(), 33);
    assert_eq!(ConsoleColor::Blue.foreground(), 34);
    assert_eq!(ConsoleColor::Magenta.foreground(), 35);
    assert_eq!(ConsoleColor::Cyan.foreground(), 36);
    assert_eq!(ConsoleColor::White.foreground(), 37);
    assert_eq!(ConsoleColor::Gray.foreground(), 90);
    assert_eq!(ConsoleColor::BrightRed.foreground(), 91);
    assert_eq!(ConsoleColor::BrightGreen.foreground(), 92);
    assert_eq!(ConsoleColor::BrightYellow.foreground(), 93);
    assert_eq!(ConsoleColor::BrightBlue.foreground(), 94);
    assert_eq!(ConsoleColor::BrightMagenta.foreground(), 95);
    assert_eq!(ConsoleColor::BrightCyan.foreground(), 96);
    assert_eq!(ConsoleColor::BrightWhite.foreground(), 97);
}

#[test]
fn background_test() {
    assert_eq!(ConsoleColor::Black.background(), 40);
    assert_eq!(ConsoleColor::Red.background(), 41);
    assert_eq!(ConsoleColor::Green.background(), 42);
    assert_eq!(ConsoleColor::Yellow.background(), 43);
    assert_eq!(ConsoleColor::Blue.background(), 44);
    assert_eq!(ConsoleColor::Magenta.background(), 45);
    assert_eq!(ConsoleColor::Cyan.background(), 46);
    assert_eq!(ConsoleColor::White.background(), 47);
    assert_eq!(ConsoleColor::Gray.background(), 100);
    assert_eq!(ConsoleColor::BrightRed.background(), 101);
    assert_eq!(ConsoleColor::BrightGreen.background(), 102);
    assert_eq!(ConsoleColor::BrightYellow.background(), 103);
    assert_eq!(ConsoleColor::BrightBlue.background(), 104);
    assert_eq!(ConsoleColor::BrightMagenta.background(), 105);
    assert_eq!(ConsoleColor::BrightCyan.background(), 106);
    assert_eq!(ConsoleColor::BrightWhite.background(), 107);
}

#[test]
fn color_test() {
    let fg = [30u8, 31, 32, 33, 34, 35, 36, 37, 90, 91, 92, 93, 94, 95, 96];
    for (c, e) in COLORS.iter().zip(fg.iter()) {
        assert_eq!(c.color(&ColorContext::Foreground), *e);
    }
    let bg = [40u8, 41, 42, 43, 44, 45, 46, 47, 100, 101, 102, 103, 104, 105, 106, 107];
    for (c, e) in COLORS.iter().zip(bg.iter()) {
        assert_eq!(c.color(&ColorContext::Background), *e);
    }
}

#[test]
fn reset_test() {
    assert_eq!(RESET_NUM, 0);
    assert_eq!(RESET, "\x1B[0m");
}

#[test]
fn build_escape_test() {
    for fore in COLORS.iter() {
        for back in COLORS.iter() {
            let expected = format!("\x1B[{}m\x1B[{}m", fore.foreground(), back.background());
            assert_eq!(build_escape(&Some(fore), &Some(back)), expected);
        }
    }
}

#[test]
fn build_escape_with_missing_colors() {
    assert_eq!(build_escape(&None, &None), "");
    assert_eq!(build_escape(&Some(&ConsoleColor::Red), &None), "\x1B[31m");
    assert_eq!(build_escape(&None, &Some(&ConsoleColor::BrightWhite)), "\x1B[107m");
}

#[test]
fn build_string_str_test() {
    let mut id = 0usize;
    for foreground in COLORS.iter().map(Some) {
        for background in COLORS.iter().map(Some) {
            id += 1;
            let act = build_string_str(
                &foreground,
                &background,
                &format!("<<contain>>{}{}", id, "hello world"),
            );

            assert_eq!(act, build_expected_str(&foreground, &background, id, "hello world"));
        }

        id += 1;
        let act = build_string_str(&None, &foreground, &format!("<<contain>>{}{}", id, "Foreground NONE"));
        assert_eq!(act, build_expected_str(&None, &foreground, id, "Foreground NONE"));

        id += 1;
        let act = build_string_str(&foreground, &None, &format!("<<contain>>{}{}", id, "Background NONE"));
        assert_eq!(act, build_expected_str(&foreground, &None, id, "Background NONE"));
    }

    let act = build_string_str(&None, &None, "<<contain>>42NONE");
    assert_eq!(act, build_expected_str(&None, &None, 42, "NONE"));
}
