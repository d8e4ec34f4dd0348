use gen_doc::terminal::{
    atr_term, clear_screen, is_escape_key, off_mouse, pause_prompt, print_styled_text,
    resize_term, set_styles, title_term, BackgroundColor, ForegroundColor, Style, ZoneAttr,
};

#[test]
fn set_styles_writes_positive_codes_in_order() {
    assert_eq!(set_styles(&[1, 0, -3, 4]), "\x1b[1m\x1b[4m");
    assert_eq!(set_styles(&[9, 2, 7, 5]), "\x1b[9m\x1b[2m\x1b[7m\x1b[5m");
}

#[test]
fn set_styles_without_style_is_empty() {
    assert_eq!(set_styles(&[0, 0, 0, 0]), "");
    assert_eq!(set_styles(&[-1, i32::MIN, 0, -9]), "");
}

#[test]
fn set_styles_large_code() {
    assert_eq!(set_styles(&[i32::MAX, 0, 0, 10]), "\x1b[2147483647m\x1b[10m");
}

#[test]
fn styled_text_layout() {
    let attr = ZoneAttr {
        styles: [Style::Bold.code(), 0, Style::Underline.code(), 0],
        background: BackgroundColor::Blue,
        foreground: ForegroundColor::Orange,
    };
    assert_eq!(
        print_styled_text("Bonjour", attr),
        "\x1b[38;5;208m\x1b[48;5;12m\x1b[1m\x1b[4mBonjour\x1b[0m"
    );
}

#[test]
fn styled_text_ends_with_reset_after_text() {
    let attr = ZoneAttr { styles: [3, 0, 0, 0], background: BackgroundColor::Gray, foreground: ForegroundColor::Red };
    let s = print_styled_text("abc", attr);
    assert!(s.ends_with("abc\x1b[0m"));
    assert!(s.starts_with("\x1b[38;5;1m\x1b[48;5;8m\x1b[3m"));
}

#[test]
fn styled_empty_text() {
    let s = print_styled_text("", atr_term());
    assert_eq!(s, "\x1b[38;5;16m\x1b[48;5;16m\x1b[0m");
}

#[test]
fn color_codes() {
    let fg = [
        (ForegroundColor::Black, 16), (ForegroundColor::Red, 1), (ForegroundColor::Green, 10),
        (ForegroundColor::Yellow, 11), (ForegroundColor::Blue, 12), (ForegroundColor::Magenta, 13),
        (ForegroundColor::Cyan, 14), (ForegroundColor::White, 15), (ForegroundColor::Gray, 8),
        (ForegroundColor::Orange, 208),
    ];
    for (c, n) in fg {
        assert_eq!(c.code(), n);
    }
    let bg = [
        (BackgroundColor::Black, 16), (BackgroundColor::Red, 1), (BackgroundColor::Green, 10),
        (BackgroundColor::Yellow, 11), (BackgroundColor::Blue, 12), (BackgroundColor::Magenta, 13),
        (BackgroundColor::Cyan, 14), (BackgroundColor::White, 15), (BackgroundColor::Gray, 8),
        (BackgroundColor::Orange, 208),
    ];
    for (c, n) in bg {
        assert_eq!(c.code(), n);
    }
}

#[test]
fn style_codes() {
    let all = [
        Style::NotStyled, Style::Bold, Style::Dim, Style::Italic, Style::Underline, Style::Blink,
        Style::BlinkRapid, Style::Reverse, Style::Hidden, Style::Crossed,
    ];
    for (i, s) in all.iter().enumerate() {
        assert_eq!(s.code(), i as i32);
    }
}

#[test]
fn frame_attr() {
    let a = atr_term();
    assert_eq!(a.styles, [0, 0, 0, 0]);
    assert_eq!(a.background, BackgroundColor::Black);
    assert_eq!(a.foreground, ForegroundColor::Black);
}

#[test]
fn resize_sequence() {
    assert_eq!(resize_term(42, 132), "\x1b[8;42;132t");
    assert_eq!(resize_term(1, 9), "\x1b[8;1;9t");
    assert_eq!(resize_term(10, 100), "\x1b[8;10;100t");
}

#[test]
fn resize_with_zero_writes_nothing() {
    assert_eq!(resize_term(0, 132), "");
    assert_eq!(resize_term(42, 0), "");
    assert_eq!(resize_term(0, 0), "");
}

#[test]
fn resize_numbers_read_back() {
    for n in [1usize, 7, 10, 99, 100, 65535, 1_000_000, usize::MAX] {
        let s = resize_term(n, n);
        let body = s.strip_prefix("\x1b[8;").unwrap().strip_suffix('t').unwrap();
        let parts: Vec<&str> = body.split(';').collect();
        assert_eq!(parts.len(), 2);
        assert_eq!(parts[0], n.to_string());
        assert_eq!(parts[1].parse::<usize>().unwrap(), n);
    }
}

#[test]
fn title_sequence() {
    assert_eq!(title_term("dspdoc"), "\x1b]0;dspdoc\x07");
    assert_eq!(title_term("été"), "\x1b]0;été\x07");
    assert_eq!(title_term(""), "");
}

#[test]
fn mouse_and_clear_sequences() {
    assert_eq!(off_mouse(), "\x1b[?1000;1005;1006l");
    assert_eq!(clear_screen(), "\x1B[2J\x1B[3J\x1B[H");
}

#[test]
fn pause_prompt_is_yellow_on_black() {
    assert_eq!(
        pause_prompt("Usage: x"),
        "\x1b[38;5;11m\x1b[48;5;16mPause  Usage: x\r\n\x1b[0m"
    );
}

#[test]
fn escape_key_detection() {
    assert!(is_escape_key(1, 27));
    assert!(!is_escape_key(1, 26));
    assert!(!is_escape_key(0, 27));
    assert!(!is_escape_key(2, 27));
}
