use tid::settings::{
    parse_colour, parse_config, parse_line, parse_position, parse_setting, split_words, Setting,
    SettingError,
};
use tid::text::{chars_of, find_char, find_char_from, same_text};

fn words(list: &[&str]) -> Vec<String> {
    list.iter().map(|word| word.to_string()).collect()
}

#[test]
fn colours_are_hexadecimal_with_a_prefix() {
    assert_eq!(parse_colour("0xff8000c0").ok(), Some([0xff, 0x80, 0x00, 0xc0]));
    assert_eq!(parse_colour("0x0").ok(), Some([0, 0, 0, 0]));
    assert_eq!(parse_colour("0x1").ok(), Some([0, 0, 0, 1]));
    assert_eq!(parse_colour("0xFFFFFFFF").ok(), Some([255, 255, 255, 255]));
    assert_eq!(parse_colour("0xAbCd").ok(), Some([0, 0, 0xab, 0xcd]));
    assert_eq!(parse_colour("0x+12").ok(), Some([0, 0, 0, 0x12]));
    assert_eq!(parse_colour("0x00000000012345678").ok(), Some([0x12, 0x34, 0x56, 0x78]));
}

#[test]
fn colours_without_prefix_or_number_are_refused() {
    for text in ["", "0", "ff8000c0", "0Xff", "x0ff", " 0xff", "#ff0000"] {
        assert!(
            matches!(parse_colour(text), Err(SettingError::MissingColorPrefix)),
            "{text}"
        );
    }
    for text in ["0x", "0xg", "0x-1", "0x100000000", "0xff ", "0x 1", "0x0x1", "0x+"] {
        assert!(matches!(parse_colour(text), Err(SettingError::BadColor(_))), "{text}");
    }
}

#[test]
fn positions_are_two_numbers_and_a_comma() {
    assert_eq!(parse_position("0,0").ok(), Some((0, 0)));
    assert_eq!(parse_position("12,345").ok(), Some((12, 345)));
    assert_eq!(parse_position("+1,007").ok(), Some((1, 7)));
    assert_eq!(parse_position("4294967295,1").ok(), Some((u32::MAX, 1)));
    for text in ["", "12", "12 34", "12;34"] {
        assert!(matches!(parse_position(text), Err(SettingError::BadPosition)), "{text}");
    }
    for text in [",1", "x,1", "-1,1", "1 ,1", "4294967296,1", ",", "a,b"] {
        assert!(matches!(parse_position(text), Err(SettingError::BadPositionX(_))), "{text}");
    }
    for text in ["1,", "1,y", "1, 2", "1,2,3", "1,-2", "1,4294967296"] {
        assert!(matches!(parse_position(text), Err(SettingError::BadPositionY(_))), "{text}");
    }
}

#[test]
fn keywords_take_their_arguments() {
    match parse_setting("elements", &words(&["date", "space", "padding(3)"])) {
        Ok(Setting::Elements(list)) => assert_eq!(list, words(&["date", "space", "padding(3)"])),
        other => panic!("{other:?}"),
    }
    match parse_setting("font_name", &words(&["cream12.uf2", "more"])) {
        Ok(Setting::FontName(name)) => assert_eq!(name, "cream12.uf2"),
        other => panic!("{other:?}"),
    }
    match parse_setting("font_path", &words(&["/tmp/a.psf"])) {
        Ok(Setting::FontPath(path)) => assert_eq!(path, "/tmp/a.psf"),
        other => panic!("{other:?}"),
    }
    assert!(matches!(
        parse_setting("foreground", &words(&["0x01020304"])),
        Ok(Setting::Foreground([1, 2, 3, 4]))
    ));
    assert!(matches!(
        parse_setting("background", &words(&["0xff", "0x00"])),
        Ok(Setting::Background([0, 0, 0, 255]))
    ));
    assert!(matches!(
        parse_setting("position", &words(&["10,20"])),
        Ok(Setting::Position(10, 20))
    ));
    match parse_setting("mpd_addr", &words(&["127.0.0.1:6600"])) {
        Ok(Setting::MpdAddr(address)) => assert_eq!(address, "127.0.0.1:6600"),
        other => panic!("{other:?}"),
    }
}

#[test]
fn bad_settings_are_refused() {
    assert!(matches!(parse_setting("elements", &Vec::new()), Err(SettingError::MissingArgument)));
    assert!(matches!(parse_setting("nothing", &Vec::new()), Err(SettingError::MissingArgument)));
    match parse_setting("colour", &words(&["0xff"])) {
        Err(SettingError::UnknownKeyword(word)) => assert_eq!(word, "colour"),
        other => panic!("{other:?}"),
    }
    assert!(matches!(
        parse_setting("foreground", &words(&["ff"])),
        Err(SettingError::MissingColorPrefix)
    ));
    assert!(matches!(
        parse_setting("background", &words(&["0xzz"])),
        Err(SettingError::BadColor(_))
    ));
    assert!(matches!(
        parse_setting("position", &words(&["1"])),
        Err(SettingError::BadPosition)
    ));
    assert!(matches!(
        parse_setting("position", &words(&["1,"])),
        Err(SettingError::BadPositionY(_))
    ));
}

#[test]
fn lines_are_words_before_the_comment() {
    assert!(matches!(parse_line(""), Ok(None)));
    assert!(matches!(parse_line("   \t "), Ok(None)));
    assert!(matches!(parse_line("# position 1,2"), Ok(None)));
    assert!(matches!(parse_line("  \u{a0}# nothing"), Ok(None)));
    assert!(matches!(parse_line("position 3,4"), Ok(Some(Setting::Position(3, 4)))));
    assert!(matches!(
        parse_line("\tposition\u{2003}3,4 \r"),
        Ok(Some(Setting::Position(3, 4)))
    ));
    assert!(matches!(
        parse_line("foreground 0xff00ff00 # green"),
        Ok(Some(Setting::Foreground([255, 0, 255, 0])))
    ));
    match parse_line("  elements  date   time#cpu mem") {
        Ok(Some(Setting::Elements(list))) => assert_eq!(list, words(&["date", "time"])),
        other => panic!("{other:?}"),
    }
    assert!(matches!(parse_line("position # 3,4"), Err(SettingError::MissingArgument)));
    assert!(matches!(parse_line("position"), Err(SettingError::MissingArgument)));
    match parse_line("speed 3") {
        Err(SettingError::UnknownKeyword(word)) => assert_eq!(word, "speed"),
        other => panic!("{other:?}"),
    }
}

#[test]
fn words_are_runs_between_blanks() {
    let text = "ab  c\u{e9}d e";
    let blank: Vec<bool> = text.chars().map(|ch| ch == ' ').collect();
    assert_eq!(split_words(text, &blank), words(&["ab", "c\u{e9}d", "e"]));
    assert_eq!(split_words("", &Vec::new()), Vec::<String>::new());
    assert_eq!(split_words("  ", &vec![true, true]), Vec::<String>::new());
    assert_eq!(split_words("a b", &vec![false, false, false]), words(&["a b"]));
    assert_eq!(split_words("abc", &vec![false, true, false]), words(&["a", "c"]));
}

#[test]
fn setting_errors_read_as_sentences() {
    assert_eq!(SettingError::MissingArgument.message(), "expected argument after keyword");
    assert_eq!(
        SettingError::MissingColorPrefix.message(),
        "color values must be prefixed with '0x'"
    );
    assert_eq!(
        SettingError::BadPosition.message(),
        "position must be formatted as 'x,y' (no space!)where x and y are positive integers"
    );
    assert_eq!(
        SettingError::UnknownKeyword("speed".to_string()).message(),
        "unknown keyword 'speed'"
    );
    let digit = "x".parse::<u32>().unwrap_err().to_string();
    assert_eq!(parse_colour("0xx").unwrap_err().message(), digit);
    assert_eq!(
        parse_position("x,1").unwrap_err().message(),
        format!("error while parsing x value in position: {digit}")
    );
    assert_eq!(
        parse_position("1,x").unwrap_err().message(),
        format!("error while parsing y value in position: {digit}")
    );
}

#[test]
fn first_of_a_character_is_found() {
    assert_eq!(find_char(&chars_of("a(b(c"), '('), 1);
    assert_eq!(find_char(&chars_of("abc"), '('), 3);
    assert_eq!(find_char(&chars_of(""), '('), 0);
    assert_eq!(find_char(&chars_of("\u{e9}#"), '#'), 1);
    assert!(same_text("\u{e9}", "\u{e9}"));
}

#[test]
fn later_occurrences_are_found_from_a_start() {
    let text = chars_of("a\nbc\n\nd");
    assert_eq!(find_char_from(&text, '\n', 0), 1);
    assert_eq!(find_char_from(&text, '\n', 1), 1);
    assert_eq!(find_char_from(&text, '\n', 2), 4);
    assert_eq!(find_char_from(&text, '\n', 5), 5);
    assert_eq!(find_char_from(&text, '\n', 6), 7);
    assert_eq!(find_char_from(&text, '\n', 7), 7);
}

#[test]
fn a_configuration_is_read_line_by_line() {
    let text = "# the bar\n\
        elements date space time   # what is shown\r\n\
        \n\
        \t\n\
        foreground 0xffffffff\n\
        background 0x000000ff\n\
        position 10,20\n\
        font_name cream12.uf2\n\
        mpd_addr 127.0.0.1:6600";
    let settings = parse_config(text).unwrap();
    assert_eq!(settings.len(), 6);
    match &settings[0] {
        Setting::Elements(list) => assert_eq!(list, &words(&["date", "space", "time"])),
        other => panic!("{other:?}"),
    }
    assert!(matches!(settings[1], Setting::Foreground([255, 255, 255, 255])));
    assert!(matches!(settings[2], Setting::Background([0, 0, 0, 255])));
    assert!(matches!(settings[3], Setting::Position(10, 20)));
    match &settings[4] {
        Setting::FontName(name) => assert_eq!(name, "cream12.uf2"),
        other => panic!("{other:?}"),
    }
    match &settings[5] {
        Setting::MpdAddr(address) => assert_eq!(address, "127.0.0.1:6600"),
        other => panic!("{other:?}"),
    }
}

#[test]
fn an_empty_configuration_has_no_settings() {
    assert_eq!(parse_config("").unwrap().len(), 0);
    assert_eq!(parse_config("\n\n").unwrap().len(), 0);
    assert_eq!(parse_config("# nothing\n   \n#\n").unwrap().len(), 0);
    assert_eq!(parse_config("position 1,2\n").unwrap().len(), 1);
    assert_eq!(parse_config("position 1,2").unwrap().len(), 1);
}

#[test]
fn the_first_bad_line_is_the_error() {
    let text = "position 1,2\nspeed 3\nposition 1\n";
    match parse_config(text) {
        Err((read, SettingError::UnknownKeyword(word))) => {
            assert_eq!(word, "speed");
            assert_eq!(read.len(), 1);
            assert!(matches!(read[0], Setting::Position(1, 2)));
        }
        other => panic!("{other:?}"),
    }
    let text = "mpd_addr nowhere\n# a comment\nposition 1,2\nposition 1\nspeed 3";
    match parse_config(text) {
        Err((read, SettingError::BadPosition)) => {
            assert_eq!(read.len(), 2);
            match &read[0] {
                Setting::MpdAddr(address) => assert_eq!(address, "nowhere"),
                other => panic!("{other:?}"),
            }
            assert!(matches!(read[1], Setting::Position(1, 2)));
        }
        other => panic!("{other:?}"),
    }
    match parse_config("\n\nelements") {
        Err((read, SettingError::MissingArgument)) => assert!(read.is_empty()),
        other => panic!("{other:?}"),
    }
}

/// Whether a character has the Unicode property of white space.
fn in_white_space_list(code: u32) -> bool {
    matches!(
        code,
        0x09..=0x0d
            | 0x20
            | 0x85
            | 0xa0
            | 0x1680
            | 0x2000..=0x200a
            | 0x2028
            | 0x2029
            | 0x202f
            | 0x205f
            | 0x3000
    )
}

#[test]
fn white_space_is_what_separates_words() {
    let mut codes: Vec<u32> = (0..0x3400).collect();
    codes.extend([0xfeff, 0xe0020, 0x1f407, 0x10ffff]);
    for code in codes {
        let Some(ch) = char::from_u32(code) else {
            continue;
        };
        if ch == '#' {
            continue;
        }
        let line = format!("position{ch}1,2");
        let read = parse_line(&line);
        if in_white_space_list(code) {
            assert!(matches!(read, Ok(Some(Setting::Position(1, 2)))), "U+{code:04X}");
        } else {
            assert!(matches!(read, Err(SettingError::MissingArgument)), "U+{code:04X}");
        }
    }
}
