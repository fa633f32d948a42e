use tid::element::{place, playback_state_symbol, Alignment, Date, Element, PlaybackState, Time};
use tid::draw::draw;
use tid::font::WrappedFont;
use tid::psf2_font::Psf2Font;
use tid::slot::{
    checked_date_slot, checked_percent_slot, checked_time_slot, date_slot_of, percent_slot_of,
    time_slot_of, widest_digit_of, widest_percent_char_of,
};
use tid::history::History;
use tid::state::{default_elements, Readings, State};
use tid::text::{chars_of, digit, push_number};
use tid::tile_font::{TileFont, FILE_SIZE};

const WHITE: [u8; 4] = [255, 255, 255, 255];
const BLACK: [u8; 4] = [0, 0, 0, 255];

/// A tile font in which '0' is four columns wide, '1' two, every other digit
/// three, '%' and '-' three, ':' one, a space two, and letters five. Every
/// glyph is solid in its top row.
fn font() -> WrappedFont {
    let mut bytes = vec![0u8; FILE_SIZE];
    for code in 0u8..128 {
        let width = match code {
            b'0' => 4,
            b'1' => 2,
            b'2'..=b'9' => 3,
            b'%' | b'-' => 3,
            b':' => 1,
            b' ' => 2,
            b'a'..=b'z' => 5,
            b'#' => 4,
            b'>' => 6,
            b'"' => 5,
            _ => 0,
        };
        bytes[code as usize] = width;
        bytes[256 + (code as usize) * 32] = 0xff;
    }
    WrappedFont::Uf2(TileFont::new(&bytes).unwrap())
}

fn text_of(element: &Element) -> Option<String> {
    element.text().map(|chars| chars.into_iter().collect())
}

fn readings() -> Readings {
    Readings {
        date: Date { year: 2024, month: 2, day: 9 },
        time: Time { hour: 7, minute: 5, second: 0 },
        mem: Some(41),
        cpu: Some(100),
        load: 99_500_000,
        battery: Some(77),
        playback: Some(PlaybackState::Play),
    }
}

#[test]
fn right_aligned_block_ends_where_its_slot_ends() {
    assert_eq!(place(Alignment::Right, 10, 4, 2), (12, 14));
    assert_eq!(place(Alignment::Right, 0, 4, 4), (0, 4));
    assert_eq!(place(Alignment::Right, 3, 7, 0), (10, 10));
}

#[test]
fn left_aligned_block_begins_where_its_slot_begins() {
    assert_eq!(place(Alignment::Left, 10, 4, 2), (10, 14));
    assert_eq!(place(Alignment::Left, 0, 0, 0), (0, 0));
}

#[test]
fn only_date_and_time_are_on_the_left() {
    assert_eq!(Element::Date(Date { year: 1, month: 1, day: 1 }).alignment(), Alignment::Left);
    assert_eq!(Element::Time(Time { hour: 1, minute: 1, second: 1 }).alignment(), Alignment::Left);
    for element in [
        Element::Padding(3),
        Element::Space,
        Element::Label("x".to_string()),
        Element::Mem(None),
        Element::Cpu(Some(1)),
        Element::Battery(Some(1)),
        Element::CpuGraph(History::new(2)),
        Element::PlaybackState(PlaybackState::Stop),
    ] {
        assert_eq!(element.alignment(), Alignment::Right);
    }
}

#[test]
fn numbers_are_padded_on_the_left() {
    let mut out = vec!['x'];
    push_number(&mut out, 7, 2, '0');
    push_number(&mut out, 0, 1, ' ');
    push_number(&mut out, 1234, 2, '0');
    push_number(&mut out, 5, 3, ' ');
    push_number(&mut out, u32::MAX, 0, ' ');
    let text: String = out.into_iter().collect();
    assert_eq!(text, "x0701234  54294967295");
    assert_eq!(digit(0), '0');
    assert_eq!(digit(9), '9');
    assert_eq!(chars_of("a\u{e9}z"), vec!['a', '\u{e9}', 'z']);
}

#[test]
fn elements_show_their_text() {
    assert_eq!(text_of(&Element::Padding(3)), None);
    assert_eq!(text_of(&Element::Space), None);
    assert_eq!(text_of(&Element::CpuGraph(History::new(3))), None);
    assert_eq!(text_of(&Element::Label("bat".to_string())).unwrap(), "bat");
    let date = Element::Date(Date { year: 2024, month: 2, day: 9 });
    assert_eq!(text_of(&date).unwrap(), "2024-02-09");
    let early = Element::Date(Date { year: 33, month: 12, day: 31 });
    assert_eq!(text_of(&early).unwrap(), "0033-12-31");
    let time = Element::Time(Time { hour: 7, minute: 5, second: 0 });
    assert_eq!(text_of(&time).unwrap(), "07:05:00");
    assert_eq!(text_of(&Element::Mem(Some(5))).unwrap(), "  5%");
    assert_eq!(text_of(&Element::Cpu(Some(42))).unwrap(), " 42%");
    assert_eq!(text_of(&Element::Battery(Some(100))).unwrap(), "100%");
    assert_eq!(text_of(&Element::Cpu(Some(1000))).unwrap(), "1000%");
    assert_eq!(text_of(&Element::Mem(None)).unwrap(), "---%");
    assert_eq!(text_of(&Element::PlaybackState(PlaybackState::Stop)).unwrap(), "#");
    assert_eq!(text_of(&Element::PlaybackState(PlaybackState::Play)).unwrap(), ">");
    assert_eq!(text_of(&Element::PlaybackState(PlaybackState::Pause)).unwrap(), "\"");
    assert_eq!(playback_state_symbol(PlaybackState::Pause), "\"");
}

#[test]
fn slots_are_as_wide_as_the_widest_text() {
    let font = font();
    assert_eq!(Element::Padding(3).width_with_font(&font), 3);
    assert_eq!(Element::Space.width_with_font(&font), 4);
    assert_eq!(Element::Label("bat".to_string()).width_with_font(&font), 15);
    let date = Element::Date(Date { year: 2024, month: 2, day: 9 });
    assert_eq!(date.width_with_font(&font), 8 * 4 + 2 * 3);
    let time = Element::Time(Time { hour: 7, minute: 5, second: 0 });
    assert_eq!(time.width_with_font(&font), 6 * 4 + 2);
    assert_eq!(Element::Mem(None).width_with_font(&font), 15);
    assert_eq!(Element::Cpu(Some(3)).width_with_font(&font), 15);
    assert_eq!(Element::Battery(Some(3)).width_with_font(&font), 15);
    assert_eq!(Element::CpuGraph(History::new(120)).width_with_font(&font), 120);
    assert_eq!(Element::PlaybackState(PlaybackState::Stop).width_with_font(&font), 6);
}

#[test]
fn window_is_all_slots_wide_and_the_font_high() {
    let elements = vec![
        Element::Padding(3),
        Element::Time(Time { hour: 0, minute: 0, second: 0 }),
        Element::Space,
        Element::Cpu(Some(0)),
        Element::CpuGraph(History::new(7)),
    ];
    let state = State::new(font(), WHITE, BLACK, elements);
    assert_eq!(state.width(), 3 + 26 + 4 + 15 + 7);
    assert_eq!(state.window_size(), (55, 16));
    let empty = State::new(font(), WHITE, BLACK, Vec::new());
    assert_eq!(empty.window_size(), (0, 16));
}

#[test]
fn update_takes_the_readings() {
    let elements = vec![
        Element::Padding(3),
        Element::Date(Date { year: 0, month: 0, day: 0 }),
        Element::Time(Time { hour: 0, minute: 0, second: 0 }),
        Element::Mem(Some(0)),
        Element::Cpu(Some(0)),
        Element::Battery(Some(0)),
        Element::CpuGraph(History::new(2)),
        Element::PlaybackState(PlaybackState::Stop),
        Element::Label("cpu".to_string()),
        Element::Space,
    ];
    let mut state = State::new(font(), WHITE, BLACK, elements);
    state.update(&readings());
    let texts: Vec<Option<String>> = state.elements.iter().map(text_of).collect();
    let expected = [
        None,
        Some("2024-02-09"),
        Some("07:05:00"),
        Some(" 41%"),
        Some("100%"),
        Some(" 77%"),
        None,
        Some(">"),
        Some("cpu"),
        None,
    ];
    assert_eq!(texts.len(), expected.len());
    for (text, want) in texts.iter().zip(expected) {
        assert_eq!(text.as_deref(), want);
    }
    match &state.elements[6] {
        Element::CpuGraph(history) => {
            assert_eq!(history.iter().copied().collect::<Vec<u32>>(), vec![99_500_000, 0]);
        }
        _ => panic!("the graph stays a graph"),
    }
    assert!(matches!(state.elements[0], Element::Padding(3)));
}

#[test]
fn update_keeps_what_has_no_reading() {
    let elements = vec![
        Element::Mem(Some(9)),
        Element::Cpu(Some(9)),
        Element::Battery(Some(9)),
        Element::CpuGraph(History::new(2)),
        Element::PlaybackState(PlaybackState::Pause),
    ];
    let mut state = State::new(font(), WHITE, BLACK, elements);
    let mut nothing = readings();
    nothing.mem = None;
    nothing.cpu = None;
    nothing.load = 0;
    nothing.battery = None;
    nothing.playback = None;
    state.update(&readings());
    state.update(&nothing);
    let texts: Vec<Option<String>> = state.elements.iter().map(text_of).collect();
    assert_eq!(texts[0].as_deref(), Some("---%"));
    assert_eq!(texts[1].as_deref(), Some("---%"));
    assert_eq!(texts[2].as_deref(), Some(" 77%"));
    assert_eq!(texts[4].as_deref(), Some(">"));
    match &state.elements[3] {
        Element::CpuGraph(history) => {
            assert_eq!(history.iter().copied().collect::<Vec<u32>>(), vec![0, 99_500_000]);
        }
        _ => panic!("the graph stays a graph"),
    }
}

#[test]
fn narrow_number_is_drawn_at_the_right_of_its_slot() {
    // " 11%" is 2 + 2 + 2 + 3 = 9 columns in a slot of 15.
    let elements = vec![Element::Padding(1), Element::Cpu(Some(11)), Element::Padding(2)];
    let state = State::new(font(), WHITE, BLACK, elements);
    assert!(state.fits());
    let (width, height) = state.window_size();
    assert_eq!((width, height), (18, 16));
    let width = width as usize;
    let mut frame = vec![0u8; width * 16 * 4];
    state.draw(&mut frame);
    for y in 0..16 {
        for x in 0..width {
            let at = (y * width + x) * 4;
            let px = &frame[at..at + 4];
            if (7..16).contains(&x) {
                // Every glyph of the font is solid in its top row.
                assert_eq!(px, if y == 0 { &WHITE[..] } else { &BLACK[..] }, "({x}, {y})");
            } else {
                assert_eq!(px, &[0u8; 4][..], "({x}, {y})");
            }
        }
    }
}

#[test]
fn narrow_time_is_drawn_at_the_left_of_its_slot() {
    // "11:11:11" is 6 * 2 + 2 = 14 columns in a slot of 26.
    let elements = vec![
        Element::Space,
        Element::Time(Time { hour: 11, minute: 11, second: 11 }),
        Element::Label("a".to_string()),
    ];
    let state = State::new(font(), WHITE, BLACK, elements);
    assert!(state.fits());
    let width = state.width();
    assert_eq!(width, 4 + 26 + 5);
    let mut frame = vec![0u8; width * 16 * 4];
    state.draw(&mut frame);
    for x in 0..width {
        let top = &frame[x * 4..x * 4 + 4];
        let below = &frame[(width + x) * 4..(width + x) * 4 + 4];
        if (4..18).contains(&x) || (30..35).contains(&x) {
            assert_eq!(top, &WHITE[..], "column {x}");
            assert_eq!(below, &BLACK[..], "column {x}");
        } else {
            assert_eq!(top, &[0u8; 4][..], "column {x}");
            assert_eq!(below, &[0u8; 4][..], "column {x}");
        }
    }
}

#[test]
fn graph_is_drawn_into_its_slot() {
    let mut history: History<u32> = History::new(2);
    history.push(100_000_000);
    let elements = vec![Element::Padding(1), Element::CpuGraph(history)];
    let state = State::new(font(), WHITE, BLACK, elements);
    assert!(state.fits());
    let mut frame = vec![3u8; 3 * 16 * 4];
    state.draw(&mut frame);
    for y in 0..16 {
        assert_eq!(&frame[y * 12..y * 12 + 4], &[3u8; 4][..]);
        assert_eq!(&frame[y * 12 + 4..y * 12 + 8], &WHITE[..]);
        assert_eq!(&frame[y * 12 + 8..y * 12 + 12], &BLACK[..]);
    }
}

#[test]
fn text_wider_than_its_slot_does_not_fit() {
    // "2024" holds digits, but a date with a digit wider than '0' would not
    // fit; in this font '0' is the widest, so every date fits.
    let date = Element::Date(Date { year: 2024, month: 12, day: 31 });
    assert!(date.fits(&font()));
    // Four digits of a percentage are wider than the slot of three.
    let load = Element::Cpu(Some(8000));
    assert!(!load.fits(&font()));
    let state = State::new(font(), WHITE, BLACK, vec![Element::Space, load]);
    assert!(!state.fits());
    assert!(Element::Padding(5).fits(&font()));
    assert!(Element::CpuGraph(History::new(5)).fits(&font()));
}

#[test]
fn measure_is_the_width_of_all_slots() {
    let elements = vec![
        Element::Padding(3),
        Element::Time(Time { hour: 0, minute: 0, second: 0 }),
        Element::PlaybackState(PlaybackState::Pause),
    ];
    let state = State::new(font(), WHITE, BLACK, elements);
    assert_eq!(state.measure(), Some(3 + 26 + 6));
    assert_eq!(state.measure(), Some(state.width()));
    let wide = vec![Element::Padding(usize::MAX), Element::Padding(1)];
    assert_eq!(State::new(font(), WHITE, BLACK, wide).measure(), None);
    let just = vec![Element::Padding(usize::MAX - 4), Element::Space];
    assert_eq!(State::new(font(), WHITE, BLACK, just).measure(), Some(usize::MAX));
}

#[test]
fn checked_widths_agree_with_the_widths() {
    let font = font();
    for element in [
        Element::Padding(3),
        Element::Space,
        Element::Label("bat".to_string()),
        Element::Date(Date { year: 2024, month: 2, day: 9 }),
        Element::Time(Time { hour: 7, minute: 5, second: 0 }),
        Element::Mem(None),
        Element::Cpu(Some(3)),
        Element::Battery(Some(3)),
        Element::CpuGraph(History::new(120)),
        Element::PlaybackState(PlaybackState::Stop),
    ] {
        assert_eq!(element.checked_width(&font), Some(element.width_with_font(&font)));
    }
    assert_eq!(font.checked_determine_width("00:00"), Some(17));
    assert_eq!(font.checked_determine_width(""), Some(0));
}

#[test]
fn try_draw_draws_or_leaves_the_frame() {
    let elements = vec![Element::Padding(1), Element::Cpu(Some(11)), Element::Padding(2)];
    let state = State::new(font(), WHITE, BLACK, elements);
    let mut drawn = vec![0u8; 18 * 16 * 4];
    let mut expected = vec![0u8; 18 * 16 * 4];
    state.draw(&mut expected);
    assert!(state.try_draw(&mut drawn));
    assert_eq!(drawn, expected);
    // A frame that is one byte short is left alone.
    let mut short = vec![5u8; 18 * 16 * 4 - 1];
    assert!(!state.try_draw(&mut short));
    assert_eq!(short, vec![5u8; 18 * 16 * 4 - 1]);
    // So is the frame of a display with an element that does not fit.
    let elements = vec![Element::Cpu(Some(8000))];
    let state = State::new(font(), WHITE, BLACK, elements);
    let mut frame = vec![5u8; 15 * 16 * 4];
    assert!(!state.try_draw(&mut frame));
    assert_eq!(frame, vec![5u8; 15 * 16 * 4]);
    let wide = vec![Element::Padding(usize::MAX), Element::Padding(1)];
    let state = State::new(font(), WHITE, BLACK, wide);
    assert!(!state.try_draw(&mut frame));
    assert_eq!(frame, vec![5u8; 15 * 16 * 4]);
}

#[test]
fn a_longer_frame_keeps_its_rows_below_the_display() {
    let elements = vec![Element::Label("a".to_string())];
    let state = State::new(font(), WHITE, BLACK, elements);
    let mut frame = vec![9u8; 5 * 17 * 4];
    assert!(state.try_draw(&mut frame));
    assert_eq!(&frame[..5 * 4], &[255u8; 20][..]);
    assert_eq!(&frame[5 * 16 * 4..], &[9u8; 20][..]);
}

#[test]
fn default_elements_are_the_usual_bar() {
    let elements = default_elements();
    let texts: Vec<Option<String>> = elements.iter().map(text_of).collect();
    let expected = [
        None,
        Some("1970-01-01"),
        None,
        Some("00:00:00"),
        None,
        Some("bat"),
        Some("  0%"),
        None,
        Some("mem"),
        Some("  0%"),
        None,
        Some("cpu"),
        Some("  0%"),
        None,
        None,
        None,
        Some("#"),
        None,
    ];
    assert_eq!(texts.len(), 18);
    for (text, want) in texts.iter().zip(expected) {
        assert_eq!(text.as_deref(), want);
    }
    assert!(matches!(elements[0], Element::Padding(3)));
    assert!(matches!(elements[2], Element::Space));
    assert!(matches!(elements[6], Element::Battery(Some(0))));
    assert!(matches!(elements[9], Element::Mem(Some(0))));
    assert!(matches!(elements[12], Element::Cpu(Some(0))));
    assert!(matches!(elements[17], Element::Padding(3)));
    match &elements[14] {
        Element::CpuGraph(history) => assert_eq!(history.len(), 120),
        _ => panic!("the graph is the fifteenth element"),
    }
    let state = State::new(font(), WHITE, BLACK, elements);
    // 3 + 38 + 4 + 26 + 4 + (15 + 15 + 4) * 3 + 120 + 4 + 6 + 3
    assert_eq!(state.measure(), Some(310));
    assert!(state.fits());
}

/// A tile font in which the dash, the space and the digit 8 are wider than
/// the digit 0.
fn uneven_font() -> WrappedFont {
    let mut bytes = vec![0u8; FILE_SIZE];
    for code in b'0'..=b'9' {
        bytes[code as usize] = 1;
    }
    bytes[b'8' as usize] = 3;
    bytes[b'%' as usize] = 1;
    bytes[b'-' as usize] = 5;
    bytes[b' ' as usize] = 4;
    bytes[b':' as usize] = 2;
    WrappedFont::Uf2(TileFont::new(&bytes).unwrap())
}

#[test]
fn slots_hold_the_widest_text_of_their_kind() {
    let font = uneven_font();
    // A percent sign and three times the dash, the widest of dash, space and digits.
    assert_eq!(Element::Cpu(Some(0)).width_with_font(&font), 1 + 3 * 5);
    assert_eq!(Element::Mem(None).width_with_font(&font), 16);
    assert_eq!(Element::Battery(Some(100)).checked_width(&font), Some(16));
    // Two dashes and eight times the widest digit; two colons and six times.
    let date = Element::Date(Date { year: 1888, month: 8, day: 18 });
    assert_eq!(date.width_with_font(&font), 2 * 5 + 8 * 3);
    let time = Element::Time(Time { hour: 8, minute: 8, second: 8 });
    assert_eq!(time.width_with_font(&font), 2 * 2 + 6 * 3);
    assert_eq!(percent_slot_of(&font), 16);
    assert_eq!(date_slot_of(&font), 34);
    assert_eq!(time_slot_of(&font), 22);
    assert_eq!(checked_percent_slot(&font), Some(16));
    assert_eq!(checked_date_slot(&font), Some(34));
    assert_eq!(checked_time_slot(&font), Some(22));
    assert_eq!(widest_digit_of(&font), 3);
    assert_eq!(widest_percent_char_of(&font), 5);
}

#[test]
fn every_value_in_range_fits_its_slot() {
    for font in [font(), uneven_font()] {
        let mut elements = vec![Element::Mem(None)];
        for value in [0, 1, 8, 9, 10, 88, 99, 100, 888, 999] {
            elements.push(Element::Cpu(Some(value)));
        }
        for (year, month, day) in [(0, 0, 0), (8888, 88, 88), (9999, 99, 99), (2024, 2, 29)] {
            elements.push(Element::Date(Date { year, month, day }));
            elements.push(Element::Time(Time { hour: month, minute: day, second: day }));
        }
        elements.push(Element::Label("88--  ".to_string()));
        elements.push(Element::PlaybackState(PlaybackState::Play));
        for element in &elements {
            assert!(element.fits(&font), "{element:?}");
        }
        let state = State::new(font, WHITE, BLACK, elements);
        assert!(state.fits());
    }
}

#[test]
fn unknown_percentage_is_drawn_as_dashes_at_the_right() {
    // The dashes take 3 * 5 + 1 columns, the whole slot; " 10%" takes 4 + 1 + 1 + 1.
    let elements = vec![Element::Mem(None), Element::Cpu(Some(10))];
    let state = State::new(uneven_font(), WHITE, BLACK, elements);
    assert_eq!(state.measure(), Some(32));
    let mut frame = vec![7u8; 32 * 16 * 4];
    assert!(state.try_draw(&mut frame));
    let dashes = draw("---%", &state.font, WHITE, BLACK);
    let number = draw(" 10%", &state.font, WHITE, BLACK);
    assert_eq!(dashes.width(), 16);
    assert_eq!(number.width(), 7);
    let mut expected = vec![7u8; 32 * 16 * 4];
    dashes.draw_onto_pixels(&mut expected, 32, 0);
    number.draw_onto_pixels(&mut expected, 32, 16 + 16 - 7);
    assert_eq!(frame, expected);
    // The columns at the left of the narrow number are left alone.
    for y in 0..16 {
        for x in 16..25 {
            let at = (y * 32 + x) * 4;
            assert_eq!(&frame[at..at + 4], &[7u8; 4][..]);
        }
    }
}

#[test]
fn fixed_width_slots_are_measured_on_a_pattern() {
    let mut data = vec![0x72, 0xb5, 0x4a, 0x86];
    for field in [0u32, 32, 0, 128, 2, 2, 8] {
        data.extend_from_slice(&field.to_le_bytes());
    }
    data.extend_from_slice(&[0u8; 256]);
    let font = WrappedFont::Psf2(Psf2Font::new(data).ok().unwrap());
    assert_eq!(Element::Cpu(None).width_with_font(&font), 32);
    assert_eq!(Element::Date(Date { year: 1, month: 1, day: 1 }).width_with_font(&font), 80);
    assert_eq!(Element::Time(Time { hour: 1, minute: 1, second: 1 }).width_with_font(&font), 64);
    assert!(Element::Cpu(Some(999)).fits(&font));
    assert!(!Element::Cpu(Some(1000)).fits(&font));
}
