use std::str::FromStr;
use tid::element::{Date, Element, PlaybackState, Time};
use tid::history::{History, DEFAULT_LEN};
use tid::parse::{parse_element, ElementParseError};
use tid::text::same_text;

#[test]
fn plain_names_give_elements_with_their_first_values() {
    assert!(matches!(parse_element("space"), Ok(Element::Space)));
    assert!(matches!(
        parse_element("date"),
        Ok(Element::Date(Date { year: 1970, month: 1, day: 1 }))
    ));
    assert!(matches!(
        parse_element("time"),
        Ok(Element::Time(Time { hour: 0, minute: 0, second: 0 }))
    ));
    assert!(matches!(parse_element("battery"), Ok(Element::Battery(Some(0)))));
    assert!(matches!(parse_element("mem"), Ok(Element::Mem(Some(0)))));
    assert!(matches!(parse_element("cpu"), Ok(Element::Cpu(Some(0)))));
    assert!(matches!(
        parse_element("playbackstate"),
        Ok(Element::PlaybackState(PlaybackState::Stop))
    ));
}

#[test]
fn names_with_an_argument_take_it() {
    assert!(matches!(parse_element("padding(3)"), Ok(Element::Padding(3))));
    assert!(matches!(parse_element("padding(+12)"), Ok(Element::Padding(12))));
    assert!(matches!(parse_element("padding(007)"), Ok(Element::Padding(7))));
    assert!(matches!(parse_element("padding(5)))"), Ok(Element::Padding(5))));
    match parse_element("label(bat)") {
        Ok(Element::Label(text)) => assert_eq!(text, "bat"),
        other => panic!("{other:?}"),
    }
    match parse_element("label(a(b)c))") {
        Ok(Element::Label(text)) => assert_eq!(text, "a(b)c"),
        other => panic!("{other:?}"),
    }
    match parse_element("label()") {
        Ok(Element::Label(text)) => assert_eq!(text, ""),
        other => panic!("{other:?}"),
    }
    match parse_element("label(\u{e9}t\u{e9})") {
        Ok(Element::Label(text)) => assert_eq!(text, "\u{e9}t\u{e9}"),
        other => panic!("{other:?}"),
    }
    match parse_element("cpugraph(4)") {
        Ok(Element::CpuGraph(history)) => {
            assert_eq!(history.len(), 4);
            assert_eq!(history.iter().copied().collect::<Vec<u32>>(), vec![0; 4]);
        }
        other => panic!("{other:?}"),
    }
}

#[test]
fn bad_widths_are_bad_integers() {
    for word in [
        "padding()",
        "padding(x)",
        "padding(-1)",
        "padding(1 )",
        "padding(+)",
        "padding(1_0)",
        "padding(99999999999999999999999999)",
        "cpugraph(ten)",
        "cpugraph()",
    ] {
        assert!(
            matches!(parse_element(word), Err(ElementParseError::BadInteger(_))),
            "{word}"
        );
    }
}

#[test]
fn unknown_names_are_reported_with_the_name() {
    match parse_element("clock") {
        Err(ElementParseError::UnknownElementName(name)) => assert_eq!(name, "clock"),
        other => panic!("{other:?}"),
    }
    match parse_element("") {
        Err(ElementParseError::UnknownElementName(name)) => assert_eq!(name, ""),
        other => panic!("{other:?}"),
    }
    // Without a closing parenthesis at the end there is no argument.
    match parse_element("padding(3") {
        Err(ElementParseError::UnknownElementName(name)) => assert_eq!(name, "padding(3"),
        other => panic!("{other:?}"),
    }
    match parse_element("space)") {
        Err(ElementParseError::UnknownElementName(name)) => assert_eq!(name, "space)"),
        other => panic!("{other:?}"),
    }
    match parse_element("cpu(3)") {
        Err(ElementParseError::UnknownArgumentedElementName(name)) => assert_eq!(name, "cpu"),
        other => panic!("{other:?}"),
    }
    match parse_element("(3)") {
        Err(ElementParseError::UnknownArgumentedElementName(name)) => assert_eq!(name, ""),
        other => panic!("{other:?}"),
    }
}

#[test]
fn errors_read_as_sentences() {
    let plain = parse_element("clock").unwrap_err();
    assert_eq!(plain.message(), "unknown element name 'clock'");
    let argumented = parse_element("clock(1)").unwrap_err();
    assert_eq!(argumented.message(), "unknown argumented element name 'clock'");
    let integer = parse_element("padding(x)").unwrap_err();
    assert_eq!(integer.message(), "x".parse::<usize>().unwrap_err().to_string());
}

#[test]
fn from_str_reads_as_parse_element_does() {
    assert!(matches!(Element::from_str("space"), Ok(Element::Space)));
    assert!(matches!("padding(9)".parse::<Element>(), Ok(Element::Padding(9))));
    assert!(matches!(
        "nothing".parse::<Element>(),
        Err(ElementParseError::UnknownElementName(_))
    ));
}

#[test]
fn texts_are_compared_character_by_character() {
    assert!(same_text("", ""));
    assert!(same_text("label", "label"));
    assert!(!same_text("label", "labels"));
    assert!(!same_text("label", "Label"));
    assert!(!same_text("a", ""));
}

#[test]
fn default_history_has_120_samples() {
    let history: History<u32> = History::default();
    assert_eq!(DEFAULT_LEN, 120);
    assert_eq!(history.len(), 120);
    assert!(history.iter().all(|&sample| sample == 0));
}
