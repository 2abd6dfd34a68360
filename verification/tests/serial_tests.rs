use rust_pytes_serial::serial::{console_answers, LineCollector};

#[test]
fn collector_keeps_lines_between_markers() {
    let mut c = LineCollector::new(Some("pwr 1"), Some("Command completed"));
    assert!(!c.feed(b"garbage\r\npwr 1\r\n Voltage : 5"));
    assert!(!c.feed(b"1234 mV\r\n"));
    assert!(c.feed(b"Command completed successfully\r\nafter\n"));
    assert!(c.is_done());
    let lines = c.finish().expect("lines");
    assert_eq!(
        lines,
        vec!["pwr 1".to_string(), " Voltage : 51234 mV".to_string(), "Command completed successfully".to_string()]
    );
}

#[test]
fn collector_without_markers_and_empty() {
    let mut c = LineCollector::new(None, None);
    c.feed(b"a\nb\n\xffc\npartial");
    let lines = c.finish().unwrap();
    assert_eq!(lines, vec!["a".to_string(), "b".to_string(), "\u{fffd}c".to_string()]);
    let mut e = LineCollector::new(Some("start"), None);
    e.feed(b"nothing\n");
    assert_eq!(e.finish(), None);
}

#[test]
fn console_detection() {
    assert!(console_answers(&Some(vec!["Welcome to PYLON console".to_string()])));
    assert!(!console_answers(&Some(vec!["hello".to_string()])));
    assert!(!console_answers(&None));
}

#[test]
fn pushed_lines_follow_the_markers() {
    let mut c = LineCollector::new(Some("Battery"), Some("Command completed"));
    c.push_line("@".to_string());
    c.push_line("Battery  Volt     Curr".to_string());
    c.push_line("0        3300     0".to_string());
    assert!(!c.is_done());
    c.push_line("Command completed successfully".to_string());
    assert!(c.is_done());
    c.push_line("$$".to_string());
    assert_eq!(
        c.finish(),
        Some(vec![
            "Battery  Volt     Curr".to_string(),
            "0        3300     0".to_string(),
            "Command completed successfully".to_string(),
        ])
    );
}
