use pictionary::wire::{frame_transfer, is_parsable, parse_string_todata, TransferData};

fn td(command: &str, id: Option<&str>, data: Option<&str>) -> TransferData {
    TransferData {
        command: command.to_string(),
        id: id.map(|s| s.to_string()),
        data: data.map(|s| s.to_string()),
    }
}

#[test]
fn parses_command_id_and_data() {
    let t = parse_string_todata("O: 12\nabc");
    assert_eq!(t.command, "O: ");
    assert_eq!(t.id, Some("12".to_string()));
    assert_eq!(t.data, Some("abc".to_string()));
}

#[test]
fn parse_without_id_or_second_line() {
    let t = parse_string_todata("S: ");
    assert_eq!(t.command, "S: ");
    assert_eq!(t.id, None);
    assert_eq!(t.data, None);
}

#[test]
fn parse_keeps_only_the_second_line() {
    let t = parse_string_todata("C: 3\nfirst\nsecond");
    assert_eq!(t.id, Some("3".to_string()));
    assert_eq!(t.data, Some("first".to_string()));
}

#[test]
fn parse_newline_inside_the_command_bytes() {
    let t = parse_string_todata("A\nxyz");
    assert_eq!(t.command, "A\nx");
    assert_eq!(t.id, None);
    assert_eq!(t.data, Some("xyz".to_string()));
}

#[test]
fn parse_multibyte_id() {
    let t = parse_string_todata("N: Jürgen\n");
    assert_eq!(t.command, "N: ");
    assert_eq!(t.id, Some("Jürgen".to_string()));
    assert_eq!(t.data, Some("".to_string()));
}

#[test]
fn parsable_needs_three_bytes_on_a_boundary() {
    assert!(is_parsable("I: "));
    assert!(is_parsable("I: 5"));
    assert!(!is_parsable("I:"));
    assert!(!is_parsable(""));
    assert!(is_parsable("€"));
    assert!(is_parsable("aé"));
    assert!(!is_parsable("éé"));
}

#[test]
fn frame_writes_absent_fields_as_nothing() {
    assert_eq!(frame_transfer(&td("S", None, None)), "S: \n");
    assert_eq!(frame_transfer(&td("W", None, Some("apple"))), "W: \napple");
    assert_eq!(frame_transfer(&td("T", Some("7"), None)), "T: 7\n");
}

#[test]
fn frames_and_reads_back() {
    let framed = frame_transfer(&td("C", Some("42"), Some("hello there")));
    assert_eq!(framed, "C: 42\nhello there");
    let back = parse_string_todata(&framed);
    assert_eq!(back.command, "C: ");
    assert_eq!(back.id, Some("42".to_string()));
    assert_eq!(back.data, Some("hello there".to_string()));
}

#[test]
fn read_back_of_empty_id_is_none() {
    let framed = frame_transfer(&td("W", Some(""), Some("pear")));
    let back = parse_string_todata(&framed);
    assert_eq!(back.command, "W: ");
    assert_eq!(back.id, None);
    assert_eq!(back.data, Some("pear".to_string()));
}
