use dmslite::command::{clip_title, parse_command, parse_document_id, Command};

#[test]
fn document_ids_are_positive_decimals() {
    assert_eq!(parse_document_id("42"), Some(42));
    assert_eq!(parse_document_id("+7"), Some(7));
    assert_eq!(parse_document_id("007"), Some(7));
    assert_eq!(parse_document_id("2147483647"), Some(2147483647));
    assert_eq!(parse_document_id("2147483648"), None);
    assert_eq!(parse_document_id("99999999999999999999"), None);
    assert_eq!(parse_document_id("0"), None);
    assert_eq!(parse_document_id("-5"), None);
    assert_eq!(parse_document_id("+"), None);
    assert_eq!(parse_document_id(""), None);
    assert_eq!(parse_document_id("12a"), None);
    assert_eq!(parse_document_id(" 1"), None);
}

#[test]
fn commands_take_their_last_word() {
    assert_eq!(parse_command("c\n"), Command::Consume);
    assert_eq!(parse_command("  s   invoice  \n"), Command::Search("invoice".to_string()));
    assert_eq!(parse_command("s tax office"), Command::Search("office".to_string()));
    assert_eq!(parse_command("s"), Command::Search(String::new()));
    assert_eq!(parse_command("d 12"), Command::Delete("12".to_string()));
    assert_eq!(parse_command("o\t3"), Command::Open("3".to_string()));
    assert_eq!(parse_command("l"), Command::List);
    assert_eq!(parse_command("q"), Command::Quit);
    assert_eq!(parse_command(""), Command::Invalid);
    assert_eq!(parse_command("consume"), Command::Invalid);
}

#[test]
fn long_titles_are_clipped() {
    assert_eq!(clip_title("Short\ntitle"), "Short\ntitle");
    let long = "A very long title that\nspans more than forty-six characters";
    let clipped = clip_title(long);
    assert_eq!(clipped, "A very long title thatspans more than forty-si");
    assert_eq!(clipped.chars().count(), 46);
    let exact = "x".repeat(46);
    assert_eq!(clip_title(&exact), exact);
}
