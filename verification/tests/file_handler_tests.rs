use walkinplanner::file_handler::FileHandler;

#[test]
fn starts_empty() {
    let handler = FileHandler::new();
    assert!(handler.lines().is_empty());
}

#[test]
fn header_line_is_the_csv_header() {
    let mut handler = FileHandler::new();
    handler.add_header_line();
    assert_eq!(handler.lines().len(), 1);
    assert_eq!(handler.lines()[0], "Datum,Wochentag,Vormittag,Nachmittag");
}

#[test]
fn lines_keep_insertion_order() {
    let mut handler = FileHandler::new();
    handler.add_header_line();
    handler.add_line("01.01.2024,Montag,aa,bb");
    handler.add_line("02.01.2024,Dienstag,cc,dd");
    let lines = handler.lines();
    assert_eq!(lines.len(), 3);
    assert_eq!(lines[1], "01.01.2024,Montag,aa,bb");
    assert_eq!(lines[2], "02.01.2024,Dienstag,cc,dd");
}
