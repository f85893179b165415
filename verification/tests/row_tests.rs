use xlsxlite::cell::Cell;
use xlsxlite::cell::CellValue;
use xlsxlite::error::XlsxError;
use xlsxlite::row::ColMovement;
use xlsxlite::row::Row;

#[test]
fn references_advance_left_to_right() {
    let mut row = Row::new(3);
    let first = row.add_string(String::from("a"));
    assert_eq!(
        first.get_attributes().reference.as_ref().unwrap(),
        "A3"
    );
    let second = row.add_string(String::from("b"));
    assert_eq!(
        second.get_attributes().reference.as_ref().unwrap(),
        "B3"
    );
}

#[test]
fn skip_jumps_over_columns() {
    let mut row = Row::new(1);
    let reference = row.skip(2);
    assert_eq!(reference, "C1");
    let next = row.next_ref();
    assert_eq!(next, "D1");
}

#[test]
fn column_cursor_walks_the_row() {
    let mut cursor = ColMovement::new(Row::new(7));
    assert_eq!(cursor.next(), "A7");
    assert_eq!(cursor.skip(1), "C7");
    assert_eq!(cursor.next(), "D7");
    let mut row = cursor.into_row();
    let cell = row.add_string(String::from("x"));
    assert_eq!(cell.get_attributes().reference.as_ref().unwrap(), "E7");
}

#[test]
fn cells_can_be_reached_for_mutation() {
    let mut row = Row::new(1);
    row.add_string(String::from("a"));
    row.add_string(String::from("b"));
    let cells = row.get_cells_mut();
    assert_eq!(cells.len(), 2);
    cells[1].set_style_index(3);
    let attrs = row.get_cells()[1].get_attributes();
    assert_eq!(attrs.style_index.as_ref().unwrap(), "3");
}

#[test]
fn mismatched_row_reference_is_invalid() {
    let mut row = Row::new(3);
    let cell = Cell::from_string(String::from("x"), String::from("A5"), false);
    assert_eq!(row.add_cell(cell).err(), Some(XlsxError::InvalidReference));
}

#[test]
fn malformed_references_are_invalid() {
    let mut row = Row::new(3);
    let no_letters = Cell::from_string(String::from("x"), String::from("3"), false);
    assert_eq!(
        row.add_cell(no_letters).err(),
        Some(XlsxError::InvalidReference)
    );
    let no_digits = Cell::from_string(String::from("x"), String::from("ABC"), false);
    assert_eq!(
        row.add_cell(no_digits).err(),
        Some(XlsxError::InvalidReference)
    );
}

#[test]
fn interleaved_reference_is_invalid() {
    let mut row = Row::new(13);
    let interleaved = Cell::from_string(String::from("x"), String::from("A1B3"), false);
    assert_eq!(
        row.add_cell(interleaved).err(),
        Some(XlsxError::InvalidReference)
    );
}

#[test]
fn lower_case_reference_is_invalid() {
    let mut row = Row::new(3);
    let lower = Cell::from_string(String::from("x"), String::from("b3"), false);
    assert_eq!(
        row.add_cell(lower).err(),
        Some(XlsxError::InvalidReference)
    );
}

#[test]
fn repeated_explicit_reference_is_a_duplicate() {
    let mut row = Row::new(3);
    let first = Cell::from_string(String::from("x"), String::from("B3"), false);
    assert!(row.add_cell(first).is_ok());
    let second = Cell::from_string(String::from("y"), String::from("B3"), false);
    assert_eq!(
        row.add_cell(second).err(),
        Some(XlsxError::DuplicateReference)
    );
}

#[test]
fn cell_without_reference_is_auto_assigned() {
    let mut row = Row::new(2);
    row.add_string(String::from("a"));
    let bare = Cell::new(CellValue::CDate(String::from("2024-01-01")));
    let added = row.add_cell(bare).unwrap();
    assert_eq!(added.get_attributes().reference.as_ref().unwrap(), "B2");
}

#[test]
fn add_number_validates_the_text() {
    let mut row = Row::new(1);
    assert!(row.add_number(String::from("42")).is_ok());
    assert!(row.add_number(String::from("-2.5")).is_ok());
    assert!(row.add_number(String::from(".5")).is_ok());
    assert!(row.add_number(String::from("1e5")).is_ok());
    assert!(row.add_number(String::from("2.5E-3")).is_ok());
    assert!(row.add_number(String::from("inf")).is_ok());
    assert!(row.add_number(String::from("NaN")).is_ok());
    assert_eq!(
        row.add_number(String::from("abc")).err(),
        Some(XlsxError::ParseError)
    );
    assert_eq!(
        row.add_number(String::from("")).err(),
        Some(XlsxError::ParseError)
    );
    assert_eq!(
        row.add_number(String::from("1.2.3")).err(),
        Some(XlsxError::ParseError)
    );
    assert_eq!(
        row.add_number(String::from("--5")).err(),
        Some(XlsxError::ParseError)
    );
    assert_eq!(
        row.add_number(String::from("1e")).err(),
        Some(XlsxError::ParseError)
    );
    assert_eq!(
        row.add_number(String::from(".")).err(),
        Some(XlsxError::ParseError)
    );
}

#[test]
fn cell_serializes_its_type_and_value() {
    let mut writer = xmlwriter::XmlWriter::new(xmlwriter::Options::default());
    let cell = Cell::from_number(String::from("42"), String::from("A1")).unwrap();
    cell.to_xml(&mut writer);
    let xml = writer.end_document();
    assert!(xml.contains("r=\"A1\""));
    assert!(xml.contains("t=\"n\""));
    assert!(xml.contains("42"));
}

#[test]
fn boolean_cell_serializes_its_token() {
    let mut writer = xmlwriter::XmlWriter::new(xmlwriter::Options::default());
    let mut cell = Cell::new(CellValue::CBool(true));
    cell.set_reference(String::from("A1"));
    cell.to_xml(&mut writer);
    let xml = writer.end_document();
    assert!(xml.contains("t=\"b\""));
    assert!(xml.contains("true"));
}

#[test]
fn inline_string_cell_nests_a_text_run() {
    let mut writer = xmlwriter::XmlWriter::new(xmlwriter::Options::default());
    let cell = Cell::from_string(String::from("World"), String::from("C1"), true);
    cell.to_xml(&mut writer);
    let xml = writer.end_document();
    assert!(xml.contains("t=\"inlineStr\""));
    assert!(xml.contains("<is>"));
    assert!(xml.contains("<t>"));
    assert!(xml.contains("World"));
}
