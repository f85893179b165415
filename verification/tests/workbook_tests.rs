use std::io::Read;

use xlsxlite::error::XlsxError;
use xlsxlite::row::Row;
use xlsxlite::style::FontStyle;
use xlsxlite::work_book::WorkBook;
use xlsxlite::work_sheet::WorkSheet;

fn read_entry(bytes: Vec<u8>, name: &str) -> String {
    let cursor = std::io::Cursor::new(bytes);
    let mut archive = zip::ZipArchive::new(cursor).unwrap();
    let mut entry = archive.by_name(name).unwrap();
    let mut text = String::new();
    entry.read_to_string(&mut text).unwrap();
    text
}

#[test]
fn duplicate_sheet_names_get_distinct_final_names() {
    let mut work_book = WorkBook::new();
    work_book.add_sheet(WorkSheet::blank("data"));
    work_book.add_sheet(WorkSheet::blank("data"));
    let names = work_book.get_sheet_names();
    assert_eq!(names.len(), 2);
    assert_eq!(names[0], "data");
    assert_eq!(names[1], "Sheet2");
    assert_ne!(names[0], names[1]);
}

#[test]
fn unique_sheet_names_are_kept() {
    let mut work_book = WorkBook::new();
    work_book.add_sheet(WorkSheet::blank("first"));
    work_book.add_sheet(WorkSheet::blank("second"));
    let names = work_book.get_sheet_names();
    assert_eq!(names[0], "first");
    assert_eq!(names[1], "second");
}

#[test]
fn adding_a_sheet_interns_text_cells() {
    let mut work_book = WorkBook::new();
    let mut sheet = WorkSheet::blank("data");
    let row = sheet.add_blank_row();
    row.add_string(String::from("Hello"));
    row.add_string(String::from("Hello"));
    row.add_inline_string(String::from("World"));
    work_book.add_sheet(sheet);
    assert_eq!(work_book.unique_string_count(), 1);
    assert_eq!(work_book.total_string_count(), 2);
}

#[test]
fn end_to_end_package_has_consistent_parts() {
    let mut work_book = WorkBook::new();
    let mut sheet = WorkSheet::blank("data");
    let row = sheet.add_blank_row();
    row.add_string(String::from("Hello"));
    row.add_number(String::from("42")).unwrap();
    row.add_inline_string(String::from("World"));
    work_book.add_sheet(sheet);
    let bytes = work_book.save().unwrap();

    let shared = read_entry(bytes.clone(), "xl/sharedStrings.xml");
    assert!(shared.contains("uniqueCount=\"1\""));
    assert!(shared.contains(" count=\"1\""));
    assert!(shared.contains("Hello"));
    assert!(!shared.contains("World"));

    let sheet_xml = read_entry(bytes.clone(), "xl/worksheets/sheet1.xml");
    assert!(sheet_xml.contains("t=\"n\""));
    assert!(sheet_xml.contains("42"));
    assert!(sheet_xml.contains("t=\"inlineStr\""));
    assert!(sheet_xml.contains("World"));

    let content_types = read_entry(bytes.clone(), "[Content_Types].xml");
    let worksheet_overrides = content_types
        .matches("spreadsheetml.worksheet+xml")
        .count();
    assert_eq!(worksheet_overrides, 1);

    let workbook_xml = read_entry(bytes.clone(), "xl/workbook.xml");
    assert!(workbook_xml.contains("name=\"data\""));
    assert!(workbook_xml.contains("r:id=\"rId1\""));

    let rels = read_entry(bytes, "xl/_rels/workbook.xml.rels");
    assert!(rels.contains("Target=\"worksheets/sheet1.xml\""));
    assert!(rels.contains("Target=\"styles.xml\""));
    assert!(rels.contains("Target=\"sharedStrings.xml\""));
}

#[test]
fn package_layout_is_fixed() {
    let mut work_book = WorkBook::new();
    work_book.add_sheet(WorkSheet::blank("one"));
    work_book.add_sheet(WorkSheet::blank("two"));
    let bytes = work_book.save().unwrap();
    let cursor = std::io::Cursor::new(bytes);
    let mut archive = zip::ZipArchive::new(cursor).unwrap();
    for name in [
        "[Content_Types].xml",
        "_rels/.rels",
        "xl/workbook.xml",
        "xl/_rels/workbook.xml.rels",
        "xl/worksheets/sheet1.xml",
        "xl/worksheets/sheet2.xml",
        "xl/sharedStrings.xml",
        "xl/styles.xml",
    ] {
        assert!(archive.by_name(name).is_ok(), "missing part");
    }
}

#[test]
fn styled_cells_carry_their_resolved_style_id() {
    let mut work_book = WorkBook::new();
    let mut sheet = WorkSheet::blank("styled");
    let row = sheet.add_blank_row();
    let bold_cell = row.add_string(String::from("Bold word"));
    bold_cell.set_font_style(FontStyle::new().bold(true));
    let plain_cell = row.add_string(String::from("plain"));
    assert!(plain_cell.get_style().is_none());
    work_book.add_sheet(sheet);
    let bytes = work_book.save().unwrap();
    let sheet_xml = read_entry(bytes.clone(), "xl/worksheets/sheet1.xml");
    assert!(sheet_xml.contains("s=\"1\""));
    let styles_xml = read_entry(bytes, "xl/styles.xml");
    assert!(styles_xml.contains("<b"));
}

#[test]
fn row_errors_surface_before_a_sheet_is_added() {
    let mut row = Row::new(1);
    let err = row.add_number(String::from("not a number")).err();
    assert_eq!(err, Some(XlsxError::ParseError));
    assert_eq!(err.unwrap().describe(), "value is not numeric");
}

#[test]
fn save_writes_the_workbook_document_last_parts_consistently() {
    let mut work_book = WorkBook::new();
    let mut sheet = WorkSheet::blank("data");
    let row = sheet.add_blank_row();
    row.add_string(String::from("alpha"));
    work_book.add_sheet(sheet);
    let bytes = work_book.save().unwrap();
    let root_rels = read_entry(bytes.clone(), "_rels/.rels");
    assert!(root_rels.contains("Target=\"xl/workbook.xml\""));
    assert!(root_rels.contains("Id=\"rId1\""));
    let styles = read_entry(bytes, "xl/styles.xml");
    assert!(styles.contains("patternType=\"none\""));
}
