use std::io::{Cursor, Write};
use xl::model::{Date, DateTime, ExcelValue, Row, Time};
use xl::sheet::SheetError;
use xl::workbook::Workbook;
use zip::write::FileOptions;
use zip::ZipWriter;

const RELS: &str = r#"<?xml version="1.0" encoding="UTF-8" standalone="yes"?>
<Relationships xmlns="http://schemas.openxmlformats.org/package/2006/relationships">
<Relationship Id="rId1" Type="http://schemas.openxmlformats.org/officeDocument/2006/relationships/worksheet" Target="worksheets/sheet1.xml"/>
<Relationship Id="rId2" Type="http://schemas.openxmlformats.org/officeDocument/2006/relationships/styles" Target="styles.xml"/>
</Relationships>"#;

const WORKBOOK: &str = r#"<?xml version="1.0" encoding="UTF-8" standalone="yes"?>
<workbook xmlns="http://schemas.openxmlformats.org/spreadsheetml/2006/main" xmlns:r="http://schemas.openxmlformats.org/officeDocument/2006/relationships">
<workbookPr/>
<sheets><sheet name="Sheet1" sheetId="1" r:id="rId1"/></sheets>
</workbook>"#;

const STRINGS: &str = r#"<?xml version="1.0" encoding="UTF-8" standalone="yes"?>
<sst xmlns="http://schemas.openxmlformats.org/spreadsheetml/2006/main" count="3" uniqueCount="3">
<si><t>foo</t></si><si><t>bar</t></si><si><r><t>ba</t></r><r><t>z</t></r></si>
</sst>"#;

const STYLES: &str = r#"<?xml version="1.0" encoding="UTF-8" standalone="yes"?>
<styleSheet xmlns="http://schemas.openxmlformats.org/spreadsheetml/2006/main">
<numFmts count="1"><numFmt numFmtId="164" formatCode="yyyy\-mm"/></numFmts>
<cellStyleXfs count="1"><xf numFmtId="14"/></cellStyleXfs>
<cellXfs count="3"><xf numFmtId="0"/><xf numFmtId="14" applyNumberFormat="1"/><xf numFmtId="164"/></cellXfs>
</styleSheet>"#;

fn container(sheet: &str) -> Vec<u8> {
    let mut zip = ZipWriter::new(Cursor::new(Vec::new()));
    let parts = [
        ("xl/_rels/workbook.xml.rels", RELS),
        ("xl/workbook.xml", WORKBOOK),
        ("xl/sharedStrings.xml", STRINGS),
        ("xl/styles.xml", STYLES),
        ("xl/worksheets/sheet1.xml", sheet),
    ];
    for (name, text) in parts {
        zip.start_file(name, FileOptions::default()).unwrap();
        zip.write_all(text.as_bytes()).unwrap();
    }
    zip.finish().unwrap().into_inner()
}

fn sheet_data(dimension: &str, rows: &str) -> String {
    format!(
        "<?xml version=\"1.0\" encoding=\"UTF-8\"?>\n<worksheet xmlns=\"http://schemas.openxmlformats.org/spreadsheetml/2006/main\">{}<sheetData>{}</sheetData></worksheet>",
        dimension, rows
    )
}

fn rows_of(sheet: &str) -> (Vec<Row>, Option<SheetError>) {
    let mut wb = Workbook::open(container(sheet)).unwrap();
    let sheets = wb.sheets().unwrap();
    let ws = sheets.get("Sheet1").unwrap();
    let mut iter = ws.rows(&mut wb);
    let mut rows = Vec::new();
    while let Some(row) = iter.next() {
        rows.push(row);
    }
    assert!(iter.next().is_none());
    (rows, iter.failure())
}

fn references(row: &Row) -> Vec<String> {
    row.0.iter().map(|c| c.reference.clone()).collect()
}

#[test]
fn nulls_and_sparse_cells() {
    let sheet = sheet_data(
        "<dimension ref=\"A1:C5\"/>",
        "<row r=\"1\"><c r=\"B1\"><v>1</v></c><c r=\"C1\"><v>2</v></c></row>\
         <row r=\"2\"><c r=\"A2\"><v>3</v></c></row>\
         <row r=\"3\"><c r=\"A3\" t=\"s\"><v>0</v></c><c r=\"C3\" t=\"s\"><v>2</v></c></row>\
         <row r=\"5\"><c r=\"B5\"><v>4.5</v></c></row>",
    );
    let (rows, failure) = rows_of(&sheet);
    assert_eq!(failure, None);
    assert_eq!(rows.len(), 5);
    assert_eq!(rows[0].1, 1);
    assert_eq!(references(&rows[0]), vec!["A1", "B1", "C1"]);
    assert_eq!(rows[0].0[0].value, ExcelValue::Empty);
    assert_eq!(rows[0].0[0].raw_value, "");
    assert_eq!(rows[0].0[1].value, ExcelValue::Number("1".to_string()));
    assert_eq!(rows[0].0[1].raw_value, "1");
    assert_eq!(rows[0].0[2].value, ExcelValue::Number("2".to_string()));
    assert_eq!(references(&rows[1]), vec!["A2", "B2", "C2"]);
    assert_eq!(rows[1].0[0].value, ExcelValue::Number("3".to_string()));
    assert_eq!(rows[1].0[1].value, ExcelValue::Empty);
    assert_eq!(rows[1].0[2].value, ExcelValue::Empty);
    assert_eq!(rows[2].0[0].value, ExcelValue::String("foo".to_string()));
    assert_eq!(rows[2].0[1].value, ExcelValue::Empty);
    assert_eq!(rows[2].0[2].value, ExcelValue::String("baz".to_string()));
    assert_eq!(rows[3].1, 4);
    assert_eq!(references(&rows[3]), vec!["A4", "B4", "C4"]);
    for cell in &rows[3].0 {
        assert_eq!(cell.value, ExcelValue::Empty);
        assert_eq!(cell.raw_value, "");
        assert_eq!(cell.formula, "");
        assert_eq!(cell.style, "");
        assert_eq!(cell.cell_type, "");
    }
    assert_eq!(rows[4].1, 5);
    assert_eq!(references(&rows[4]), vec!["A5", "B5", "C5"]);
    assert_eq!(rows[4].0[1].value, ExcelValue::Number("4.5".to_string()));
}

#[test]
fn dates_under_v1900() {
    let sheet = sheet_data(
        "<dimension ref=\"A1:A3\"/>",
        "<row r=\"1\"><c r=\"A1\" s=\"1\"><v>44633</v></c></row>\
         <row r=\"2\"><c r=\"A2\" s=\"1\"><v>44687</v></c></row>\
         <row r=\"3\"><c r=\"A3\" s=\"1\"><v>44835</v></c></row>",
    );
    let (rows, failure) = rows_of(&sheet);
    assert_eq!(failure, None);
    assert_eq!(rows.len(), 3);
    assert_eq!(rows[0].0[0].style, "mm-dd-yy");
    assert_eq!(rows[0].0[0].value, ExcelValue::Date(Date { year: 2022, month: 3, day: 13 }));
    assert_eq!(rows[1].0[0].value, ExcelValue::Date(Date { year: 2022, month: 5, day: 6 }));
    assert_eq!(rows[2].0[0].value, ExcelValue::Date(Date { year: 2022, month: 10, day: 1 }));
    assert_eq!(rows[2].0[0].raw_value, "44835");
}

#[test]
fn date_styles_give_times_and_dates_with_times() {
    let sheet = sheet_data(
        "",
        "<row r=\"1\"><c r=\"A1\" s=\"2\"><v>44562.25</v></c><c r=\"B1\" s=\"1\"><v>0.5</v></c>\
         <c r=\"C1\" s=\"0\"><v>44562.25</v></c><c r=\"D1\" s=\"1\"><v>-3</v></c>\
         <c r=\"E1\" s=\"1\"><v>soon</v></c><c r=\"F1\" s=\"9\"><v>7</v></c>\
         <c r=\"G1\" s=\"1\"><v>1.1574074074074073E-5</v></c></row>",
    );
    let (rows, failure) = rows_of(&sheet);
    assert_eq!(failure, None);
    assert_eq!(rows.len(), 1);
    let row = &rows[0];
    assert_eq!(row.0[0].style, "yyyy\\-mm");
    assert_eq!(
        row.0[0].value,
        ExcelValue::DateTime(DateTime {
            date: Date { year: 2022, month: 1, day: 1 },
            time: Time { hour: 6, minute: 0, second: 0, millisecond: 0 },
        })
    );
    assert_eq!(
        row.0[1].value,
        ExcelValue::Time(Time { hour: 12, minute: 0, second: 0, millisecond: 0 })
    );
    assert_eq!(row.0[2].style, "General");
    assert_eq!(row.0[2].value, ExcelValue::Number("44562.25".to_string()));
    assert_eq!(row.0[3].value, ExcelValue::Number("-3".to_string()));
    assert_eq!(row.0[4].value, ExcelValue::String("soon".to_string()));
    assert_eq!(row.0[5].style, "");
    assert_eq!(row.0[5].value, ExcelValue::Number("7".to_string()));
    assert_eq!(
        row.0[6].value,
        ExcelValue::Time(Time { hour: 0, minute: 0, second: 1, millisecond: 0 })
    );
}

#[test]
fn declared_dimension_a1() {
    let sheet = sheet_data(
        "<dimension ref=\"A1\"/>",
        "<row r=\"1\"><c r=\"A1\"><v>1</v></c></row>\
         <row r=\"2\"><c r=\"A2\"><v>1</v></c><c r=\"D2\"><v>2</v></c></row>\
         <row r=\"3\"><c r=\"B3\"><v>3</v></c></row>",
    );
    let (rows, failure) = rows_of(&sheet);
    assert_eq!(failure, None);
    assert_eq!(rows.len(), 3);
    assert_eq!(references(&rows[0]), vec!["A1"]);
    assert_eq!(references(&rows[1]), vec!["A2", "B2", "C2", "D2"]);
    assert_eq!(references(&rows[2]), vec!["A3", "B3", "C3", "D3"]);
}

#[test]
fn bool_and_error_cells() {
    let sheet = sheet_data(
        "",
        "<row r=\"1\"><c r=\"A1\" t=\"b\"><v>0</v></c><c r=\"B1\" t=\"b\"><v>1</v></c>\
         <c r=\"C1\" t=\"e\"><v>DIV/0!</v></c><c r=\"D1\" t=\"bl\"><v>x</v></c>\
         <c r=\"E1\" t=\"str\"><f>A1&amp;B1</f><v>a &lt; b</v></c>\
         <c r=\"F1\" t=\"inlineStr\"><is><t>in line</t></is></c></row>",
    );
    let (rows, failure) = rows_of(&sheet);
    assert_eq!(failure, None);
    let row = &rows[0];
    assert_eq!(row.0[0].value, ExcelValue::Bool(false));
    assert_eq!(row.0[1].value, ExcelValue::Bool(true));
    assert_eq!(row.0[2].value, ExcelValue::Error("DIV/0!".to_string()));
    assert_eq!(row.0[2].cell_type, "e");
    assert_eq!(row.0[3].value, ExcelValue::Empty);
    assert_eq!(row.0[3].raw_value, "x");
    assert_eq!(row.0[4].value, ExcelValue::String("a < b".to_string()));
    assert_eq!(row.0[4].formula, "A1&B1");
    assert_eq!(row.0[5].value, ExcelValue::String("in line".to_string()));
}

#[test]
fn shared_string_out_of_range() {
    let sheet = sheet_data(
        "",
        "<row r=\"1\"><c r=\"A1\" t=\"s\"><v>9999</v></c><c r=\"B1\" t=\"s\"><v>1</v></c>\
         <c r=\"C1\" t=\"s\"><v>two</v></c><c r=\"D1\" t=\"s\"><v>3</v></c></row>",
    );
    let (rows, failure) = rows_of(&sheet);
    assert_eq!(failure, None);
    let row = &rows[0];
    assert_eq!(row.0[0].value, ExcelValue::String("9999".to_string()));
    assert_eq!(row.0[1].value, ExcelValue::String("bar".to_string()));
    assert_eq!(row.0[2].value, ExcelValue::String("two".to_string()));
    assert_eq!(row.0[3].value, ExcelValue::String("3".to_string()));
}

#[test]
fn trailing_rows_are_filled_up_to_the_used_area() {
    let sheet = sheet_data(
        "<dimension ref=\"A1:B4\"/>",
        "<row r=\"2\"><c r=\"A2\"><v>1</v></c></row>",
    );
    let (rows, failure) = rows_of(&sheet);
    assert_eq!(failure, None);
    assert_eq!(rows.len(), 4);
    let numbers: Vec<usize> = rows.iter().map(|r| r.1).collect();
    assert_eq!(numbers, vec![1, 2, 3, 4]);
    assert_eq!(references(&rows[0]), vec!["A1", "B1"]);
    assert_eq!(references(&rows[3]), vec!["A4", "B4"]);
    assert_eq!(rows[1].0[0].value, ExcelValue::Number("1".to_string()));
}

#[test]
fn row_numbers_have_no_gaps() {
    let sheet = sheet_data(
        "",
        "<row r=\"3\"><c r=\"C3\"><v>1</v></c></row><row r=\"7\"><c r=\"A7\"><v>2</v></c></row>",
    );
    let (rows, failure) = rows_of(&sheet);
    assert_eq!(failure, None);
    let numbers: Vec<usize> = rows.iter().map(|r| r.1).collect();
    assert_eq!(numbers, vec![1, 2, 3, 4, 5, 6, 7]);
    for row in &rows {
        let expected: Vec<String> =
            ["A", "B", "C"].iter().map(|c| format!("{}{}", c, row.1)).collect();
        assert_eq!(references(row), expected);
    }
    assert_eq!(rows[2].0[2].value, ExcelValue::Number("1".to_string()));
    assert_eq!(rows[6].0[0].value, ExcelValue::Number("2".to_string()));
}

#[test]
fn a_broken_part_stops_the_rows() {
    let sheet = sheet_data("", "<row r=\"1\"><c r=\"A1\"><v>1</v></c></row><row r=\"2\"><c r=\"A2\"></d></row>");
    let (rows, failure) = rows_of(&sheet);
    assert_eq!(rows.len(), 1);
    assert!(matches!(failure, Some(SheetError::Xml(_))));
}

#[test]
fn a_range_that_is_none_stops_the_rows() {
    let sheet = sheet_data("<dimension ref=\"A1:9Z\"/>", "<row r=\"1\"><c r=\"A1\"><v>1</v></c></row>");
    let (rows, failure) = rows_of(&sheet);
    assert_eq!(rows.len(), 0);
    assert_eq!(failure, Some(SheetError::Dimension));
}

#[test]
fn a_row_out_of_order_stops_the_rows() {
    let sheet = sheet_data(
        "",
        "<row r=\"2\"><c r=\"A2\"><v>1</v></c></row><row r=\"1\"><c r=\"A1\"><v>1</v></c></row>",
    );
    let (rows, failure) = rows_of(&sheet);
    assert_eq!(rows.len(), 2);
    assert_eq!(failure, Some(SheetError::RowNumber));
    let sheet = sheet_data("", "<row><c r=\"A1\"><v>1</v></c></row>");
    let (rows, failure) = rows_of(&sheet);
    assert_eq!(rows.len(), 0);
    assert_eq!(failure, Some(SheetError::RowNumber));
}

#[test]
fn a_cell_out_of_place_stops_the_rows() {
    for cells in [
        "<c r=\"B1\"><v>1</v></c><c r=\"A1\"><v>1</v></c>",
        "<c r=\"A1\"><v>1</v></c><c r=\"A1\"><v>1</v></c>",
        "<c r=\"A2\"><v>1</v></c>",
        "<c><v>1</v></c>",
        "<c r=\"XFE1\"><v>1</v></c>",
        "<c r=\"1A\"><v>1</v></c>",
    ] {
        let sheet = sheet_data("", &format!("<row r=\"1\">{}</row>", cells));
        let (rows, failure) = rows_of(&sheet);
        assert_eq!(rows.len(), 0);
        assert_eq!(failure, Some(SheetError::Reference));
    }
}

#[test]
fn a_sheet_that_is_not_there_has_no_rows() {
    let mut wb = Workbook::open(container("<worksheet/>")).unwrap();
    let ws = xl::workbook::Worksheet::new(
        "rId9".to_string(),
        "Nowhere".to_string(),
        2,
        "xl/worksheets/sheet9.xml".to_string(),
        9,
    );
    let mut iter = ws.rows(&mut wb);
    assert!(iter.next().is_none());
    assert_eq!(iter.failure(), Some(SheetError::Part));
    assert_eq!(ws.read_to_buffer(&mut wb), Err(SheetError::Part));
}
