use xl::model::{DateSystem, ExcelValue};
use xl::sheet::{number_in, RowBuilder, SheetError};
use xl::xml::{Attribute, Element, Text, XmlEvent};

fn attr(key: &str, value: &str) -> Attribute {
    Attribute { key: key.to_string(), value: value.to_string() }
}

fn start(name: &str, attributes: Vec<Attribute>) -> XmlEvent {
    XmlEvent::Start(Element { name: name.to_string(), attributes })
}

fn end(name: &str) -> XmlEvent {
    XmlEvent::End(name.to_string())
}

fn text(s: &str) -> XmlEvent {
    XmlEvent::Text(Text { text: s.to_string(), raw: s.as_bytes().to_vec() })
}

fn feed(builder: &mut RowBuilder, event: XmlEvent, want_row: u64) -> Result<(), SheetError> {
    let strings = vec!["zero".to_string(), "one".to_string()];
    let styles = vec!["General".to_string(), "yyyy".to_string()];
    builder.feed(event, want_row, &strings, &styles, &DateSystem::V1900)
}

#[test]
fn a_row_begins_with_its_number() {
    let mut b = RowBuilder::new();
    assert!(!b.open);
    assert_eq!(b.begin_row(&[attr("spans", "1:3"), attr("r", "7")], 3), Ok(()));
    assert!(b.open);
    assert_eq!(b.number, 7);
    assert_eq!(b.cells.len(), 0);
    assert_eq!(b.begin_row(&[attr("r", "3")], 3), Ok(()));
    assert_eq!(b.number, 3);
    for attributes in [vec![attr("r", "2")], vec![], vec![attr("r", "x")], vec![attr("r", "4294967296")], vec![attr("R", "9")]] {
        let mut b = RowBuilder::new();
        assert_eq!(b.begin_row(&attributes, 3), Err(SheetError::RowNumber));
        assert!(!b.open);
        assert_eq!(b.number, 0);
    }
}

#[test]
fn a_cell_takes_its_reference_type_and_style() {
    let styles = vec!["General".to_string(), "yyyy".to_string()];
    let mut b = RowBuilder::new();
    b.begin_cell(&[attr("r", "B2"), attr("t", "s"), attr("s", "1")], &styles);
    assert!(b.in_cell);
    assert_eq!(b.cell.reference, "B2");
    assert_eq!(b.cell.cell_type, "s");
    assert_eq!(b.cell.style, "yyyy");
    b.begin_cell(&[attr("s", "2")], &styles);
    assert_eq!(b.cell.reference, "B2");
    assert_eq!(b.cell.cell_type, "s");
    assert_eq!(b.cell.style, "yyyy");
    b.begin_cell(&[attr("s", "0"), attr("r", "")], &styles);
    assert_eq!(b.cell.reference, "");
    assert_eq!(b.cell.style, "General");
    b.begin_cell(&[attr("s", "zero")], &styles);
    assert_eq!(b.cell.style, "General");
}

#[test]
fn character_data_is_the_text_or_the_formula() {
    let strings = vec!["zero".to_string(), "one".to_string()];
    let t = |s: &str| Text { text: s.to_string(), raw: s.as_bytes().to_vec() };
    let mut b = RowBuilder::new();
    b.take_text(&t("lost"), &strings, &DateSystem::V1900);
    assert_eq!(b.cell.raw_value, "");
    assert_eq!(b.cell.formula, "");
    b.in_cell = true;
    b.take_text(&t("A1+"), &strings, &DateSystem::V1900);
    b.take_text(&t("B1"), &strings, &DateSystem::V1900);
    assert_eq!(b.cell.formula, "A1+B1");
    assert_eq!(b.cell.value, ExcelValue::Empty);
    b.in_value = true;
    b.cell.cell_type = "s".to_string();
    b.take_text(&t("1"), &strings, &DateSystem::V1900);
    assert_eq!(b.cell.raw_value, "1");
    assert_eq!(b.cell.value, ExcelValue::String("one".to_string()));
    assert_eq!(b.cell.formula, "A1+B1");
    b.take_text(&t("0"), &strings, &DateSystem::V1900);
    assert_eq!(b.cell.raw_value, "0");
    assert_eq!(b.cell.value, ExcelValue::String("zero".to_string()));
}

#[test]
fn a_cell_joins_its_row_behind_blank_cells() {
    let mut b = RowBuilder::new();
    b.begin_row(&[attr("r", "5")], 1).unwrap();
    b.cell.reference = "C5".to_string();
    b.cell.raw_value = "x".to_string();
    b.in_cell = true;
    assert_eq!(b.end_cell(), Ok(()));
    assert!(!b.in_cell);
    assert_eq!(b.cell.reference, "");
    assert_eq!(b.cell.raw_value, "");
    let refs: Vec<&str> = b.cells.iter().map(|c| c.reference.as_str()).collect();
    assert_eq!(refs, vec!["A5", "B5", "C5"]);
    assert_eq!(b.cells[2].raw_value, "x");
    assert_eq!(b.cells[0].value, ExcelValue::Empty);
    b.cell.reference = "d5".to_string();
    assert_eq!(b.end_cell(), Ok(()));
    assert_eq!(b.cells[3].reference, "d5");
    for reference in ["D5", "A5", "E6", "E", "5", "", "XFE5"] {
        b.cell.reference = reference.to_string();
        assert_eq!(b.end_cell(), Err(SheetError::Reference));
        assert_eq!(b.cells.len(), 4);
        assert_eq!(b.cell.reference, reference);
    }
    b.cell.reference = "XFD5".to_string();
    assert_eq!(b.end_cell(), Ok(()));
    assert_eq!(b.cells.len(), 16384);
    assert_eq!(b.cells[16382].reference, "XFC5");
}

#[test]
fn a_row_ends_as_wide_as_the_sheet() {
    let mut b = RowBuilder::new();
    b.begin_row(&[attr("r", "2")], 1).unwrap();
    b.cell.reference = "B2".to_string();
    b.end_cell().unwrap();
    let (cells, width) = b.end_row(4);
    assert_eq!(width, 4);
    let refs: Vec<&str> = cells.iter().map(|c| c.reference.as_str()).collect();
    assert_eq!(refs, vec!["A2", "B2", "C2", "D2"]);
    assert!(!b.open);
    assert_eq!(b.cells.len(), 0);
    assert_eq!(b.number, 2);
    b.begin_row(&[attr("r", "3")], 1).unwrap();
    b.cell.reference = "C3".to_string();
    b.end_cell().unwrap();
    let (cells, width) = b.end_row(1);
    assert_eq!(width, 3);
    assert_eq!(cells.len(), 3);
    let (cells, width) = b.end_row(0);
    assert_eq!(width, 0);
    assert_eq!(cells.len(), 0);
}

#[test]
fn events_move_the_row_on() {
    let mut b = RowBuilder::new();
    assert_eq!(feed(&mut b, start("sheetData", vec![]), 1), Ok(()));
    assert_eq!(feed(&mut b, start("row", vec![attr("r", "1")]), 1), Ok(()));
    assert_eq!(feed(&mut b, start("c", vec![attr("r", "B1"), attr("s", "1")]), 1), Ok(()));
    assert_eq!(feed(&mut b, start("f", vec![]), 1), Ok(()));
    assert_eq!(feed(&mut b, text("TODAY()"), 1), Ok(()));
    assert_eq!(feed(&mut b, end("f"), 1), Ok(()));
    assert_eq!(feed(&mut b, start("v", vec![]), 1), Ok(()));
    assert!(b.in_value);
    assert_eq!(feed(&mut b, text("45000"), 1), Ok(()));
    assert_eq!(feed(&mut b, end("v"), 1), Ok(()));
    assert!(!b.in_value);
    assert_eq!(feed(&mut b, XmlEvent::Other, 1), Ok(()));
    assert_eq!(feed(&mut b, XmlEvent::Empty(Element { name: "c".to_string(), attributes: vec![attr("r", "Z9")] }), 1), Ok(()));
    assert_eq!(feed(&mut b, end("c"), 1), Ok(()));
    assert_eq!(b.cells.len(), 2);
    assert_eq!(b.cells[1].formula, "TODAY()");
    assert_eq!(b.cells[1].raw_value, "45000");
    assert_eq!(b.cells[1].style, "yyyy");
    assert_eq!(b.cells[1].value, ExcelValue::Date(xl::Date { year: 2023, month: 3, day: 15 }));
    assert_eq!(feed(&mut b, end("c"), 1), Err(SheetError::Reference));
    assert_eq!(feed(&mut b, start("t", vec![]), 1), Ok(()));
    assert!(b.in_value);
    assert_eq!(feed(&mut b, end("t"), 1), Ok(()));
    assert_eq!(feed(&mut b, start("row", vec![attr("r", "1")]), 2), Err(SheetError::RowNumber));
    assert_eq!(b.cells.len(), 2);
    assert_eq!(feed(&mut b, start("row", vec![attr("r", "2")]), 2), Ok(()));
    assert_eq!(b.cells.len(), 0);
    assert_eq!(b.number, 2);
}

#[test]
fn a_number_in_a_text() {
    assert_eq!(number_in("17", 255), Some(17));
    assert_eq!(number_in("255", 255), Some(255));
    assert_eq!(number_in("256", 255), None);
    assert_eq!(number_in("", 255), None);
    assert_eq!(number_in("1 ", 255), None);
}
