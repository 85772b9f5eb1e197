use xl::model::{DateSystem, ExcelValue};
use xl::sheet::{RowBuilder, RowIter, SheetError, SheetReader, Step};
use xl::xml::{Attribute, Element, Text, XmlEvent, XmlReader};

fn attr(key: &str, value: &str) -> Attribute {
    Attribute { key: key.to_string(), value: value.to_string() }
}

fn start(name: &str, attributes: Vec<Attribute>) -> XmlEvent {
    XmlEvent::Start(Element { name: name.to_string(), attributes })
}

fn empty(name: &str, attributes: Vec<Attribute>) -> XmlEvent {
    XmlEvent::Empty(Element { name: name.to_string(), attributes })
}

fn end(name: &str) -> XmlEvent {
    XmlEvent::End(name.to_string())
}

fn text(s: &str) -> XmlEvent {
    XmlEvent::Text(Text { text: s.to_string(), raw: s.as_bytes().to_vec() })
}

fn references(cells: &[xl::Cell]) -> Vec<&str> {
    cells.iter().map(|c| c.reference.as_str()).collect()
}

#[test]
fn events_fed_one_at_a_time() {
    let strings = vec!["zero".to_string()];
    let styles = vec!["General".to_string()];
    let system = DateSystem::V1900;
    let reader = SheetReader::new(XmlReader::new(Vec::new(), true), &strings, &styles, &system);
    let mut rows = RowIter::new(reader, None);
    let mut builder = RowBuilder::new();
    let more = |step: Step| matches!(step, Step::More);
    assert!(more(rows.feed(&mut builder, XmlEvent::Other)));
    assert!(more(rows.feed(&mut builder, empty("dimension", vec![attr("ref", "A1:C9")]))));
    assert!(more(rows.feed(&mut builder, empty("dimension", vec![attr("ref", "A1")]))));
    assert!(more(rows.feed(&mut builder, empty("dimension", vec![]))));
    assert!(more(rows.feed(&mut builder, empty("row", vec![attr("r", "1")]))));
    assert!(!builder.open);
    assert!(matches!(
        rows.feed(&mut builder, end("row")),
        Step::Failed(SheetError::RowNumber)
    ));
    assert!(more(rows.feed(&mut builder, start("row", vec![attr("r", "2")]))));
    assert!(more(rows.feed(&mut builder, start("c", vec![attr("r", "B2"), attr("t", "s")]))));
    assert!(more(rows.feed(&mut builder, start("v", vec![]))));
    assert!(more(rows.feed(&mut builder, text("0"))));
    assert!(more(rows.feed(&mut builder, end("v"))));
    assert!(more(rows.feed(&mut builder, end("c"))));
    assert!(matches!(
        rows.feed(&mut builder, end("c")),
        Step::Failed(SheetError::Reference)
    ));
    assert!(matches!(
        rows.feed(&mut builder, XmlEvent::Malformed(42)),
        Step::Failed(SheetError::Xml(42))
    ));
    assert!(matches!(rows.feed(&mut builder, XmlEvent::Eof), Step::End));
    let blank = match rows.feed(&mut builder, end("row")) {
        Step::Row(row) => row,
        _ => panic!("a row closes"),
    };
    assert_eq!(blank.1, 1);
    assert_eq!(references(&blank.0), vec!["A1", "B1", "C1"]);
    assert!(!builder.open);
    let waiting = rows.next().unwrap();
    assert_eq!(waiting.1, 2);
    assert_eq!(references(&waiting.0), vec!["A2", "B2", "C2"]);
    assert_eq!(waiting.0[1].value, ExcelValue::String("zero".to_string()));
    let rest = rows.collect();
    assert_eq!(rest.iter().map(|r| r.1).collect::<Vec<usize>>(), vec![3, 4, 5, 6, 7, 8, 9]);
    assert_eq!(references(&rest[6].0), vec!["A9", "B9", "C9"]);
    assert!(rows.next().is_none());
    assert_eq!(rows.failure(), None);
}

#[test]
fn a_dimension_that_is_none_fails_the_step() {
    let strings = vec![];
    let styles = vec![];
    let system = DateSystem::V1904;
    let reader = SheetReader::new(XmlReader::new(Vec::new(), true), &strings, &styles, &system);
    let mut rows = RowIter::new(reader, None);
    assert!(matches!(
        rows.take_dimension(&[attr("ref", "A1:B")]),
        Step::Failed(SheetError::Dimension)
    ));
    assert!(matches!(rows.take_dimension(&[attr("ref", "B2")]), Step::More));
    assert!(rows.next().is_none());
    assert!(matches!(rows.take_dimension(&[attr("ref", "A1:B2")]), Step::More));
    assert_eq!(rows.collect().len(), 2);
}

#[test]
fn no_events_are_read_once_the_rows_have_stopped() {
    let strings = vec![];
    let styles = vec![];
    let system = DateSystem::V1900;
    let xml = b"<row r=\"1\"><c r=\"A1\"><v>1</v></c></row>".to_vec();
    let reader = SheetReader::new(XmlReader::new(xml.clone(), true), &strings, &styles, &system);
    let mut rows = RowIter::new(reader, Some(SheetError::Part));
    assert!(rows.next().is_none());
    assert_eq!(rows.failure(), Some(SheetError::Part));
    assert!(rows.collect().is_empty());
    let reader = SheetReader::new(XmlReader::new(xml, true), &strings, &styles, &system);
    let mut rows = RowIter::new(reader, None);
    assert_eq!(rows.collect().len(), 1);
    assert!(rows.next().is_none());
    assert_eq!(rows.failure(), None);
}

#[test]
fn a_malformed_event_in_the_middle_stops_the_rows_there() {
    let strings = vec![];
    let styles = vec![];
    let system = DateSystem::V1900;
    let xml = b"<row r=\"1\"><c r=\"A1\"><v>1</v></c></row><row r=\"2\"><c r=\"A2\" r=\"B2\"><v>2</v></c></row><row r=\"3\"></row>".to_vec();
    let reader = SheetReader::new(XmlReader::new(xml, true), &strings, &styles, &system);
    let mut rows = RowIter::new(reader, None);
    assert_eq!(rows.collect().len(), 1);
    assert!(matches!(rows.failure(), Some(SheetError::Xml(_))));
    assert!(rows.next().is_none());
}
