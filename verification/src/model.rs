//! The values of a sheet: cells, rows, and the dates and times in them.

use crate::reference::{push_reference, reference_text};
use vstd::prelude::*;

verus! {

/// The day from which a workbook counts its dates.
#[derive(Clone, Copy, Debug, PartialEq, Eq, Structural)]
pub enum DateSystem {
    /// Day 1 is the first of January 1900, and the year 1900 has a 29th of
    /// February that never was.
    V1900,
    /// Day 0 is the first of January 1904.
    V1904,
}

/// A day of the calendar.
#[derive(Clone, Copy, Debug, PartialEq, Eq, Structural)]
pub struct Date {
    pub year: i32,
    pub month: u32,
    pub day: u32,
}

/// A time of day, to the millisecond.
#[derive(Clone, Copy, Debug, PartialEq, Eq, Structural)]
pub struct Time {
    pub hour: u32,
    pub minute: u32,
    pub second: u32,
    pub millisecond: u32,
}

/// A day and a time of that day.
#[derive(Clone, Copy, Debug, PartialEq, Eq, Structural)]
pub struct DateTime {
    pub date: Date,
    pub time: Time,
}

/// `ExcelValue` is the enum that holds the equivalent "rust value" of a
/// `Cell`s "raw_value." A number is held as the text that writes it.
#[derive(Clone, Debug, PartialEq, Eq)]
pub enum ExcelValue {
    Bool(bool),
    Date(Date),
    DateTime(DateTime),
    Error(String),
    Empty,
    Number(String),
    String(String),
    Time(Time),
}

/// One cell of a sheet: its value, and what the sheet's part says of it.
#[derive(Clone, Debug, PartialEq, Eq)]
pub struct Cell {
    /// The value you get by converting the raw_value (a string) into a Rust value
    pub value: ExcelValue,
    /// The formula (may be "empty") of the cell
    pub formula: String,
    /// What cell are we looking at? E.g., B3, A1, etc.
    pub reference: String,
    /// The cell style (e.g., the style you see in Excel by hitting Ctrl+1 and going to the
    /// "Number" tab).
    pub style: String,
    /// The type of cell as recorded by Excel (s = string using sharedStrings.xml, str = raw
    /// string, b = boolean, etc.).
    pub cell_type: String,
    /// The raw string value recorded in the xml
    pub raw_value: String,
}

/// The cells of one row, and the number of the row.
#[derive(Clone, Debug, PartialEq, Eq)]
pub struct Row(pub Vec<Cell>, pub usize);

/// What an `ExcelValue` holds, its texts as sequences of characters.
pub enum ValueView {
    Bool(bool),
    Date(Date),
    DateTime(DateTime),
    Error(Seq<char>),
    Empty,
    Number(Seq<char>),
    String(Seq<char>),
    Time(Time),
}

/// What a `Cell` holds, its texts as sequences of characters.
pub struct CellView {
    pub value: ValueView,
    pub formula: Seq<char>,
    pub reference: Seq<char>,
    pub style: Seq<char>,
    pub cell_type: Seq<char>,
    pub raw_value: Seq<char>,
}

impl View for ExcelValue {
    type V = ValueView;

    open spec fn view(&self) -> ValueView {
        match self {
            ExcelValue::Bool(b) => ValueView::Bool(*b),
            ExcelValue::Date(d) => ValueView::Date(*d),
            ExcelValue::DateTime(d) => ValueView::DateTime(*d),
            ExcelValue::Error(e) => ValueView::Error(e@),
            ExcelValue::Empty => ValueView::Empty,
            ExcelValue::Number(n) => ValueView::Number(n@),
            ExcelValue::String(s) => ValueView::String(s@),
            ExcelValue::Time(t) => ValueView::Time(*t),
        }
    }
}

impl View for Cell {
    type V = CellView;

    open spec fn view(&self) -> CellView {
        CellView {
            value: self.value@,
            formula: self.formula@,
            reference: self.reference@,
            style: self.style@,
            cell_type: self.cell_type@,
            raw_value: self.raw_value@,
        }
    }
}

/// A cell without a value, with the reference `reference` and nothing else.
pub open spec fn blank_cell(reference: Seq<char>) -> CellView {
    CellView {
        value: ValueView::Empty,
        formula: Seq::empty(),
        reference,
        style: Seq::empty(),
        cell_type: Seq::empty(),
        raw_value: Seq::empty(),
    }
}

/// The cells `from..to` of `cells` are the blank cells of the columns
/// `from + 1` to `to` of the row `row`.
pub open spec fn blank_run(cells: Seq<Cell>, from: int, to: int, row: int) -> bool {
    forall|i: int| from <= i < to ==> (#[trigger] cells[i])@ == blank_cell(reference_text(i + 1, row))
}

/// A cell with no value and no reference.
pub fn new_cell() -> (c: Cell)
    ensures
        c@ == blank_cell(Seq::empty()),
{
    Cell {
        value: ExcelValue::Empty,
        formula: String::new(),
        reference: String::new(),
        style: String::new(),
        cell_type: String::new(),
        raw_value: String::new(),
    }
}

/// Appends blank cells to `cells` until there are `upto` of them, each with
/// the reference of its column in the row `row`.
pub fn fill_blanks(cells: &mut Vec<Cell>, upto: u16, row: u64)
    requires
        upto <= 16384,
    ensures
        final(cells)@.len() == if old(cells)@.len() < upto {
            upto as int
        } else {
            old(cells)@.len() as int
        },
        final(cells)@.take(old(cells)@.len() as int) == old(cells)@,
        blank_run(final(cells)@, old(cells)@.len() as int, final(cells)@.len() as int, row as int),
{
    while cells.len() < upto as usize
        invariant
            upto <= 16384,
            old(cells)@.len() <= cells@.len(),
            old(cells)@.len() < upto ==> cells@.len() <= upto,
            old(cells)@.len() >= upto ==> cells@.len() == old(cells)@.len(),
            cells@.take(old(cells)@.len() as int) == old(cells)@,
            blank_run(cells@, old(cells)@.len() as int, cells@.len() as int, row as int),
        decreases upto - cells@.len(),
    {
        let mut cell = new_cell();
        let ghost before = cells@;
        push_reference(&mut cell.reference, (cells.len() + 1) as u16, row);
        assert(cell.reference@ == reference_text(before.len() as int + 1, row as int));
        cells.push(cell);
        assert forall|i: int| old(cells)@.len() <= i < cells@.len() implies (#[trigger] cells@[i])@
            == blank_cell(reference_text(i + 1, row as int)) by {}
    }
}

/// A row of `num_cols` blank cells with the number `this_row`.
pub fn empty_row(num_cols: u16, this_row: usize) -> (r: Option<Row>)
    requires
        num_cols <= 16384,
    ensures
        r is Some,
        r matches Some(row) ==> row.1 == this_row && row.0@.len() == num_cols && blank_run(
            row.0@,
            0,
            num_cols as int,
            this_row as int,
        ),
{
    let mut row: Vec<Cell> = Vec::new();
    fill_blanks(&mut row, num_cols, this_row as u64);
    Some(Row(row, this_row))
}

} // verus!
