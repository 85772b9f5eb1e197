//! The rows of a worksheet, read one at a time from the events of its part.

use crate::model::{blank_cell, blank_run, empty_row, fill_blanks, new_cell, Cell, CellView,
    DateSystem, Row};
use crate::number::{bounded_number, parse_number};
use crate::reference::{coordinates, is_canonical, lemma_canonical_reference,
    lemma_reference_round_trip, parse_reference, parse_used_area, reference_coordinates,
    reference_text, used_area_of};
use crate::text::chars_of;
use crate::value::{cell_value, same_text, value_of};
use crate::xml::{attribute_of, get, next_event, pending, Attribute, Text, XmlEvent, XmlReader};
use vstd::prelude::*;
use vstd::string::StringExecFns;

verus! {

/// Why the rows of a sheet stopped coming.
#[derive(Clone, Copy, Debug, PartialEq, Eq, Structural)]
pub enum SheetError {
    /// The part is not well-formed XML; the byte at which that showed.
    Xml(usize),
    /// The range of the used area is no range.
    Dimension,
    /// A row has no number, or one that the rows before it have passed.
    RowNumber,
    /// A cell has no reference, one of another row, or one that is not to
    /// the right of the cells before it.
    Reference,
    /// The container has no such worksheet, or one that cannot be read.
    Part,
}

/// The cell's reference names the column `col` of the row `row`.
pub open spec fn cell_at(cell: Cell, col: int, row: int) -> bool {
    reference_coordinates(cell.reference@) == Some((col as u16, row as u32))
}

/// The cells are those of the columns 1, 2, 3 and so on of the row `row`,
/// with none left out.
pub open spec fn dense(cells: Seq<Cell>, row: int) -> bool {
    forall|i: int| 0 <= i < cells.len() ==> cell_at(#[trigger] cells[i], i + 1, row)
}

/// The number that the text `s` writes, if it is one of at most `max`.
pub fn number_in(s: &str, max: u64) -> (r: Option<u64>)
    ensures
        r is Some <==> bounded_number(s@, max as int) is Some,
        r matches Some(v) ==> Some(v as int) == bounded_number(s@, max as int),
{
    let chars = chars_of(s);
    assert(chars@.subrange(0, chars@.len() as int) == s@);
    parse_number(&chars, 0, chars.len(), max)
}

/// The number of the row that a `row` tag with these attributes opens, if
/// its attribute `r` writes one that the row wanted next has not passed.
pub open spec fn row_number_of(attributes: Seq<Attribute>, want_row: int) -> Option<u32> {
    match attribute_of(attributes, "r"@) {
        Some(v) => match bounded_number(v, u32::MAX as int) {
            Some(k) => if k >= want_row {
                Some(k as u32)
            } else {
                None
            },
            None => None,
        },
        None => None,
    }
}

/// The style of a cell whose tag has these attributes: the one that its
/// attribute `s` points at in `styles`, or `before` where it points at
/// none.
pub open spec fn style_of(attributes: Seq<Attribute>, styles: Seq<String>, before: Seq<char>) -> Seq<
    char,
> {
    match attribute_of(attributes, "s"@) {
        Some(v) => match bounded_number(v, usize::MAX as int) {
            Some(k) => if k < styles.len() {
                styles[k]@
            } else {
                before
            },
            None => before,
        },
        None => before,
    }
}

/// The text `value`, or `before` where there is none.
pub open spec fn text_or(value: Option<Seq<char>>, before: Seq<char>) -> Seq<char> {
    match value {
        Some(v) => v,
        None => before,
    }
}

/// The cell with the reference `reference` can follow `len` cells in the
/// row `number`: it names that row and a column further right.
pub open spec fn cell_fits(reference: Seq<char>, len: int, number: int) -> bool {
    reference_coordinates(reference) matches Some((col, row)) && row == number && col > len
}

/// The column that the reference names; 0 where it names none.
pub open spec fn column_of(reference: Seq<char>) -> int {
    match reference_coordinates(reference) {
        Some((col, row)) => col as int,
        None => 0,
    }
}

/// Blank cells of a row stand in the columns that their references name.
pub proof fn lemma_blank_run_dense(cells: Seq<Cell>, from: int, to: int, row: int)
    requires
        0 <= from <= to <= cells.len(),
        to <= 16384,
        0 <= row <= u32::MAX,
        blank_run(cells, from, to, row),
    ensures
        forall|i: int| from <= i < to ==> cell_at(#[trigger] cells[i], i + 1, row),
{
    assert forall|i: int| from <= i < to implies cell_at(#[trigger] cells[i], i + 1, row) by {
        lemma_reference_round_trip(i + 1, row);
    }
}

impl Cell {
    /// Return the row/column coordinates of the current cell.
    pub fn coordinates(&self) -> (c: (u16, u32))
        requires
            reference_coordinates(self.reference@) is Some,
        ensures
            Some(c) == reference_coordinates(self.reference@),
    {
        coordinates(self.reference.clone())
    }
}

/// A row in the making, and the cell in the making in it.
pub struct RowBuilder {
    /// The cells that the row has so far.
    pub cells: Vec<Cell>,
    /// The number of the row.
    pub number: u32,
    /// A `row` tag has been opened and not closed.
    pub open: bool,
    /// A `c` tag has been opened and not closed.
    pub in_cell: bool,
    /// A `v` or `t` tag has been opened and not closed.
    pub in_value: bool,
    /// The cell that the next `</c>` closes.
    pub cell: Cell,
}

impl RowBuilder {
    /// The cells so far are those of the first columns of the row.
    pub open spec fn wf(&self) -> bool {
        self.cells@.len() <= 16384 && dense(self.cells@, self.number as int)
    }

    /// `after` is this builder once a row with the number `number` has
    /// begun: it has no cells yet, and the cell in the making is as it was.
    pub open spec fn row_begun(&self, after: &RowBuilder, number: u32) -> bool {
        &&& after.number == number
        &&& after.cells@.len() == 0
        &&& after.open
        &&& after.cell == self.cell
        &&& after.in_cell == self.in_cell
        &&& after.in_value == self.in_value
    }

    /// `after` is this builder once a cell with these attributes has begun:
    /// its reference and its type are as written, its style is looked up in
    /// `styles`, and what the attributes leave out is as it was.
    pub open spec fn cell_begun(
        &self,
        after: &RowBuilder,
        attributes: Seq<Attribute>,
        styles: Seq<String>,
    ) -> bool {
        &&& after.in_cell
        &&& after.cell@ == (CellView {
            reference: text_or(attribute_of(attributes, "r"@), self.cell.reference@),
            cell_type: text_or(attribute_of(attributes, "t"@), self.cell.cell_type@),
            style: style_of(attributes, styles, self.cell.style@),
            ..self.cell@
        })
        &&& after.cells == self.cells
        &&& after.number == self.number
        &&& after.open == self.open
        &&& after.in_value == self.in_value
    }

    /// `after` is this builder once it has taken character data. Inside
    /// `<v>` or `<t>` the data is the text of the cell, from which the value
    /// comes; elsewhere inside a cell it is added to the formula; outside a
    /// cell it is dropped.
    pub open spec fn text_taken(
        &self,
        after: &RowBuilder,
        text: Text,
        strings: Seq<String>,
        system: DateSystem,
    ) -> bool {
        &&& after.cell@ == if self.in_value {
            CellView {
                raw_value: text.text@,
                value: value_of(self.cell.cell_type@, text.text@, self.cell.style@, strings, system),
                ..self.cell@
            }
        } else if self.in_cell {
            CellView { formula: self.cell.formula@ + text.text@, ..self.cell@ }
        } else {
            self.cell@
        }
        &&& after.cells == self.cells
        &&& after.number == self.number
        &&& after.open == self.open
        &&& after.in_cell == self.in_cell
        &&& after.in_value == self.in_value
    }

    /// `after` is this builder once its cell has joined the row: the row
    /// is as long as the cell's column says, with blank cells in the
    /// columns that were left out before the cell, and a new cell is in the
    /// making.
    pub open spec fn cell_ended(&self, after: &RowBuilder) -> bool {
        let col = column_of(self.cell.reference@);
        let len = self.cells@.len() as int;
        &&& after.cells@.len() == col
        &&& after.cells@.take(len) == self.cells@
        &&& blank_run(after.cells@, len, col - 1, self.number as int)
        &&& after.cells@[col - 1] == self.cell
        &&& after.cell@ == blank_cell(Seq::empty())
        &&& !after.in_cell
        &&& after.number == self.number
        &&& after.open == self.open
        &&& after.in_value == self.in_value
    }

    /// `after` is this builder once `event` has been fed to it, and `r`
    /// tells whether the event could be taken. `<row>` begins a row, and
    /// fails where its number is none or below `want_row`. `<c>` begins a
    /// cell. `<v>` and `<t>` open the text of the cell and their ends close
    /// it. Character data is taken. `</c>` ends the cell, and fails where
    /// its reference does not fit behind the cells of the row. Any other
    /// event changes nothing.
    pub open spec fn fed(
        &self,
        after: &RowBuilder,
        event: XmlEvent,
        want_row: int,
        strings: Seq<String>,
        styles: Seq<String>,
        system: DateSystem,
        r: Result<(), SheetError>,
    ) -> bool {
        match event {
            XmlEvent::Start(e) => if e.name@ == "row"@ {
                match row_number_of(e.attributes@, want_row) {
                    Some(k) => r is Ok && self.row_begun(after, k),
                    None => r == Err::<(), SheetError>(SheetError::RowNumber) && *after == *self,
                }
            } else if e.name@ == "c"@ {
                r is Ok && self.cell_begun(after, e.attributes@, styles)
            } else if e.name@ == "v"@ || e.name@ == "t"@ {
                r is Ok && *after == (RowBuilder { in_value: true, ..*self })
            } else {
                r is Ok && *after == *self
            },
            XmlEvent::Text(text) => r is Ok && self.text_taken(after, text, strings, system),
            XmlEvent::End(name) => if name@ == "v"@ || name@ == "t"@ {
                r is Ok && *after == (RowBuilder { in_value: false, ..*self })
            } else if name@ == "c"@ {
                if cell_fits(self.cell.reference@, self.cells@.len() as int, self.number as int) {
                    r is Ok && self.cell_ended(after)
                } else {
                    r == Err::<(), SheetError>(SheetError::Reference) && *after == *self
                }
            } else {
                r is Ok && *after == *self
            },
            _ => r is Ok && *after == *self,
        }
    }

    /// A builder with no row open.
    pub fn new() -> (b: RowBuilder)
        ensures
            b.wf(),
            b.cells@.len() == 0,
            b.number == 0,
            !b.open && !b.in_cell && !b.in_value,
            b.cell@ == blank_cell(Seq::empty()),
    {
        RowBuilder {
            cells: Vec::new(),
            number: 0,
            open: false,
            in_cell: false,
            in_value: false,
            cell: new_cell(),
        }
    }

    /// `<row r="k">`: a row with the number `k` begins, with no cells yet.
    /// It fails where the tag has no number or one below `want_row`.
    pub fn begin_row(&mut self, attributes: &[Attribute], want_row: u64) -> (r: Result<
        (),
        SheetError,
    >)
        ensures
            match row_number_of(attributes@, want_row as int) {
                Some(k) => r is Ok && old(self).row_begun(final(self), k) && final(self).wf(),
                None => r == Err::<(), SheetError>(SheetError::RowNumber) && *final(self) == *old(self),
            },
    {
        let number = match get(attributes, "r") {
            Some(v) => match number_in(v.as_str(), 0xffff_ffff) {
                Some(k) => k,
                None => {
                    return Err(SheetError::RowNumber);
                },
            },
            None => {
                return Err(SheetError::RowNumber);
            },
        };
        if number < want_row {
            return Err(SheetError::RowNumber);
        }
        self.cells = Vec::new();
        self.number = number as u32;
        self.open = true;
        Ok(())
    }

    /// `<c r="REF" t="TYPE" s="IDX">`: a cell begins. Its reference and its
    /// type are taken as written, its style is looked up in `styles`.
    pub fn begin_cell(&mut self, attributes: &[Attribute], styles: &[String])
        ensures
            old(self).cell_begun(final(self), attributes@, styles@),
    {
        self.in_cell = true;
        match get(attributes, "r") {
            Some(v) => {
                self.cell.reference = v.clone();
            },
            None => {},
        }
        match get(attributes, "t") {
            Some(v) => {
                self.cell.cell_type = v.clone();
            },
            None => {},
        }
        match get(attributes, "s") {
            Some(v) => {
                match number_in(v.as_str(), usize::MAX as u64) {
                    Some(k) => {
                        if k < styles.len() as u64 {
                            self.cell.style = styles[k as usize].clone();
                        }
                    },
                    None => {},
                }
            },
            None => {},
        }
    }

    /// Character data. Inside `<v>` or `<t>` it is the text of the cell, from
    /// which the value comes; elsewhere inside a cell it is added to the
    /// formula; outside a cell it is dropped.
    pub fn take_text(&mut self, text: &Text, strings: &[String], date_system: &DateSystem)
        ensures
            old(self).text_taken(final(self), *text, strings@, *date_system),
    {
        if self.in_value {
            self.cell.raw_value = text.text.clone();
            self.cell.value = cell_value(
                self.cell.cell_type.as_str(),
                text.text.as_str(),
                &self.cell.style,
                strings,
                date_system,
            );
        } else if self.in_cell {
            self.cell.formula.append(text.text.as_str());
        }
    }

    /// `</c>`: the cell joins the row, behind blank cells for the columns
    /// that the row has left out before it. It fails where the cell's
    /// reference does not fit behind the cells of the row.
    pub fn end_cell(&mut self) -> (r: Result<(), SheetError>)
        requires
            old(self).wf(),
        ensures
            final(self).wf(),
            if cell_fits(
                old(self).cell.reference@,
                old(self).cells@.len() as int,
                old(self).number as int,
            ) {
                r is Ok && old(self).cell_ended(final(self))
            } else {
                r == Err::<(), SheetError>(SheetError::Reference) && *final(self) == *old(self)
            },
    {
        let (col, row) = match parse_reference(self.cell.reference.as_str()) {
            Some(c) => c,
            None => {
                return Err(SheetError::Reference);
            },
        };
        if row != self.number || col as usize <= self.cells.len() {
            return Err(SheetError::Reference);
        }
        let ghost len = self.cells@.len() as int;
        let ghost number = self.number as int;
        fill_blanks(&mut self.cells, col - 1, self.number as u64);
        let ghost filled = self.cells@;
        let mut cell = new_cell();
        std::mem::swap(&mut cell, &mut self.cell);
        self.cells.push(cell);
        self.in_cell = false;
        proof {
            assert(self.cells@.take(len) == filled.take(len));
            lemma_blank_run_dense(filled, len, col - 1, number);
            assert forall|i: int| 0 <= i < self.cells@.len() implies cell_at(
                #[trigger] self.cells@[i],
                i + 1,
                number,
            ) by {
                if i < len {
                    assert(self.cells@[i] == filled.take(len)[i]);
                }
            }
        }
        Ok(())
    }

    /// `</row>`: the row is done. It is made `num_cols` cells long with
    /// blank cells, unless it is longer already; its cells and the columns
    /// that the sheet has from now on are handed out.
    pub fn end_row(&mut self, num_cols: u16) -> (r: (Vec<Cell>, u16))
        requires
            old(self).wf(),
            num_cols <= 16384,
        ensures
            r.1 == if old(self).cells@.len() > num_cols {
                old(self).cells@.len() as int
            } else {
                num_cols as int
            },
            r.0@.len() == r.1,
            r.0@.take(old(self).cells@.len() as int) == old(self).cells@,
            blank_run(r.0@, old(self).cells@.len() as int, r.1 as int, old(self).number as int),
            dense(r.0@, old(self).number as int),
            final(self).cells@.len() == 0,
            !final(self).open,
            final(self).wf(),
            final(self).number == old(self).number,
            final(self).cell == old(self).cell,
            final(self).in_cell == old(self).in_cell,
            final(self).in_value == old(self).in_value,
    {
        let mut cells: Vec<Cell> = Vec::new();
        std::mem::swap(&mut cells, &mut self.cells);
        self.open = false;
        let ghost len = cells@.len() as int;
        let ghost number = self.number as int;
        let width: u16 = if cells.len() > num_cols as usize {
            cells.len() as u16
        } else {
            num_cols
        };
        fill_blanks(&mut cells, width, self.number as u64);
        proof {
            lemma_blank_run_dense(cells@, len, width as int, number);
            assert forall|i: int| 0 <= i < cells@.len() implies cell_at(
                #[trigger] cells@[i],
                i + 1,
                number,
            ) by {
                if i < len {
                    assert(cells@[i] == cells@.take(len)[i]);
                }
            }
        }
        (cells, width)
    }

    /// Feeds an event to the row in the making.
    pub fn feed(
        &mut self,
        event: XmlEvent,
        want_row: u64,
        strings: &[String],
        styles: &[String],
        date_system: &DateSystem,
    ) -> (r: Result<(), SheetError>)
        requires
            old(self).wf(),
            old(self).open ==> old(self).number >= want_row,
        ensures
            final(self).wf(),
            final(self).open ==> final(self).number >= want_row,
            old(self).fed(final(self), event, want_row as int, strings@, styles@, *date_system, r),
    {
        match event {
            XmlEvent::Start(e) => {
                if same_text(e.name.as_str(), "row") {
                    self.begin_row(&e.attributes, want_row)
                } else if same_text(e.name.as_str(), "c") {
                    self.begin_cell(&e.attributes, styles);
                    Ok(())
                } else if same_text(e.name.as_str(), "v") || same_text(e.name.as_str(), "t") {
                    self.in_value = true;
                    Ok(())
                } else {
                    Ok(())
                }
            },
            XmlEvent::Text(text) => {
                self.take_text(&text, strings, date_system);
                Ok(())
            },
            XmlEvent::End(name) => {
                if same_text(name.as_str(), "v") || same_text(name.as_str(), "t") {
                    self.in_value = false;
                    Ok(())
                } else if same_text(name.as_str(), "c") {
                    self.end_cell()
                } else {
                    Ok(())
                }
            },
            _ => Ok(()),
        }
    }
}

/// The builder is new: no row is open and no cell is in the making.
pub open spec fn is_new_builder(b: RowBuilder) -> bool {
    &&& b.cells@.len() == 0
    &&& b.number == 0
    &&& !b.open && !b.in_cell && !b.in_value
    &&& b.cell@ == blank_cell(Seq::empty())
}

/// The `SheetReader` is used in a `RowIter` to navigate a worksheet. It holds
/// the reader of the worksheet's part, the list of strings used in the
/// workbook, the styles used in the workbook, and the date system of the
/// workbook.
pub struct SheetReader<'a> {
    pub reader: XmlReader,
    pub strings: &'a [String],
    pub styles: &'a [String],
    pub date_system: &'a DateSystem,
}

impl<'a> SheetReader<'a> {
    /// Create a new `SheetReader`. The parameters are:
    ///
    /// - The `reader` should be a reader at the start of the sheet's xml.
    /// - The `strings` argument should be the strings used in the xlsx: a
    ///   cell of the type `s` holds an index into them.
    /// - The `styles` are used to determine the data type (primarily for
    ///   dates).
    /// - Lastly, the `date_system` is used to determine what date we are
    ///   looking at for cells that contain date values.
    pub fn new(
        reader: XmlReader,
        strings: &'a [String],
        styles: &'a [String],
        date_system: &'a DateSystem,
    ) -> (r: SheetReader<'a>)
        ensures
            r.reader == reader,
            r.strings == strings,
            r.styles == styles,
            r.date_system == date_system,
    {
        SheetReader { reader, strings, styles, date_system }
    }
}

/// What one event does to the rows of a sheet.
pub enum Step {
    /// Nothing to hand out yet.
    More,
    /// A row to hand out.
    Row(Row),
    /// The part has ended.
    End,
    /// The rows stop here.
    Failed(SheetError),
}

/// The rows of a worksheet, one after another from row 1 on. Rows and
/// cells that the part leaves out come as blank ones.
pub struct RowIter<'a> {
    worksheet_reader: SheetReader<'a>,
    want_row: u64,
    next_row: Option<Row>,
    num_rows: u32,
    num_cols: u16,
    done_file: bool,
    failure: Option<SheetError>,
}

/// Every cell whose reference is written the one way in which references
/// are written out has, letter for letter, the reference of its column in
/// the row `row`.
pub open spec fn written_out(cells: Seq<Cell>, row: int) -> bool {
    forall|i: int|
        0 <= i < cells.len() && is_canonical((#[trigger] cells[i]).reference@)
            ==> cells[i].reference@ == reference_text(i + 1, row)
}

/// Cells that stand in the columns 1, 2, 3 and so on of a row have the
/// references of those columns, wherever theirs are written the one way.
pub proof fn lemma_dense_written_out(cells: Seq<Cell>, row: int)
    requires
        dense(cells, row),
        0 <= row <= u32::MAX,
        cells.len() <= 16384,
    ensures
        written_out(cells, row),
{
    assert forall|i: int|
        0 <= i < cells.len() && is_canonical((#[trigger] cells[i]).reference@) implies cells[i].reference@
        == reference_text(i + 1, row) by {
        assert(cell_at(cells[i], i + 1, row));
        lemma_canonical_reference(cells[i].reference@);
    }
}

/// The row `row` is the one wanted next, with cells in the `num_cols`
/// columns of the sheet and in no other.
pub open spec fn is_wanted_row(row: Row, want_row: int, num_cols: int) -> bool {
    row.1 == want_row && row.0@.len() == num_cols && dense(row.0@, want_row)
}

impl<'a> RowIter<'a> {
    /// The number of the row that comes next.
    pub closed spec fn wanted(&self) -> int {
        self.want_row as int
    }

    /// The number of columns that the rows have at present.
    pub closed spec fn columns(&self) -> int {
        self.num_cols as int
    }

    /// The number of rows that the sheet is known to have.
    pub closed spec fn rows(&self) -> int {
        self.num_rows as int
    }

    /// A row that was read ahead of its turn waits to be handed out.
    pub closed spec fn buffered(&self) -> Option<Row> {
        self.next_row
    }

    /// The part has ended.
    pub closed spec fn done(&self) -> bool {
        self.done_file
    }

    /// Why the rows stopped, if they did.
    pub closed spec fn failed(&self) -> Option<SheetError> {
        self.failure
    }

    /// The events of the part that have yet to be read.
    pub closed spec fn events(&self) -> Seq<XmlEvent> {
        pending(self.worksheet_reader.reader)
    }

    /// The rows come in order: the next one is at least row 1, the sheet
    /// has no more columns than a sheet can have, and a row that waits is
    /// complete and not behind the row wanted. No row waits once the rows
    /// have stopped.
    pub closed spec fn wf(&self) -> bool {
        &&& 1 <= self.want_row <= u32::MAX + 1
        &&& self.num_cols <= 16384
        &&& self.failure is Some ==> self.next_row is None
        &&& self.done_file ==> pending(self.worksheet_reader.reader).len() == 0
        &&& self.next_row matches Some(row) ==> self.want_row <= row.1 <= self.num_rows
            && row.0@.len() == self.num_cols && dense(row.0@, row.1 as int)
    }

    /// The rows of the sheet that `reader` reads, from row 1 on; none at
    /// all where `failure` says why the sheet could not be had.
    pub fn new(reader: SheetReader<'a>, failure: Option<SheetError>) -> (r: RowIter<'a>)
        ensures
            r.wf(),
            r.wanted() == 1,
            r.columns() == 0,
            r.rows() == 0,
            r.buffered() is None,
            !r.done(),
            r.failed() == failure,
            r.strings() == reader.strings@,
            r.styles() == reader.styles@,
            r.date_system() == *reader.date_system,
            r.events() == pending(reader.reader),
    {
        RowIter {
            worksheet_reader: reader,
            want_row: 1,
            next_row: None,
            num_rows: 0,
            num_cols: 0,
            done_file: false,
            failure,
        }
    }

    /// Why the rows stopped, if they stopped before the end of the sheet.
    pub fn failure(&self) -> (r: Option<SheetError>)
        ensures
            r == self.failed(),
    {
        self.failure
    }

    /// The shared strings of the workbook.
    pub closed spec fn strings(&self) -> Seq<String> {
        self.worksheet_reader.strings@
    }

    /// The format codes of the cell styles of the workbook.
    pub closed spec fn styles(&self) -> Seq<String> {
        self.worksheet_reader.styles@
    }

    /// The date system of the workbook.
    pub closed spec fn date_system(&self) -> DateSystem {
        *self.worksheet_reader.date_system
    }

    /// `after` is as this iterator in all but the used area.
    pub open spec fn same_but_area(&self, after: &RowIter<'a>) -> bool {
        &&& after.wanted() == self.wanted()
        &&& after.buffered() == self.buffered()
        &&& after.done() == self.done()
        &&& after.failed() == self.failed()
        &&& after.strings() == self.strings()
        &&& after.styles() == self.styles()
        &&& after.date_system() == self.date_system()
        &&& after.events() == self.events()
    }

    /// `after` is as this iterator in all but the events that it has yet to
    /// read.
    pub open spec fn same_but_events(&self, after: &RowIter<'a>) -> bool {
        &&& after.wanted() == self.wanted()
        &&& after.columns() == self.columns()
        &&& after.rows() == self.rows()
        &&& after.buffered() == self.buffered()
        &&& after.done() == self.done()
        &&& after.failed() == self.failed()
        &&& after.strings() == self.strings()
        &&& after.styles() == self.styles()
        &&& after.date_system() == self.date_system()
    }

    /// `after` is this iterator once it has read the first of the events
    /// that it had yet to read.
    pub open spec fn has_read(&self, after: &RowIter<'a>) -> bool {
        &&& self.events().len() > 0
        &&& after.events() == self.events().skip(1)
        &&& self.same_but_events(after)
    }

    /// The iterators `states` and the builders `builders` are those that an
    /// iterator and a new builder pass through as the events `events` are
    /// read and fed one by one, none of which hands out a row, ends the part
    /// or stops the rows; `mids` are the iterators between the reading of an
    /// event and its feeding.
    pub open spec fn is_scan(
        states: Seq<RowIter<'a>>,
        mids: Seq<RowIter<'a>>,
        builders: Seq<RowBuilder>,
        events: Seq<XmlEvent>,
    ) -> bool {
        &&& states.len() == events.len() + 1
        &&& mids.len() == events.len()
        &&& builders.len() == events.len() + 1
        &&& is_new_builder(builders[0])
        &&& forall|i: int|
            0 <= i < events.len() ==> (#[trigger] states[i]).has_read(&mids[i]) && mids[i].fed(
                &states[i + 1],
                &builders[i],
                &builders[i + 1],
                events[i],
                Step::More,
            )
    }

    /// `after` is this iterator, and `r` what it hands out, once it has
    /// come to the end of its part: it is done, and it hands out a blank
    /// row exactly where the used area has rows left.
    pub open spec fn ended(&self, after: &RowIter<'a>, r: Option<Row>) -> bool {
        &&& self.events().len() == 0
        &&& after.events().len() == 0
        &&& after.done()
        &&& after.columns() == self.columns()
        &&& after.rows() == self.rows()
        &&& after.buffered() == self.buffered()
        &&& after.failed() == self.failed()
        &&& after.strings() == self.strings()
        &&& after.styles() == self.styles()
        &&& after.date_system() == self.date_system()
        &&& if self.wanted() <= self.rows() {
            &&& after.wanted() == self.wanted() + 1
            &&& r matches Some(row)
            &&& is_wanted_row(row, self.wanted(), self.columns())
            &&& blank_run(row.0@, 0, row.0@.len() as int, row.1 as int)
        } else {
            after.wanted() == self.wanted() && r is None
        }
    }

    /// `after` is this iterator once the rows have stopped with `error`.
    pub open spec fn stopped(&self, after: &RowIter<'a>, error: SheetError) -> bool {
        &&& after.failed() == Some(error)
        &&& after.wanted() == self.wanted()
        &&& after.columns() == self.columns()
        &&& after.rows() == self.rows()
        &&& after.buffered() == self.buffered()
        &&& after.done() == self.done()
        &&& after.strings() == self.strings()
        &&& after.styles() == self.styles()
        &&& after.date_system() == self.date_system()
        &&& after.events() == self.events()
    }

    /// `after` is this iterator, and `r` what it hands out, once it has
    /// read `event` and fed it to itself and `builder`, and the event has
    /// handed out a row or stopped the rows.
    pub open spec fn closes(
        &self,
        after: &RowIter<'a>,
        builder: RowBuilder,
        event: XmlEvent,
        r: Option<Row>,
    ) -> bool {
        exists|mid: RowIter<'a>, fed: RowIter<'a>, builder_after: RowBuilder, step: Step|
            self.has_read(&mid) && #[trigger] mid.fed(&fed, &builder, &builder_after, event, step)
                && match step {
                Step::Row(row) => r == Some(row) && *after == fed,
                Step::Failed(error) => r is None && fed.stopped(after, error),
                _ => false,
            }
    }

    /// `after` is this iterator, and `r` what it hands out, once it has
    /// pulled its events: it reads and feeds them one by one, with a new
    /// builder, up to the first that hands out a row or stops the rows, or
    /// to the end of its part.
    pub open spec fn pulled(&self, after: &RowIter<'a>, r: Option<Row>) -> bool {
        exists|
            states: Seq<RowIter<'a>>,
            mids: Seq<RowIter<'a>>,
            builders: Seq<RowBuilder>,
            k: int,
        |
            0 <= k <= self.events().len() && #[trigger] Self::is_scan(
                states,
                mids,
                builders,
                self.events().take(k),
            ) && states[0] == *self && if k == self.events().len() {
                states.last().ended(after, r)
            } else {
                states.last().closes(after, builders.last(), self.events()[k], r)
            }
    }

    /// `after` is this iterator, and `r` what it hands out, where a row
    /// waits: the row that waits where its turn has come, and a blank row in
    /// its place where it has not.
    pub open spec fn kept_turn(&self, after: &RowIter<'a>, r: Option<Row>) -> bool {
        &&& self.buffered() is Some
        &&& after.wanted() == self.wanted() + 1
        &&& after.columns() == self.columns()
        &&& after.rows() == self.rows()
        &&& after.done() == self.done()
        &&& after.failed() == self.failed()
        &&& after.strings() == self.strings()
        &&& after.styles() == self.styles()
        &&& after.date_system() == self.date_system()
        &&& after.events() == self.events()
        &&& if self.buffered().unwrap().1 == self.wanted() {
            r == self.buffered() && after.buffered() is None
        } else {
            &&& after.buffered() == self.buffered()
            &&& r matches Some(row)
            &&& is_wanted_row(row, self.wanted(), self.columns())
            &&& blank_run(row.0@, 0, row.0@.len() as int, row.1 as int)
        }
    }

    /// `after` is this iterator, and `r` what it hands out, once it has
    /// been asked for its next row. Once the rows have stopped, none comes.
    /// A row that waits is handed out when its turn comes, and blank rows
    /// before it. Once the part has ended, blank rows come while the used
    /// area has rows left. Else the events are pulled.
    pub open spec fn handed(&self, after: &RowIter<'a>, r: Option<Row>) -> bool {
        if self.failed() is Some {
            r is None && *after == *self
        } else if self.buffered() is Some {
            self.kept_turn(after, r)
        } else if self.done() {
            self.ended(after, r)
        } else {
            self.pulled(after, r)
        }
    }

    /// The iterators `states` are those that an iterator passes through as
    /// it hands out the rows `rows` one by one and then none.
    pub open spec fn is_walk(states: Seq<RowIter<'a>>, rows: Seq<Row>) -> bool {
        &&& states.len() == rows.len() + 2
        &&& forall|i: int|
            0 <= i < rows.len() ==> (#[trigger] states[i]).handed(&states[i + 1], Some(rows[i]))
        &&& states[rows.len() as int].handed(&states[rows.len() as int + 1], None)
    }

    /// `after` has the used area of this iterator.
    pub open spec fn same_area(&self, after: &RowIter<'a>) -> bool {
        after.rows() == self.rows() && after.columns() == self.columns()
    }

    /// `after` is this iterator once it has taken a `<dimension/>` with
    /// these attributes: the rows and columns of the used area are those
    /// of the range `ref`, unless there is none or it is the placeholder
    /// `A1`. The step fails where the range is none.
    pub open spec fn dimension_taken(
        &self,
        after: &RowIter<'a>,
        attributes: Seq<Attribute>,
        step: Step,
    ) -> bool {
        &&& self.same_but_area(after)
        &&& match attribute_of(attributes, "ref"@) {
            Some(range) => if range == "A1"@ {
                step is More && self.same_area(after)
            } else {
                match used_area_of(range) {
                    Some((rows, cols)) => step is More && after.rows() == rows && after.columns()
                        == cols,
                    None => step == Step::Failed(SheetError::Dimension) && self.same_area(after),
                }
            },
            None => step is More && self.same_area(after),
        }
    }

    /// `after` and `builder_after` are this iterator and `builder` once the
    /// row in the making has closed and `row` has been handed out. The
    /// sheet has the columns and rows of the closed row at the least. Where
    /// the closed row is the one wanted, it is handed out, filled up with
    /// blank cells. Where it lies further down, it waits, and a blank row
    /// is handed out in its place.
    pub open spec fn row_closed(
        &self,
        after: &RowIter<'a>,
        builder: &RowBuilder,
        builder_after: &RowBuilder,
        row: Row,
    ) -> bool {
        let len = builder.cells@.len() as int;
        &&& after.wanted() == self.wanted() + 1
        &&& after.columns() == if len > self.columns() {
            len
        } else {
            self.columns()
        }
        &&& after.rows() == if builder.number > self.rows() {
            builder.number as int
        } else {
            self.rows()
        }
        &&& after.done() == self.done()
        &&& after.failed() == self.failed()
        &&& after.strings() == self.strings()
        &&& after.styles() == self.styles()
        &&& after.date_system() == self.date_system()
        &&& after.events() == self.events()
        &&& is_wanted_row(row, self.wanted(), after.columns())
        &&& *builder_after == (RowBuilder { cells: builder_after.cells, open: false, ..*builder })
        &&& builder_after.cells@.len() == 0
        &&& if builder.number == self.wanted() {
            &&& after.buffered() is None
            &&& row.0@.take(len) == builder.cells@
            &&& blank_run(row.0@, len, row.0@.len() as int, row.1 as int)
        } else {
            &&& after.buffered() matches Some(kept)
            &&& kept.1 == builder.number
            &&& kept.0@.len() == after.columns()
            &&& dense(kept.0@, kept.1 as int)
            &&& kept.0@.take(len) == builder.cells@
            &&& blank_run(kept.0@, len, kept.0@.len() as int, kept.1 as int)
            &&& blank_run(row.0@, 0, row.0@.len() as int, row.1 as int)
        }
    }

    /// `after` and `builder_after` are this iterator and `builder` once
    /// `event` has been fed to them, and `step` is what came of it.
    /// `<dimension/>` sets the used area. `</row>` closes the row in the
    /// making and hands a row out, and fails where no row is open. The end
    /// of the part ends the rows, and a part that is not well formed stops
    /// them. Any other event goes to the row in the making.
    pub open spec fn fed(
        &self,
        after: &RowIter<'a>,
        builder: &RowBuilder,
        builder_after: &RowBuilder,
        event: XmlEvent,
        step: Step,
    ) -> bool {
        let to_builder = *after == *self && (step is More || step is Failed) && builder.fed(
            builder_after,
            event,
            self.wanted(),
            self.strings(),
            self.styles(),
            self.date_system(),
            match step {
                Step::Failed(e) => Err(e),
                _ => Ok(()),
            },
        );
        match event {
            XmlEvent::Empty(e) => *builder_after == *builder && if e.name@ == "dimension"@ {
                self.dimension_taken(after, e.attributes@, step)
            } else {
                step is More && *after == *self
            },
            XmlEvent::End(name) => if name@ == "row"@ {
                if builder.open {
                    step matches Step::Row(row) && self.row_closed(
                        after,
                        builder,
                        builder_after,
                        row,
                    )
                } else {
                    step == Step::Failed(SheetError::RowNumber) && *after == *self
                        && *builder_after == *builder
                }
            } else {
                to_builder
            },
            XmlEvent::Eof => step is End && *after == *self && *builder_after == *builder,
            XmlEvent::Malformed(at) => step == Step::Failed(SheetError::Xml(at)) && *after == *self
                && *builder_after == *builder,
            _ => to_builder,
        }
    }

    /// `<dimension ref="A1:D9"/>`: the rows and columns of the used area
    /// are taken from the range, unless it is the placeholder `A1`. It
    /// fails where the range is none.
    pub fn take_dimension(&mut self, attributes: &[Attribute]) -> (step: Step)
        requires
            old(self).wf(),
            old(self).buffered() is None,
        ensures
            final(self).wf(),
            old(self).dimension_taken(final(self), attributes@, step),
    {
        match get(attributes, "ref") {
            Some(range) => {
                if !same_text(range.as_str(), "A1") {
                    match parse_used_area(range.as_str()) {
                        Some((rows, cols)) => {
                            self.num_cols = cols;
                            self.num_rows = rows;
                        },
                        None => {
                            return Step::Failed(SheetError::Dimension);
                        },
                    }
                }
            },
            None => {},
        }
        Step::More
    }

    /// `</row>`: the row that the builder holds is done. Where it is the
    /// row wanted, it is handed out. Where it lies further down, it waits
    /// and a blank row is handed out in its place.
    pub fn close_row(&mut self, builder: &mut RowBuilder) -> (row: Row)
        requires
            old(self).wf(),
            old(self).buffered() is None,
            old(self).failed() is None,
            old(builder).wf(),
            old(builder).number >= old(self).wanted(),
        ensures
            final(self).wf(),
            final(builder).wf(),
            old(self).row_closed(final(self), old(builder), final(builder), row),
    {
        let number = builder.number;
        let (cells, width) = builder.end_row(self.num_cols);
        self.num_cols = width;
        if number > self.num_rows {
            self.num_rows = number;
        }
        let current = self.want_row;
        self.want_row = self.want_row + 1;
        if number as u64 == current {
            Row(cells, number as usize)
        } else {
            self.next_row = Some(Row(cells, number as usize));
            match empty_row(self.num_cols, current as usize) {
                Some(row) => {
                    proof {
                        lemma_blank_run_dense(row.0@, 0, width as int, current as int);
                    }
                    row
                },
                None => Row(Vec::new(), current as usize),
            }
        }
    }

    /// What the event `event` does to the rows: it moves the row in the
    /// making on, hands a row out, ends the rows or stops them.
    pub fn feed(&mut self, builder: &mut RowBuilder, event: XmlEvent) -> (step: Step)
        requires
            old(self).wf(),
            old(self).buffered() is None,
            old(self).failed() is None,
            old(builder).wf(),
            old(builder).open ==> old(builder).number >= old(self).wanted(),
        ensures
            final(self).wf(),
            final(builder).wf(),
            final(builder).open ==> final(builder).number >= final(self).wanted(),
            old(self).fed(final(self), old(builder), final(builder), event, step),
            step matches Step::Row(row) ==> final(self).wanted() == old(self).wanted() + 1
                && is_wanted_row(row, old(self).wanted(), final(self).columns()),
            !(step is Row) ==> final(self).wanted() == old(self).wanted() && final(self).buffered()
                is None,
            step is End ==> *final(self) == *old(self),
            final(self).failed() == old(self).failed(),
            final(self).done() == old(self).done(),
    {
        match event {
            XmlEvent::Empty(e) => {
                if same_text(e.name.as_str(), "dimension") {
                    self.take_dimension(&e.attributes)
                } else {
                    Step::More
                }
            },
            XmlEvent::End(name) => {
                if same_text(name.as_str(), "row") {
                    if !builder.open {
                        return Step::Failed(SheetError::RowNumber);
                    }
                    Step::Row(self.close_row(builder))
                } else {
                    match builder.feed(
                        XmlEvent::End(name),
                        self.want_row,
                        self.worksheet_reader.strings,
                        self.worksheet_reader.styles,
                        self.worksheet_reader.date_system,
                    ) {
                        Ok(()) => Step::More,
                        Err(error) => Step::Failed(error),
                    }
                }
            },
            XmlEvent::Eof => Step::End,
            XmlEvent::Malformed(at) => Step::Failed(SheetError::Xml(at)),
            other => {
                match builder.feed(
                    other,
                    self.want_row,
                    self.worksheet_reader.strings,
                    self.worksheet_reader.styles,
                    self.worksheet_reader.date_system,
                ) {
                    Ok(()) => Step::More,
                    Err(error) => Step::Failed(error),
                }
            },
        }
    }

    /// All the rows that are still to come, in their order: their numbers
    /// run on from the row wanted without a gap, and each has its cells in
    /// the columns 1, 2, 3 and so on of its own row.
    pub fn collect(&mut self) -> (rows: Vec<Row>)
        requires
            old(self).wf(),
        ensures
            final(self).wf(),
            exists|states: Seq<RowIter<'a>>| #[trigger]
                Self::is_walk(states, rows@) && states[0] == *old(self) && states.last() == *final(self),
            final(self).wanted() == old(self).wanted() + rows@.len(),
            forall|i: int|
                0 <= i < rows@.len() ==> (#[trigger] rows@[i]).1 == old(self).wanted() + i && dense(
                    rows@[i].0@,
                    old(self).wanted() + i,
                ) && written_out(rows@[i].0@, old(self).wanted() + i),
            final(self).strings() == old(self).strings(),
            final(self).styles() == old(self).styles(),
            final(self).date_system() == old(self).date_system(),
            final(self).buffered() is None,
            final(self).failed() is Some || (final(self).done() && final(self).wanted() > final(self).rows()),
    {
        let mut rows: Vec<Row> = Vec::new();
        let ghost mut states: Seq<RowIter<'a>> = seq![*self];
        loop
            invariant
                self.wf(),
                self.strings() == old(self).strings(),
                self.styles() == old(self).styles(),
                self.date_system() == old(self).date_system(),
                self.want_row == old(self).want_row + rows@.len(),
                forall|i: int|
                    0 <= i < rows@.len() ==> (#[trigger] rows@[i]).1 == old(self).want_row + i
                        && dense(rows@[i].0@, old(self).want_row + i) && written_out(
                        rows@[i].0@,
                        old(self).want_row + i,
                    ),
                states.len() == rows@.len() + 1,
                states[0] == *old(self),
                states.last() == *self,
                forall|i: int|
                    0 <= i < rows@.len() ==> (#[trigger] states[i]).handed(
                        &states[i + 1],
                        Some(rows@[i]),
                    ),
            decreases u32::MAX + 2 - self.want_row,
        {
            match self.next() {
                Some(row) => {
                    rows.push(row);
                    proof {
                        states = states.push(*self);
                    }
                },
                None => {
                    proof {
                        states = states.push(*self);
                        assert(Self::is_walk(states, rows@));
                    }
                    return rows;
                },
            }
        }
    }

    /// The next row of the sheet, or nothing when the sheet has no more
    /// rows or its part is broken. A row that waits is handed out when its
    /// turn comes, and blank rows before it. Otherwise events are read until
    /// a row closes. When the part has ended, blank rows follow until the
    /// sheet has as many rows as its used area says.
    pub fn next(&mut self) -> (r: Option<Row>)
        requires
            old(self).wf(),
        ensures
            final(self).wf(),
            r matches Some(row) ==> row.1 <= final(self).rows() && written_out(
                row.0@,
                row.1 as int,
            ),
            match r {
                Some(row) => final(self).wanted() == old(self).wanted() + 1 && is_wanted_row(
                    row,
                    old(self).wanted(),
                    final(self).columns(),
                ),
                None => final(self).wanted() == old(self).wanted() && final(self).buffered()
                    is None && (final(self).failed() is Some || (final(self).done() && final(self).wanted() > final(self).rows())),
            },
            final(self).strings() == old(self).strings(),
            final(self).styles() == old(self).styles(),
            final(self).date_system() == old(self).date_system(),
            old(self).failed() is Some ==> r is None && final(self).failed() == old(self).failed(),
            old(self).handed(final(self), r),
            old(self).failed() is None && old(self).buffered() is Some && old(self).buffered().unwrap().1 == old(self).wanted() ==> r == old(self).buffered() && final(self).buffered() is None,
            old(self).failed() is None && old(self).buffered() is Some ==> r is Some && final(self).columns() == old(self).columns() && final(self).rows() == old(self).rows(),
            old(self).failed() is None && old(self).buffered() is Some && old(self).buffered()
                != r ==> blank_run(
                r.unwrap().0@,
                0,
                old(self).columns(),
                old(self).wanted(),
            ) && final(self).buffered() == old(self).buffered(),
            old(self).failed() is None && old(self).buffered() is None && old(self).done() ==> (r
                is Some <==> old(self).wanted() <= old(self).rows()) && final(self).columns()
                == old(self).columns() && final(self).rows() == old(self).rows(),
            old(self).failed() is None && old(self).buffered() is None && old(self).done() && r
                is Some ==> blank_run(r.unwrap().0@, 0, old(self).columns(), old(self).wanted()),
    {
        let r = self.step();
        proof {
            if r is Some {
                lemma_dense_written_out(r.unwrap().0@, r.unwrap().1 as int);
            }
        }
        r
    }

    /// The next row of the sheet, as `next` hands it out.
    fn step(&mut self) -> (r: Option<Row>)
        requires
            old(self).wf(),
        ensures
            final(self).wf(),
            r matches Some(row) ==> row.1 <= final(self).rows(),
            match r {
                Some(row) => final(self).wanted() == old(self).wanted() + 1 && is_wanted_row(
                    row,
                    old(self).wanted(),
                    final(self).columns(),
                ),
                None => final(self).wanted() == old(self).wanted() && final(self).buffered()
                    is None && (final(self).failed() is Some || (final(self).done() && final(self).wanted() > final(self).rows())),
            },
            final(self).strings() == old(self).strings(),
            final(self).styles() == old(self).styles(),
            final(self).date_system() == old(self).date_system(),
            old(self).failed() is Some ==> r is None && final(self).failed() == old(self).failed(),
            old(self).handed(final(self), r),
            old(self).failed() is None && old(self).buffered() is Some && old(self).buffered().unwrap().1 == old(self).wanted() ==> r == old(self).buffered() && final(self).buffered() is None,
            old(self).failed() is None && old(self).buffered() is Some ==> r is Some && final(self).columns() == old(self).columns() && final(self).rows() == old(self).rows(),
            old(self).failed() is None && old(self).buffered() is Some && old(self).buffered()
                != r ==> blank_run(
                r.unwrap().0@,
                0,
                old(self).columns(),
                old(self).wanted(),
            ) && final(self).buffered() == old(self).buffered(),
            old(self).failed() is None && old(self).buffered() is None && old(self).done() ==> (r
                is Some <==> old(self).wanted() <= old(self).rows()) && final(self).columns()
                == old(self).columns() && final(self).rows() == old(self).rows(),
            old(self).failed() is None && old(self).buffered() is None && old(self).done() && r
                is Some ==> blank_run(r.unwrap().0@, 0, old(self).columns(), old(self).wanted()),
    {
        if self.failure.is_some() {
            return None;
        }
        let waiting: Option<usize> = match &self.next_row {
            Some(row) => Some(row.1),
            None => None,
        };
        match waiting {
            Some(row_num) => {
                let current = self.want_row;
                self.want_row = self.want_row + 1;
                if row_num as u64 == current {
                    let mut r: Option<Row> = None;
                    std::mem::swap(&mut r, &mut self.next_row);
                    return r;
                } else {
                    let r = empty_row(self.num_cols, current as usize);
                    proof {
                        lemma_blank_run_dense(
                            r.unwrap().0@,
                            0,
                            self.num_cols as int,
                            current as int,
                        );
                    }
                    return r;
                }
            },
            None => {},
        }
        let mut builder = RowBuilder::new();
        let mut ended = self.done_file;
        let ghost all = self.events();
        let ghost mut states: Seq<RowIter<'a>> = seq![*self];
        let ghost mut mids: Seq<RowIter<'a>> = Seq::empty();
        let ghost mut builders: Seq<RowBuilder> = seq![builder];
        let ghost mut n: int = 0;
        assert(all.take(0) =~= Seq::<XmlEvent>::empty());
        while !ended
            invariant
                self.wf(),
                self.next_row is None,
                self.failure is None,
                old(self).next_row is None,
                old(self).failure is None,
                self.worksheet_reader.strings == old(self).worksheet_reader.strings,
                self.worksheet_reader.styles == old(self).worksheet_reader.styles,
                self.worksheet_reader.date_system == old(self).worksheet_reader.date_system,
                self.want_row == old(self).want_row,
                builder.wf(),
                builder.open ==> builder.number >= self.want_row,
                self.done_file == old(self).done_file,
                old(self).done_file ==> ended,
                old(self).done_file ==> self.num_cols == old(self).num_cols && self.num_rows
                    == old(self).num_rows,
                all == old(self).events(),
                0 <= n <= all.len(),
                self.events() == all.skip(n),
                Self::is_scan(states, mids, builders, all.take(n)),
                states[0] == *old(self),
                states.last().same_but_events(self),
                states.last().events() == self.events(),
                builders.last() == builder,
                ended && !old(self).done_file ==> n == all.len(),
            decreases
                    pending(self.worksheet_reader.reader).len() + if ended {
                        0int
                    } else {
                        1int
                    },
        {
            let ghost pre = *self;
            let ghost old_builder = builder;
            let ghost old_states = states;
            let ghost old_mids = mids;
            let ghost old_builders = builders;
            let event = next_event(&mut self.worksheet_reader.reader);
            let ghost mid = *self;
            let ghost fed_event = event;
            match self.feed(&mut builder, event) {
                Step::More => {
                    proof {
                        assert(states.last().has_read(&mid));
                        states = states.push(*self);
                        mids = mids.push(mid);
                        builders = builders.push(builder);
                        assert(all.take(n + 1) == all.take(n).push(fed_event));
                        assert(all.skip(n).skip(1) == all.skip(n + 1));
                        n = n + 1;
                        assert forall|i: int| 0 <= i < n implies (#[trigger] states[i]).has_read(
                            &mids[i],
                        ) && mids[i].fed(
                            &states[i + 1],
                            &builders[i],
                            &builders[i + 1],
                            all.take(n)[i],
                            Step::More,
                        ) by {
                            if i < n - 1 {
                                assert(states[i] == old_states[i]);
                                assert(states[i + 1] == old_states[i + 1]);
                                assert(mids[i] == old_mids[i]);
                                assert(builders[i] == old_builders[i]);
                                assert(builders[i + 1] == old_builders[i + 1]);
                                assert(all.take(n)[i] == all.take(n - 1)[i]);
                            }
                        }
                    }
                },
                Step::Row(row) => {
                    proof {
                        assert(states.last().has_read(&mid));
                        assert(mid.fed(self, &old_builder, &builder, all[n], Step::Row(row)));
                        assert(states.last().closes(self, builders.last(), all[n], Some(row)));
                    }
                    return Some(row);
                },
                Step::End => {
                    assert(self.events() =~= pre.events());
                    ended = true;
                },
                Step::Failed(error) => {
                    let ghost fed = *self;
                    self.failure = Some(error);
                    proof {
                        assert(states.last().has_read(&mid));
                        assert(mid.fed(&fed, &old_builder, &builder, all[n], Step::Failed(error)));
                        assert(fed.stopped(self, error));
                        assert(states.last().closes(self, builders.last(), all[n], None));
                    }
                    return None;
                },
            }
        }
        self.done_file = true;
        let r = if self.want_row <= self.num_rows as u64 {
            let current = self.want_row;
            self.want_row = self.want_row + 1;
            let r = empty_row(self.num_cols, current as usize);
            proof {
                lemma_blank_run_dense(r.unwrap().0@, 0, self.num_cols as int, current as int);
            }
            r
        } else {
            None
        };
        proof {
            if !old(self).done_file {
                assert(all.take(n) == all.take(all.len() as int));
                assert(states.last().ended(self, r));
            }
        }
        r
    }
}

} // verus!
