//! A worksheet written out as comma-separated text.

use crate::calendar::{format_date, format_stamp, format_time, text_of_date, text_of_stamp,
    text_of_time};
use crate::decimal::{is_float, is_float_text};
use crate::model::DateSystem;
use crate::number::bounded_number;
use crate::reference::{parse_reference, parse_used_area, reference_coordinates, used_area_of};
use crate::serial::{conversion_of_text, text_conversion, DateConversion};
use crate::sheet::{number_in, style_of, text_or, SheetError};
use crate::style::{is_date, style_is_date};
use crate::value::same_text;
use crate::xml::{attribute_of, get, Attribute, Text, XmlEvent};
use vstd::prelude::*;
use vstd::string::StringExecFns;
use vstd::utf8::encode_utf8;

verus! {

/// The digit of `n`, 0 to 15, in hexadecimal with small letters.
pub open spec fn hex_digit(n: int) -> u8 {
    if n < 10 {
        (48 + n) as u8
    } else {
        (87 + n) as u8
    }
}

/// The byte `b` as printable ASCII: itself where it is printable and no
/// quote or backslash, a backslash and a letter or the byte for tab, line
/// feed, carriage return, the quotes and the backslash, and `\x` with two
/// hexadecimal digits for any other.
pub open spec fn escaped_byte(b: u8) -> Seq<u8> {
    if b == 9 {
        seq![92u8, 116u8]
    } else if b == 13 {
        seq![92u8, 114u8]
    } else if b == 10 {
        seq![92u8, 110u8]
    } else if b == 39 || b == 34 || b == 92 {
        seq![92u8, b]
    } else if 0x20 <= b <= 0x7e {
        seq![b]
    } else {
        seq![92u8, 120u8, hex_digit(b as int / 16), hex_digit(b as int % 16)]
    }
}

/// The bytes `s`, each as printable ASCII.
pub open spec fn ascii_escaped(s: Seq<u8>) -> Seq<u8>
    decreases s.len(),
{
    if s.len() == 0 {
        Seq::empty()
    } else {
        ascii_escaped(s.drop_last()) + escaped_byte(s.last())
    }
}

/// The bytes `s` with every double quote written twice.
pub open spec fn quotes_doubled(s: Seq<u8>) -> Seq<u8>
    decreases s.len(),
{
    if s.len() == 0 {
        Seq::empty()
    } else if s.last() == 34 {
        quotes_doubled(s.drop_last()) + seq![34u8, 34u8]
    } else {
        quotes_doubled(s.drop_last()).push(s.last())
    }
}

/// The bytes `s` between two double quotes.
pub open spec fn quoted(s: Seq<u8>) -> Seq<u8> {
    seq![34u8] + s + seq![34u8]
}

/// `n` commas.
pub open spec fn commas(n: int) -> Seq<u8> {
    Seq::new(n as nat, |i: int| 44u8)
}

/// The text of a cell in a date style writes no number at all, so that the
/// cell is written as a string.
pub open spec fn is_no_number(raw: Seq<char>, system: DateSystem) -> bool {
    conversion_of_text(raw, system) is Number && !is_float_text(raw)
}

/// The text written for a cell in a date style whose text is a number: the
/// date, the date with its time to the second, or the time that the serial
/// stands for, and `Invalid date` with the number where it stands for none.
pub open spec fn date_field(raw: Seq<char>, system: DateSystem) -> Seq<char> {
    match conversion_of_text(raw, system) {
        DateConversion::Date(d) => text_or(text_of_date(d), Seq::empty()),
        DateConversion::DateTime(d) => text_or(text_of_stamp(d), Seq::empty()),
        DateConversion::Time(t) => text_or(text_of_time(t), Seq::empty()),
        DateConversion::Number => "Invalid date "@ + raw,
    }
}

/// What points at a shared string is written as that string; any other
/// text as its bytes in the part, made printable.
pub open spec fn shared_bytes(text: Text, strings: Seq<String>) -> Seq<u8> {
    match bounded_number(text.text@, usize::MAX as int) {
        Some(pos) => if pos < strings.len() {
            encode_utf8(strings[pos]@)
        } else {
            ascii_escaped(text.raw@)
        },
        None => ascii_escaped(text.raw@),
    }
}

/// The bytes written for the text of a cell. A string is quoted, with its
/// own quotes doubled. A cell in a date style is written as its date, with
/// no quotes, and as a string where its text is no number. Anything else is
/// quoted as it stands.
pub open spec fn field_bytes(
    cell_type: Seq<char>,
    text: Text,
    style: Seq<char>,
    strings: Seq<String>,
    system: DateSystem,
) -> Seq<u8> {
    if cell_type == "s"@ {
        quoted(quotes_doubled(shared_bytes(text, strings)))
    } else if cell_type == "str"@ || cell_type == "inlineStr"@ {
        quoted(quotes_doubled(ascii_escaped(text.raw@)))
    } else if style_is_date(style) {
        if is_no_number(text.text@, system) {
            quoted(quotes_doubled(ascii_escaped(text.raw@)))
        } else {
            encode_utf8(date_field(text.text@, system))
        }
    } else {
        quoted(ascii_escaped(text.raw@))
    }
}

/// The count of commas `pushed` and `more`, counted no further than 65536,
/// which is more than any row wants.
pub open spec fn counted(pushed: int, more: int) -> int {
    if pushed + more > 65536 {
        65536
    } else {
        pushed + more
    }
}

/// How many commas a row with `pushed` of them lacks to have `num_cols`
/// fields.
pub open spec fn commas_owed(pushed: int, num_cols: int) -> int {
    if pushed < num_cols - 1 {
        num_cols - 1 - pushed
    } else {
        0
    }
}

/// Appends to `out` the byte `b` as printable ASCII.
fn push_escaped(out: &mut Vec<u8>, b: u8)
    ensures
        final(out)@ == old(out)@ + escaped_byte(b),
{
    if b == 9 {
        out.push(92);
        out.push(116);
    } else if b == 13 {
        out.push(92);
        out.push(114);
    } else if b == 10 {
        out.push(92);
        out.push(110);
    } else if b == 39 || b == 34 || b == 92 {
        out.push(92);
        out.push(b);
    } else if 0x20 <= b && b <= 0x7e {
        out.push(b);
    } else {
        let hi: u8 = b / 16;
        let lo: u8 = b % 16;
        out.push(92);
        out.push(120);
        out.push(if hi < 10 { 48 + hi } else { 87 + hi });
        out.push(if lo < 10 { 48 + lo } else { 87 + lo });
    }
}

/// The bytes `bytes`, each as printable ASCII.
pub fn escape_ascii(bytes: &[u8]) -> (r: Vec<u8>)
    ensures
        r@ == ascii_escaped(bytes@),
{
    let mut r: Vec<u8> = Vec::new();
    let mut i: usize = 0;
    while i < bytes.len()
        invariant
            i <= bytes@.len(),
            r@ == ascii_escaped(bytes@.take(i as int)),
        decreases bytes@.len() - i,
    {
        push_escaped(&mut r, bytes[i]);
        proof {
            let t = bytes@.take(i as int + 1);
            assert(t.drop_last() == bytes@.take(i as int));
        }
        i = i + 1;
    }
    assert(bytes@.take(i as int) == bytes@);
    r
}

/// Appends `bytes` to `out` with every double quote written twice.
pub fn push_doubled(out: &mut Vec<u8>, bytes: &[u8])
    ensures
        final(out)@ == old(out)@ + quotes_doubled(bytes@),
{
    let mut i: usize = 0;
    while i < bytes.len()
        invariant
            i <= bytes@.len(),
            out@ == old(out)@ + quotes_doubled(bytes@.take(i as int)),
        decreases bytes@.len() - i,
    {
        if bytes[i] == 34 {
            out.push(34);
            out.push(34);
        } else {
            out.push(bytes[i]);
        }
        proof {
            let t = bytes@.take(i as int + 1);
            assert(t.drop_last() == bytes@.take(i as int));
        }
        i = i + 1;
    }
    assert(bytes@.take(i as int) == bytes@);
}

/// Appends `n` commas to `out`.
pub fn push_commas(out: &mut Vec<u8>, n: u32)
    ensures
        final(out)@ == old(out)@ + commas(n as int),
{
    let mut i: u32 = 0;
    while i < n
        invariant
            i <= n,
            out@ == old(out)@ + commas(i as int),
        decreases n - i,
    {
        out.push(44);
        i = i + 1;
    }
}

/// Whether the text of a cell in a date style writes no number at all.
pub fn is_text_no_number(raw: &str, date_system: &DateSystem) -> (r: bool)
    ensures
        r == is_no_number(raw@, *date_system),
{
    match text_conversion(raw, date_system) {
        DateConversion::Number => !is_float(raw),
        _ => false,
    }
}

/// The text written for a cell in a date style whose text is a number.
pub fn date_field_text(raw: &str, date_system: &DateSystem) -> (r: String)
    ensures
        r@ == date_field(raw@, *date_system),
{
    let text = match text_conversion(raw, date_system) {
        DateConversion::Date(d) => format_date(&d),
        DateConversion::DateTime(d) => format_stamp(&d, "%Y-%m-%d %H:%M:%S"),
        DateConversion::Time(t) => format_time(&t),
        DateConversion::Number => {
            let mut s = String::from_str("Invalid date ");
            s.append(raw);
            Some(s)
        },
    };
    match text {
        Some(s) => s,
        None => String::new(),
    }
}

/// Appends to `out` the bytes written for the text of a cell.
pub fn push_field(
    out: &mut Vec<u8>,
    cell_type: &str,
    text: &Text,
    style: &String,
    strings: &[String],
    date_system: &DateSystem,
)
    ensures
        final(out)@ == old(out)@ + field_bytes(
            cell_type@,
            *text,
            style@,
            strings@,
            *date_system,
        ),
{
    if same_text(cell_type, "s") {
        let pos = number_in(text.text.as_str(), usize::MAX as u64);
        out.push(34);
        match pos {
            Some(p) => {
                if p < strings.len() as u64 {
                    let bytes = strings[p as usize].as_str().as_bytes();
                    push_doubled(out, bytes);
                } else {
                    let bytes = escape_ascii(text.raw.as_slice());
                    push_doubled(out, bytes.as_slice());
                }
            },
            None => {
                let bytes = escape_ascii(text.raw.as_slice());
                push_doubled(out, bytes.as_slice());
            },
        }
        out.push(34);
    } else if same_text(cell_type, "str") || same_text(cell_type, "inlineStr") {
        let bytes = escape_ascii(text.raw.as_slice());
        out.push(34);
        push_doubled(out, bytes.as_slice());
        out.push(34);
    } else if is_date(style) && is_text_no_number(text.text.as_str(), date_system) {
        let bytes = escape_ascii(text.raw.as_slice());
        out.push(34);
        push_doubled(out, bytes.as_slice());
        out.push(34);
    } else if is_date(style) {
        let field = date_field_text(text.text.as_str(), date_system);
        let bytes = field.as_str().as_bytes();
        let mut copy = vstd::slice::slice_to_vec(bytes);
        out.append(&mut copy);
    } else {
        let mut bytes = escape_ascii(text.raw.as_slice());
        out.push(34);
        out.append(&mut bytes);
        out.push(34);
    }
}

/// The text of a sheet in the making, and what has to be known of the
/// row and the cell that are being written.
pub struct CsvSink {
    /// What has been written.
    pub out: Vec<u8>,
    /// A `v` or `t` tag has been opened and not closed.
    pub in_value: bool,
    /// The type of the cell that is being written.
    pub cell_type: String,
    /// The column of the last cell that had a reference.
    pub col: u16,
    /// The commas written in this row, counted no further than 65536.
    pub pushed: u32,
    /// The columns of the used area.
    pub num_cols: u16,
    /// No cell of this row has been written yet.
    pub is_start_row: bool,
    /// The style of the cell that is being written.
    pub cell_style: String,
}

/// The column that the cell with these attributes moves the row on to: that
/// of its reference, where it has one, and `col` where it has none. None
/// where the reference is no reference or its column is not beyond `col`.
pub open spec fn next_column(attributes: Seq<Attribute>, col: int) -> Option<int> {
    match attribute_of(attributes, "r"@) {
        Some(reference) => match reference_coordinates(reference) {
            Some((new_col, row)) => if new_col > col {
                Some(new_col as int)
            } else {
                None
            },
            None => None,
        },
        None => Some(col),
    }
}

/// The commas that the cell with these attributes is owed before its text:
/// one for each column left out before it, and one to part it from the
/// cell before it in the row.
pub open spec fn cell_commas(attributes: Seq<Attribute>, col: int, is_start_row: bool) -> int {
    let gap = match attribute_of(attributes, "r"@) {
        Some(reference) => next_column(attributes, col).unwrap() - col - 1,
        None => 0,
    };
    if is_start_row {
        gap
    } else {
        gap + 1
    }
}

impl CsvSink {
    /// The commas are counted as far as they are counted, and the column
    /// is one of a sheet.
    pub open spec fn wf(&self) -> bool {
        self.col <= 16384 && self.pushed <= 65536
    }

    /// `after` is this sink once a cell with these attributes has begun:
    /// commas are written for the columns that the row has left out before
    /// it, and one more unless it is the first cell of its row.
    pub open spec fn cell_started(
        &self,
        after: &CsvSink,
        attributes: Seq<Attribute>,
        styles: Seq<String>,
    ) -> bool {
        let n = cell_commas(attributes, self.col as int, self.is_start_row);
        &&& after.out@ == self.out@ + commas(n)
        &&& after.pushed == counted(self.pushed as int, n)
        &&& Some(after.col as int) == next_column(attributes, self.col as int)
        &&& after.cell_type@ == text_or(attribute_of(attributes, "t"@), self.cell_type@)
        &&& after.cell_style@ == style_of(attributes, styles, Seq::empty())
        &&& !after.is_start_row
        &&& after.in_value == self.in_value
        &&& after.num_cols == self.num_cols
    }

    /// `after` is this sink once the row has ended: commas are written
    /// until the row has as many fields as the used area has columns, and
    /// then a line feed.
    pub open spec fn row_ended(&self, after: &CsvSink) -> bool {
        &&& after.out@ == self.out@ + commas(
            commas_owed(self.pushed as int, self.num_cols as int),
        ).push(10u8)
        &&& *after == (CsvSink { out: after.out, is_start_row: true, pushed: 0, ..*self })
    }

    /// `after` is this sink once `event` has been fed to it, and `r` tells
    /// whether the part has ended, or why the text stops. `<dimension/>`
    /// sets the columns of the used area, and fails where its range is
    /// none. `<row>` begins a row. `<c>` begins a cell, and fails where its
    /// reference is none or not to the right of the cell before it. `<v>`
    /// and `<t>` open the text of the cell and their ends close it. Inside
    /// them, character data is written as the field of the cell. `</c>`
    /// forgets the type and the style of the cell. `</row>` ends the row.
    pub open spec fn fed(
        &self,
        after: &CsvSink,
        event: XmlEvent,
        strings: Seq<String>,
        styles: Seq<String>,
        system: DateSystem,
        r: Result<bool, SheetError>,
    ) -> bool {
        let more = r == Ok::<bool, SheetError>(false);
        match event {
            XmlEvent::Empty(e) => if e.name@ == "dimension"@ {
                match attribute_of(e.attributes@, "ref"@) {
                    Some(range) => match used_area_of(range) {
                        Some((rows, cols)) => more && *after == (CsvSink {
                            num_cols: cols,
                            ..*self
                        }),
                        None => r == Err::<bool, SheetError>(SheetError::Dimension) && *after
                            == *self,
                    },
                    None => more && *after == *self,
                }
            } else {
                more && *after == *self
            },
            XmlEvent::Start(e) => if e.name@ == "row"@ {
                more && *after == (CsvSink { is_start_row: true, col: 0, ..*self })
            } else if e.name@ == "v"@ || e.name@ == "t"@ {
                more && *after == (CsvSink { in_value: true, ..*self })
            } else if e.name@ == "c"@ {
                if next_column(e.attributes@, self.col as int) is Some {
                    more && self.cell_started(after, e.attributes@, styles)
                } else {
                    r == Err::<bool, SheetError>(SheetError::Reference) && *after == *self
                }
            } else {
                more && *after == *self
            },
            XmlEvent::Text(text) => more && if self.in_value {
                after.out@ == self.out@ + field_bytes(
                    self.cell_type@,
                    text,
                    self.cell_style@,
                    strings,
                    system,
                ) && *after == (CsvSink { out: after.out, ..*self })
            } else {
                *after == *self
            },
            XmlEvent::End(name) => more && if name@ == "c"@ {
                after.cell_type@.len() == 0 && after.cell_style@.len() == 0 && *after == (CsvSink {
                    cell_type: after.cell_type,
                    cell_style: after.cell_style,
                    ..*self
                })
            } else if name@ == "v"@ || name@ == "t"@ {
                *after == (CsvSink { in_value: false, ..*self })
            } else if name@ == "row"@ {
                self.row_ended(after)
            } else {
                *after == *self
            },
            XmlEvent::Eof => r == Ok::<bool, SheetError>(true) && *after == *self,
            XmlEvent::Malformed(at) => r == Err::<bool, SheetError>(SheetError::Xml(at)) && *after
                == *self,
            XmlEvent::Other => more && *after == *self,
        }
    }

    /// A sink with nothing written.
    pub fn new() -> (r: CsvSink)
        ensures
            r.wf(),
            r.out@.len() == 0,
            !r.in_value,
            r.cell_type@.len() == 0,
            r.col == 0,
            r.pushed == 0,
            r.num_cols == 0,
            r.is_start_row,
            r.cell_style@.len() == 0,
    {
        CsvSink {
            out: Vec::new(),
            in_value: false,
            cell_type: String::new(),
            col: 0,
            pushed: 0,
            num_cols: 0,
            is_start_row: true,
            cell_style: String::new(),
        }
    }

    /// `<dimension ref="A1:D9"/>`: the columns of the used area are taken
    /// from the range. It fails where the range is none.
    pub fn take_dimension(&mut self, attributes: &[Attribute]) -> (r: Result<(), SheetError>)
        ensures
            match attribute_of(attributes@, "ref"@) {
                Some(range) => match used_area_of(range) {
                    Some((rows, cols)) => r is Ok && *final(self) == (CsvSink {
                        num_cols: cols,
                        ..*old(self)
                    }),
                    None => r == Err::<(), SheetError>(SheetError::Dimension) && *final(self)
                        == *old(self),
                },
                None => r is Ok && *final(self) == *old(self),
            },
    {
        match get(attributes, "ref") {
            Some(range) => match parse_used_area(range.as_str()) {
                Some((_, cols)) => {
                    self.num_cols = cols;
                    Ok(())
                },
                None => Err(SheetError::Dimension),
            },
            None => Ok(()),
        }
    }

    /// `<c r="REF" t="TYPE" s="IDX">`: a cell begins. Commas are written for
    /// the columns that the row has left out before it, and one more unless
    /// it is the first cell of its row. It fails where the cell's reference
    /// is none, or not to the right of the cell before it.
    pub fn start_cell(&mut self, attributes: &[Attribute], styles: &[String]) -> (r: Result<
        (),
        SheetError,
    >)
        requires
            old(self).wf(),
        ensures
            final(self).wf(),
            if next_column(attributes@, old(self).col as int) is Some {
                r is Ok && old(self).cell_started(final(self), attributes@, styles@)
            } else {
                r == Err::<(), SheetError>(SheetError::Reference) && *final(self) == *old(self)
            },
    {
        let mut gap: u32 = 0;
        let mut new_col: u16 = self.col;
        match get(attributes, "r") {
            Some(reference) => {
                match parse_reference(reference.as_str()) {
                    Some((c, _)) => {
                        if c <= self.col {
                            return Err(SheetError::Reference);
                        }
                        gap = (c - self.col - 1) as u32;
                        new_col = c;
                    },
                    None => {
                        return Err(SheetError::Reference);
                    },
                }
            },
            None => {},
        }
        self.cell_style = String::new();
        match get(attributes, "t") {
            Some(v) => {
                self.cell_type = v.clone();
            },
            None => {},
        }
        match get(attributes, "s") {
            Some(v) => {
                match number_in(v.as_str(), usize::MAX as u64) {
                    Some(k) => {
                        if k < styles.len() as u64 {
                            self.cell_style = styles[k as usize].clone();
                        }
                    },
                    None => {},
                }
            },
            None => {},
        }
        self.col = new_col;
        let n: u32 = if self.is_start_row {
            gap
        } else {
            gap + 1
        };
        self.is_start_row = false;
        push_commas(&mut self.out, n);
        self.pushed = if self.pushed + n > 65536 {
            65536
        } else {
            self.pushed + n
        };
        Ok(())
    }

    /// `</row>`: the row ends. Commas are written until it has as many
    /// fields as the used area has columns, and then a line feed.
    pub fn end_row(&mut self)
        requires
            old(self).wf(),
        ensures
            final(self).wf(),
            old(self).row_ended(final(self)),
    {
        let owed: u32 = if self.num_cols >= 1 && self.pushed < (self.num_cols - 1) as u32 {
            (self.num_cols - 1) as u32 - self.pushed
        } else {
            0
        };
        push_commas(&mut self.out, owed);
        self.out.push(10);
        self.is_start_row = true;
        self.pushed = 0;
    }

    /// What the event `event` adds to the text of the sheet. It tells
    /// whether the part has ended, and fails where the part is broken.
    pub fn feed(
        &mut self,
        event: XmlEvent,
        strings: &[String],
        styles: &[String],
        date_system: &DateSystem,
    ) -> (r: Result<bool, SheetError>)
        requires
            old(self).wf(),
        ensures
            final(self).wf(),
            old(self).fed(final(self), event, strings@, styles@, *date_system, r),
    {
        match event {
            XmlEvent::Empty(e) => {
                if same_text(e.name.as_str(), "dimension") {
                    match self.take_dimension(&e.attributes) {
                        Ok(()) => {},
                        Err(error) => {
                            return Err(error);
                        },
                    }
                }
                Ok(false)
            },
            XmlEvent::Start(e) => {
                if same_text(e.name.as_str(), "row") {
                    self.is_start_row = true;
                    self.col = 0;
                } else if same_text(e.name.as_str(), "v") || same_text(e.name.as_str(), "t") {
                    self.in_value = true;
                } else if same_text(e.name.as_str(), "c") {
                    match self.start_cell(&e.attributes, styles) {
                        Ok(()) => {},
                        Err(error) => {
                            return Err(error);
                        },
                    }
                }
                Ok(false)
            },
            XmlEvent::Text(text) => {
                if self.in_value {
                    push_field(
                        &mut self.out,
                        self.cell_type.as_str(),
                        &text,
                        &self.cell_style,
                        strings,
                        date_system,
                    );
                }
                Ok(false)
            },
            XmlEvent::End(name) => {
                if same_text(name.as_str(), "c") {
                    self.cell_type = String::new();
                    self.cell_style = String::new();
                } else if same_text(name.as_str(), "v") || same_text(name.as_str(), "t") {
                    self.in_value = false;
                } else if same_text(name.as_str(), "row") {
                    self.end_row();
                }
                Ok(false)
            },
            XmlEvent::Eof => Ok(true),
            XmlEvent::Malformed(at) => Err(SheetError::Xml(at)),
            XmlEvent::Other => Ok(false),
        }
    }
}

/// The sink is new: nothing is written, and no row or cell has begun.
pub open spec fn is_new_sink(sink: CsvSink) -> bool {
    &&& sink.out@.len() == 0
    &&& !sink.in_value
    &&& sink.cell_type@.len() == 0
    &&& sink.col == 0
    &&& sink.pushed == 0
    &&& sink.num_cols == 0
    &&& sink.is_start_row
    &&& sink.cell_style@.len() == 0
}

/// The sinks `states` are those that a new sink passes through as it is fed
/// the events `events` one by one, none of which ends the part or stops the
/// text.
pub open spec fn is_run(
    states: Seq<CsvSink>,
    events: Seq<XmlEvent>,
    strings: Seq<String>,
    styles: Seq<String>,
    system: DateSystem,
) -> bool {
    &&& states.len() == events.len() + 1
    &&& is_new_sink(states[0])
    &&& forall|i: int|
        0 <= i < events.len() ==> (#[trigger] states[i]).fed(
            &states[i + 1],
            events[i],
            strings,
            styles,
            system,
            Ok::<bool, SheetError>(false),
        )
}

/// What comes of feeding the events `events` of a part to a new sink one by
/// one: the text that the sink has written once it has taken them all, or
/// the error with which it fails on the first that it cannot take.
pub open spec fn written(
    events: Seq<XmlEvent>,
    strings: Seq<String>,
    styles: Seq<String>,
    system: DateSystem,
    r: Result<Vec<u8>, SheetError>,
) -> bool {
    exists|states: Seq<CsvSink>, k: int|
        0 <= k <= events.len() && #[trigger] is_run(
            states,
            events.take(k),
            strings,
            styles,
            system,
        ) && match r {
            Ok(out) => k == events.len() && out@ == states.last().out@,
            Err(error) => k < events.len() && exists|after: CsvSink| #[trigger]
                states.last().fed(
                    &after,
                    events[k],
                    strings,
                    styles,
                    system,
                    Err::<bool, SheetError>(error),
                ),
        }
}

/// In a row whose cells all have references, the commas written up to a
/// cell are one less than the column of the cell: none before the first
/// cell but those of the columns left out, and as many on from each cell
/// as the next lies further right.
pub proof fn lemma_cell_commas(
    attributes: Seq<Attribute>,
    col: int,
    pushed: int,
    is_start_row: bool,
)
    requires
        attribute_of(attributes, "r"@) is Some,
        next_column(attributes, col) is Some,
        0 <= col <= 16384,
        is_start_row ==> col == 0 && pushed == 0,
        !is_start_row ==> col >= 1 && pushed == col - 1,
    ensures
        counted(pushed, cell_commas(attributes, col, is_start_row)) == next_column(
            attributes,
            col,
        ).unwrap() - 1,
{
}

/// A row that has written no more commas than the used area has columns
/// but one ends with one comma less than the used area has columns.
pub proof fn lemma_line_commas(pushed: int, num_cols: int)
    requires
        num_cols >= 1,
        0 <= pushed <= num_cols - 1,
    ensures
        pushed + commas_owed(pushed, num_cols) == num_cols - 1,
{
}

} // verus!
