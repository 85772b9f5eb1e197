//! Values, cells and rows as text.

use crate::calendar::{format_date, format_time, iso_date, iso_millis, iso_time, text_of_date,
    text_of_time};
use crate::model::{Cell, ExcelValue, Row, ValueView};
use crate::sheet::text_or;
use vstd::prelude::*;
use vstd::string::StringExecFns;

verus! {

/// The text of a value. A truth value is `true` or `false`. A string
/// stands between double quotes. A number is the text that writes it. A
/// date, a time and a date with a time are written as chrono writes
/// them, the date before the time. An error has a `#` before it. No
/// value is no text.
pub open spec fn value_text(v: ValueView) -> Seq<char> {
    match v {
        ValueView::Bool(b) => if b {
            "true"@
        } else {
            "false"@
        },
        ValueView::Date(d) => text_or(text_of_date(d), Seq::empty()),
        ValueView::DateTime(d) => match (text_of_date(d.date), text_of_time(d.time)) {
            (Some(day), Some(time)) => (day + " "@) + time,
            _ => Seq::empty(),
        },
        ValueView::Error(e) => "#"@ + e,
        ValueView::Empty => Seq::empty(),
        ValueView::Number(n) => n,
        ValueView::String(s) => ("\""@ + s) + "\""@,
        ValueView::Time(t) => text_or(text_of_time(t), Seq::empty()),
    }
}

/// The text of a row: the texts of its cells with commas between them.
pub open spec fn row_text(cells: Seq<Cell>) -> Seq<char>
    decreases cells.len(),
{
    if cells.len() == 0 {
        Seq::empty()
    } else if cells.len() == 1 {
        value_text(cells[0].value@)
    } else {
        (row_text(cells.drop_last()) + ","@) + value_text(cells.last().value@)
    }
}

impl ExcelValue {
    /// The value as text.
    pub fn to_text(&self) -> (r: String)
        ensures
            r@ == value_text(self@),
            self@ matches ValueView::Date(d) ==> (0 <= d.year <= 9999 && text_of_date(d) is Some
                ==> r@ == iso_date(d.year as int, d.month as int, d.day as int)),
            self@ matches ValueView::DateTime(d) ==> (0 <= d.date.year <= 9999 && d.time.millisecond
                < 1000 && text_of_date(d.date) is Some && text_of_time(d.time) is Some ==> r@ == (
            iso_date(d.date.year as int, d.date.month as int, d.date.day as int) + " "@) + (iso_time(
                d.time.hour as int,
                d.time.minute as int,
                d.time.second as int,
            ) + iso_millis(d.time.millisecond as int))),
    {
        match self {
            ExcelValue::Bool(b) => if *b {
                String::from_str("true")
            } else {
                String::from_str("false")
            },
            ExcelValue::Date(d) => match format_date(d) {
                Some(s) => s,
                None => String::new(),
            },
            ExcelValue::DateTime(d) => match (format_date(&d.date), format_time(&d.time)) {
                (Some(day), Some(time)) => {
                    let mut s = day;
                    s.append(" ");
                    s.append(time.as_str());
                    s
                },
                _ => String::new(),
            },
            ExcelValue::Error(e) => {
                let mut s = String::from_str("#");
                s.append(e.as_str());
                s
            },
            ExcelValue::Empty => String::new(),
            ExcelValue::Number(n) => n.clone(),
            ExcelValue::String(text) => {
                let mut s = String::from_str("\"");
                s.append(text.as_str());
                s.append("\"");
                s
            },
            ExcelValue::Time(t) => match format_time(t) {
                Some(s) => s,
                None => String::new(),
            },
        }
    }
}

impl Cell {
    /// The cell as text: the text of its value.
    pub fn to_text(&self) -> (r: String)
        ensures
            r@ == value_text(self.value@),
    {
        self.value.to_text()
    }
}

impl Row {
    /// The row as text: its cells, with commas between them.
    pub fn to_text(&self) -> (r: String)
        ensures
            r@ == row_text(self.0@),
    {
        let mut s = String::new();
        let mut i: usize = 0;
        while i < self.0.len()
            invariant
                i <= self.0@.len(),
                s@ == row_text(self.0@.take(i as int)),
            decreases self.0@.len() - i,
        {
            proof {
                let t = self.0@.take(i as int + 1);
                assert(t.drop_last() == self.0@.take(i as int));
            }
            if i != 0 {
                s.append(",");
            }
            let v = self.0[i].to_text();
            s.append(v.as_str());
            i = i + 1;
        }
        assert(self.0@.take(i as int) == self.0@);
        s
    }

    /// The cell at the place `column_index` of the row, 0 for the first, if
    /// the row is that long.
    pub fn get(&self, column_index: u16) -> (c: Option<&Cell>)
        ensures
            c is Some <==> column_index < self.0@.len(),
            c matches Some(cell) ==> *cell == self.0@[column_index as int],
    {
        if (column_index as usize) < self.0.len() {
            Some(&self.0[column_index as usize])
        } else {
            None
        }
    }

    /// The cell at the place `column_index` of the row, 0 for the first.
    pub fn cell(&self, column_index: u16) -> (c: &Cell)
        requires
            column_index < self.0@.len(),
        ensures
            *c == self.0@[column_index as int],
    {
        &self.0[column_index as usize]
    }
}

} // verus!
