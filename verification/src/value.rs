//! From the text of a cell to its value.

use crate::decimal::{is_float, is_float_text};
use crate::model::{DateSystem, ExcelValue, ValueView};
use crate::number::{bounded_number, parse_number};
use crate::serial::{conversion_of_text, excel_number_to_date, parse_serial, DateConversion};
use crate::style::{is_date, style_is_date};
use crate::text::{chars_of, same_chars};
use vstd::prelude::*;

verus! {

/// The value of a cell without a type of its own: a date or a time where
/// the style is one of a date and the text a serial that stands for one, the
/// text as a number where it writes one, and the text as a string where it
/// does not.
pub open spec fn number_value(raw: Seq<char>, dated: bool, system: DateSystem) -> ValueView {
    let conversion = if dated {
        conversion_of_text(raw, system)
    } else {
        DateConversion::Number
    };
    match conversion {
        DateConversion::Date(d) => ValueView::Date(d),
        DateConversion::DateTime(d) => ValueView::DateTime(d),
        DateConversion::Time(t) => ValueView::Time(t),
        DateConversion::Number => if is_float_text(raw) {
            ValueView::Number(raw)
        } else {
            ValueView::String(raw)
        },
    }
}

/// The shared string that the text `raw` points at, or the text itself
/// where it is no index into `strings`.
pub open spec fn shared_string(raw: Seq<char>, strings: Seq<String>) -> Seq<char> {
    match bounded_number(raw, usize::MAX as int) {
        Some(pos) => if pos < strings.len() {
            strings[pos]@
        } else {
            raw
        },
        None => raw,
    }
}

/// The value of a cell of the type `cell_type` whose text is `raw` and whose
/// style is `style`.
pub open spec fn value_of(
    cell_type: Seq<char>,
    raw: Seq<char>,
    style: Seq<char>,
    strings: Seq<String>,
    system: DateSystem,
) -> ValueView {
    if cell_type == "s"@ {
        ValueView::String(shared_string(raw, strings))
    } else if cell_type == "str"@ || cell_type == "inlineStr"@ {
        ValueView::String(raw)
    } else if cell_type == "b"@ {
        ValueView::Bool(raw != "0"@)
    } else if cell_type == "bl"@ {
        ValueView::Empty
    } else if cell_type == "e"@ {
        ValueView::Error(raw)
    } else {
        number_value(raw, style_is_date(style), system)
    }
}

/// Whether `a` and `b` are the same text.
pub fn same_text(a: &str, b: &str) -> (r: bool)
    ensures
        r == (a@ == b@),
{
    let x = chars_of(a);
    let y = chars_of(b);
    same_chars(&x, &y)
}

/// The shared string that the text `raw` points at, or the text itself
/// where it is no index into `strings`.
pub fn resolve_shared(raw: &str, strings: &[String]) -> (r: String)
    ensures
        r@ == shared_string(raw@, strings@),
{
    let chars = chars_of(raw);
    assert(chars@.subrange(0, chars@.len() as int) == raw@);
    match parse_number(&chars, 0, chars.len(), usize::MAX as u64) {
        Some(pos) => {
            if pos < strings.len() as u64 {
                strings[pos as usize].clone()
            } else {
                raw.to_owned()
            }
        },
        None => raw.to_owned(),
    }
}

/// The value of a cell without a type of its own.
pub fn numeric_value(raw: &str, dated: bool, date_system: &DateSystem) -> (r: ExcelValue)
    ensures
        r@ == number_value(raw@, dated, *date_system),
{
    if dated {
        match parse_serial(raw) {
            Some(serial) => {
                match excel_number_to_date(serial, date_system) {
                    DateConversion::Date(d) => {
                        return ExcelValue::Date(d);
                    },
                    DateConversion::DateTime(d) => {
                        return ExcelValue::DateTime(d);
                    },
                    DateConversion::Time(t) => {
                        return ExcelValue::Time(t);
                    },
                    DateConversion::Number => {},
                }
            },
            None => {},
        }
    }
    if is_float(raw) {
        ExcelValue::Number(raw.to_owned())
    } else {
        ExcelValue::String(raw.to_owned())
    }
}

/// The value of a cell of the type `cell_type` whose text is `raw` and whose
/// style is `style`.
pub fn cell_value(
    cell_type: &str,
    raw: &str,
    style: &String,
    strings: &[String],
    date_system: &DateSystem,
) -> (r: ExcelValue)
    ensures
        r@ == value_of(cell_type@, raw@, style@, strings@, *date_system),
{
    if same_text(cell_type, "s") {
        ExcelValue::String(resolve_shared(raw, strings))
    } else if same_text(cell_type, "str") || same_text(cell_type, "inlineStr") {
        ExcelValue::String(raw.to_owned())
    } else if same_text(cell_type, "b") {
        ExcelValue::Bool(!same_text(raw, "0"))
    } else if same_text(cell_type, "bl") {
        ExcelValue::Empty
    } else if same_text(cell_type, "e") {
        ExcelValue::Error(raw.to_owned())
    } else {
        numeric_value(raw, is_date(style), date_system)
    }
}

} // verus!
