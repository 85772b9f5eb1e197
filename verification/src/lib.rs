//! Streaming reader for SpreadsheetML workbooks: the sheets of a workbook,
//! and the cells of a sheet as typed values, row by row.

pub mod calendar;
pub mod column;
pub mod csv;
pub mod decimal;
pub mod model;
pub mod number;
pub mod parts;
pub mod reference;
pub mod render;
pub mod serial;
pub mod sheet;
pub mod style;
pub mod text;
pub mod value;
pub mod workbook;
pub mod xml;

pub use column::{col_letter_to_num, col_num_to_letter};
pub use model::{Cell, Date, DateSystem, DateTime, ExcelValue, Row, Time};
pub use reference::{coordinates, used_area};
pub use sheet::{RowIter, SheetError, SheetReader};
pub use style::is_date;
pub use workbook::{SheetMap, Workbook, WorkbookError, Worksheet};
