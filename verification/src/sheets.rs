//! The sheets of the exported workbook, cell by cell.

use vstd::prelude::*;
use vstd::string::*;

use crate::automations::host;
use crate::automations::host::{Answer, Ask, Oracle};
use crate::calendar;
use crate::calendar::{format_utc, Stamp};
use crate::energy;
use crate::energy::{row_total, ExportRow, ExportRowModel};
use crate::table;

verus! {

/// What a cell of a sheet holds.
#[derive(Debug, PartialEq, Eq)]
pub enum Cell {
    Blank,
    Text(String),
    /// The bit pattern of a double.
    Value(u64),
}

/// The contents of `Cell`.
#[verifier::ext_equal]
pub enum CellModel {
    Blank,
    Text(Seq<char>),
    Value(u64),
}

impl DeepView for Cell {
    type V = CellModel;

    open spec fn deep_view(&self) -> CellModel {
        match self {
            Cell::Blank => CellModel::Blank,
            Cell::Text(s) => CellModel::Text(s@),
            Cell::Value(bits) => CellModel::Value(*bits),
        }
    }
}

/// A device that could not be read for a sheet.
pub struct ExportError {
    pub sheet_name: String,
    pub device_name: String,
    pub message: String,
}

/// The contents of `ExportError`.
#[verifier::ext_equal]
pub struct ExportErrorModel {
    pub sheet_name: Seq<char>,
    pub device_name: Seq<char>,
    pub message: Seq<char>,
}

impl DeepView for ExportError {
    type V = ExportErrorModel;

    open spec fn deep_view(&self) -> ExportErrorModel {
        ExportErrorModel {
            sheet_name: self.sheet_name@,
            device_name: self.device_name@,
            message: self.message@,
        }
    }
}

// ---------- Readings ----------

/// The headings: the moment, one for each device, and the total.
pub open spec fn headings(names: Seq<Seq<char>>) -> Seq<CellModel> {
    seq![CellModel::Text("Timestamp"@)] + names.map_values(|name: Seq<char>| CellModel::Text(name)) + seq![
        CellModel::Text("Total"@),
    ]
}

/// A moment in words; blank where the calendar does not hold it.
pub open spec fn moment_cell(at: Stamp) -> CellModel {
    match calendar::utc_text(at.seconds, at.nanos) {
        Some(s) => CellModel::Text(s),
        None => CellModel::Blank,
    }
}

/// What a device used; blank where there is no reading of it.
pub open spec fn reading_cell(values: Seq<(Seq<char>, u64)>, name: Seq<char>) -> CellModel {
    match table::lookup(values, name) {
        Some(bits) => CellModel::Value(bits),
        None => CellModel::Blank,
    }
}

/// The cells of a row: its moment, what each device used, and what all used
/// together.
pub open spec fn row_cells(names: Seq<Seq<char>>, row: ExportRowModel, o: Oracle) -> Seq<CellModel> {
    seq![moment_cell(row.timestamp)] + names.map_values(|name: Seq<char>| reading_cell(row.values, name)) + seq![
        CellModel::Value(energy::sum_of(row.values, row.values.len() as int, o)),
    ]
}

/// The cells of a sheet: the headings, and below them the rows.
pub open spec fn sheet(names: Seq<Seq<char>>, rows: Seq<ExportRowModel>, o: Oracle) -> Seq<Seq<CellModel>> {
    seq![headings(names)] + rows.map_values(|row: ExportRowModel| row_cells(names, row, o))
}

fn write_headings(names: &Vec<String>) -> (r: Vec<Cell>)
    ensures
        r.deep_view() == headings(names.deep_view()),
{
    let ghost m = names.deep_view();
    let mut r: Vec<Cell> = Vec::new();
    r.push(Cell::Text("Timestamp".to_owned()));
    let mut i: usize = 0;
    while i < names.len()
        invariant
            i <= names@.len(),
            m == names.deep_view(),
            r@.len() == i + 1,
            forall|j: int| 0 <= j < i + 1 ==> (#[trigger] r@[j]).deep_view() == headings(m)[j],
        decreases names@.len() - i,
    {
        r.push(Cell::Text(names[i].clone()));
        i = i + 1;
    }
    r.push(Cell::Text("Total".to_owned()));
    proof {
        assert(r.deep_view() =~= headings(m));
    }
    r
}

fn write_row<H: Fn(Ask) -> Answer>(names: &Vec<String>, row: &ExportRow, host: &H) -> (r: Vec<Cell>)
    requires
        host::faithful(*host),
    ensures
        r.deep_view() == row_cells(names.deep_view(), row.deep_view(), host::oracle(*host)),
{
    let ghost m = names.deep_view();
    let ghost row_model = row.deep_view();
    let ghost o = host::oracle(*host);
    let mut r: Vec<Cell> = Vec::new();
    r.push(
        match format_utc(row.timestamp.seconds, row.timestamp.nanos) {
            Some(s) => Cell::Text(s),
            None => Cell::Blank,
        },
    );
    let mut i: usize = 0;
    while i < names.len()
        invariant
            i <= names@.len(),
            m == names.deep_view(),
            row_model == row.deep_view(),
            r@.len() == i + 1,
            forall|j: int| 0 <= j < i + 1 ==> (#[trigger] r@[j]).deep_view() == row_cells(m, row_model, o)[j],
        decreases names@.len() - i,
    {
        r.push(
            match row.values.get(names[i].as_str()) {
                Some(bits) => Cell::Value(*bits),
                None => Cell::Blank,
            },
        );
        i = i + 1;
    }
    r.push(Cell::Value(row_total(row, host)));
    proof {
        assert(r.deep_view() =~= row_cells(m, row_model, o));
    }
    r
}

/// The cells of a sheet: a row of headings, then a row for each moment, with a
/// column for each device and one for the total.
pub fn sheet_cells<H: Fn(Ask) -> Answer>(names: &Vec<String>, rows: &Vec<ExportRow>, host: &H) -> (cells: Vec<
    Vec<Cell>,
>)
    requires
        host::faithful(*host),
    ensures
        cells.deep_view() == sheet(names.deep_view(), rows.deep_view(), host::oracle(*host)),
{
    let ghost m = names.deep_view();
    let ghost all = rows.deep_view();
    let ghost o = host::oracle(*host);
    let mut cells: Vec<Vec<Cell>> = Vec::new();
    cells.push(write_headings(names));
    let mut i: usize = 0;
    while i < rows.len()
        invariant
            host::faithful(*host),
            o == host::oracle(*host),
            i <= rows@.len(),
            m == names.deep_view(),
            all == rows.deep_view(),
            cells@.len() == i + 1,
            forall|j: int| 0 <= j < i + 1 ==> (#[trigger] cells@[j]).deep_view() == sheet(m, all, o)[j],
        decreases rows@.len() - i,
    {
        proof {
            assert(all[i as int] == rows@[i as int].deep_view());
        }
        cells.push(write_row(names, &rows[i], host));
        i = i + 1;
    }
    proof {
        assert(cells.deep_view() =~= sheet(m, all, o));
    }
    cells
}

// ---------- Errors ----------

/// The headings of the sheet of errors.
pub open spec fn error_headings() -> Seq<CellModel> {
    seq![CellModel::Text("Sheet"@), CellModel::Text("Device"@), CellModel::Text("Error"@)]
}

/// The cells of an error.
pub open spec fn error_row(e: ExportErrorModel) -> Seq<CellModel> {
    seq![CellModel::Text(e.sheet_name), CellModel::Text(e.device_name), CellModel::Text(e.message)]
}

/// The cells of the sheet of errors; there is no such sheet where there are
/// none.
pub open spec fn error_sheet(errors: Seq<ExportErrorModel>) -> Option<Seq<Seq<CellModel>>> {
    if errors.len() == 0 {
        None
    } else {
        Some(seq![error_headings()] + errors.map_values(|e: ExportErrorModel| error_row(e)))
    }
}

fn three_texts(a: &str, b: &str, c: &str) -> (r: Vec<Cell>)
    ensures
        r.deep_view() == seq![CellModel::Text(a@), CellModel::Text(b@), CellModel::Text(c@)],
{
    let mut r: Vec<Cell> = Vec::new();
    r.push(Cell::Text(a.to_owned()));
    r.push(Cell::Text(b.to_owned()));
    r.push(Cell::Text(c.to_owned()));
    proof {
        assert(r.deep_view() =~= seq![CellModel::Text(a@), CellModel::Text(b@), CellModel::Text(c@)]);
    }
    r
}

/// The cells of the sheet of errors: a row of headings, then a row for each
/// device that could not be read for a sheet.
pub fn error_cells(errors: &Vec<ExportError>) -> (cells: Option<Vec<Vec<Cell>>>)
    ensures
        cells.deep_view() == error_sheet(errors.deep_view()),
{
    let ghost all = errors.deep_view();
    if errors.len() == 0 {
        return None;
    }
    let mut cells: Vec<Vec<Cell>> = Vec::new();
    cells.push(three_texts("Sheet", "Device", "Error"));
    let mut i: usize = 0;
    while i < errors.len()
        invariant
            0 < errors@.len(),
            i <= errors@.len(),
            all == errors.deep_view(),
            cells@.len() == i + 1,
            forall|j: int| 0 <= j < i + 1 ==> (#[trigger] cells@[j]).deep_view() == (error_sheet(all)->0)[j],
        decreases errors@.len() - i,
    {
        let e = &errors[i];
        proof {
            assert(all[i as int] == e.deep_view());
        }
        cells.push(three_texts(e.sheet_name.as_str(), e.device_name.as_str(), e.message.as_str()));
        i = i + 1;
    }
    proof {
        assert(cells.deep_view() =~= error_sheet(all)->0);
    }
    Some(cells)
}

/// A sheet has a row of headings and a row for each moment. In each row the
/// moment comes first, the device of each heading has its reading under it, or
/// a blank where it has none, and the total comes last.
pub proof fn sheets_put_readings_under_their_device(
    names: Seq<Seq<char>>,
    rows: Seq<ExportRowModel>,
    o: Oracle,
    r: int,
    k: int,
)
    requires
        0 <= r < rows.len(),
        0 <= k < names.len(),
    ensures
        ({
            let s = sheet(names, rows, o);
            &&& s.len() == rows.len() + 1
            &&& s[0].len() == names.len() + 2 && s[r + 1].len() == names.len() + 2
            &&& s[0][0] == CellModel::Text("Timestamp"@) && s[0][k + 1] == CellModel::Text(names[k]) && s[0].last()
                == CellModel::Text("Total"@)
            &&& table::lookup(rows[r].values, names[k]) matches Some(bits) ==> s[r + 1][k + 1] == CellModel::Value(bits)
            &&& table::lookup(rows[r].values, names[k]) is None ==> s[r + 1][k + 1] is Blank
            &&& s[r + 1].last() == CellModel::Value(energy::sum_of(rows[r].values, rows[r].values.len() as int, o))
            &&& calendar::utc_text(rows[r].timestamp.seconds, rows[r].timestamp.nanos) matches Some(at)
                ==> s[r + 1][0] == CellModel::Text(at)
        }),
{
    let s = sheet(names, rows, o);
    assert(s[r + 1] == row_cells(names, rows[r], o));
    assert(s[0] == headings(names));
}

/// The errors have a sheet of their own, one row each with the sheet, the device
/// and what was said; without errors there is none.
pub proof fn errors_have_their_own_sheet(errors: Seq<ExportErrorModel>, i: int)
    ensures
        error_sheet(errors) is None <==> errors.len() == 0,
        error_sheet(errors) matches Some(s) ==> s.len() == errors.len() + 1 && (0 <= i < errors.len() ==> s[i + 1].len()
            == 3 && s[i + 1][0] == CellModel::Text(errors[i].sheet_name) && s[i + 1][1] == CellModel::Text(
            errors[i].device_name,
        ) && s[i + 1][2] == CellModel::Text(errors[i].message)),
{
    if errors.len() > 0 && 0 <= i < errors.len() {
        let s = error_sheet(errors)->0;
        assert(s[i + 1] == error_row(errors[i]));
    }
}

} // verus!
