//! The join of two tables: from records, key specs and options to the
//! joined table and its keys output.

use vstd::prelude::*;
use crate::columns::{lemma_resolved_fits, resolve_spec, ColumnSpec};
use crate::driver::{
    append_tail, key_fields_of, lemma_unmarked_is_tail, stream, tables_of, Streamed,
};
use crate::error::JoinError;
use crate::mode::{select_mode, JoinMode, ModeFlags};
use crate::model::{joined, sel_fits, KeysV, OutputV, RowV, Tables};
use crate::rows::{concat_rows, copy_row, lemma_rows_push};
use crate::table::{consistent, data_rows, first_record, width_of, Table};

verus! {

/// The view of a row that may be absent.
pub open spec fn row_view(row: Option<Vec<String>>) -> Option<RowV> {
    match row {
        Some(r) => Some(r.deep_view()),
        None => None,
    }
}

/// The keys output: the distinct keys that the join classified, in the
/// order in which the streamed table first showed them.
pub struct KeysOutput {
    /// The names of the key columns of the streamed table, where the
    /// tables have headers.
    pub header: Option<Vec<String>>,
    /// One row of key fields per recorded key.
    pub rows: Vec<Vec<String>>,
}

impl View for KeysOutput {
    type V = KeysV;

    open spec fn view(&self) -> KeysV {
        KeysV { header: row_view(self.header), rows: self.rows.deep_view() }
    }
}

/// What a join produces.
pub struct JoinOutput {
    /// The header of the joined table, where the tables have headers.
    pub header: Option<Vec<String>>,
    /// The data rows of the joined table, in output order.
    pub rows: Vec<Vec<String>>,
    /// The keys output, where it was asked for and the mode has keys.
    pub keys: Option<KeysOutput>,
}

impl View for JoinOutput {
    type V = OutputV;

    open spec fn view(&self) -> OutputV {
        OutputV {
            header: row_view(self.header),
            rows: self.rows.deep_view(),
            keys: match self.keys {
                Some(k) => Some(k@),
                None => None,
            },
        }
    }
}

/// The records of a table with an optional header in front.
pub open spec fn with_header(header: Option<RowV>, rows: Seq<RowV>) -> Seq<RowV> {
    match header {
        Some(h) => seq![h] + rows,
        None => rows,
    }
}

fn records_of(header: &Option<Vec<String>>, rows: &Vec<Vec<String>>) -> (records: Vec<Vec<String>>)
    ensures
        records.deep_view() == with_header(row_view(*header), rows.deep_view()),
{
    let mut records: Vec<Vec<String>> = Vec::new();
    match header {
        Some(h) => {
            let ghost before = records;
            let first = copy_row(h);
            records.push(first);
            proof {
                lemma_rows_push(before, records, first);
            }
        },
        None => {},
    }
    let ghost base = records.deep_view();
    assert(base =~= match row_view(*header) {
        Some(h) => seq![h],
        None => Seq::<RowV>::empty(),
    });
    let mut i: usize = 0;
    while i < rows.len()
        invariant
            0 <= i <= rows.len(),
            records.deep_view() == base + rows.deep_view().take(i as int),
        decreases rows.len() - i,
    {
        let ghost before = records;
        let row = copy_row(&rows[i]);
        records.push(row);
        proof {
            lemma_rows_push(before, records, row);
            assert(rows.deep_view()[i as int] == rows[i as int].deep_view());
            assert(records.deep_view() =~= base + rows.deep_view().take(i + 1));
        }
        i = i + 1;
    }
    proof {
        assert(rows.deep_view().take(rows.len() as int) =~= rows.deep_view());
    }
    records
}

impl KeysOutput {
    /// The keys output as the records of a table: the header, where there
    /// is one, then the key rows.
    pub fn records(&self) -> (records: Vec<Vec<String>>)
        ensures
            records.deep_view() == with_header(self@.header, self@.rows),
    {
        records_of(&self.header, &self.rows)
    }
}

impl JoinOutput {
    /// The joined table as the records of a table: the header, where there
    /// is one, then the data rows.
    pub fn records(&self) -> (records: Vec<Vec<String>>)
        ensures
            records.deep_view() == with_header(self@.header, self@.rows),
    {
        records_of(&self.header, &self.rows)
    }
}

/// The header rows of two tables, where both have one.
pub open spec fn names_of(left: &Table, right: &Table) -> Option<(RowV, RowV)> {
    if left.headed() {
        Some((left.first(), right.first()))
    } else {
        None
    }
}

/// Joins two tables in the store on the given key columns. The streamed
/// table is looked up row by row in an index of the other table; the
/// result holds the output rows in the order in which a sequential pass
/// produces them.
pub fn join_tables(
    left: &Table,
    left_sel: &ColumnSpec,
    right: &Table,
    right_sel: &ColumnSpec,
    mode: JoinMode,
    fold: bool,
    want_keys: bool,
) -> (out: JoinOutput)
    requires
        left.wf(),
        right.wf(),
        left.headed() == right.headed(),
        sel_fits(left_sel@, left.width() as int),
        sel_fits(right_sel@, right.width() as int),
    ensures
        out@ == joined(
            tables_of(left, left_sel, right, right_sel, fold),
            mode,
            names_of(left, right),
            want_keys,
        ),
{
    let ghost t = tables_of(left, left_sel, right, right_sel, fold);
    let swapped = mode.streams_right();
    let marking = mode.has_tail();
    let cross = match mode {
        JoinMode::Cross => true,
        _ => false,
    };
    let recording = want_keys && !cross;
    let done = if swapped {
        stream(mode, right, right_sel, left, left_sel, fold, marking, recording)
    } else {
        stream(mode, left, left_sel, right, right_sel, fold, marking, recording)
    };
    let Streamed { rows, marks, recorder } = done;
    let mut rows = rows;
    if marking {
        append_tail(&mut rows, right, &marks, left.field_count());
        proof {
            lemma_unmarked_is_tail(t.sides(mode), marks@, right.rows().len());
        }
    }
    let header = if left.has_header() {
        let l = left.first_row();
        let r = right.first_row();
        Some(
            match mode {
                JoinMode::LeftSemi | JoinMode::LeftAnti => l,
                JoinMode::RightSemi | JoinMode::RightAnti => r,
                _ => concat_rows(&l, &r),
            },
        )
    } else {
        None
    };
    let keys = if recording {
        let key_header = if left.has_header() {
            if swapped {
                let r = right.first_row();
                proof {
                    lemma_first_width(right);
                }
                Some(key_fields_of(&r, right_sel))
            } else {
                let l = left.first_row();
                proof {
                    lemma_first_width(left);
                }
                Some(key_fields_of(&l, left_sel))
            }
        } else {
            None
        };
        Some(KeysOutput { header: key_header, rows: recorder.into_rows() })
    } else {
        None
    };
    JoinOutput { header, rows, keys }
}

/// The first record of a table has the table's width.
pub proof fn lemma_first_width(table: &Table)
    ensures
        table.first().len() == table.width(),
{
}

/// The options of a join request.
#[derive(Clone, Copy, Debug)]
pub struct JoinOptions {
    /// The tables have no header row: every record is data, and key specs
    /// give positions.
    pub no_headers: bool,
    /// Keys are compared without regard to ASCII case.
    pub ignore_case: bool,
    /// The mode switches; none set means the inner join.
    pub modes: ModeFlags,
    /// The keys output is wanted.
    pub keys_output: bool,
}

impl JoinOptions {
    /// The inner join of tables with headers, case-sensitive, without keys
    /// output.
    pub fn new() -> (options: JoinOptions)
        ensures
            !options.no_headers,
            !options.ignore_case,
            !options.keys_output,
            options.modes.count() == 0,
    {
        JoinOptions {
            no_headers: false,
            ignore_case: false,
            modes: ModeFlags::none(),
            keys_output: false,
        }
    }
}

/// The outcome of a join request, decided in this order. Two or more mode
/// switches are a usage error. A cross join takes no key spec, and every
/// other mode needs one for each table. Each spec is then resolved against
/// the first record of its table, and both must select the same number of
/// columns. Only then are the records read: every record of a table must
/// have the field count of the first one. A request that passes all of
/// this is joined.
pub open spec fn join_outcome(
    left: Seq<RowV>,
    left_spec: Seq<char>,
    right: Seq<RowV>,
    right_spec: Seq<char>,
    options: JoinOptions,
) -> Result<OutputV, JoinError> {
    let mode = options.modes.chosen();
    let named = !options.no_headers;
    let left_sel = resolve_spec(left_spec, first_record(left), named);
    let right_sel = resolve_spec(right_spec, first_record(right), named);
    if options.modes.count() > 1 {
        Err(JoinError::ConflictingModes)
    } else if mode == JoinMode::Cross && (left_spec.len() > 0 || right_spec.len() > 0) {
        Err(JoinError::KeySpecOnCross)
    } else if mode != JoinMode::Cross && (left_spec.len() == 0 || right_spec.len() == 0) {
        Err(JoinError::MissingKeySpec)
    } else if left_sel is None || right_sel is None {
        Err(JoinError::InvalidColumn)
    } else if left_sel->0.len() != right_sel->0.len() {
        Err(JoinError::KeyCountMismatch)
    } else if !consistent(left) || !consistent(right) {
        Err(JoinError::Parse)
    } else {
        Ok(
            joined(
                Tables {
                    left: data_rows(left, named),
                    right: data_rows(right, named),
                    left_sel: left_sel->0,
                    right_sel: right_sel->0,
                    left_width: width_of(left),
                    right_width: width_of(right),
                    fold: options.ignore_case,
                },
                mode,
                if named {
                    Some((first_record(left), first_record(right)))
                } else {
                    None
                },
                options.keys_output,
            ),
        )
    }
}

fn resolve_for(spec: &str, records: &Vec<Vec<String>>, named: bool) -> (r: Result<
    ColumnSpec,
    JoinError,
>)
    ensures
        match r {
            Ok(sel) => resolve_spec(spec@, first_record(records.deep_view()), named) == Some(sel@)
                && sel_fits(sel@, width_of(records.deep_view()) as int),
            Err(e) => e == JoinError::InvalidColumn && resolve_spec(
                spec@,
                first_record(records.deep_view()),
                named,
            ) is None,
        },
{
    let r = if records.len() > 0 {
        assert(records.deep_view()[0] == records[0].deep_view());
        ColumnSpec::parse(spec, &records[0], named)
    } else {
        let none: Vec<String> = Vec::new();
        assert(none.deep_view() =~= Seq::<Seq<char>>::empty());
        ColumnSpec::parse(spec, &none, named)
    };
    proof {
        if r is Ok {
            lemma_resolved_fits(spec@, first_record(records.deep_view()), named);
        }
    }
    r
}

/// The view of what a join returns.
pub open spec fn result_view(r: Result<JoinOutput, JoinError>) -> Result<OutputV, JoinError> {
    match r {
        Ok(out) => Ok(out@),
        Err(e) => Err(e),
    }
}

/// Joins two tables given as records. `left_spec` and `right_spec` name
/// the key columns of each table. Nothing is produced when the request is
/// refused; which error is returned, and when, is what [`join_outcome`]
/// says.
pub fn join(
    left: Vec<Vec<String>>,
    left_spec: &str,
    right: Vec<Vec<String>>,
    right_spec: &str,
    options: &JoinOptions,
) -> (r: Result<JoinOutput, JoinError>)
    ensures
        result_view(r) == join_outcome(
            left.deep_view(),
            left_spec@,
            right.deep_view(),
            right_spec@,
            *options,
        ),
{
    let mode = match select_mode(&options.modes) {
        Ok(mode) => mode,
        Err(e) => {
            return Err(e);
        },
    };
    let cross = match mode {
        JoinMode::Cross => true,
        _ => false,
    };
    let no_left = left_spec.is_empty();
    let no_right = right_spec.is_empty();
    if cross && !(no_left && no_right) {
        return Err(JoinError::KeySpecOnCross);
    }
    if !cross && (no_left || no_right) {
        return Err(JoinError::MissingKeySpec);
    }
    let named = !options.no_headers;
    let left_sel = match resolve_for(left_spec, &left, named) {
        Ok(sel) => sel,
        Err(e) => {
            return Err(e);
        },
    };
    let right_sel = match resolve_for(right_spec, &right, named) {
        Ok(sel) => sel,
        Err(e) => {
            return Err(e);
        },
    };
    if left_sel.len() != right_sel.len() {
        return Err(JoinError::KeyCountMismatch);
    }
    let left_table = match Table::from_records(left, named) {
        Ok(t) => t,
        Err(e) => {
            return Err(e);
        },
    };
    let right_table = match Table::from_records(right, named) {
        Ok(t) => t,
        Err(e) => {
            return Err(e);
        },
    };
    Ok(
        join_tables(
            &left_table,
            &left_sel,
            &right_table,
            &right_sel,
            mode,
            options.ignore_case,
            options.keys_output,
        ),
    )
}

} // verus!
