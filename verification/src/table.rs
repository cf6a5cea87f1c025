//! The row store: one table held in memory, every row of the same width.

use vstd::prelude::*;
use crate::error::JoinError;
use crate::model::{rows_have_width, RowV};

verus! {

/// The field count of a table: that of its first record, 0 without one.
pub open spec fn width_of(records: Seq<RowV>) -> nat {
    if records.len() == 0 {
        0
    } else {
        records[0].len()
    }
}

/// Whether every record has the field count of the first one.
pub open spec fn consistent(records: Seq<RowV>) -> bool {
    rows_have_width(records, width_of(records) as int)
}

/// The first record of a table, or the empty row for a table without one.
pub open spec fn first_record(records: Seq<RowV>) -> RowV {
    if records.len() == 0 {
        Seq::empty()
    } else {
        records[0]
    }
}

/// The records that are data: all but the header.
pub open spec fn data_rows(records: Seq<RowV>, has_header: bool) -> Seq<RowV> {
    if has_header && records.len() > 0 {
        records.skip(1)
    } else {
        records
    }
}

/// A table in memory. Every record has the same number of fields. With
/// `has_header` the first record holds the column names and the data rows
/// are those behind it.
pub struct Table {
    records: Vec<Vec<String>>,
    has_header: bool,
}

impl Table {
    /// All records of the table, the header among them.
    pub closed spec fn records(&self) -> Seq<RowV> {
        self.records.deep_view()
    }

    /// Whether the first record is a header.
    pub closed spec fn headed(&self) -> bool {
        self.has_header
    }

    /// The data rows, in table order.
    pub open spec fn rows(&self) -> Seq<RowV> {
        data_rows(self.records(), self.headed())
    }

    /// The first record: the column names of a table with a header.
    pub open spec fn first(&self) -> RowV {
        first_record(self.records())
    }

    /// The field count of every record.
    pub open spec fn width(&self) -> nat {
        width_of(self.records())
    }

    /// The invariant of the table: all records have its width.
    pub open spec fn wf(&self) -> bool {
        consistent(self.records())
    }

    /// Takes the records of a table into the store. A record whose field
    /// count differs from that of the first record is a parse error, and
    /// then no table is made.
    pub fn from_records(records: Vec<Vec<String>>, has_header: bool) -> (r: Result<
        Table,
        JoinError,
    >)
        ensures
            match r {
                Ok(t) => consistent(records.deep_view()) && t.wf() && t.records()
                    == records.deep_view() && t.headed() == has_header,
                Err(e) => e == JoinError::Parse && !consistent(records.deep_view()),
            },
    {
        if records.len() > 0 {
            let width = records[0].len();
            let mut i: usize = 0;
            assert(records.deep_view()[0] == records[0].deep_view());
            while i < records.len()
                invariant
                    0 <= i <= records.len(),
                    records.len() > 0,
                    width == width_of(records.deep_view()),
                    forall|j: int|
                        0 <= j < i ==> (#[trigger] records.deep_view()[j]).len() == width,
                decreases records.len() - i,
            {
                assert(records.deep_view()[i as int] == records[i as int].deep_view());
                if records[i].len() != width {
                    return Err(JoinError::Parse);
                }
                i = i + 1;
            }
        }
        Ok(Table { records, has_header })
    }

    /// The number of data rows.
    pub fn row_count(&self) -> (n: usize)
        ensures
            n == self.rows().len(),
    {
        if self.has_header && self.records.len() > 0 {
            self.records.len() - 1
        } else {
            self.records.len()
        }
    }

    /// The `i`-th data row.
    pub fn row(&self, i: usize) -> (row: &Vec<String>)
        requires
            i < self.rows().len(),
        ensures
            row.deep_view() == self.rows()[i as int],
    {
        if self.has_header && self.records.len() > 0 {
            assert(self.records.deep_view()[i + 1] == self.records[i + 1].deep_view());
            &self.records[i + 1]
        } else {
            assert(self.records.deep_view()[i as int] == self.records[i as int].deep_view());
            &self.records[i]
        }
    }

    /// The field count of the table.
    pub fn field_count(&self) -> (w: usize)
        ensures
            w == self.width(),
    {
        if self.records.len() > 0 {
            assert(self.records.deep_view()[0] == self.records[0].deep_view());
            self.records[0].len()
        } else {
            0
        }
    }

    /// A copy of the first record, the empty row for a table without one.
    pub fn first_row(&self) -> (row: Vec<String>)
        ensures
            row.deep_view() == self.first(),
    {
        if self.records.len() > 0 {
            assert(self.records.deep_view()[0] == self.records[0].deep_view());
            crate::rows::copy_row(&self.records[0])
        } else {
            let row: Vec<String> = Vec::new();
            assert(row.deep_view() =~= Seq::<Seq<char>>::empty());
            row
        }
    }

    /// Whether the first record is a header.
    pub fn has_header(&self) -> (b: bool)
        ensures
            b == self.headed(),
    {
        self.has_header
    }
}

} // verus!
