//! The decisions of the geocode command: which subcommand runs, how a cell
//! is turned into a query, and how a city that was found is written into
//! the record. The index itself is looked up by the caller.

use vstd::prelude::*;
use crate::rows::lemma_row_push;
use crate::text::{
    ascii_lowered, ends_with, has_suffix, split_at_commas, split_commas, trim, trimmed,
};

verus! {

/// The subcommands of the geocode command.
#[derive(Clone, Copy, Debug, PartialEq, Eq, Structural)]
pub enum GeocodeSubCmd {
    Suggest,
    Reverse,
    IndexCheck,
    IndexUpdate,
    IndexLoad,
    IndexReset,
}

/// The subcommand switches of a request.
#[derive(Clone, Copy, Debug)]
pub struct CommandFlags {
    pub suggest: bool,
    pub reverse: bool,
    pub index_check: bool,
    pub index_update: bool,
    pub index_load: bool,
    pub index_reset: bool,
}

/// Why a geocode request is refused.
#[derive(Clone, Copy, Debug, PartialEq, Eq, Structural)]
pub enum GeocodeError {
    /// No subcommand switch is set.
    UnknownSubcommand,
    /// The index is to be loaded from a file, and no file is named.
    NoIndexFile,
    /// The index file is not named `*.bincode`.
    NotBincode,
    /// The number of new column names differs from the number of columns.
    RenameCountMismatch,
}

impl GeocodeError {
    /// The one line that tells the user what was wrong with the request.
    pub open spec fn spec_message(self) -> Seq<char> {
        match self {
            GeocodeError::UnknownSubcommand => "Unknown geocode subcommand."@,
            GeocodeError::NoIndexFile => "No alternate Geonames index file specified."@,
            GeocodeError::NotBincode =>
                "Alternate Geonames index file does not have a .bincode extension."@,
            GeocodeError::RenameCountMismatch =>
                "Number of new columns does not match input column selection."@,
        }
    }

    /// The one line that tells the user what was wrong with the request.
    pub fn message(self) -> (text: &'static str)
        ensures
            text@ == self.spec_message(),
    {
        match self {
            GeocodeError::UnknownSubcommand => "Unknown geocode subcommand.",
            GeocodeError::NoIndexFile => "No alternate Geonames index file specified.",
            GeocodeError::NotBincode =>
                "Alternate Geonames index file does not have a .bincode extension.",
            GeocodeError::RenameCountMismatch =>
                "Number of new columns does not match input column selection.",
        }
    }
}

impl CommandFlags {
    /// The subcommand that the switches select: the first that is set, in
    /// the order of the fields.
    pub open spec fn chosen(self) -> Option<GeocodeSubCmd> {
        if self.suggest {
            Some(GeocodeSubCmd::Suggest)
        } else if self.reverse {
            Some(GeocodeSubCmd::Reverse)
        } else if self.index_check {
            Some(GeocodeSubCmd::IndexCheck)
        } else if self.index_update {
            Some(GeocodeSubCmd::IndexUpdate)
        } else if self.index_load {
            Some(GeocodeSubCmd::IndexLoad)
        } else if self.index_reset {
            Some(GeocodeSubCmd::IndexReset)
        } else {
            None
        }
    }
}

impl GeocodeSubCmd {
    /// Whether the subcommand works on the index and reads no table.
    pub open spec fn spec_is_index_command(self) -> bool {
        self != GeocodeSubCmd::Suggest && self != GeocodeSubCmd::Reverse
    }

    /// Whether the subcommand works on the index and reads no table.
    #[verifier::when_used_as_spec(spec_is_index_command)]
    pub fn is_index_command(self) -> (b: bool)
        ensures
            b == self.spec_is_index_command(),
    {
        match self {
            GeocodeSubCmd::Suggest | GeocodeSubCmd::Reverse => false,
            _ => true,
        }
    }
}

/// Picks the subcommand from the switches, or refuses the request when
/// none is set.
pub fn select_subcommand(flags: &CommandFlags) -> (r: Result<GeocodeSubCmd, GeocodeError>)
    ensures
        match flags.chosen() {
            Some(cmd) => r == Ok::<GeocodeSubCmd, GeocodeError>(cmd),
            None => r == Err::<GeocodeSubCmd, GeocodeError>(GeocodeError::UnknownSubcommand),
        },
{
    if flags.suggest {
        Ok(GeocodeSubCmd::Suggest)
    } else if flags.reverse {
        Ok(GeocodeSubCmd::Reverse)
    } else if flags.index_check {
        Ok(GeocodeSubCmd::IndexCheck)
    } else if flags.index_update {
        Ok(GeocodeSubCmd::IndexUpdate)
    } else if flags.index_load {
        Ok(GeocodeSubCmd::IndexLoad)
    } else if flags.index_reset {
        Ok(GeocodeSubCmd::IndexReset)
    } else {
        Err(GeocodeError::UnknownSubcommand)
    }
}

/// The language codes of a list such as `en, DE`: the list in ASCII lower
/// case, split at its commas, each part without the white space around it.
pub open spec fn language_codes(list: Seq<char>) -> Seq<Seq<char>> {
    let parts = split_commas(ascii_lowered(list));
    Seq::new(parts.len(), |i: int| trimmed(parts[i]))
}

/// The language codes that a comma-separated list names.
pub fn parse_languages(list: &str) -> (codes: Vec<String>)
    ensures
        codes.deep_view() == language_codes(list@),
{
    let lowered = list.to_ascii_lowercase();
    let parts = split_at_commas(lowered.as_str());
    let mut codes: Vec<String> = Vec::new();
    let mut i: usize = 0;
    while i < parts.len()
        invariant
            0 <= i <= parts.len(),
            parts.deep_view() == split_commas(ascii_lowered(list@)),
            codes@.len() == i,
            forall|j: int| 0 <= j < i ==> (#[trigger] codes@[j])@ == trimmed(parts@[j]@),
        decreases parts.len() - i,
    {
        let code = trim(parts[i].as_str()).to_owned();
        codes.push(code);
        i = i + 1;
    }
    proof {
        let want = language_codes(list@);
        assert(codes.deep_view().len() == want.len());
        assert forall|j: int| 0 <= j < want.len() implies codes.deep_view()[j] == want[j] by {
            assert(parts.deep_view()[j] == parts@[j]@);
        }
        assert(codes.deep_view() =~= want);
    }
    codes
}

/// Checks the file from which the index is to be loaded: one must be
/// named, and its name must end in `.bincode`.
pub fn check_index_file(name: Option<&str>) -> (r: Result<(), GeocodeError>)
    ensures
        match name {
            None => r == Err::<(), GeocodeError>(GeocodeError::NoIndexFile),
            Some(n) => if has_suffix(n@, ".bincode"@) {
                r == Ok::<(), GeocodeError>(())
            } else {
                r == Err::<(), GeocodeError>(GeocodeError::NotBincode)
            },
        },
{
    match name {
        None => Err(GeocodeError::NoIndexFile),
        Some(n) => if ends_with(n, ".bincode") {
            Ok(())
        } else {
            Err(GeocodeError::NotBincode)
        },
    }
}

/// A record in which the field at `column` is `value` and every other
/// field is as it was. A record without such a column is unchanged.
pub open spec fn with_value(record: Seq<Seq<char>>, column: int, value: Seq<char>) -> Seq<
    Seq<char>,
> {
    Seq::new(
        record.len(),
        |i: int|
            if i == column {
                value
            } else {
                record[i]
            },
    )
}

/// Copies a record, with `new_value` in place of the field at
/// `column_index`.
pub fn replace_column_value(record: &Vec<String>, column_index: usize, new_value: &str) -> (out:
    Vec<String>)
    ensures
        out.deep_view() == with_value(record.deep_view(), column_index as int, new_value@),
{
    let mut out: Vec<String> = Vec::new();
    let mut i: usize = 0;
    while i < record.len()
        invariant
            0 <= i <= record.len(),
            out@.len() == i,
            forall|j: int|
                0 <= j < i ==> (#[trigger] out@[j])@ == (if j == column_index {
                    new_value@
                } else {
                    record@[j]@
                }),
        decreases record.len() - i,
    {
        if i == column_index {
            out.push(new_value.to_owned());
        } else {
            out.push(record[i].clone());
        }
        i = i + 1;
    }
    assert(out.deep_view() =~= with_value(
        record.deep_view(),
        column_index as int,
        new_value@,
    ));
    out
}

/// The header after the first `n` of the selected columns were renamed,
/// one after the other.
pub open spec fn renamed(
    header: Seq<Seq<char>>,
    columns: Seq<int>,
    names: Seq<Seq<char>>,
    n: nat,
) -> Seq<Seq<char>>
    decreases n,
{
    if n == 0 {
        header
    } else {
        with_value(renamed(header, columns, names, (n - 1) as nat), columns[n - 1], names[n - 1])
    }
}

/// The header of the output: the selected columns renamed where new names
/// are given, and the new column appended where one is wanted.
pub open spec fn output_header(
    header: Seq<Seq<char>>,
    columns: Seq<int>,
    names: Option<Seq<Seq<char>>>,
    new_column: Option<Seq<char>>,
) -> Seq<Seq<char>> {
    let named = match names {
        Some(n) => renamed(header, columns, n, columns.len()),
        None => header,
    };
    match new_column {
        Some(c) => named.push(c),
        None => named,
    }
}

/// Builds the header of the output. `names`, where given, renames the
/// selected columns in order and must name as many columns as are
/// selected. `new_column`, where given, is appended.
pub fn output_headers(
    header: &Vec<String>,
    columns: &Vec<usize>,
    names: Option<&Vec<String>>,
    new_column: Option<&str>,
) -> (r: Result<Vec<String>, GeocodeError>)
    ensures
        match r {
            Ok(out) => (names is Some ==> names->0@.len() == columns@.len()) && out.deep_view()
                == output_header(
                header.deep_view(),
                crate::model::ints(columns@),
                match names {
                    Some(n) => Some(n.deep_view()),
                    None => None,
                },
                match new_column {
                    Some(c) => Some(c@),
                    None => None,
                },
            ),
            Err(e) => e == GeocodeError::RenameCountMismatch && names is Some && names->0@.len()
                != columns@.len(),
        },
{
    let mut out = crate::rows::copy_row(header);
    match names {
        Some(n) => {
            if n.len() != columns.len() {
                return Err(GeocodeError::RenameCountMismatch);
            }
            let mut i: usize = 0;
            while i < columns.len()
                invariant
                    0 <= i <= columns.len(),
                    n.len() == columns.len(),
                    out.deep_view() == renamed(
                        header.deep_view(),
                        crate::model::ints(columns@),
                        n.deep_view(),
                        i as nat,
                    ),
                decreases columns.len() - i,
            {
                assert(n.deep_view()[i as int] == n@[i as int]@);
                out = replace_column_value(&out, columns[i], n[i].as_str());
                i = i + 1;
            }
        },
        None => {},
    }
    match new_column {
        Some(c) => {
            let ghost before = out;
            let field = c.to_owned();
            out.push(field);
            proof {
                lemma_row_push(before, out, field);
            }
        },
        None => {},
    }
    Ok(out)
}

/// The record that is written for one input record. The cell at `column`
/// is geocoded when it is not empty and a place was found for it, and is
/// kept as it is otherwise. The result goes into a new last field when
/// `new_column` is set, and into the cell's own place when it is not.
pub open spec fn geocoded(
    record: Seq<Seq<char>>,
    column: int,
    found: Option<Seq<char>>,
    new_column: bool,
) -> Seq<Seq<char>> {
    let cell = if record[column].len() > 0 && found is Some {
        found->0
    } else {
        record[column]
    };
    if new_column {
        record.push(cell)
    } else {
        with_value(record, column, cell)
    }
}

/// Whether the cell at `column_index` is to be looked up: an empty cell is
/// not.
pub fn needs_search(record: &Vec<String>, column_index: usize) -> (b: bool)
    requires
        column_index < record.len(),
    ensures
        b == (record@[column_index as int]@.len() > 0),
{
    !record[column_index].as_str().is_empty()
}

/// Writes the result of a search into a copy of the record.
pub fn geocode_record(
    record: &Vec<String>,
    column_index: usize,
    found: Option<&str>,
    new_column: bool,
) -> (out: Vec<String>)
    requires
        column_index < record.len(),
    ensures
        out.deep_view() == geocoded(
            record.deep_view(),
            column_index as int,
            match found {
                Some(f) => Some(f@),
                None => None,
            },
            new_column,
        ),
{
    let old_cell = record[column_index].as_str();
    let cell = match found {
        Some(f) => if old_cell.is_empty() {
            old_cell
        } else {
            f
        },
        None => old_cell,
    };
    assert(record.deep_view()[column_index as int] == record@[column_index as int]@);
    if new_column {
        let mut out = crate::rows::copy_row(record);
        let ghost before = out;
        let field = cell.to_owned();
        out.push(field);
        proof {
            lemma_row_push(before, out, field);
        }
        out
    } else {
        replace_column_value(record, column_index, cell)
    }
}

} // verus!
