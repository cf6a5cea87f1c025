//! The mathematical model of a join: what each mode produces, stated over
//! sequences of rows and keys. The executable code in the other modules is
//! proved against these definitions.

use vstd::prelude::*;
use vstd::utf8::encode_utf8;
use crate::mode::JoinMode;

verus! {

/// A row of a table: its fields in column order.
pub type RowV = Seq<Seq<char>>;

/// A composite key: one normalized byte string per key column.
pub type KeyV = Seq<Seq<u8>>;

/// The small letter for the byte of an ASCII capital letter; any other byte
/// unchanged.
pub open spec fn fold_byte(b: u8) -> u8 {
    if 0x41 <= b <= 0x5A {
        (b + 0x20) as u8
    } else {
        b
    }
}

/// The byte string under which a field is compared: its UTF-8 encoding, with
/// the ASCII capital letters lowered when `fold` is set. In UTF-8 no byte of
/// a multi-byte encoding lies in the range of the ASCII letters, so folding
/// lowers exactly the letters A to Z of the field.
pub open spec fn norm_field(field: Seq<char>, fold: bool) -> Seq<u8> {
    let bytes = encode_utf8(field);
    if fold {
        Seq::new(bytes.len(), |i: int| fold_byte(bytes[i]))
    } else {
        bytes
    }
}

/// A sequence of machine indices as mathematical integers.
pub open spec fn ints(s: Seq<usize>) -> Seq<int> {
    Seq::new(s.len(), |i: int| s[i] as int)
}

/// Whether every selected column exists in a row of `width` fields.
pub open spec fn sel_fits(sel: Seq<int>, width: int) -> bool {
    forall|c: int| 0 <= c < sel.len() ==> 0 <= #[trigger] sel[c] < width
}

/// Whether every row has exactly `width` fields.
pub open spec fn rows_have_width(rows: Seq<RowV>, width: int) -> bool {
    forall|i: int| 0 <= i < rows.len() ==> (#[trigger] rows[i]).len() == width
}

/// The composite key of a row: the normalized fields at the selected
/// columns, in the order of the selection.
pub open spec fn row_key(row: RowV, sel: Seq<int>, fold: bool) -> KeyV {
    Seq::new(sel.len(), |c: int| norm_field(row[sel[c]], fold))
}

/// The fields of a row at the selected columns, as they stand in the row.
pub open spec fn key_fields(row: RowV, sel: Seq<int>) -> RowV {
    Seq::new(sel.len(), |c: int| row[sel[c]])
}

/// The keys of all rows of a table, in row order.
pub open spec fn table_keys(rows: Seq<RowV>, sel: Seq<int>, fold: bool) -> Seq<KeyV> {
    Seq::new(rows.len(), |i: int| row_key(rows[i], sel, fold))
}

/// The positions at which `k` occurs in `keys`, in ascending order.
pub open spec fn positions(keys: Seq<KeyV>, k: KeyV) -> Seq<int>
    decreases keys.len(),
{
    if keys.len() == 0 {
        Seq::empty()
    } else {
        let rest = positions(keys.drop_last(), k);
        if keys.last() == k {
            rest.push(keys.len() - 1)
        } else {
            rest
        }
    }
}

/// What the positions of a key are: each of them holds the key, every row
/// that holds the key is among them, and there is one exactly when the key
/// occurs.
pub proof fn lemma_positions(keys: Seq<KeyV>, k: KeyV)
    ensures
        forall|t: int|
            0 <= t < positions(keys, k).len() ==> 0 <= #[trigger] positions(keys, k)[t]
                < keys.len() && keys[positions(keys, k)[t]] == k,
        forall|j: int| 0 <= j < keys.len() && keys[j] == k ==> positions(keys, k).contains(j),
        positions(keys, k).len() > 0 <==> keys.contains(k),
    decreases keys.len(),
{
    let found = positions(keys, k);
    if keys.len() > 0 {
        let shorter = keys.drop_last();
        let rest = positions(shorter, k);
        let last = keys.len() - 1;
        lemma_positions(shorter, k);
        assert forall|t: int| 0 <= t < found.len() implies 0 <= #[trigger] found[t] < keys.len()
            && keys[found[t]] == k by {
            if t < rest.len() {
                assert(found[t] == rest[t]);
                assert(keys[rest[t]] == shorter[rest[t]]);
            }
        }
        assert forall|j: int| 0 <= j < keys.len() && keys[j] == k implies found.contains(j) by {
            if j < last {
                assert(shorter[j] == k);
                let t = choose|t: int| 0 <= t < rest.len() && rest[t] == j;
                assert(found[t] == j);
            } else {
                assert(found[found.len() - 1] == j);
            }
        }
        if keys.contains(k) {
            let j = choose|j: int| 0 <= j < keys.len() && keys[j] == k;
            assert(found.contains(j));
        }
        if found.len() > 0 {
            assert(keys[found[0]] == k);
        }
    }
}

/// All positions of a table of `n` rows, in ascending order.
pub open spec fn all_positions(n: nat) -> Seq<int> {
    Seq::new(n, |j: int| j)
}

/// A row of `n` empty fields.
pub open spec fn blanks(n: nat) -> RowV {
    Seq::new(n, |i: int| Seq::<char>::empty())
}

/// One output row per hit: the streamed row followed by the build row.
pub open spec fn combos(row: RowV, hits: Seq<int>, build: Seq<RowV>) -> Seq<RowV> {
    Seq::new(hits.len(), |t: int| row + build[hits[t]])
}

/// The two roles that the tables play in a join, with the keys of their rows.
pub struct Sides {
    /// The rows that are streamed.
    pub probe: Seq<RowV>,
    /// The rows that are indexed.
    pub build: Seq<RowV>,
    /// The key of each streamed row.
    pub probe_keys: Seq<KeyV>,
    /// The key of each indexed row.
    pub build_keys: Seq<KeyV>,
    /// The field count of the streamed table.
    pub probe_width: nat,
    /// The field count of the indexed table.
    pub build_width: nat,
}

impl Sides {
    /// Whether there is one key for each row.
    pub open spec fn wf(self) -> bool {
        &&& self.probe_keys.len() == self.probe.len()
        &&& self.build_keys.len() == self.build.len()
    }
}

/// The build rows that a streamed row with key `k` is paired with: those
/// with an equal key, or all of them in a cross join.
pub open spec fn hits_for(mode: JoinMode, build_keys: Seq<KeyV>, k: KeyV) -> Seq<int> {
    if mode == JoinMode::Cross {
        all_positions(build_keys.len())
    } else {
        positions(build_keys, k)
    }
}

/// What one streamed row contributes to the output, given the build rows it
/// hits. This is the policy table of the nine modes.
pub open spec fn emit(
    mode: JoinMode,
    row: RowV,
    hits: Seq<int>,
    build: Seq<RowV>,
    build_width: nat,
) -> Seq<RowV> {
    match mode {
        JoinMode::Inner | JoinMode::RightOuter | JoinMode::Cross => combos(row, hits, build),
        JoinMode::LeftOuter | JoinMode::FullOuter => if hits.len() > 0 {
            combos(row, hits, build)
        } else {
            seq![row + blanks(build_width)]
        },
        JoinMode::LeftSemi | JoinMode::RightSemi => if hits.len() > 0 {
            seq![row]
        } else {
            Seq::empty()
        },
        JoinMode::LeftAnti | JoinMode::RightAnti => if hits.len() > 0 {
            Seq::empty()
        } else {
            seq![row]
        },
    }
}

/// The output of streaming the first `n` probe rows.
pub open spec fn probe_output(mode: JoinMode, s: Sides, n: nat) -> Seq<RowV>
    decreases n,
{
    if n == 0 {
        Seq::empty()
    } else {
        let i = n - 1;
        probe_output(mode, s, i as nat) + emit(
            mode,
            s.probe[i],
            hits_for(mode, s.build_keys, s.probe_keys[i]),
            s.build,
            s.build_width,
        )
    }
}

/// The tail pass over the first `n` build rows: each row whose key no
/// streamed row has, behind blank fields for the streamed side.
pub open spec fn tail_output(s: Sides, n: nat) -> Seq<RowV>
    decreases n,
{
    if n == 0 {
        Seq::empty()
    } else {
        let j = n - 1;
        let rest = tail_output(s, j as nat);
        if s.probe_keys.contains(s.build_keys[j]) {
            rest
        } else {
            rest.push(blanks(s.probe_width) + s.build[j])
        }
    }
}

/// The data rows of a join, in output order: the streamed pass, then the
/// tail pass where the mode has one.
pub open spec fn joined_rows(mode: JoinMode, s: Sides) -> Seq<RowV> {
    if mode.has_tail() {
        probe_output(mode, s, s.probe.len()) + tail_output(s, s.build.len())
    } else {
        probe_output(mode, s, s.probe.len())
    }
}

/// The keys of the rows at the given positions.
pub open spec fn keys_at(keys: Seq<KeyV>, at: Seq<int>) -> Seq<KeyV> {
    Seq::new(at.len(), |t: int| keys[at[t]])
}

/// Whether a streamed row with key `k` is one whose key the mode records: a
/// row without a match in an anti join, a row with a match in the others.
pub open spec fn qualifies(mode: JoinMode, build_keys: Seq<KeyV>, k: KeyV) -> bool {
    if mode.is_anti() {
        !build_keys.contains(k)
    } else {
        build_keys.contains(k)
    }
}

/// The streamed rows, among the first `n`, whose keys are recorded: each
/// qualifying row whose key no earlier recorded row has.
pub open spec fn recorded(mode: JoinMode, s: Sides, n: nat) -> Seq<int>
    decreases n,
{
    if n == 0 {
        Seq::empty()
    } else {
        let i = n - 1;
        let rest = recorded(mode, s, i as nat);
        let k = s.probe_keys[i];
        if qualifies(mode, s.build_keys, k) && !keys_at(s.probe_keys, rest).contains(k) {
            rest.push(i)
        } else {
            rest
        }
    }
}

/// The header of the joined table: both headers for the modes that pair
/// rows, the header of the streamed side for the semi and anti joins.
pub open spec fn joined_header(mode: JoinMode, left: RowV, right: RowV) -> RowV {
    match mode {
        JoinMode::LeftSemi | JoinMode::LeftAnti => left,
        JoinMode::RightSemi | JoinMode::RightAnti => right,
        _ => left + right,
    }
}

/// The key fields of the rows at the given positions.
pub open spec fn fields_at(rows: Seq<RowV>, sel: Seq<int>, at: Seq<int>) -> Seq<RowV> {
    Seq::new(at.len(), |t: int| key_fields(rows[at[t]], sel))
}

/// The tables of a join with their key selections.
pub struct Tables {
    /// The data rows of the left table.
    pub left: Seq<RowV>,
    /// The data rows of the right table.
    pub right: Seq<RowV>,
    /// The key columns of the left table.
    pub left_sel: Seq<int>,
    /// The key columns of the right table.
    pub right_sel: Seq<int>,
    /// The field count of the left table.
    pub left_width: nat,
    /// The field count of the right table.
    pub right_width: nat,
    /// Whether keys are compared without regard to ASCII case.
    pub fold: bool,
}

impl Tables {
    /// The keys of the left rows.
    pub open spec fn left_keys(self) -> Seq<KeyV> {
        table_keys(self.left, self.left_sel, self.fold)
    }

    /// The keys of the right rows.
    pub open spec fn right_keys(self) -> Seq<KeyV> {
        table_keys(self.right, self.right_sel, self.fold)
    }

    /// The roles of the two tables under `mode`: the right table is indexed
    /// and the left one streamed, except in the right semi and right anti
    /// joins, where it is the other way round.
    pub open spec fn sides(self, mode: JoinMode) -> Sides {
        if mode.streams_right() {
            Sides {
                probe: self.right,
                build: self.left,
                probe_keys: self.right_keys(),
                build_keys: self.left_keys(),
                probe_width: self.right_width,
                build_width: self.left_width,
            }
        } else {
            Sides {
                probe: self.left,
                build: self.right,
                probe_keys: self.left_keys(),
                build_keys: self.right_keys(),
                probe_width: self.left_width,
                build_width: self.right_width,
            }
        }
    }

    /// The key columns of the table that `mode` streams.
    pub open spec fn probe_sel(self, mode: JoinMode) -> Seq<int> {
        if mode.streams_right() {
            self.right_sel
        } else {
            self.left_sel
        }
    }

    /// The data rows that the join produces under `mode`.
    pub open spec fn rows(self, mode: JoinMode) -> Seq<RowV> {
        joined_rows(mode, self.sides(mode))
    }

    /// The rows of the keys output under `mode`: the key fields of each
    /// streamed row whose key is recorded.
    pub open spec fn key_rows(self, mode: JoinMode) -> Seq<RowV> {
        let s = self.sides(mode);
        fields_at(s.probe, self.probe_sel(mode), recorded(mode, s, s.probe.len()))
    }

    /// The normalized keys of the keys output under `mode`.
    pub open spec fn recorded_keys(self, mode: JoinMode) -> Seq<KeyV> {
        let s = self.sides(mode);
        keys_at(s.probe_keys, recorded(mode, s, s.probe.len()))
    }
}

/// The keys output of a join as a table of its own.
pub struct KeysV {
    /// The names of the key columns of the streamed table, where the
    /// tables have headers.
    pub header: Option<RowV>,
    /// The key fields of the recorded rows.
    pub rows: Seq<RowV>,
}

/// Everything that a join produces.
pub struct OutputV {
    /// The header of the joined table, where the tables have headers.
    pub header: Option<RowV>,
    /// The data rows of the joined table.
    pub rows: Seq<RowV>,
    /// The keys output, where it was asked for and the mode has keys.
    pub keys: Option<KeysV>,
}

/// What the join of two tables produces under `mode`. `names` holds the
/// two header rows where the tables have headers. The keys output is
/// produced when it is wanted, except in a cross join, which has no keys.
pub open spec fn joined(
    t: Tables,
    mode: JoinMode,
    names: Option<(RowV, RowV)>,
    want_keys: bool,
) -> OutputV {
    OutputV {
        header: match names {
            Some((left, right)) => Some(joined_header(mode, left, right)),
            None => None,
        },
        rows: t.rows(mode),
        keys: if want_keys && mode != JoinMode::Cross {
            Some(
                KeysV {
                    header: match names {
                        Some((left, right)) => Some(
                            key_fields(
                                if mode.streams_right() {
                                    right
                                } else {
                                    left
                                },
                                t.probe_sel(mode),
                            ),
                        ),
                        None => None,
                    },
                    rows: t.key_rows(mode),
                },
            )
        } else {
            None
        },
    }
}

} // verus!
