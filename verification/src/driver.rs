//! The join driver: streams one table against the index of the other and
//! applies the emission policy of the mode.

use vstd::prelude::*;
use crate::columns::ColumnSpec;
use crate::index::{all_below, HashIndex};
use crate::key::JoinKey;
use crate::marks::MatchMarks;
use crate::mode::JoinMode;
use crate::model::{
    all_positions, blanks, combos, emit, fields_at, ints, key_fields, keys_at, lemma_positions,
    probe_output, recorded, row_key, sel_fits, table_keys, tail_output, KeyV, RowV, Sides, Tables,
};
use crate::recorder::KeysRecorder;
use crate::rows::{blanks_then, concat_rows, copy_row, lemma_rows_push, then_blanks};
use crate::table::Table;

verus! {

/// The tables and selections of a join as the model sees them.
pub open spec fn tables_of(
    left: &Table,
    left_sel: &ColumnSpec,
    right: &Table,
    right_sel: &ColumnSpec,
    fold: bool,
) -> Tables {
    Tables {
        left: left.rows(),
        right: right.rows(),
        left_sel: left_sel@,
        right_sel: right_sel@,
        left_width: left.width(),
        right_width: right.width(),
        fold,
    }
}

/// The key of the `i`-th data row of a table.
pub fn key_of_row(table: &Table, sel: &ColumnSpec, fold: bool, i: usize) -> (key: JoinKey)
    requires
        table.wf(),
        sel_fits(sel@, table.width() as int),
        i < table.rows().len(),
    ensures
        key@ == row_key(table.rows()[i as int], sel@, fold),
{
    let row = table.row(i);
    proof {
        lemma_row_width(table, i as int);
    }
    JoinKey::of_row(row, sel, fold)
}

/// Every data row of a well-formed table has the table's width.
pub proof fn lemma_row_width(table: &Table, i: int)
    requires
        table.wf(),
        0 <= i < table.rows().len(),
    ensures
        table.rows()[i].len() == table.width(),
{
    if table.headed() && table.records().len() > 0 {
        assert(table.rows()[i] == table.records()[i + 1]);
    }
}

/// The index of a table: the key of every data row, in row order.
pub fn build_index(table: &Table, sel: &ColumnSpec, fold: bool) -> (index: HashIndex)
    requires
        table.wf(),
        sel_fits(sel@, table.width() as int),
    ensures
        index.wf(),
        index@ == table_keys(table.rows(), sel@, fold),
{
    let n = table.row_count();
    let mut index = HashIndex::new(n);
    let mut i: usize = 0;
    while i < n
        invariant
            0 <= i <= n,
            n == table.rows().len(),
            table.wf(),
            sel_fits(sel@, table.width() as int),
            index.wf(),
            index@ == table_keys(table.rows(), sel@, fold).take(i as int),
        decreases n - i,
    {
        let key = key_of_row(table, sel, fold, i);
        index.insert(key);
        proof {
            let keys = table_keys(table.rows(), sel@, fold);
            assert(keys.take(i + 1) =~= keys.take(i as int).push(keys[i as int]));
        }
        i = i + 1;
    }
    proof {
        let keys = table_keys(table.rows(), sel@, fold);
        assert(keys.take(n as int) =~= keys);
    }
    index
}

/// The fields of a row at the key columns, as they stand in the row.
pub fn key_fields_of(row: &Vec<String>, sel: &ColumnSpec) -> (fields: Vec<String>)
    requires
        sel_fits(sel@, row.len() as int),
    ensures
        fields.deep_view() == key_fields(row.deep_view(), sel@),
{
    let mut fields: Vec<String> = Vec::new();
    let mut c: usize = 0;
    while c < sel.len()
        invariant
            0 <= c <= sel@.len(),
            sel_fits(sel@, row.len() as int),
            fields@.len() == c,
            forall|d: int| 0 <= d < c ==> (#[trigger] fields@[d])@ == row@[sel@[d]]@,
        decreases sel@.len() - c,
    {
        let col = sel.column(c);
        let field = row[col].clone();
        fields.push(field);
        c = c + 1;
    }
    assert(fields.deep_view() =~= key_fields(row.deep_view(), sel@));
    fields
}

fn push_combos(row: &Vec<String>, hits: &Vec<usize>, build: &Table, out: &mut Vec<Vec<String>>)
    requires
        all_below(ints(hits@), build.rows().len() as int),
    ensures
        final(out).deep_view() == old(out).deep_view() + combos(
            row.deep_view(),
            ints(hits@),
            build.rows(),
        ),
{
    let mut t: usize = 0;
    proof {
        assert(out.deep_view() =~= old(out).deep_view() + combos(
            row.deep_view(),
            ints(hits@).take(0),
            build.rows(),
        ));
    }
    while t < hits.len()
        invariant
            0 <= t <= hits.len(),
            all_below(ints(hits@), build.rows().len() as int),
            out.deep_view() == old(out).deep_view() + combos(
                row.deep_view(),
                ints(hits@).take(t as int),
                build.rows(),
            ),
        decreases hits.len() - t,
    {
        let j = hits[t];
        proof {
            assert(ints(hits@)[t as int] == j);
        }
        let pair = concat_rows(row, build.row(j));
        let ghost before = *out;
        out.push(pair);
        proof {
            lemma_rows_push(before, *out, pair);
            assert(combos(row.deep_view(), ints(hits@).take(t + 1), build.rows()) =~= combos(
                row.deep_view(),
                ints(hits@).take(t as int),
                build.rows(),
            ).push(pair.deep_view()));
            assert(out.deep_view() =~= old(out).deep_view() + combos(
                row.deep_view(),
                ints(hits@).take(t + 1),
                build.rows(),
            ));
        }
        t = t + 1;
    }
    proof {
        assert(ints(hits@).take(hits.len() as int) =~= ints(hits@));
    }
}

fn push_one(row: Vec<String>, out: &mut Vec<Vec<String>>)
    ensures
        final(out).deep_view() == old(out).deep_view() + seq![row.deep_view()],
{
    let ghost before = *out;
    out.push(row);
    proof {
        lemma_rows_push(before, *out, row);
        assert(out.deep_view() =~= old(out).deep_view() + seq![row.deep_view()]);
    }
}

/// The emission policy: appends to `out` what one streamed row contributes
/// under `mode`, given the build rows that it hits.
pub fn emit_rows(
    mode: JoinMode,
    row: &Vec<String>,
    hits: &Vec<usize>,
    build: &Table,
    out: &mut Vec<Vec<String>>,
)
    requires
        all_below(ints(hits@), build.rows().len() as int),
    ensures
        final(out).deep_view() == old(out).deep_view() + emit(
            mode,
            row.deep_view(),
            ints(hits@),
            build.rows(),
            build.width(),
        ),
{
    let hit = hits.len() > 0;
    assert(ints(hits@).len() == hits@.len());
    match mode {
        JoinMode::Inner | JoinMode::RightOuter | JoinMode::Cross => {
            push_combos(row, hits, build, out);
        },
        JoinMode::LeftOuter | JoinMode::FullOuter => {
            if hit {
                push_combos(row, hits, build, out);
            } else {
                push_one(then_blanks(row, build.field_count()), out);
            }
        },
        JoinMode::LeftSemi | JoinMode::RightSemi => {
            if hit {
                push_one(copy_row(row), out);
            } else {
                assert(out.deep_view() =~= old(out).deep_view() + Seq::<RowV>::empty());
            }
        },
        JoinMode::LeftAnti | JoinMode::RightAnti => {
            if hit {
                assert(out.deep_view() =~= old(out).deep_view() + Seq::<RowV>::empty());
            } else {
                push_one(copy_row(row), out);
            }
        },
    }
}

/// The roles of two tables when `probe` is streamed against `build`.
pub open spec fn sides_from(
    probe: &Table,
    probe_sel: &ColumnSpec,
    build: &Table,
    build_sel: &ColumnSpec,
    fold: bool,
) -> Sides {
    Sides {
        probe: probe.rows(),
        build: build.rows(),
        probe_keys: table_keys(probe.rows(), probe_sel@, fold),
        build_keys: table_keys(build.rows(), build_sel@, fold),
        probe_width: probe.width(),
        build_width: build.width(),
    }
}

/// What the streamed pass hands to the tail pass and to the caller.
pub struct Streamed {
    /// The output rows of the streamed pass.
    pub rows: Vec<Vec<String>>,
    /// The build rows that were matched.
    pub marks: MatchMarks,
    /// The keys that were recorded.
    pub recorder: KeysRecorder,
}

fn every_position(n: usize) -> (all: Vec<usize>)
    ensures
        ints(all@) == all_positions(n as nat),
{
    let mut all: Vec<usize> = Vec::new();
    let mut j: usize = 0;
    while j < n
        invariant
            0 <= j <= n,
            all@.len() == j,
            forall|t: int| 0 <= t < j ==> all@[t] == t,
        decreases n - j,
    {
        all.push(j);
        j = j + 1;
    }
    assert(ints(all@) =~= all_positions(n as nat));
    all
}

/// Whether there are `n` marks and none of them is set.
pub open spec fn unmarked(marks: Seq<bool>, n: nat) -> bool {
    &&& marks.len() == n
    &&& forall|j: int| 0 <= j < n ==> !#[trigger] marks[j]
}

/// Whether the marks tell, for every build row, if one of the first `n`
/// streamed rows has its key.
pub open spec fn marks_cover(marks: Seq<bool>, s: Sides, n: int) -> bool {
    &&& marks.len() == s.build.len()
    &&& forall|j: int|
        0 <= j < marks.len() ==> #[trigger] marks[j] == s.probe_keys.take(n).contains(
            s.build_keys[j],
        )
}

/// The streamed pass: every row of `probe`, in table order, is looked up in
/// the index of `build` and handed to the emission policy. With `marking`
/// the matched build rows are marked for the tail pass; with `recording`
/// the keys that the mode classifies are recorded.
pub fn stream(
    mode: JoinMode,
    probe: &Table,
    probe_sel: &ColumnSpec,
    build: &Table,
    build_sel: &ColumnSpec,
    fold: bool,
    marking: bool,
    recording: bool,
) -> (done: Streamed)
    requires
        probe.wf(),
        build.wf(),
        sel_fits(probe_sel@, probe.width() as int),
        sel_fits(build_sel@, build.width() as int),
    ensures
        ({
            let s = sides_from(probe, probe_sel, build, build_sel, fold);
            &&& done.rows.deep_view() == probe_output(mode, s, s.probe.len())
            &&& marking && mode != JoinMode::Cross ==> marks_cover(
                done.marks@,
                s,
                s.probe.len() as int,
            )
            &&& !(marking && mode != JoinMode::Cross) ==> unmarked(done.marks@, s.build.len())
            &&& done.recorder.wf()
            &&& !(recording && mode != JoinMode::Cross) ==> {
                &&& done.recorder.keys() == Seq::<KeyV>::empty()
                &&& done.recorder.rows() == Seq::<RowV>::empty()
            }
            &&& recording && mode != JoinMode::Cross ==> {
                &&& done.recorder.keys() == keys_at(
                    s.probe_keys,
                    recorded(mode, s, s.probe.len()),
                )
                &&& done.recorder.rows() == fields_at(
                    s.probe,
                    probe_sel@,
                    recorded(mode, s, s.probe.len()),
                )
            }
        }),
{
    let ghost s = sides_from(probe, probe_sel, build, build_sel, fold);
    let n = probe.row_count();
    let cross = match mode {
        JoinMode::Cross => true,
        _ => false,
    };
    let index = if cross {
        HashIndex::new(1)
    } else {
        build_index(build, build_sel, fold)
    };
    let all = if cross {
        every_position(build.row_count())
    } else {
        Vec::new()
    };
    let mut rows: Vec<Vec<String>> = Vec::new();
    let mut marks = MatchMarks::new(build.row_count());
    let mut recorder = KeysRecorder::new(if recording { n } else { 1 });
    let anti = mode.is_anti();
    let mut i: usize = 0;
    proof {
        assert(rows.deep_view() =~= probe_output(mode, s, 0));
        assert(fields_at(s.probe, probe_sel@, recorded(mode, s, 0)) =~= Seq::<RowV>::empty());
        assert(keys_at(s.probe_keys, recorded(mode, s, 0)) =~= Seq::<KeyV>::empty());
    }
    while i < n
        invariant
            0 <= i <= n,
            n == s.probe.len(),
            s == sides_from(probe, probe_sel, build, build_sel, fold),
            cross == (mode == JoinMode::Cross),
            anti == mode.is_anti(),
            probe.wf(),
            build.wf(),
            sel_fits(probe_sel@, probe.width() as int),
            index.wf(),
            !cross ==> index@ == s.build_keys,
            cross ==> ints(all@) == all_positions(s.build.len()),
            rows.deep_view() == probe_output(mode, s, i as nat),
            marks@.len() == s.build.len(),
            marking && !cross ==> marks_cover(marks@, s, i as int),
            !(marking && !cross) ==> unmarked(marks@, s.build.len()),
            recorder.wf(),
            !(recording && !cross) ==> recorder.keys() == Seq::<KeyV>::empty() && recorder.rows()
                == Seq::<RowV>::empty(),
            recording && !cross ==> recorder.keys() == keys_at(
                s.probe_keys,
                recorded(mode, s, i as nat),
            ),
            recording && !cross ==> recorder.rows() == fields_at(
                s.probe,
                probe_sel@,
                recorded(mode, s, i as nat),
            ),
        decreases n - i,
    {
        let row = probe.row(i);
        proof {
            lemma_row_width(probe, i as int);
        }
        if cross {
            emit_rows(mode, row, &all, build, &mut rows);
        } else {
            let key = JoinKey::of_row(row, probe_sel, fold);
            let hits = index.lookup(&key);
            proof {
                lemma_positions(s.build_keys, key@);
                assert(ints(hits@).len() == hits@.len());
            }
            emit_rows(mode, row, &hits, build, &mut rows);
            if marking {
                marks.mark_all(&hits);
                proof {
                    let k = s.probe_keys[i as int];
                    let sooner = s.probe_keys.take(i as int);
                    let later = s.probe_keys.take(i + 1);
                    assert(later =~= sooner.push(k));
                    assert forall|j: int| 0 <= j < marks@.len() implies #[trigger] marks@[j]
                        == later.contains(s.build_keys[j]) by {
                        let want = s.build_keys[j];
                        if ints(hits@).contains(j) {
                            assert(later[i as int] == want);
                        }
                        if sooner.contains(want) {
                            let u = choose|u: int| 0 <= u < sooner.len() && sooner[u] == want;
                            assert(later[u] == want);
                        }
                        if later.contains(want) {
                            let u = choose|u: int| 0 <= u < later.len() && later[u] == want;
                            if u < i {
                                assert(sooner[u] == want);
                            }
                        }
                    }
                }
            }
            if recording && (hits.len() > 0) != anti {
                let fields = key_fields_of(row, probe_sel);
                let ghost rest = recorded(mode, s, i as nat);
                let added = recorder.record(key, fields);
                proof {
                    if added {
                        assert(keys_at(s.probe_keys, rest.push(i as int)) =~= keys_at(
                            s.probe_keys,
                            rest,
                        ).push(key@));
                        assert(fields_at(s.probe, probe_sel@, rest.push(i as int)) =~= fields_at(
                            s.probe,
                            probe_sel@,
                            rest,
                        ).push(fields.deep_view()));
                    }
                }
            }
        }
        i = i + 1;
    }
    proof {
        assert(s.probe_keys.take(n as int) =~= s.probe_keys);
    }
    Streamed { rows, marks, recorder }
}

/// The tail pass: appends to `out`, in table order, every build row that
/// is not marked, behind `pad` blank fields.
pub fn append_tail(out: &mut Vec<Vec<String>>, build: &Table, marks: &MatchMarks, pad: usize)
    requires
        marks@.len() == build.rows().len(),
    ensures
        final(out).deep_view() == old(out).deep_view() + unmarked_rows(
            build.rows(),
            marks@,
            pad as nat,
            build.rows().len(),
        ),
{
    let n = build.row_count();
    let mut j: usize = 0;
    proof {
        assert(out.deep_view() =~= old(out).deep_view() + unmarked_rows(
            build.rows(),
            marks@,
            pad as nat,
            0,
        ));
    }
    while j < n
        invariant
            0 <= j <= n,
            n == build.rows().len(),
            marks@.len() == n,
            out.deep_view() == old(out).deep_view() + unmarked_rows(
                build.rows(),
                marks@,
                pad as nat,
                j as nat,
            ),
        decreases n - j,
    {
        if !marks.is_marked(j) {
            let row = blanks_then(pad, build.row(j));
            let ghost before = *out;
            out.push(row);
            proof {
                lemma_rows_push(before, *out, row);
                assert(out.deep_view() =~= old(out).deep_view() + unmarked_rows(
                    build.rows(),
                    marks@,
                    pad as nat,
                    (j + 1) as nat,
                ));
            }
        }
        j = j + 1;
    }
}

/// The first `n` rows of `build` whose mark is not set, each behind `pad`
/// blank fields.
pub open spec fn unmarked_rows(build: Seq<RowV>, marks: Seq<bool>, pad: nat, n: nat) -> Seq<RowV>
    decreases n,
{
    if n == 0 {
        Seq::empty()
    } else {
        let j = n - 1;
        let rest = unmarked_rows(build, marks, pad, j as nat);
        if marks[j] {
            rest
        } else {
            rest.push(blanks(pad) + build[j])
        }
    }
}

/// With marks that cover the whole streamed pass, the unmarked rows are
/// the tail of the join.
pub proof fn lemma_unmarked_is_tail(s: Sides, marks: Seq<bool>, n: nat)
    requires
        s.wf(),
        marks_cover(marks, s, s.probe.len() as int),
        n <= s.build.len(),
    ensures
        unmarked_rows(s.build, marks, s.probe_width, n) == tail_output(s, n),
    decreases n,
{
    if n > 0 {
        lemma_unmarked_is_tail(s, marks, (n - 1) as nat);
        assert(s.probe_keys.take(s.probe.len() as int) =~= s.probe_keys);
    }
}

} // verus!
