//! Laws of the join: how the outputs of the nine modes relate to the
//! tables and to each other. Each is proved from the model alone.

use vstd::prelude::*;
use crate::error::JoinError;
use crate::join::{join_outcome, result_view, JoinOptions, JoinOutput};
use crate::mode::JoinMode;
use crate::model::{
    emit, hits_for, joined, keys_at, lemma_positions, norm_field, positions, probe_output,
    qualifies, recorded, tail_output, KeyV, RowV, Sides, Tables,
};

verus! {

/// A member of a concatenation is a member of one of its parts.
proof fn lemma_contains_add(a: Seq<RowV>, b: Seq<RowV>, x: RowV)
    ensures
        (a + b).contains(x) <==> a.contains(x) || b.contains(x),
{
    if a.contains(x) {
        let i = choose|i: int| 0 <= i < a.len() && a[i] == x;
        assert((a + b)[i] == x);
    }
    if b.contains(x) {
        let i = choose|i: int| 0 <= i < b.len() && b[i] == x;
        assert((a + b)[a.len() + i] == x);
    }
    if (a + b).contains(x) {
        let i = choose|i: int| 0 <= i < (a + b).len() && (a + b)[i] == x;
        if i < a.len() {
            assert(a[i] == x);
        } else {
            assert(b[i - a.len()] == x);
        }
    }
}

/// After `n` streamed rows, the semi join and the anti join have emitted
/// `n` rows between them.
proof fn lemma_semi_anti_count(semi: JoinMode, anti: JoinMode, s: Sides, n: nat)
    requires
        semi == JoinMode::LeftSemi && anti == JoinMode::LeftAnti || semi == JoinMode::RightSemi
            && anti == JoinMode::RightAnti,
    ensures
        probe_output(semi, s, n).len() + probe_output(anti, s, n).len() == n,
    decreases n,
{
    if n > 0 {
        lemma_semi_anti_count(semi, anti, s, (n - 1) as nat);
    }
}

/// Partition: every row of the left table is emitted by exactly one of the
/// left semi join and the left anti join, so their row counts add up to
/// that of the left table; and likewise for the right table and the right
/// semi and right anti joins.
pub proof fn law_semi_anti_partition(t: Tables)
    ensures
        t.rows(JoinMode::LeftSemi).len() + t.rows(JoinMode::LeftAnti).len() == t.left.len(),
        t.rows(JoinMode::RightSemi).len() + t.rows(JoinMode::RightAnti).len() == t.right.len(),
{
    lemma_semi_anti_count(
        JoinMode::LeftSemi,
        JoinMode::LeftAnti,
        t.sides(JoinMode::LeftSemi),
        t.left.len(),
    );
    lemma_semi_anti_count(
        JoinMode::RightSemi,
        JoinMode::RightAnti,
        t.sides(JoinMode::RightSemi),
        t.right.len(),
    );
}

/// Whatever the inner join has emitted after `n` streamed rows, an outer
/// join has emitted too.
proof fn lemma_inner_within(outer: JoinMode, s: Sides, n: nat, x: RowV)
    requires
        outer == JoinMode::LeftOuter || outer == JoinMode::RightOuter || outer
            == JoinMode::FullOuter,
        probe_output(JoinMode::Inner, s, n).contains(x),
    ensures
        probe_output(outer, s, n).contains(x),
    decreases n,
{
    if n > 0 {
        let i = n - 1;
        let hits = positions(s.build_keys, s.probe_keys[i]);
        let inner_before = probe_output(JoinMode::Inner, s, i as nat);
        let outer_before = probe_output(outer, s, i as nat);
        let inner_now = emit(JoinMode::Inner, s.probe[i], hits, s.build, s.build_width);
        let outer_now = emit(outer, s.probe[i], hits, s.build, s.build_width);
        lemma_contains_add(inner_before, inner_now, x);
        lemma_contains_add(outer_before, outer_now, x);
        if inner_before.contains(x) {
            lemma_inner_within(outer, s, i as nat, x);
        } else {
            assert(inner_now.len() > 0);
            assert(outer_now == inner_now);
        }
    }
}

/// Containment: every row of the inner join is a row of the left outer,
/// the right outer and the full outer join. The outer joins add to the
/// matched rows only padded rows: the right outer join is the inner join
/// followed by the tail pass, and the full outer join is the left outer
/// join followed by the same tail pass.
pub proof fn law_inner_contained(t: Tables)
    ensures
        forall|x: RowV| #[trigger]
            t.rows(JoinMode::Inner).contains(x) ==> t.rows(JoinMode::LeftOuter).contains(x)
                && t.rows(JoinMode::RightOuter).contains(x) && t.rows(
                JoinMode::FullOuter,
            ).contains(x),
        t.rows(JoinMode::RightOuter) == t.rows(JoinMode::Inner) + tail_output(
            t.sides(JoinMode::Inner),
            t.right.len(),
        ),
        t.rows(JoinMode::FullOuter) == t.rows(JoinMode::LeftOuter) + tail_output(
            t.sides(JoinMode::Inner),
            t.right.len(),
        ),
{
    let s = t.sides(JoinMode::Inner);
    let n = t.left.len();
    lemma_same_output(JoinMode::Inner, JoinMode::RightOuter, s, n);
    lemma_same_output(JoinMode::LeftOuter, JoinMode::FullOuter, s, n);
    assert forall|x: RowV| #[trigger] t.rows(JoinMode::Inner).contains(x) implies t.rows(
        JoinMode::LeftOuter,
    ).contains(x) && t.rows(JoinMode::RightOuter).contains(x) && t.rows(
        JoinMode::FullOuter,
    ).contains(x) by {
        lemma_inner_within(JoinMode::LeftOuter, s, n, x);
        lemma_inner_within(JoinMode::RightOuter, s, n, x);
        lemma_inner_within(JoinMode::FullOuter, s, n, x);
        lemma_contains_add(
            probe_output(JoinMode::RightOuter, s, n),
            tail_output(s, s.build.len()),
            x,
        );
        lemma_contains_add(
            probe_output(JoinMode::FullOuter, s, n),
            tail_output(s, s.build.len()),
            x,
        );
    }
}

/// What a mode emits for those of the first `n` streamed rows that have a
/// match: the rows that come from pairing, without the padded ones.
pub open spec fn matched_output(mode: JoinMode, s: Sides, n: nat) -> Seq<RowV>
    decreases n,
{
    if n == 0 {
        Seq::empty()
    } else {
        let i = n - 1;
        let hits = hits_for(mode, s.build_keys, s.probe_keys[i]);
        let rest = matched_output(mode, s, i as nat);
        if hits.len() > 0 {
            rest + emit(mode, s.probe[i], hits, s.build, s.build_width)
        } else {
            rest
        }
    }
}

proof fn lemma_matched_is_inner(mode: JoinMode, s: Sides, n: nat)
    requires
        mode == JoinMode::Inner || mode == JoinMode::LeftOuter || mode == JoinMode::RightOuter
            || mode == JoinMode::FullOuter,
    ensures
        matched_output(mode, s, n) == probe_output(JoinMode::Inner, s, n),
    decreases n,
{
    if n > 0 {
        let i = (n - 1) as nat;
        lemma_matched_is_inner(mode, s, i);
        let hits = positions(s.build_keys, s.probe_keys[i as int]);
        if hits.len() == 0 {
            let none = emit(JoinMode::Inner, s.probe[i as int], hits, s.build, s.build_width);
            assert(probe_output(JoinMode::Inner, s, i) + none =~= probe_output(
                JoinMode::Inner,
                s,
                i,
            ));
        }
    }
}

/// Agreement on matched rows: the inner join and the three outer joins
/// emit the same rows, in the same order, for the streamed rows that have
/// a match. What the outer joins emit beyond that is padded rows alone.
pub proof fn law_matched_rows_agree(t: Tables)
    ensures
        matched_output(JoinMode::Inner, t.sides(JoinMode::Inner), t.left.len()) == t.rows(
            JoinMode::Inner,
        ),
        matched_output(JoinMode::LeftOuter, t.sides(JoinMode::LeftOuter), t.left.len()) == t.rows(
            JoinMode::Inner,
        ),
        matched_output(JoinMode::RightOuter, t.sides(JoinMode::RightOuter), t.left.len())
            == t.rows(JoinMode::Inner),
        matched_output(JoinMode::FullOuter, t.sides(JoinMode::FullOuter), t.left.len()) == t.rows(
            JoinMode::Inner,
        ),
{
    let s = t.sides(JoinMode::Inner);
    lemma_matched_is_inner(JoinMode::Inner, s, t.left.len());
    lemma_matched_is_inner(JoinMode::LeftOuter, s, t.left.len());
    lemma_matched_is_inner(JoinMode::RightOuter, s, t.left.len());
    lemma_matched_is_inner(JoinMode::FullOuter, s, t.left.len());
}

/// Two modes with the same emission policy stream the same rows.
proof fn lemma_same_output(a: JoinMode, b: JoinMode, s: Sides, n: nat)
    requires
        a == JoinMode::Inner && b == JoinMode::RightOuter || a == JoinMode::LeftOuter && b
            == JoinMode::FullOuter,
    ensures
        probe_output(a, s, n) == probe_output(b, s, n),
    decreases n,
{
    if n > 0 {
        lemma_same_output(a, b, s, (n - 1) as nat);
    }
}

/// After `n` streamed rows the cross join has emitted `n` rows for each
/// build row.
proof fn lemma_cross_count(s: Sides, n: nat)
    ensures
        probe_output(JoinMode::Cross, s, n).len() == n * s.build_keys.len(),
    decreases n,
{
    let m = s.build_keys.len();
    if n > 0 {
        let i = (n - 1) as nat;
        lemma_cross_count(s, i);
        let hits = hits_for(JoinMode::Cross, s.build_keys, s.probe_keys[i as int]);
        let now = emit(JoinMode::Cross, s.probe[i as int], hits, s.build, s.build_width);
        assert(hits.len() == m);
        assert(now.len() == m);
        assert(probe_output(JoinMode::Cross, s, n) == probe_output(JoinMode::Cross, s, i) + now);
        assert(i * m + m == n * m) by (nonlinear_arith)
            requires
                n == i + 1,
        ;
    } else {
        assert(0 * m == 0) by (nonlinear_arith);
    }
}

/// Cross cardinality: the cross join has one row for every pair of a left
/// row and a right row, with nothing removed.
pub proof fn law_cross_count(t: Tables)
    ensures
        t.rows(JoinMode::Cross).len() == t.left.len() * t.right.len(),
{
    lemma_cross_count(t.sides(JoinMode::Cross), t.left.len());
}

/// Determinism: what a join returns is a function of the request. Two
/// runs on the same records, key specs and options, each of which meets
/// the contract of [`join`](crate::join::join), end in the same error, or
/// produce the same header, the same rows in the same order and the same
/// keys output.
pub proof fn law_deterministic(
    left: Seq<RowV>,
    left_spec: Seq<char>,
    right: Seq<RowV>,
    right_spec: Seq<char>,
    options: JoinOptions,
    first: Result<JoinOutput, JoinError>,
    second: Result<JoinOutput, JoinError>,
)
    requires
        result_view(first) == join_outcome(left, left_spec, right, right_spec, options),
        result_view(second) == join_outcome(left, left_spec, right, right_spec, options),
    ensures
        result_view(first) == result_view(second),
        first is Ok <==> second is Ok,
        first is Ok ==> first->Ok_0@ == second->Ok_0@,
        first is Err ==> first->Err_0 == second->Err_0,
{
}

/// A key is in a sequence with one more key when it was in it before or is
/// the new one.
proof fn lemma_contains_push(keys: Seq<KeyV>, last: KeyV, k: KeyV)
    ensures
        keys.push(last).contains(k) <==> keys.contains(k) || last == k,
{
    let more = keys.push(last);
    if keys.contains(k) {
        let i = choose|i: int| 0 <= i < keys.len() && keys[i] == k;
        assert(more[i] == k);
    }
    if last == k {
        assert(more[keys.len() as int] == k);
    }
    if more.contains(k) {
        let i = choose|i: int| 0 <= i < more.len() && more[i] == k;
        if i < keys.len() {
            assert(keys[i] == k);
        }
    }
}

/// What is recorded after `n` streamed rows: positions of streamed rows,
/// no key twice, and exactly the keys of those rows that qualify.
proof fn lemma_recorded(mode: JoinMode, s: Sides, n: nat)
    requires
        n <= s.probe_keys.len(),
    ensures
        forall|t: int|
            0 <= t < recorded(mode, s, n).len() ==> 0 <= #[trigger] recorded(mode, s, n)[t] < n,
        keys_at(s.probe_keys, recorded(mode, s, n)).no_duplicates(),
        forall|k: KeyV|
            #![trigger keys_at(s.probe_keys, recorded(mode, s, n)).contains(k)]
            keys_at(s.probe_keys, recorded(mode, s, n)).contains(k) <==> s.probe_keys.take(
                n as int,
            ).contains(k) && qualifies(mode, s.build_keys, k),
    decreases n,
{
    let rec = recorded(mode, s, n);
    let keys = keys_at(s.probe_keys, rec);
    if n > 0 {
        let m = (n - 1) as nat;
        let rest = recorded(mode, s, m);
        let before = keys_at(s.probe_keys, rest);
        let k0 = s.probe_keys[m as int];
        let sooner = s.probe_keys.take(m as int);
        let later = s.probe_keys.take(n as int);
        lemma_recorded(mode, s, m);
        assert(later =~= sooner.push(k0));
        let grows = qualifies(mode, s.build_keys, k0) && !before.contains(k0);
        if grows {
            assert(keys =~= before.push(k0));
            assert forall|a: int, b: int| 0 <= a < keys.len() && 0 <= b < keys.len() && a
                != b implies keys[a] != keys[b] by {
                if a < before.len() && b < before.len() {
                    assert(before[a] != before[b]);
                } else if a < before.len() {
                    assert(before[a] != k0);
                } else {
                    assert(before[b] != k0);
                }
            }
        } else {
            assert(keys == before);
        }
        assert forall|t: int| 0 <= t < rec.len() implies 0 <= #[trigger] rec[t] < n by {
            if t < rest.len() {
                assert(rec[t] == rest[t]);
            }
        }
        assert forall|k: KeyV|
            #![trigger keys.contains(k)]
            keys.contains(k) <==> later.contains(k) && qualifies(mode, s.build_keys, k) by {
            lemma_contains_push(sooner, k0, k);
            lemma_contains_push(before, k0, k);
            assert(before.contains(k) <==> sooner.contains(k) && qualifies(
                mode,
                s.build_keys,
                k,
            ));
            assert(before.contains(k0) ==> qualifies(mode, s.build_keys, k0));
        }
    } else {
        assert(s.probe_keys.take(0) =~= Seq::<KeyV>::empty());
    }
}

/// The fields of a keys-output row in normalized form.
pub open spec fn normalized(fields: RowV, fold: bool) -> KeyV {
    Seq::new(fields.len(), |c: int| norm_field(fields[c], fold))
}

/// Keys-output correctness, for every mode with keys. No key is recorded
/// twice, and a key is recorded exactly when a streamed row has it and the
/// mode classifies it: in an anti join when no build row has the key, in
/// every other mode when some build row has it. The rows of the keys
/// output are the key fields of the recorded rows: normalizing the fields
/// of a row gives the recorded key at the same place.
pub proof fn law_keys_recorded(t: Tables, mode: JoinMode)
    requires
        mode != JoinMode::Cross,
    ensures
        t.recorded_keys(mode).no_duplicates(),
        forall|k: KeyV|
            #![trigger t.recorded_keys(mode).contains(k)]
            t.recorded_keys(mode).contains(k) <==> t.sides(mode).probe_keys.contains(k)
                && qualifies(mode, t.sides(mode).build_keys, k),
        t.key_rows(mode).len() == t.recorded_keys(mode).len(),
        forall|i: int|
            0 <= i < t.key_rows(mode).len() ==> normalized(
                #[trigger] t.key_rows(mode)[i],
                t.fold,
            ) == t.recorded_keys(mode)[i],
{
    let s = t.sides(mode);
    let n = s.probe.len();
    lemma_recorded(mode, s, n);
    assert(s.probe_keys.take(n as int) =~= s.probe_keys);
    let rec = recorded(mode, s, n);
    assert forall|i: int| 0 <= i < t.key_rows(mode).len() implies normalized(
        #[trigger] t.key_rows(mode)[i],
        t.fold,
    ) == t.recorded_keys(mode)[i] by {
        assert(0 <= rec[i] < n);
        assert(normalized(t.key_rows(mode)[i], t.fold) =~= t.recorded_keys(mode)[i]);
    }
}

/// Keys-output correctness for the modes that stream the left table. For
/// the inner, left semi and full outer joins the recorded keys are the
/// keys that both tables have; for the left anti join they are the keys of
/// the left table that the right table does not have. Each key is recorded
/// once, however many rows hold it.
pub proof fn law_keys_output(t: Tables)
    ensures
        t.recorded_keys(JoinMode::Inner).to_set() == t.left_keys().to_set().intersect(
            t.right_keys().to_set(),
        ),
        t.recorded_keys(JoinMode::LeftSemi).to_set() == t.left_keys().to_set().intersect(
            t.right_keys().to_set(),
        ),
        t.recorded_keys(JoinMode::FullOuter).to_set() == t.left_keys().to_set().intersect(
            t.right_keys().to_set(),
        ),
        t.recorded_keys(JoinMode::LeftAnti).to_set() == t.left_keys().to_set().difference(
            t.right_keys().to_set(),
        ),
        t.recorded_keys(JoinMode::Inner).no_duplicates(),
        t.recorded_keys(JoinMode::LeftSemi).no_duplicates(),
        t.recorded_keys(JoinMode::FullOuter).no_duplicates(),
        t.recorded_keys(JoinMode::LeftAnti).no_duplicates(),
{
    law_keys_recorded(t, JoinMode::Inner);
    law_keys_recorded(t, JoinMode::LeftSemi);
    law_keys_recorded(t, JoinMode::FullOuter);
    law_keys_recorded(t, JoinMode::LeftAnti);
    let both = t.left_keys().to_set().intersect(t.right_keys().to_set());
    assert(t.recorded_keys(JoinMode::Inner).to_set() =~= both);
    assert(t.recorded_keys(JoinMode::LeftSemi).to_set() =~= both);
    assert(t.recorded_keys(JoinMode::FullOuter).to_set() =~= both);
    assert(t.recorded_keys(JoinMode::LeftAnti).to_set() =~= t.left_keys().to_set().difference(
        t.right_keys().to_set(),
    ));
}

/// A cross join has no keys output, whether or not one is wanted.
pub proof fn law_cross_has_no_keys(t: Tables, names: Option<(RowV, RowV)>, want_keys: bool)
    ensures
        joined(t, JoinMode::Cross, names, want_keys).keys is None,
{
}

/// The positions of a key come in ascending order: the rows that a
/// streamed row is paired with follow each other as they do in the build
/// table.
pub proof fn law_hits_ascend(keys: Seq<KeyV>, k: KeyV)
    ensures
        forall|a: int, b: int|
            0 <= a < b < positions(keys, k).len() ==> positions(keys, k)[a] < positions(
                keys,
                k,
            )[b],
    decreases keys.len(),
{
    if keys.len() > 0 {
        let rest = positions(keys.drop_last(), k);
        let found = positions(keys, k);
        law_hits_ascend(keys.drop_last(), k);
        lemma_positions(keys.drop_last(), k);
        assert forall|a: int, b: int| 0 <= a < b < found.len() implies found[a] < found[b] by {
            if b < rest.len() {
                assert(found[a] == rest[a] && found[b] == rest[b]);
            } else {
                assert(found[a] == rest[a]);
                assert(rest[a] < keys.len() - 1);
            }
        }
    }
}

/// The field count of the rows that a mode emits: that of both tables
/// together where rows are paired, that of the streamed table for the semi
/// and anti joins.
pub open spec fn output_width(t: Tables, mode: JoinMode) -> nat {
    if mode.pairs_rows() {
        t.left_width + t.right_width
    } else if mode.streams_right() {
        t.right_width
    } else {
        t.left_width
    }
}

/// Whether every row of a sequence has `width` fields.
pub open spec fn all_wide(rows: Seq<RowV>, width: nat) -> bool {
    forall|i: int| 0 <= i < rows.len() ==> (#[trigger] rows[i]).len() == width
}

proof fn lemma_all_wide_add(a: Seq<RowV>, b: Seq<RowV>, width: nat)
    requires
        all_wide(a, width),
        all_wide(b, width),
    ensures
        all_wide(a + b, width),
{
    assert forall|i: int| 0 <= i < (a + b).len() implies (#[trigger] (a + b)[i]).len()
        == width by {
        if i < a.len() {
            assert((a + b)[i] == a[i]);
        } else {
            assert((a + b)[i] == b[i - a.len()]);
        }
    }
}

proof fn lemma_probe_widths(t: Tables, mode: JoinMode, n: nat)
    requires
        all_wide(t.left, t.left_width),
        all_wide(t.right, t.right_width),
        n <= t.sides(mode).probe.len(),
    ensures
        all_wide(probe_output(mode, t.sides(mode), n), output_width(t, mode)),
    decreases n,
{
    let s = t.sides(mode);
    if n > 0 {
        let i = (n - 1) as nat;
        lemma_probe_widths(t, mode, i);
        let hits = hits_for(mode, s.build_keys, s.probe_keys[i as int]);
        let now = emit(mode, s.probe[i as int], hits, s.build, s.build_width);
        lemma_positions(s.build_keys, s.probe_keys[i as int]);
        assert(s.probe[i as int].len() == s.probe_width);
        assert forall|j: int| 0 <= j < now.len() implies (#[trigger] now[j]).len() == output_width(
            t,
            mode,
        ) by {
            if mode.pairs_rows() && hits.len() > 0 {
                assert(0 <= hits[j] < s.build.len());
                assert(s.build[hits[j]].len() == s.build_width);
            }
        }
        lemma_all_wide_add(probe_output(mode, s, i), now, output_width(t, mode));
    }
}

proof fn lemma_tail_widths(t: Tables, mode: JoinMode, n: nat)
    requires
        mode.has_tail(),
        all_wide(t.right, t.right_width),
        n <= t.right.len(),
    ensures
        all_wide(tail_output(t.sides(mode), n), output_width(t, mode)),
    decreases n,
{
    let s = t.sides(mode);
    if n > 0 {
        let j = (n - 1) as nat;
        lemma_tail_widths(t, mode, j);
        let rest = tail_output(s, j);
        let full = tail_output(s, n);
        assert(s.build[j as int].len() == s.build_width);
        assert forall|i: int| 0 <= i < full.len() implies (#[trigger] full[i]).len()
            == output_width(t, mode) by {
            if i < rest.len() {
                assert(full[i] == rest[i]);
            }
        }
    }
}

/// Output width: in tables whose rows all have the width of their table,
/// every row that a join emits has the width of its mode, padded rows and
/// tail rows included.
pub proof fn law_output_width(t: Tables, mode: JoinMode)
    requires
        all_wide(t.left, t.left_width),
        all_wide(t.right, t.right_width),
    ensures
        all_wide(t.rows(mode), output_width(t, mode)),
{
    let s = t.sides(mode);
    lemma_probe_widths(t, mode, s.probe.len());
    if mode.has_tail() {
        lemma_tail_widths(t, mode, s.build.len());
        lemma_all_wide_add(
            probe_output(mode, s, s.probe.len()),
            tail_output(s, s.build.len()),
            output_width(t, mode),
        );
    }
}

} // verus!
