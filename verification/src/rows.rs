//! Building output rows: copies of fields, blank padding and concatenation.

use vstd::prelude::*;
use crate::model::blanks;

verus! {

/// Appending a field to a row appends its view to the row's view.
pub proof fn lemma_row_push(before: Vec<String>, after: Vec<String>, field: String)
    requires
        after@ == before@.push(field),
    ensures
        after.deep_view() == before.deep_view().push(field@),
{
    assert(after.deep_view() =~= before.deep_view().push(field@));
}

/// Appending a row to a table appends its view to the table's view.
pub proof fn lemma_rows_push(before: Vec<Vec<String>>, after: Vec<Vec<String>>, row: Vec<String>)
    requires
        after@ == before@.push(row),
    ensures
        after.deep_view() == before.deep_view().push(row.deep_view()),
{
    assert(after.deep_view() =~= before.deep_view().push(row.deep_view()));
}

/// Appends copies of the fields of `src` to `row`.
pub fn append_fields(row: &mut Vec<String>, src: &Vec<String>)
    ensures
        final(row).deep_view() == old(row).deep_view() + src.deep_view(),
{
    let mut i: usize = 0;
    while i < src.len()
        invariant
            0 <= i <= src.len(),
            row.deep_view() == old(row).deep_view() + src.deep_view().take(i as int),
        decreases src.len() - i,
    {
        let field = src[i].clone();
        let ghost before = *row;
        row.push(field);
        proof {
            lemma_row_push(before, *row, field);
            assert(src.deep_view().take(i + 1) =~= src.deep_view().take(i as int).push(
                src[i as int]@,
            ));
            assert(row.deep_view() =~= old(row).deep_view() + src.deep_view().take(i + 1));
        }
        i = i + 1;
    }
    proof {
        assert(src.deep_view().take(src.len() as int) =~= src.deep_view());
    }
}

/// Appends `n` empty fields to `row`.
pub fn append_blanks(row: &mut Vec<String>, n: usize)
    ensures
        final(row).deep_view() == old(row).deep_view() + blanks(n as nat),
{
    let mut i: usize = 0;
    while i < n
        invariant
            0 <= i <= n,
            row.deep_view() == old(row).deep_view() + blanks(i as nat),
        decreases n - i,
    {
        let field = String::new();
        let ghost before = *row;
        row.push(field);
        proof {
            lemma_row_push(before, *row, field);
            assert(blanks((i + 1) as nat) =~= blanks(i as nat).push(Seq::<char>::empty()));
            assert(row.deep_view() =~= old(row).deep_view() + blanks((i + 1) as nat));
        }
        i = i + 1;
    }
}

/// A copy of a row.
pub fn copy_row(src: &Vec<String>) -> (row: Vec<String>)
    ensures
        row.deep_view() == src.deep_view(),
{
    let mut row: Vec<String> = Vec::new();
    assert(row.deep_view() =~= Seq::<Seq<char>>::empty());
    append_fields(&mut row, src);
    assert(row.deep_view() =~= src.deep_view());
    row
}

/// The row made of the fields of `first` followed by those of `second`.
pub fn concat_rows(first: &Vec<String>, second: &Vec<String>) -> (row: Vec<String>)
    ensures
        row.deep_view() == first.deep_view() + second.deep_view(),
{
    let mut row = copy_row(first);
    append_fields(&mut row, second);
    row
}

/// The row made of `n` empty fields followed by the fields of `second`.
pub fn blanks_then(n: usize, second: &Vec<String>) -> (row: Vec<String>)
    ensures
        row.deep_view() == blanks(n as nat) + second.deep_view(),
{
    let mut row: Vec<String> = Vec::new();
    assert(row.deep_view() =~= Seq::<Seq<char>>::empty());
    append_blanks(&mut row, n);
    assert(row.deep_view() =~= blanks(n as nat));
    append_fields(&mut row, second);
    row
}

/// The row made of the fields of `first` followed by `n` empty fields.
pub fn then_blanks(first: &Vec<String>, n: usize) -> (row: Vec<String>)
    ensures
        row.deep_view() == first.deep_view() + blanks(n as nat),
{
    let mut row = copy_row(first);
    append_blanks(&mut row, n);
    row
}

} // verus!
