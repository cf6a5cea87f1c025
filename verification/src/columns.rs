//! The column selector: from a key spec such as `city,state` or `2,1` to
//! the positions of the key columns in a table.

use vstd::prelude::*;
use vstd::string::StrSliceExecFns;
use crate::error::JoinError;
use crate::model::{ints, sel_fits, RowV};
use crate::text::{split_at_commas, split_commas};

verus! {

/// The tokens of a spec. The empty spec has none: it selects no column.
pub open spec fn spec_tokens(spec: Seq<char>) -> Seq<Seq<char>> {
    if spec.len() == 0 {
        Seq::empty()
    } else {
        split_commas(spec)
    }
}

/// Whether `c` is one of the ten ASCII digits.
pub open spec fn is_digit(c: char) -> bool {
    '0' <= c <= '9'
}

/// Whether a token is a decimal number: one or more ASCII digits.
pub open spec fn is_number(token: Seq<char>) -> bool {
    &&& token.len() > 0
    &&& forall|i: int| 0 <= i < token.len() ==> is_digit(#[trigger] token[i])
}

/// The value of a string of digits, read as a decimal number.
pub open spec fn number_value(digits: Seq<char>) -> nat
    decreases digits.len(),
{
    if digits.len() == 0 {
        0
    } else {
        (10 * number_value(digits.drop_last()) + (digits.last() as nat - '0' as nat)) as nat
    }
}

/// The first position at or after `from` whose name is exactly `token`.
pub open spec fn first_named(names: RowV, token: Seq<char>, from: int) -> Option<int>
    decreases names.len() - from,
{
    if from < 0 || from >= names.len() {
        None
    } else if names[from] == token {
        Some(from)
    } else {
        first_named(names, token, from + 1)
    }
}

/// The column that one token selects in a table whose first row is
/// `first_row`. A decimal number is a position counted from 1 and must not
/// exceed the width of the table. Any other token is a column name: it
/// selects the first column whose header is exactly that name, and selects
/// nothing in a table without headers.
pub open spec fn resolve_token(token: Seq<char>, first_row: RowV, named: bool) -> Option<int> {
    if is_number(token) {
        let v = number_value(token);
        if 1 <= v <= first_row.len() {
            Some(v - 1)
        } else {
            None
        }
    } else if named {
        first_named(first_row, token, 0)
    } else {
        None
    }
}

/// The columns that a list of tokens selects, if every token selects one.
pub open spec fn resolve_tokens(tokens: Seq<Seq<char>>, first_row: RowV, named: bool) -> Option<
    Seq<int>,
> {
    if forall|t: int|
        0 <= t < tokens.len() ==> resolve_token(#[trigger] tokens[t], first_row, named) is Some {
        Some(Seq::new(tokens.len(), |t: int| resolve_token(tokens[t], first_row, named)->0))
    } else {
        None
    }
}

/// The columns that a spec selects, if every token of it selects one.
pub open spec fn resolve_spec(spec: Seq<char>, first_row: RowV, named: bool) -> Option<Seq<int>> {
    resolve_tokens(spec_tokens(spec), first_row, named)
}

/// A named column is a column of the table.
pub proof fn lemma_first_named(names: RowV, token: Seq<char>, from: int)
    requires
        0 <= from,
    ensures
        match first_named(names, token, from) {
            Some(i) => from <= i < names.len() && names[i] == token,
            None => forall|j: int| from <= j < names.len() ==> names[j] != token,
        },
    decreases names.len() - from,
{
    if from < names.len() && names[from] != token {
        lemma_first_named(names, token, from + 1);
    }
}

/// Every column that a spec selects is a column of the table.
pub proof fn lemma_resolved_fits(spec: Seq<char>, first_row: RowV, named: bool)
    requires
        resolve_spec(spec, first_row, named) is Some,
    ensures
        sel_fits(resolve_spec(spec, first_row, named)->0, first_row.len() as int),
        resolve_spec(spec, first_row, named)->0.len() == spec_tokens(spec).len(),
{
    let tokens = spec_tokens(spec);
    let sel = resolve_spec(spec, first_row, named)->0;
    assert forall|c: int| 0 <= c < sel.len() implies 0 <= #[trigger] sel[c] < first_row.len() by {
        assert(resolve_token(tokens[c], first_row, named) is Some);
        if !is_number(tokens[c]) {
            lemma_first_named(first_row, tokens[c], 0);
        }
    }
}

/// A longer string of digits has no smaller value than its prefix.
pub proof fn lemma_number_grows(digits: Seq<char>, i: int)
    requires
        0 <= i <= digits.len(),
        forall|j: int| 0 <= j < digits.len() ==> is_digit(#[trigger] digits[j]),
    ensures
        number_value(digits.take(i)) <= number_value(digits),
    decreases digits.len() - i,
{
    if i == digits.len() {
        assert(digits.take(i) =~= digits);
    } else {
        lemma_number_grows(digits, i + 1);
        assert(digits.take(i + 1).drop_last() =~= digits.take(i));
        assert(is_digit(digits[i]));
    }
}

/// The key columns of one table, in the order in which the spec names them.
pub struct ColumnSpec {
    columns: Vec<usize>,
}

impl View for ColumnSpec {
    type V = Seq<int>;

    closed spec fn view(&self) -> Seq<int> {
        ints(self.columns@)
    }
}

fn split_spec(spec: &str) -> (tokens: Vec<String>)
    ensures
        tokens.deep_view() == spec_tokens(spec@),
{
    if spec.is_empty() {
        let tokens: Vec<String> = Vec::new();
        assert(tokens.deep_view() =~= spec_tokens(spec@));
        tokens
    } else {
        split_at_commas(spec)
    }
}

fn digit_of(c: char) -> (d: Option<u8>)
    ensures
        match d {
            Some(v) => is_digit(c) && v == c as nat - '0' as nat,
            None => !is_digit(c),
        },
{
    if '0' <= c && c <= '9' {
        Some(((c as u32) - ('0' as u32)) as u8)
    } else {
        None
    }
}

fn token_is_number(token: &str) -> (r: bool)
    ensures
        r == is_number(token@),
{
    let n = token.unicode_len();
    if n == 0 {
        return false;
    }
    let mut i: usize = 0;
    while i < n
        invariant
            n == token@.len(),
            0 <= i <= n,
            forall|j: int| 0 <= j < i ==> is_digit(#[trigger] token@[j]),
        decreases n - i,
    {
        let c = token.get_char(i);
        if digit_of(c).is_none() {
            return false;
        }
        i = i + 1;
    }
    true
}

fn number_column(token: &str, width: usize) -> (r: Option<usize>)
    requires
        is_number(token@),
    ensures
        match r {
            Some(col) => 1 <= number_value(token@) <= width && col == number_value(token@) - 1,
            None => !(1 <= number_value(token@) <= width),
        },
{
    let n = token.unicode_len();
    let mut v: usize = 0;
    let mut i: usize = 0;
    proof {
        assert(token@.take(0) =~= Seq::<char>::empty());
    }
    while i < n
        invariant
            n == token@.len(),
            0 <= i <= n,
            is_number(token@),
            v <= width,
            v == number_value(token@.take(i as int)),
        decreases n - i,
    {
        let c = token.get_char(i);
        let d = match digit_of(c) {
            Some(d) => d,
            None => 0,
        };
        proof {
            assert(is_digit(token@[i as int]));
            assert(token@.take(i + 1).drop_last() =~= token@.take(i as int));
            assert(token@.take(i + 1).last() == c);
        }
        let wide: u128 = (v as u128) * 10 + (d as u128);
        if wide > width as u128 {
            proof {
                lemma_number_grows(token@, i + 1);
            }
            return None;
        }
        v = wide as usize;
        i = i + 1;
    }
    proof {
        assert(token@.take(n as int) =~= token@);
    }
    if v == 0 {
        None
    } else {
        Some(v - 1)
    }
}

fn named_column(token: &String, names: &Vec<String>) -> (r: Option<usize>)
    ensures
        match r {
            Some(col) => first_named(names.deep_view(), token@, 0) == Some(col as int),
            None => first_named(names.deep_view(), token@, 0) is None,
        },
{
    let mut i: usize = 0;
    while i < names.len()
        invariant
            0 <= i <= names.len(),
            first_named(names.deep_view(), token@, 0) == first_named(
                names.deep_view(),
                token@,
                i as int,
            ),
        decreases names.len() - i,
    {
        assert(names.deep_view()[i as int] == names[i as int]@);
        if names[i] == *token {
            return Some(i);
        }
        i = i + 1;
    }
    None
}

fn resolve_one(token: &String, first_row: &Vec<String>, named: bool) -> (r: Option<usize>)
    ensures
        match r {
            Some(col) => resolve_token(token@, first_row.deep_view(), named) == Some(col as int),
            None => resolve_token(token@, first_row.deep_view(), named) is None,
        },
{
    if token_is_number(token.as_str()) {
        number_column(token.as_str(), first_row.len())
    } else if named {
        named_column(token, first_row)
    } else {
        None
    }
}

impl ColumnSpec {
    /// Resolves a key spec against the first row of a table. With `named`
    /// set the first row holds the column names. The spec is split at its
    /// commas; the empty spec selects no column. The result is an error as
    /// soon as one token selects no column of the table.
    pub fn parse(spec: &str, first_row: &Vec<String>, named: bool) -> (r: Result<
        ColumnSpec,
        JoinError,
    >)
        ensures
            match r {
                Ok(sel) => resolve_spec(spec@, first_row.deep_view(), named) == Some(sel@),
                Err(e) => e == JoinError::InvalidColumn && resolve_spec(
                    spec@,
                    first_row.deep_view(),
                    named,
                ) is None,
            },
    {
        let tokens = split_spec(spec);
        let mut columns: Vec<usize> = Vec::new();
        let mut t: usize = 0;
        while t < tokens.len()
            invariant
                0 <= t <= tokens.len(),
                tokens.deep_view() == spec_tokens(spec@),
                columns@.len() == t,
                forall|u: int|
                    0 <= u < t ==> resolve_token(
                        #[trigger] tokens.deep_view()[u],
                        first_row.deep_view(),
                        named,
                    ) == Some(columns@[u] as int),
            decreases tokens.len() - t,
        {
            assert(tokens.deep_view()[t as int] == tokens[t as int]@);
            match resolve_one(&tokens[t], first_row, named) {
                Some(col) => {
                    columns.push(col);
                },
                None => {
                    return Err(JoinError::InvalidColumn);
                },
            }
            t = t + 1;
        }
        let sel = ColumnSpec { columns };
        assert(sel@ =~= resolve_spec(spec@, first_row.deep_view(), named)->0);
        Ok(sel)
    }

    /// The number of key columns.
    pub fn len(&self) -> (n: usize)
        ensures
            n == self@.len(),
    {
        self.columns.len()
    }

    /// The position of the `c`-th key column.
    pub fn column(&self, c: usize) -> (col: usize)
        requires
            c < self@.len(),
        ensures
            col == self@[c as int],
    {
        self.columns[c]
    }
}

} // verus!
