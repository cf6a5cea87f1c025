//! The decisions of the pivot command: which columns take which role and
//! how the values are aggregated. The pivot itself is computed by the
//! caller's dataframe engine.

use vstd::prelude::*;
use crate::text::{lowercase_of, same_text, split_at_commas, split_commas};

verus! {

/// How the values that fall into one cell are aggregated.
#[derive(Clone, Copy, Debug, PartialEq, Eq, Structural)]
pub enum PivotAgg {
    First,
    Sum,
    Min,
    Max,
    Mean,
    Median,
    Count,
    Last,
}

/// Why a pivot request is refused.
#[derive(Clone, Copy, Debug, PartialEq, Eq, Structural)]
pub enum PivotError {
    /// Neither index columns nor value columns are given.
    NoIndexOrValues,
    /// The aggregation is none of the eight that exist.
    InvalidAggregation,
}

impl PivotError {
    /// The one line that tells the user what was wrong with the request.
    pub open spec fn spec_message(self) -> Seq<char> {
        match self {
            PivotError::NoIndexOrValues =>
                "Either --index <cols> or --values <cols> must be specified."@,
            PivotError::InvalidAggregation => "Invalid pivot aggregation function."@,
        }
    }

    /// The one line that tells the user what was wrong with the request.
    pub fn message(self) -> (text: &'static str)
        ensures
            text@ == self.spec_message(),
    {
        match self {
            PivotError::NoIndexOrValues =>
                "Either --index <cols> or --values <cols> must be specified.",
            PivotError::InvalidAggregation => "Invalid pivot aggregation function.",
        }
    }
}

/// The aggregation with the given name, which is written in small letters.
pub open spec fn agg_named(name: Seq<char>) -> Option<PivotAgg> {
    if name == "first"@ {
        Some(PivotAgg::First)
    } else if name == "sum"@ {
        Some(PivotAgg::Sum)
    } else if name == "min"@ {
        Some(PivotAgg::Min)
    } else if name == "max"@ {
        Some(PivotAgg::Max)
    } else if name == "mean"@ {
        Some(PivotAgg::Mean)
    } else if name == "median"@ {
        Some(PivotAgg::Median)
    } else if name == "count"@ {
        Some(PivotAgg::Count)
    } else if name == "last"@ {
        Some(PivotAgg::Last)
    } else {
        None
    }
}

/// The aggregation with the given name, which is written in small letters.
pub fn agg_from_name(name: &str) -> (r: Option<PivotAgg>)
    ensures
        r == agg_named(name@),
{
    if same_text(name, "first") {
        Some(PivotAgg::First)
    } else if same_text(name, "sum") {
        Some(PivotAgg::Sum)
    } else if same_text(name, "min") {
        Some(PivotAgg::Min)
    } else if same_text(name, "max") {
        Some(PivotAgg::Max)
    } else if same_text(name, "mean") {
        Some(PivotAgg::Mean)
    } else if same_text(name, "median") {
        Some(PivotAgg::Median)
    } else if same_text(name, "count") {
        Some(PivotAgg::Count)
    } else if same_text(name, "last") {
        Some(PivotAgg::Last)
    } else {
        None
    }
}

/// The aggregation that a name selects, whatever the case of its letters.
pub fn parse_agg(name: &str) -> (r: Option<PivotAgg>)
    ensures
        r == agg_named(lowercase_of(name@)),
{
    let lower = name.to_lowercase();
    agg_from_name(lower.as_str())
}

/// What is to be pivoted, in views.
pub struct PlanV {
    pub on: Seq<Seq<char>>,
    pub index: Option<Seq<Seq<char>>>,
    pub values: Option<Seq<Seq<char>>>,
    pub agg: Option<PivotAgg>,
    pub separator: u8,
}

/// What is to be pivoted.
pub struct PivotPlan {
    /// The columns whose values become the new columns.
    pub on: Vec<String>,
    /// The columns whose values become the new rows.
    pub index: Option<Vec<String>>,
    /// The columns whose values are aggregated.
    pub values: Option<Vec<String>>,
    /// The aggregation, where one is asked for.
    pub agg: Option<PivotAgg>,
    /// The field separator of input and output.
    pub separator: u8,
}

/// The view of a list of column names that may be absent.
pub open spec fn names_view(names: Option<Vec<String>>) -> Option<Seq<Seq<char>>> {
    match names {
        Some(n) => Some(n.deep_view()),
        None => None,
    }
}

impl View for PivotPlan {
    type V = PlanV;

    open spec fn view(&self) -> PlanV {
        PlanV {
            on: self.on.deep_view(),
            index: names_view(self.index),
            values: names_view(self.values),
            agg: self.agg,
            separator: self.separator,
        }
    }
}

/// The columns that a list names, where there is a list.
pub open spec fn listed(list: Option<Seq<char>>) -> Option<Seq<Seq<char>>> {
    match list {
        Some(l) => Some(split_commas(l)),
        None => None,
    }
}

/// The view of a text that may be absent.
pub open spec fn text_view(text: Option<&str>) -> Option<Seq<char>> {
    match text {
        Some(t) => Some(t@),
        None => None,
    }
}

/// The outcome of a pivot request, where `lowered` is the name of the
/// aggregation in small letters. A request needs index columns or value
/// columns. The name of the aggregation, where one is given, must be one
/// of the eight. Column lists are split at their commas, and the
/// separator is the comma unless another is given.
pub open spec fn pivot_outcome(
    on: Seq<char>,
    index: Option<Seq<char>>,
    values: Option<Seq<char>>,
    lowered: Option<Seq<char>>,
    delimiter: Option<u8>,
) -> Result<PlanV, PivotError> {
    if index is None && values is None {
        Err(PivotError::NoIndexOrValues)
    } else if lowered is Some && agg_named(lowered->0) is None {
        Err(PivotError::InvalidAggregation)
    } else {
        Ok(
            PlanV {
                on: split_commas(on),
                index: listed(index),
                values: listed(values),
                agg: match lowered {
                    Some(name) => agg_named(name),
                    None => None,
                },
                separator: match delimiter {
                    Some(d) => d,
                    None => 0x2C,
                },
            },
        )
    }
}

/// The name of an aggregation in small letters, where one is given.
pub open spec fn lowered_view(agg: Option<&str>) -> Option<Seq<char>> {
    match agg {
        Some(a) => Some(lowercase_of(a@)),
        None => None,
    }
}

fn split_list(list: Option<&str>) -> (r: Option<Vec<String>>)
    ensures
        names_view(r) == listed(text_view(list)),
{
    match list {
        Some(l) => Some(split_at_commas(l)),
        None => None,
    }
}

/// Reads a pivot request whose aggregation is already named in small
/// letters into a plan, or refuses it.
pub fn plan_with(
    on: &str,
    index: Option<&str>,
    values: Option<&str>,
    lowered: Option<&str>,
    delimiter: Option<u8>,
) -> (r: Result<PivotPlan, PivotError>)
    ensures
        match r {
            Ok(plan) => pivot_outcome(
                on@,
                text_view(index),
                text_view(values),
                text_view(lowered),
                delimiter,
            ) == Ok::<PlanV, PivotError>(plan@),
            Err(e) => pivot_outcome(
                on@,
                text_view(index),
                text_view(values),
                text_view(lowered),
                delimiter,
            ) == Err::<PlanV, PivotError>(e),
        },
{
    let on_cols = split_at_commas(on);
    let index_cols = split_list(index);
    let value_cols = split_list(values);
    if index_cols.is_none() && value_cols.is_none() {
        return Err(PivotError::NoIndexOrValues);
    }
    let agg_fn = match lowered {
        Some(name) => match agg_from_name(name) {
            Some(a) => Some(a),
            None => {
                return Err(PivotError::InvalidAggregation);
            },
        },
        None => None,
    };
    let separator = match delimiter {
        Some(d) => d,
        None => 0x2C,
    };
    Ok(PivotPlan { on: on_cols, index: index_cols, values: value_cols, agg: agg_fn, separator })
}

/// Reads a pivot request into a plan, or refuses it. The name of the
/// aggregation may be written in any case.
pub fn plan_pivot(
    on: &str,
    index: Option<&str>,
    values: Option<&str>,
    agg: Option<&str>,
    delimiter: Option<u8>,
) -> (r: Result<PivotPlan, PivotError>)
    ensures
        match r {
            Ok(plan) => pivot_outcome(
                on@,
                text_view(index),
                text_view(values),
                lowered_view(agg),
                delimiter,
            ) == Ok::<PlanV, PivotError>(plan@),
            Err(e) => pivot_outcome(
                on@,
                text_view(index),
                text_view(values),
                lowered_view(agg),
                delimiter,
            ) == Err::<PlanV, PivotError>(e),
        },
{
    match agg {
        Some(name) => {
            let lower = name.to_lowercase();
            plan_with(on, index, values, Some(lower.as_str()), delimiter)
        },
        None => plan_with(on, index, values, None, delimiter),
    }
}

} // verus!
