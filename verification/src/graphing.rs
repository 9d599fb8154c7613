//! The kinds of chart a report can hold.
use vstd::prelude::*;
use crate::text::str_eq;

verus! {

/// A kind of chart.
#[derive(Debug, Clone, Copy, PartialEq, Eq, Structural)]
pub enum GraphType {
    Line,
    Bar,
    Pie,
    Stock,
}

/// The kind of chart a name stands for.
pub open spec fn graph_type_named(s: Seq<char>) -> Option<GraphType> {
    if s == "line"@ {
        Some(GraphType::Line)
    } else if s == "bar"@ {
        Some(GraphType::Bar)
    } else if s == "pie"@ {
        Some(GraphType::Pie)
    } else if s == "stock"@ {
        Some(GraphType::Stock)
    } else {
        None
    }
}

impl GraphType {
    /// The kind of chart a name stands for: `line`, `bar`, `pie` or `stock`.
    pub fn from_str(s: &str) -> (g: Option<GraphType>)
        ensures
            g == graph_type_named(s@),
    {
        if str_eq(s, "line") {
            Some(GraphType::Line)
        } else if str_eq(s, "bar") {
            Some(GraphType::Bar)
        } else if str_eq(s, "pie") {
            Some(GraphType::Pie)
        } else if str_eq(s, "stock") {
            Some(GraphType::Stock)
        } else {
            None
        }
    }
}

} // verus!
