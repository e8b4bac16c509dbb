//! Joins of a `SELECT`: the joined table, the condition and the kind.

use vstd::prelude::*;
use crate::filter::{Filter, FilterModel};

verus! {

/// The kind of a join.
#[derive(Debug, Clone, Copy, PartialEq, Eq, Structural)]
pub enum JoinType {
    InnerJoin,
    LeftJoin,
    RightJoin,
    FullOuterJoin,
}

/// The direction of an ordering.
#[derive(Debug, Clone, Copy, PartialEq, Eq, Structural)]
pub enum Order {
    Asc,
    Desc,
}

/// A join of a `SELECT` with another table.
#[derive(Debug)]
pub struct Join {
    pub table: &'static str,
    pub on: Filter,
    pub kind: JoinType,
}

/// What a [`Join`] holds.
pub struct JoinModel {
    pub table: Seq<char>,
    pub on: FilterModel,
    pub kind: JoinType,
}

impl View for Join {
    type V = JoinModel;

    open spec fn view(&self) -> JoinModel {
        JoinModel { table: self.table@, on: self.on@, kind: self.kind }
    }
}

/// The keywords of a kind of join.
pub open spec fn join_keyword(kind: JoinType) -> Seq<char> {
    match kind {
        JoinType::InnerJoin => "INNER JOIN"@,
        JoinType::LeftJoin => "LEFT JOIN"@,
        JoinType::RightJoin => "RIGHT JOIN"@,
        JoinType::FullOuterJoin => "FULL OUTER JOIN"@,
    }
}

impl Join {
    /// An `INNER JOIN`.
    pub fn inner(table: &'static str, on: Filter) -> (r: Join)
        ensures
            r@ == (JoinModel { table: table@, on: on@, kind: JoinType::InnerJoin }),
    {
        Join { table, on, kind: JoinType::InnerJoin }
    }

    /// A `LEFT JOIN`.
    pub fn left(table: &'static str, on: Filter) -> (r: Join)
        ensures
            r@ == (JoinModel { table: table@, on: on@, kind: JoinType::LeftJoin }),
    {
        Join { table, on, kind: JoinType::LeftJoin }
    }

    /// A `RIGHT JOIN`.
    pub fn right(table: &'static str, on: Filter) -> (r: Join)
        ensures
            r@ == (JoinModel { table: table@, on: on@, kind: JoinType::RightJoin }),
    {
        Join { table, on, kind: JoinType::RightJoin }
    }

    /// A `FULL OUTER JOIN`.
    pub fn full(table: &'static str, on: Filter) -> (r: Join)
        ensures
            r@ == (JoinModel { table: table@, on: on@, kind: JoinType::FullOuterJoin }),
    {
        Join { table, on, kind: JoinType::FullOuterJoin }
    }

    /// A copy of the join.
    pub fn clone(&self) -> (r: Join)
        ensures
            r@ == self@,
    {
        Join { table: self.table, on: Filter::clone(&self.on), kind: self.kind }
    }

    /// The keywords of the join's kind.
    pub fn keyword(&self) -> (r: &'static str)
        ensures
            r@ == join_keyword(self.kind),
    {
        match self.kind {
            JoinType::InnerJoin => "INNER JOIN",
            JoinType::LeftJoin => "LEFT JOIN",
            JoinType::RightJoin => "RIGHT JOIN",
            JoinType::FullOuterJoin => "FULL OUTER JOIN",
        }
    }
}

} // verus!
