use std::cmp::Ordering;
use vstd::prelude::*;

verus! {

/// Severity of a log record. Records are ordered `Log < Warning < Error`.
#[derive(Clone, Copy, Debug, PartialEq, Eq, Structural, PartialOrd, Ord)]
pub enum Level {
    Log,
    Warning,
    Error,
}

/// Position of a level in the severity order.
pub open spec fn severity(l: Level) -> int {
    match l {
        Level::Log => 0,
        Level::Warning => 1,
        Level::Error => 2,
    }
}

/// The three-way comparison of two levels by severity.
pub open spec fn level_order(a: Level, b: Level) -> Ordering {
    if severity(a) < severity(b) {
        Ordering::Less
    } else if severity(a) == severity(b) {
        Ordering::Equal
    } else {
        Ordering::Greater
    }
}

impl Default for Level {
    /// The default level is the least severe one, `Log`.
    fn default() -> (l: Level)
        ensures
            l == Level::Log,
    {
        Level::Log
    }
}

impl Level {
    /// Compares two levels by severity.
    pub fn compare(&self, other: &Level) -> (o: Ordering)
        ensures
            o == level_order(*self, *other),
    {
        if *self == *other {
            return Ordering::Equal;
        }
        match (self, other) {
            (Level::Log, _) => Ordering::Less,
            (Level::Error, _) => Ordering::Greater,
            (Level::Warning, Level::Log) => Ordering::Greater,
            (Level::Warning, Level::Error) => Ordering::Less,
            (Level::Warning, Level::Warning) => Ordering::Equal,
        }
    }
}

/// The severity order is a total order: two levels compare `Equal` exactly
/// when they are the same level, and swapping the operands reverses the result.
pub proof fn lemma_level_order_total(a: Level, b: Level)
    ensures
        (level_order(a, b) == Ordering::Equal) <==> a == b,
        (level_order(a, b) == Ordering::Less) <==> (level_order(b, a) == Ordering::Greater),
{
}

/// The severity order is transitive.
pub proof fn lemma_level_order_transitive(a: Level, b: Level, c: Level)
    ensures
        level_order(a, b) == Ordering::Less && level_order(b, c) == Ordering::Less
            ==> level_order(a, c) == Ordering::Less,
        level_order(a, b) != Ordering::Greater && level_order(b, c) != Ordering::Greater
            ==> level_order(a, c) != Ordering::Greater,
{
}

/// The default level, `Log`, is below or equal to every level, and `Error` is
/// above or equal to every level.
pub proof fn lemma_level_bounds(l: Level)
    ensures
        level_order(Level::Log, l) != Ordering::Greater,
        level_order(l, Level::Error) != Ordering::Greater,
{
}

} // verus!
