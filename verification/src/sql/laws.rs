//! Properties of the value ordering.

use vstd::prelude::*;
use std::cmp::Ordering;
use crate::types::SValue;
use crate::sql::compare::compare_order;
use crate::strutil::{lemma_lex_rank_antisymmetric, lemma_lex_rank_reflexive, lemma_lex_rank_transitive};

verus! {

/// The reverse of an ordering.
pub open spec fn reverse_order(o: Ordering) -> Ordering {
    match o {
        Ordering::Less => Ordering::Greater,
        Ordering::Greater => Ordering::Less,
        Ordering::Equal => Ordering::Equal,
    }
}

/// Comparing two values the other way round gives the reverse ordering.
pub proof fn lemma_compare_antisymmetric(a: SValue, b: SValue)
    ensures
        compare_order(a, b) == reverse_order(compare_order(b, a)),
{
    match (a, b) {
        (SValue::Text(x), SValue::Text(y)) => { lemma_lex_rank_antisymmetric(x, y); },
        _ => {},
    }
}

/// Every value compares equal to itself.
pub proof fn lemma_compare_reflexive(a: SValue)
    ensures
        compare_order(a, a) == Ordering::Equal,
{
    match a {
        SValue::Text(x) => { lemma_lex_rank_reflexive(x); },
        _ => {},
    }
}

/// Whether two values are of one ordered kind: both integers, floats,
/// texts, timestamps or booleans.
pub open spec fn same_ordered_kind(a: SValue, b: SValue) -> bool {
    ||| (a is Integer && b is Integer)
    ||| (a is Float && b is Float)
    ||| (a is Text && b is Text)
    ||| (a is Timestamp && b is Timestamp)
    ||| (a is Boolean && b is Boolean)
}

/// Values of one kind are ordered transitively: `a <= b <= c` gives
/// `a <= c`, and strictly so when either step is strict.
pub proof fn lemma_compare_transitive(a: SValue, b: SValue, c: SValue)
    requires
        same_ordered_kind(a, b),
        same_ordered_kind(b, c),
        compare_order(a, b) != Ordering::Greater,
        compare_order(b, c) != Ordering::Greater,
    ensures
        compare_order(a, c) != Ordering::Greater,
        (compare_order(a, b) == Ordering::Less || compare_order(b, c) == Ordering::Less)
            ==> compare_order(a, c) == Ordering::Less,
{
    match (a, b, c) {
        (SValue::Text(x), SValue::Text(y), SValue::Text(z)) => { lemma_lex_rank_transitive(x, y, z); },
        _ => {},
    }
}

} // verus!
