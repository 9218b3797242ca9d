//! The check that a rule table is closed: every variable in a rule body has
//! an entry of its own.
//!
//! The table is walked entry by entry in the order of its keys, each entry
//! alternative by alternative, each body from left to right. The walk stops
//! at the first variable without an entry.

use std::collections::BTreeMap;
use vstd::prelude::*;
use crate::grammar::Rule;
use crate::model::{
    alternatives_are_closed, alternatives_view, body_is_closed, rules_are_closed, rules_view,
    symbol_is_defined,
};

verus! {

/// Whether every symbol of `body` is a token or has an entry in `rules`.
pub(crate) fn check_body(
    rules: &BTreeMap<u64, Vec<Rule>>,
    last_token: u64,
    body: &Rule,
) -> (closed: bool)
    ensures
        closed == body_is_closed(rules_view(rules@), last_token, body@),
{
    for k in 0..body.len()
        invariant
            forall|p: int|
                0 <= p < k ==> symbol_is_defined(rules_view(rules@), last_token, #[trigger] body@[p]),
    {
        let symbol: u64 = body[k];
        if symbol > last_token && rules.get(&symbol).is_none() {
            return false;
        }
    }
    true
}

/// Whether every body among `alternatives` is closed.
pub(crate) fn check_alternatives(
    rules: &BTreeMap<u64, Vec<Rule>>,
    last_token: u64,
    alternatives: &Vec<Rule>,
) -> (closed: bool)
    ensures
        closed == alternatives_are_closed(
            rules_view(rules@),
            last_token,
            alternatives_view(alternatives@),
        ),
{
    let ghost bodies = alternatives_view(alternatives@);
    for i in 0..alternatives.len()
        invariant
            bodies == alternatives_view(alternatives@),
            forall|p: int|
                0 <= p < i ==> body_is_closed(rules_view(rules@), last_token, #[trigger] bodies[p]),
    {
        assert(bodies[i as int] == alternatives@[i as int]@);
        if !check_body(rules, last_token, &alternatives[i]) {
            return false;
        }
    }
    true
}

/// Whether no rule in `rules` mentions a variable without an entry.
pub(crate) fn check_rules(rules: &BTreeMap<u64, Vec<Rule>>, last_token: u64) -> (closed: bool)
    ensures
        closed == rules_are_closed(rules_view(rules@), last_token),
{
    let ghost table = rules_view(rules@);
    for (variable, alternatives) in entries: rules.iter()
        invariant
            table == rules_view(rules@),
            forall|p: int|
                0 <= p < entries.index() ==> alternatives_are_closed(
                    table,
                    last_token,
                    table[*(#[trigger] entries.seq()[p]).0],
                ),
    {
        assert(table[*variable] == alternatives_view(alternatives@));
        if !check_alternatives(rules, last_token, alternatives) {
            return false;
        }
    }
    true
}

} // verus!
