//! What holds of every grammar, proved once.
//!
//! The operations of `Cfg` are specified by the model in `model`: each says
//! which `CfgView` it returns or leaves behind. The theorems here are stated
//! over that model, so they hold of the values that the operations produce.

use std::collections::BTreeMap;
use vstd::prelude::*;
use crate::grammar::Rule;
use crate::model::{alternatives_are_closed, body_is_closed, pieces_view, CfgView, NO_START};

verus! {

/// The threshold splits the symbols in two: a symbol is a token exactly when
/// it is at most `last_token`, and a variable exactly when it is no token.
/// Symbol 0 and `last_token` itself are tokens under every threshold.
pub proof fn lemma_threshold_partition(cfg: CfgView, symbol: u64)
    ensures
        cfg.is_token(symbol) <==> symbol <= cfg.last_token,
        cfg.is_variable(symbol) <==> !cfg.is_token(symbol),
        cfg.is_token(0),
        cfg.is_token(cfg.last_token),
{
}

/// Adding a rule or a name moves no symbol from one kind to the other: the
/// threshold stays where it was put.
pub proof fn lemma_threshold_is_fixed(
    cfg: CfgView,
    variable: u64,
    body: Seq<u64>,
    named: u64,
    name: Seq<char>,
    symbol: u64,
)
    ensures
        cfg.with_rule(variable, body).last_token == cfg.last_token,
        cfg.with_name(named, name).last_token == cfg.last_token,
        cfg.with_rule(variable, body).is_token(symbol) == cfg.is_token(symbol),
        cfg.with_name(named, name).is_token(symbol) == cfg.is_token(symbol),
{
}

/// A grammar is closed exactly when no position of any rule body dangles.
pub proof fn lemma_closed_iff_nothing_dangles(cfg: CfgView)
    ensures
        cfg.is_closed() <==> forall|v: u64, i: int, k: int| !cfg.dangles_at(v, i, k),
{
    if cfg.is_closed() {
        assert forall|v: u64, i: int, k: int| !cfg.dangles_at(v, i, k) by {
            if cfg.rules.contains_key(v) && 0 <= i < cfg.rules[v].len() && 0 <= k
                < cfg.rules[v][i].len() {
                assert(body_is_closed(cfg.rules, cfg.last_token, cfg.rules[v][i]));
                assert(cfg.is_defined(cfg.rules[v][i][k]));
            }
        }
    }
    if forall|v: u64, i: int, k: int| !cfg.dangles_at(v, i, k) {
        assert forall|v: u64| cfg.rules.contains_key(v) implies alternatives_are_closed(
            cfg.rules,
            cfg.last_token,
            #[trigger] cfg.rules[v],
        ) by {
            assert forall|i: int| 0 <= i < cfg.rules[v].len() implies body_is_closed(
                cfg.rules,
                cfg.last_token,
                #[trigger] cfg.rules[v][i],
            ) by {
                assert forall|k: int| 0 <= k < cfg.rules[v][i].len() implies cfg.is_defined(
                    #[trigger] cfg.rules[v][i][k],
                ) by {
                    assert(!cfg.dangles_at(v, i, k));
                }
            }
        }
    }
}

/// Pieces whose start symbol is a token are not valid, whatever the tables
/// hold: `Cfg::from_pieces` makes no grammar of them.
pub proof fn lemma_token_start_is_rejected(
    rules: BTreeMap<u64, Vec<Rule>>,
    symbol_map: BTreeMap<u64, String>,
    start: u64,
    last_token: u64,
)
    requires
        start <= last_token,
    ensures
        !pieces_view(rules@, symbol_map@, start, last_token).is_valid(),
{
}

/// Pieces in which alternative `i` of `v1` mentions, at position `k`, a
/// variable `v2` that has no entry in the rule table are not valid, whatever
/// the start symbol: `Cfg::from_pieces` makes no grammar of them.
pub proof fn lemma_dangling_variable_is_rejected(
    rules: BTreeMap<u64, Vec<Rule>>,
    symbol_map: BTreeMap<u64, String>,
    start: u64,
    last_token: u64,
    v1: u64,
    i: int,
    k: int,
    v2: u64,
)
    requires
        rules@.contains_key(v1),
        0 <= i < rules@[v1]@.len(),
        0 <= k < rules@[v1]@[i]@.len(),
        rules@[v1]@[i]@[k] == v2,
        v2 > last_token,
        !rules@.contains_key(v2),
    ensures
        !pieces_view(rules@, symbol_map@, start, last_token).is_valid(),
{
    let cfg = pieces_view(rules@, symbol_map@, start, last_token);
    assert(cfg.rules[v1][i] == rules@[v1]@[i]@);
    assert(cfg.dangles_at(v1, i, k));
    lemma_closed_iff_nothing_dangles(cfg);
}

/// Pieces whose start symbol is a variable, and in which every variable of
/// every rule body has an entry in the rule table, are valid:
/// `Cfg::from_pieces` makes a grammar of them, and its start symbol is the
/// one given.
pub proof fn lemma_closed_pieces_are_accepted(
    rules: BTreeMap<u64, Vec<Rule>>,
    symbol_map: BTreeMap<u64, String>,
    start: u64,
    last_token: u64,
)
    requires
        start > last_token,
        forall|v: u64, i: int, k: int|
            rules@.contains_key(v) && 0 <= i < rules@[v]@.len() && 0 <= k < rules@[v]@[i]@.len()
                && #[trigger] rules@[v]@[i]@[k] > last_token ==> rules@.contains_key(
                rules@[v]@[i]@[k],
            ),
    ensures
        pieces_view(rules@, symbol_map@, start, last_token).is_valid(),
        pieces_view(rules@, symbol_map@, start, last_token).start == start,
{
    let cfg = pieces_view(rules@, symbol_map@, start, last_token);
    assert forall|v: u64, i: int, k: int| !cfg.dangles_at(v, i, k) by {
        if cfg.rules.contains_key(v) && 0 <= i < cfg.rules[v].len() {
            assert(cfg.rules[v][i] == rules@[v]@[i]@);
        }
    }
    lemma_closed_iff_nothing_dangles(cfg);
}

/// Pieces are proper exactly when every key of the rule table is a variable
/// and every entry holds at least one alternative. `Cfg::from_pieces` asks
/// neither, and a grammar that it makes is as proper as its pieces.
pub proof fn lemma_pieces_proper(
    rules: BTreeMap<u64, Vec<Rule>>,
    symbol_map: BTreeMap<u64, String>,
    start: u64,
    last_token: u64,
)
    ensures
        pieces_view(rules@, symbol_map@, start, last_token).is_proper() <==> forall|v: u64| #[trigger]
            rules@.contains_key(v) ==> v > last_token && rules@[v]@.len() > 0,
{
    let cfg = pieces_view(rules@, symbol_map@, start, last_token);
    assert forall|v: u64| #[trigger] rules@.contains_key(v) implies cfg.rules.contains_key(v)
        && cfg.rules[v].len() == rules@[v]@.len() by {}
    assert forall|v: u64| #[trigger] cfg.rules.contains_key(v) implies rules@.contains_key(v) by {}
}

/// The empty grammar knows no symbol: it has neither rules nor a name for
/// any. It is proper and closed, but not valid: what stands in for its start
/// symbol is no variable.
pub proof fn lemma_empty_grammar(last_token: u64, symbol: u64)
    ensures
        CfgView::empty(last_token).rules_of(symbol) is None,
        CfgView::empty(last_token).name_of(symbol) is None,
        CfgView::empty(last_token).is_proper(),
        CfgView::empty(last_token).is_closed(),
        CfgView::empty(last_token).start == NO_START,
        !CfgView::empty(last_token).is_variable(NO_START),
        !CfgView::empty(last_token).is_valid(),
{
}

/// The start symbol of a grammar is a variable or `NO_START`: this holds of
/// the empty grammar and of every valid one, and adding a rule or a name
/// keeps it.
pub proof fn lemma_start_is_sound(
    cfg: CfgView,
    last_token: u64,
    variable: u64,
    body: Seq<u64>,
    symbol: u64,
    name: Seq<char>,
)
    ensures
        CfgView::empty(last_token).has_sound_start(),
        cfg.is_valid() ==> cfg.has_sound_start(),
        cfg.has_sound_start() ==> cfg.with_rule(variable, body).has_sound_start(),
        cfg.has_sound_start() ==> cfg.with_name(symbol, name).has_sound_start(),
{
}

/// Adding a rule appends: the alternatives of the variable are those it had,
/// in their order, followed by the new body. Nothing is sorted, merged or
/// dropped, and an empty body counts like any other.
pub proof fn lemma_with_rule_appends(cfg: CfgView, variable: u64, body: Seq<u64>)
    ensures
        ({
            let before = match cfg.rules_of(variable) {
                Some(alternatives) => alternatives,
                None => Seq::empty(),
            };
            &&& cfg.with_rule(variable, body).rules_of(variable) matches Some(after)
            &&& after.len() == before.len() + 1
            &&& after.last() == body
            &&& forall|i: int| 0 <= i < before.len() ==> after[i] == before[i]
        }),
{
}

/// Adding two rules to one variable leaves them in the order of the calls.
pub proof fn lemma_with_rule_keeps_order(
    cfg: CfgView,
    variable: u64,
    first: Seq<u64>,
    second: Seq<u64>,
)
    ensures
        ({
            let before = match cfg.rules_of(variable) {
                Some(alternatives) => alternatives,
                None => Seq::empty(),
            };
            cfg.with_rule(variable, first).with_rule(variable, second).rules_of(variable) == Some(
                before.push(first).push(second),
            )
        }),
{
}

/// Adding a rule to one variable changes nothing else: the rules of every
/// other symbol, all names and the start symbol stay as they were.
pub proof fn lemma_with_rule_frame(cfg: CfgView, variable: u64, body: Seq<u64>, other: u64)
    ensures
        other != variable ==> cfg.with_rule(variable, body).rules_of(other) == cfg.rules_of(other),
        cfg.with_rule(variable, body).name_of(other) == cfg.name_of(other),
        cfg.with_rule(variable, body).start == cfg.start,
{
}

/// Naming a symbol replaces its name: the symbol then has the new name,
/// whether or not it had one, and a second naming leaves only the later
/// name.
pub proof fn lemma_with_name_replaces(
    cfg: CfgView,
    symbol: u64,
    first: Seq<char>,
    second: Seq<char>,
)
    ensures
        cfg.with_name(symbol, first).name_of(symbol) == Some(first),
        cfg.with_name(symbol, first).with_name(symbol, second).name_of(symbol) == Some(second),
        cfg.with_name(symbol, first).with_name(symbol, second) == cfg.with_name(symbol, second),
{
    assert(cfg.names.insert(symbol, first).insert(symbol, second) =~= cfg.names.insert(
        symbol,
        second,
    ));
}

/// Naming one symbol changes nothing else: the names of every other symbol,
/// all rules and the start symbol stay as they were.
pub proof fn lemma_with_name_frame(cfg: CfgView, symbol: u64, name: Seq<char>, other: u64)
    ensures
        other != symbol ==> cfg.with_name(symbol, name).name_of(other) == cfg.name_of(other),
        cfg.with_name(symbol, name).rules_of(other) == cfg.rules_of(other),
        cfg.with_name(symbol, name).start == cfg.start,
        cfg.with_name(symbol, name).is_proper() == cfg.is_proper(),
        cfg.with_name(symbol, name).is_valid() == cfg.is_valid(),
{
}

/// A proper grammar stays proper when a rule is added to a variable.
pub proof fn lemma_with_rule_keeps_proper(cfg: CfgView, variable: u64, body: Seq<u64>)
    requires
        cfg.is_proper(),
        cfg.is_variable(variable),
    ensures
        cfg.with_rule(variable, body).is_proper(),
{
}

/// A closed grammar stays closed, and a valid one valid, when the added body
/// mentions only tokens, variables that have rules, and the variable that the
/// rule is added to. Any other body leaves the closing of the grammar to
/// later rules.
pub proof fn lemma_with_rule_keeps_closed(cfg: CfgView, variable: u64, body: Seq<u64>)
    requires
        cfg.is_closed(),
        forall|k: int|
            0 <= k < body.len() ==> cfg.is_defined(#[trigger] body[k]) || body[k] == variable,
    ensures
        cfg.with_rule(variable, body).is_closed(),
        cfg.is_valid() ==> cfg.with_rule(variable, body).is_valid(),
{
    let after = cfg.with_rule(variable, body);
    assert forall|v: u64, i: int, k: int| !after.dangles_at(v, i, k) by {
        if after.rules.contains_key(v) && 0 <= i < after.rules[v].len() && 0 <= k
            < after.rules[v][i].len() {
            if v == variable && i == after.rules[v].len() - 1 {
                assert(after.rules[v][i] == body);
                assert(cfg.is_defined(body[k]) || body[k] == variable);
            } else {
                assert(after.rules[v][i] == cfg.rules[v][i]);
                assert(body_is_closed(cfg.rules, cfg.last_token, cfg.rules[v][i]));
                assert(cfg.is_defined(cfg.rules[v][i][k]));
            }
        }
    }
    lemma_closed_iff_nothing_dangles(after);
}

} // verus!
