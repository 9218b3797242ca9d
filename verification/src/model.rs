//! The mathematical model of a context-free grammar.
//!
//! Symbols are plain numbers. One threshold, `last_token`, splits them: a
//! symbol at or below it is a token, a symbol above it is a variable. A
//! grammar is a table of rules (variable to its alternatives, in order), a
//! table of display names, a start symbol and the threshold.

use vstd::prelude::*;
use crate::grammar::Rule;

verus! {

/// The start symbol of a grammar that was given none. It is the smallest
/// symbol, hence a token under every threshold and never a variable.
pub const NO_START: u64 = 0;

/// What a grammar is: every contract of the library speaks of this value.
pub struct CfgView {
    /// The alternatives of each variable that has any, oldest first. Each
    /// alternative is the sequence of symbols of one rule body.
    pub rules: Map<u64, Seq<Seq<u64>>>,
    /// The display name of each symbol that has one.
    pub names: Map<u64, Seq<char>>,
    /// The start symbol.
    pub start: u64,
    /// The largest token.
    pub last_token: u64,
}

impl CfgView {
    /// `symbol` is a terminal symbol.
    pub open spec fn is_token(self, symbol: u64) -> bool {
        symbol <= self.last_token
    }

    /// `symbol` is a non-terminal symbol.
    pub open spec fn is_variable(self, symbol: u64) -> bool {
        symbol > self.last_token
    }

    /// The alternatives of `variable`, if it has an entry in the rule table.
    pub open spec fn rules_of(self, variable: u64) -> Option<Seq<Seq<u64>>> {
        if self.rules.contains_key(variable) {
            Some(self.rules[variable])
        } else {
            None
        }
    }

    /// The display name of `symbol`, if it has one.
    pub open spec fn name_of(self, symbol: u64) -> Option<Seq<char>> {
        if self.names.contains_key(symbol) {
            Some(self.names[symbol])
        } else {
            None
        }
    }

    /// `symbol` may stand in a rule body: it is a token, or a variable with
    /// an entry in the rule table.
    pub open spec fn is_defined(self, symbol: u64) -> bool {
        symbol_is_defined(self.rules, self.last_token, symbol)
    }

    /// No rule mentions a variable without rules of its own.
    pub open spec fn is_closed(self) -> bool {
        rules_are_closed(self.rules, self.last_token)
    }

    /// Position `k` of alternative `i` of `variable` holds a variable that has
    /// no entry in the rule table.
    pub open spec fn dangles_at(self, variable: u64, i: int, k: int) -> bool {
        &&& self.rules.contains_key(variable)
        &&& 0 <= i < self.rules[variable].len()
        &&& 0 <= k < self.rules[variable][i].len()
        &&& self.is_variable(self.rules[variable][i][k])
        &&& !self.rules.contains_key(self.rules[variable][i][k])
    }

    /// The grammar is complete: its start symbol is a variable and it is
    /// closed.
    pub open spec fn is_valid(self) -> bool {
        self.is_variable(self.start) && self.is_closed()
    }

    /// The start symbol is a variable, or none was given.
    pub open spec fn has_sound_start(self) -> bool {
        self.start == NO_START || self.is_variable(self.start)
    }

    /// The rule table has entries for variables only, and no entry without
    /// an alternative.
    pub open spec fn is_proper(self) -> bool {
        forall|v: u64| #[trigger]
            self.rules.contains_key(v) ==> self.is_variable(v) && self.rules[v].len() > 0
    }

    /// The grammar without rules, names or start symbol.
    pub open spec fn empty(last_token: u64) -> CfgView {
        CfgView { rules: Map::empty(), names: Map::empty(), start: NO_START, last_token }
    }

    /// The grammar with `body` as the last alternative of `variable`.
    pub open spec fn with_rule(self, variable: u64, body: Seq<u64>) -> CfgView {
        let earlier = match self.rules_of(variable) {
            Some(alternatives) => alternatives,
            None => Seq::empty(),
        };
        CfgView { rules: self.rules.insert(variable, earlier.push(body)), ..self }
    }

    /// The grammar with `name` as the display name of `symbol`.
    pub open spec fn with_name(self, symbol: u64, name: Seq<char>) -> CfgView {
        CfgView { names: self.names.insert(symbol, name), ..self }
    }
}

/// `symbol` is a token under the threshold `last_token`, or has an entry in
/// `rules`.
pub open spec fn symbol_is_defined(
    rules: Map<u64, Seq<Seq<u64>>>,
    last_token: u64,
    symbol: u64,
) -> bool {
    symbol <= last_token || rules.contains_key(symbol)
}

/// Every symbol of `body` is defined.
pub open spec fn body_is_closed(
    rules: Map<u64, Seq<Seq<u64>>>,
    last_token: u64,
    body: Seq<u64>,
) -> bool {
    forall|k: int| 0 <= k < body.len() ==> symbol_is_defined(rules, last_token, #[trigger] body[k])
}

/// Every body among `alternatives` is closed.
pub open spec fn alternatives_are_closed(
    rules: Map<u64, Seq<Seq<u64>>>,
    last_token: u64,
    alternatives: Seq<Seq<u64>>,
) -> bool {
    forall|i: int|
        0 <= i < alternatives.len() ==> body_is_closed(
            rules,
            last_token,
            #[trigger] alternatives[i],
        )
}

/// Every alternative of every entry of `rules` is closed.
pub open spec fn rules_are_closed(rules: Map<u64, Seq<Seq<u64>>>, last_token: u64) -> bool {
    forall|v: u64|
        rules.contains_key(v) ==> alternatives_are_closed(rules, last_token, #[trigger] rules[v])
}

/// The alternatives held in vectors, as sequences.
pub open spec fn alternatives_view(alternatives: Seq<Rule>) -> Seq<Seq<u64>> {
    alternatives.map_values(|body: Rule| body@)
}

/// The rule table held in vectors, as sequences.
pub open spec fn rules_view(rules: Map<u64, Vec<Rule>>) -> Map<u64, Seq<Seq<u64>>> {
    rules.map_values(|alternatives: Vec<Rule>| alternatives_view(alternatives@))
}

/// The name table held in strings, as sequences of characters.
pub open spec fn names_view(names: Map<u64, String>) -> Map<u64, Seq<char>> {
    names.map_values(|name: String| name@)
}

/// The grammar made of two tables, a start symbol and a threshold, taken as
/// they are.
pub open spec fn pieces_view(
    rules: Map<u64, Vec<Rule>>,
    names: Map<u64, String>,
    start: u64,
    last_token: u64,
) -> CfgView {
    CfgView { rules: rules_view(rules), names: names_view(names), start, last_token }
}

} // verus!
