//! The grammar itself: the tables, the start symbol and the threshold, with
//! the operations that build and read them.

use std::collections::BTreeMap;
use vstd::prelude::*;
use crate::model::{alternatives_view, pieces_view, CfgView, NO_START};
use crate::validate::check_rules;

verus! {

/// One rule body: the symbols that a variable expands to, in order. It may
/// be empty.
pub type Rule = Vec<u64>;

/// A context-free grammar.
///
/// A symbol is a `u64`. Symbols up to and including `last_token` are tokens,
/// all larger ones are variables; the threshold is chosen when the grammar is
/// made and never changes. Each variable has an ordered list of alternative
/// rule bodies, and any symbol may have a display name.
pub struct Cfg {
    rules: BTreeMap<u64, Vec<Rule>>,
    symbol_map: BTreeMap<u64, String>,
    start: u64,
    last_token: u64,
}

impl View for Cfg {
    type V = CfgView;

    closed spec fn view(&self) -> CfgView {
        pieces_view(self.rules@, self.symbol_map@, self.start, self.last_token)
    }
}

impl Cfg {
    /// An empty grammar whose tokens are the symbols up to `last_token`.
    ///
    /// It has no rules and no names, and `NO_START` stands in for its start
    /// symbol, so it is not valid.
    pub fn new(last_token: u64) -> (cfg: Cfg)
        ensures
            cfg@ == CfgView::empty(last_token),
    {
        let cfg = Cfg {
            rules: BTreeMap::new(),
            symbol_map: BTreeMap::new(),
            start: NO_START,
            last_token,
        };
        assert(cfg@.rules =~= Map::empty());
        assert(cfg@.names =~= Map::empty());
        cfg
    }

    /// A complete grammar from its constituent pieces.
    ///
    /// The pieces make a grammar exactly when `start` is a variable and every
    /// variable in a rule body has an entry in `rules`; then the grammar
    /// holds the pieces unchanged. Otherwise there is no grammar.
    pub fn from_pieces(
        rules: BTreeMap<u64, Vec<Rule>>,
        symbol_map: BTreeMap<u64, String>,
        start: u64,
        last_token: u64,
    ) -> (result: Option<Cfg>)
        ensures
            result is Some <==> pieces_view(rules@, symbol_map@, start, last_token).is_valid(),
            result matches Some(cfg) ==> cfg@ == pieces_view(
                rules@,
                symbol_map@,
                start,
                last_token,
            ),
    {
        if start <= last_token {
            return None;
        }
        if !check_rules(&rules, last_token) {
            return None;
        }
        Some(Cfg { rules, symbol_map, start, last_token })
    }

    /// Whether `symbol` is a token of this grammar.
    pub fn is_token(&self, symbol: u64) -> (token: bool)
        ensures
            token == self@.is_token(symbol),
    {
        symbol <= self.last_token
    }

    /// Whether `symbol` is a variable of this grammar.
    pub fn is_variable(&self, symbol: u64) -> (variable: bool)
        ensures
            variable == self@.is_variable(symbol),
    {
        symbol > self.last_token
    }

    /// The start symbol: a variable in a grammar made by `from_pieces`,
    /// `NO_START` in one made by `new`.
    pub fn get_start(&self) -> (start: u64)
        ensures
            start == self@.start,
    {
        self.start
    }

    /// The name of a symbol, if it was given one.
    pub fn name(&self, symbol: u64) -> (result: Option<&str>)
        ensures
            match result {
                Some(name) => self@.name_of(symbol) == Some(name@),
                None => self@.name_of(symbol) is None,
            },
    {
        match self.symbol_map.get(&symbol) {
            Some(name) => Some(name.as_str()),
            None => None,
        }
    }

    /// Adds a rule to the grammar: `body` becomes the last alternative of
    /// `variable`, which must be a variable: to hand in a token is a mistake
    /// of the caller. Nothing is asked of the symbols in `body`: a variable
    /// among them may get its rules later.
    pub fn add_rule(&mut self, variable: u64, body: Rule)
        requires
            old(self)@.is_variable(variable),
        ensures
            final(self)@ == old(self)@.with_rule(variable, body@),
    {
        let ghost earlier = match self@.rules_of(variable) {
            Some(alternatives) => alternatives,
            None => Seq::empty(),
        };
        let mut alternatives = match self.rules.remove(&variable) {
            Some(alternatives) => alternatives,
            None => Vec::new(),
        };
        alternatives.push(body);
        assert(alternatives_view(alternatives@) =~= earlier.push(body@));
        self.rules.insert(variable, alternatives);
        assert(self@.rules =~= old(self)@.rules.insert(variable, earlier.push(body@)));
    }

    /// Sets the name of a symbol, returning the old name if any. Tokens
    /// and variables alike can be named, with or without rules.
    pub fn set_name(&mut self, symbol: u64, name: String) -> (previous: Option<String>)
        ensures
            final(self)@ == old(self)@.with_name(symbol, name@),
            match previous {
                Some(old_name) => old(self)@.name_of(symbol) == Some(old_name@),
                None => old(self)@.name_of(symbol) is None,
            },
    {
        let previous = self.symbol_map.insert(symbol, name);
        assert(self@.names =~= old(self)@.names.insert(symbol, name@));
        previous
    }

    /// The alternatives of `variable`, oldest first, if it has any rule.
    /// `variable` must be a variable: to hand in a token is a mistake of the
    /// caller.
    pub fn get_rules(&self, variable: u64) -> (result: Option<&[Rule]>)
        requires
            self@.is_variable(variable),
        ensures
            match result {
                Some(alternatives) => self@.rules_of(variable) == Some(
                    alternatives_view(alternatives@),
                ),
                None => self@.rules_of(variable) is None,
            },
    {
        match self.rules.get(&variable) {
            Some(alternatives) => Some(alternatives.as_slice()),
            None => None,
        }
    }
}

} // verus!
