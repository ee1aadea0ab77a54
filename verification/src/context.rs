//! The per-level parse environment: the active rule type, the quirks-mode
//! flag, and the monotone ordering state of the top-level grammar.

use vstd::prelude::*;

verus! {

/// The kind of rule whose grammar is currently being parsed.
#[derive(Debug, Clone, Copy, PartialEq, Eq, Structural)]
pub enum CssRuleType {
    Style,
    Media,
    FontFace,
    FontFeatureValues,
    CounterStyle,
    Keyframes,
    Keyframe,
    Page,
    Supports,
    Document,
    Viewport,
    Namespace,
    Import,
}

/// The ordering state of the top-level rule grammar. It never regresses
/// under the order `Start < Imports < Namespaces < Body < Invalid`;
/// `Invalid` is a terminal sink.
#[derive(Debug, Clone, Copy, PartialEq, Eq, Structural)]
pub enum State {
    Start,
    Imports,
    Namespaces,
    Body,
    Invalid,
}

/// The rank of a state under the ordering that the top-level grammar
/// enforces.
pub open spec fn state_rank(s: State) -> int {
    match s {
        State::Start => 0,
        State::Imports => 1,
        State::Namespaces => 2,
        State::Body => 3,
        State::Invalid => 4,
    }
}

impl State {
    pub fn rank(self) -> (r: u8)
        ensures
            r as int == state_rank(self),
    {
        match self {
            State::Start => 0,
            State::Imports => 1,
            State::Namespaces => 2,
            State::Body => 3,
            State::Invalid => 4,
        }
    }
}

/// An immutable snapshot of the parse environment; deriving into a nested
/// rule makes a new context, never mutates one in place.
#[derive(Debug, Clone, Copy, PartialEq, Eq, Structural)]
pub struct ParserContext {
    /// The rule type currently being parsed, `None` at the stylesheet top
    /// level.
    pub rule_type: Option<CssRuleType>,
    pub is_in_quirks_mode: bool,
}

impl ParserContext {
    pub fn new(is_in_quirks_mode: bool) -> (r: ParserContext)
        ensures
            r.rule_type is None,
            r.is_in_quirks_mode == is_in_quirks_mode,
    {
        ParserContext { rule_type: None, is_in_quirks_mode }
    }

    /// A context derived for a nested rule of the given type.
    pub fn new_with_rule_type(&self, rule_type: CssRuleType) -> (r: ParserContext)
        ensures
            r.rule_type == Some(rule_type),
            r.is_in_quirks_mode == self.is_in_quirks_mode,
    {
        ParserContext { rule_type: Some(rule_type), is_in_quirks_mode: self.is_in_quirks_mode }
    }
}

} // verus!
