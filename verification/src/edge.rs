//! The outer edge of the host desktop past which a client sits.
use vstd::prelude::*;
use crate::text::{lowercase, to_lowercase, str_eq};

verus! {

/// Which physical edge of the host screen arrangement leads to a client.
#[derive(Debug, Clone, Copy, PartialEq, Eq, Structural)]
pub enum Edge {
    Right,
    Left,
    Top,
    Bottom,
}

/// The edge a lowercase name denotes.
pub open spec fn edge_named(l: Seq<char>) -> Option<Edge> {
    if l == seq!['r', 'i', 'g', 'h', 't'] {
        Some(Edge::Right)
    } else if l == seq!['l', 'e', 'f', 't'] {
        Some(Edge::Left)
    } else if l == seq!['t', 'o', 'p'] {
        Some(Edge::Top)
    } else if l == seq!['b', 'o', 't', 't', 'o', 'm'] {
        Some(Edge::Bottom)
    } else {
        None
    }
}

/// Side code of an edge: 0 = right, 1 = left, 2 = bottom, 3 = top.
pub open spec fn side_code(e: Edge) -> u8 {
    match e {
        Edge::Right => 0,
        Edge::Left => 1,
        Edge::Bottom => 2,
        Edge::Top => 3,
    }
}

impl Edge {
    /// Parse an edge name, ignoring case: "right", "left", "top" or "bottom".
    pub fn from_str(s: &str) -> (r: Option<Edge>)
        ensures
            r == edge_named(lowercase(s@)),
    {
        let l = to_lowercase(s);
        let l = l.as_str();
        proof {
            reveal_strlit("right");
            reveal_strlit("left");
            reveal_strlit("top");
            reveal_strlit("bottom");
            assert("right"@ =~= seq!['r', 'i', 'g', 'h', 't']);
            assert("left"@ =~= seq!['l', 'e', 'f', 't']);
            assert("top"@ =~= seq!['t', 'o', 'p']);
            assert("bottom"@ =~= seq!['b', 'o', 't', 't', 'o', 'm']);
        }
        if str_eq(l, "right") {
            Some(Edge::Right)
        } else if str_eq(l, "left") {
            Some(Edge::Left)
        } else if str_eq(l, "top") {
            Some(Edge::Top)
        } else if str_eq(l, "bottom") {
            Some(Edge::Bottom)
        } else {
            None
        }
    }

    /// Numeric side encoding used by the capture hook.
    pub fn side(self) -> (r: u8)
        ensures
            r == side_code(self),
    {
        match self {
            Edge::Right => 0,
            Edge::Left => 1,
            Edge::Bottom => 2,
            Edge::Top => 3,
        }
    }
}

/// Distinct edges have distinct side codes, each below 4.
pub proof fn lemma_side_code_injective(a: Edge, b: Edge)
    ensures
        side_code(a) < 4,
        side_code(a) == side_code(b) ==> a == b,
{
}

} // verus!
