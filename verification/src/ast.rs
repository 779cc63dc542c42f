//! The typed AST: what the tree parser produces and the evaluator walks.

use vstd::prelude::*;
use crate::json::{JsonValue, JsonView, json_view};

verus! {

/// One typed node: a tag, a loosely-typed field map, and optionally an
/// ordered list of children. Immutable once constructed.
#[derive(Debug, PartialEq)]
pub struct AstNode {
    pub node_type: String,
    pub fields: JsonValue,
    pub children: Option<Vec<AstNode>>,
}

/// The outcome of parsing a top-level forest. When parsing stopped early,
/// `is_valid` is false, `error_message` says why, and `nodes` holds the
/// prefix parsed before the failure.
#[derive(Debug, PartialEq)]
pub struct AstResult {
    pub nodes: Vec<AstNode>,
    pub is_valid: bool,
    pub error_message: Option<String>,
}

/// The mathematical shape of an `AstNode`.
pub struct AstNodeView {
    pub node_type: Seq<char>,
    pub fields: JsonView,
    pub children: Option<Seq<AstNodeView>>,
}

/// The mathematical shape of an `AstResult`.
pub struct AstResultView {
    pub nodes: Seq<AstNodeView>,
    pub is_valid: bool,
    pub error_message: Option<Seq<char>>,
}

pub open spec fn ast_view(n: AstNode) -> AstNodeView
    decreases n,
{
    AstNodeView {
        node_type: n.node_type@,
        fields: json_view(n.fields),
        children: match n.children {
            None => None,
            Some(cs) => Some(ast_seq_view(cs@)),
        },
    }
}

pub open spec fn ast_seq_view(s: Seq<AstNode>) -> Seq<AstNodeView>
    decreases s,
{
    if s.len() == 0 {
        Seq::empty()
    } else {
        ast_seq_view(s.subrange(0, s.len() - 1)).push(ast_view(s[s.len() - 1]))
    }
}

/// `ast_seq_view` maps the sequence elementwise.
pub broadcast proof fn lemma_ast_seq_view(s: Seq<AstNode>)
    ensures
        (#[trigger] ast_seq_view(s)).len() == s.len(),
        forall|i: int| 0 <= i < s.len() ==> ast_seq_view(s)[i] == ast_view(s[i]),
    decreases s.len(),
{
    if s.len() > 0 {
        lemma_ast_seq_view(s.subrange(0, s.len() - 1));
    }
}

impl View for AstNode {
    type V = AstNodeView;

    open spec fn view(&self) -> AstNodeView {
        ast_view(*self)
    }
}

pub open spec fn opt_str_view(o: Option<String>) -> Option<Seq<char>> {
    match o {
        None => None,
        Some(s) => Some(s@),
    }
}

impl View for AstResult {
    type V = AstResultView;

    open spec fn view(&self) -> AstResultView {
        AstResultView {
            nodes: ast_seq_view(self.nodes@),
            is_valid: self.is_valid,
            error_message: opt_str_view(self.error_message),
        }
    }
}

} // verus!
