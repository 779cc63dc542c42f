//! The tree parser: untyped trees in, a typed AST out.
//!
//! A node must be an object with a string `type` tag; a missing `fields`
//! entry defaults to an empty object; a `children` entry, when present, must
//! be an array and is parsed recursively. Parsing is depth-first and
//! left-to-right, and the first structural error wins: at the top level the
//! nodes parsed before the failure are kept, inside a node the whole node
//! fails.

use vstd::prelude::*;
use vstd::slice::slice_index_get;
use vstd::string::StringExecFns;
use crate::json::{
    JsonValue, JsonView, json_view, json_seq_view, json_entries_view, json_entry_view,
    spec_get, spec_lookup, lemma_json_seq_view, lemma_json_entries_view, lemma_lookup_index,
};
use crate::ast::{AstNode, AstNodeView, AstResult, AstResultView, ast_seq_view, ast_view,
    lemma_ast_seq_view};
use crate::numtext::{is_i32_string, is_float_string, spec_is_i32_string, spec_is_float_string};
use crate::strutil::str_eq;

verus! {

/// Everything the parser and the block validator can object to.
#[derive(Clone, Copy, Debug, PartialEq, Eq, Structural)]
pub enum ParseErrorKind {
    NotAnObject,
    MissingTypeField,
    TypeFieldNotString,
    ChildrenNotArray,
    MissingSpellField,
    SpellFieldNotString,
    UnknownSpellType,
    InvalidAmount,
    MissingSecondsField,
    InvalidSeconds,
}

/// A parse or validation failure, carrying which rule was broken.
#[derive(Debug, PartialEq)]
pub struct ParseError {
    pub kind: ParseErrorKind,
}

/// The description that each failure kind is reported with.
pub open spec fn spec_error_message(k: ParseErrorKind) -> Seq<char> {
    match k {
        ParseErrorKind::NotAnObject => "node is not an object"@,
        ParseErrorKind::MissingTypeField => "missing type field"@,
        ParseErrorKind::TypeFieldNotString => "type field is not a string"@,
        ParseErrorKind::ChildrenNotArray => "children is not an array"@,
        ParseErrorKind::MissingSpellField => "missing SPELL field"@,
        ParseErrorKind::SpellFieldNotString => "SPELL field is not a string"@,
        ParseErrorKind::UnknownSpellType => "unknown spell type"@,
        ParseErrorKind::InvalidAmount => "AMOUNT is not a valid number"@,
        ParseErrorKind::MissingSecondsField => "missing SECONDS field"@,
        ParseErrorKind::InvalidSeconds => "SECONDS is not a valid number"@,
    }
}

impl ParseError {
    /// The failure rendered as text.
    pub fn message(&self) -> (r: String)
        ensures
            r@ == spec_error_message(self.kind),
    {
        match self.kind {
            ParseErrorKind::NotAnObject => String::from_str("node is not an object"),
            ParseErrorKind::MissingTypeField => String::from_str("missing type field"),
            ParseErrorKind::TypeFieldNotString => String::from_str("type field is not a string"),
            ParseErrorKind::ChildrenNotArray => String::from_str("children is not an array"),
            ParseErrorKind::MissingSpellField => String::from_str("missing SPELL field"),
            ParseErrorKind::SpellFieldNotString => String::from_str("SPELL field is not a string"),
            ParseErrorKind::UnknownSpellType => String::from_str("unknown spell type"),
            ParseErrorKind::InvalidAmount => String::from_str("AMOUNT is not a valid number"),
            ParseErrorKind::MissingSecondsField => String::from_str("missing SECONDS field"),
            ParseErrorKind::InvalidSeconds => String::from_str("SECONDS is not a valid number"),
        }
    }
}

/// What parsing one untyped node yields.
pub open spec fn spec_parse_node(v: JsonView) -> Result<AstNodeView, ParseErrorKind>
    decreases v,
    via spec_parse_node_decreases
{
    match v {
        JsonView::Obj(entries) => match spec_lookup(entries, "type"@) {
            None => Err(ParseErrorKind::MissingTypeField),
            Some(tv) => match tv {
                JsonView::Str(ty) => {
                    let fields = match spec_lookup(entries, "fields"@) {
                        Some(f) => f,
                        None => JsonView::Obj(Seq::empty()),
                    };
                    match spec_lookup(entries, "children"@) {
                        None => Ok(AstNodeView { node_type: ty, fields, children: None }),
                        Some(cv) => match cv {
                            JsonView::Arr(items) => match spec_parse_children(items) {
                                Ok(cs) => Ok(
                                    AstNodeView { node_type: ty, fields, children: Some(cs) },
                                ),
                                Err(e) => Err(e),
                            },
                            _ => Err(ParseErrorKind::ChildrenNotArray),
                        },
                    }
                },
                _ => Err(ParseErrorKind::TypeFieldNotString),
            },
        },
        _ => Err(ParseErrorKind::NotAnObject),
    }
}

/// What parsing an ordered child list yields: the children in order, or the
/// first failure.
pub open spec fn spec_parse_children(items: Seq<JsonView>) -> Result<
    Seq<AstNodeView>,
    ParseErrorKind,
>
    decreases items,
{
    if items.len() == 0 {
        Ok(Seq::empty())
    } else {
        match spec_parse_node(items[0]) {
            Err(e) => Err(e),
            Ok(n) => match spec_parse_children(items.subrange(1, items.len() as int)) {
                Err(e) => Err(e),
                Ok(ns) => Ok(seq![n] + ns),
            },
        }
    }
}

#[via_fn]
proof fn spec_parse_node_decreases(v: JsonView) {
    match v {
        JsonView::Obj(entries) => {
            if spec_lookup(entries, "children"@) is Some {
                lemma_lookup_index(entries, "children"@);
                let i = choose|i: int|
                    0 <= i < entries.len() && (#[trigger] entries[i]).1 == spec_lookup(
                        entries,
                        "children"@,
                    )->0;
                assert(decreases_to!(v => v->Obj_0));
                assert(decreases_to!(v->Obj_0 => v->Obj_0[i]));
                assert(decreases_to!(v->Obj_0[i] => v->Obj_0[i].1));
                let cv = spec_lookup(entries, "children"@)->0;
                if cv is Arr {
                    assert(decreases_to!(cv => cv->Arr_0));
                }
            }
        },
        _ => {},
    }
}

/// What parsing a whole top-level forest yields: every node up to the first
/// failure, and whether one happened.
pub open spec fn spec_parse_forest(vs: Seq<JsonView>) -> AstResultView
    decreases vs,
{
    if vs.len() == 0 {
        AstResultView { nodes: Seq::empty(), is_valid: true, error_message: None }
    } else {
        match spec_parse_node(vs[0]) {
            Err(e) => AstResultView {
                nodes: Seq::empty(),
                is_valid: false,
                error_message: Some(spec_error_message(e)),
            },
            Ok(n) => {
                let rest = spec_parse_forest(vs.subrange(1, vs.len() as int));
                AstResultView {
                    nodes: seq![n] + rest.nodes,
                    is_valid: rest.is_valid,
                    error_message: rest.error_message,
                }
            },
        }
    }
}

/// Taking the front entry off commutes with viewing the entry list.
proof fn lemma_entries_pop_front(pre: Seq<(String, JsonValue)>)
    requires
        pre.len() > 0,
    ensures
        json_entries_view(pre).len() == pre.len(),
        json_entries_view(pre)[0] == json_entry_view(pre[0]),
        json_entries_view(pre.remove(0)) =~= json_entries_view(pre).subrange(
            1,
            pre.len() as int,
        ),
{
    lemma_json_entries_view(pre);
    lemma_json_entries_view(pre.remove(0));
    assert(pre.remove(0) =~= pre.subrange(1, pre.len() as int));
}

/// Taking the front value off commutes with viewing the value list.
proof fn lemma_jseq_pop_front(pre: Seq<JsonValue>)
    requires
        pre.len() > 0,
    ensures
        json_seq_view(pre).len() == pre.len(),
        json_seq_view(pre)[0] == json_view(pre[0]),
        json_seq_view(pre.remove(0)) =~= json_seq_view(pre).subrange(1, pre.len() as int),
{
    lemma_json_seq_view(pre);
    lemma_json_seq_view(pre.remove(0));
    assert(pre.remove(0) =~= pre.subrange(1, pre.len() as int));
}

/// A parse outcome is invalid exactly when it carries a failure
/// description, and a clean one keeps every node.
pub proof fn lemma_parse_result_invariant(vs: Seq<JsonView>)
    ensures
        spec_parse_forest(vs).is_valid <==> spec_parse_forest(vs).error_message is None,
        spec_parse_forest(vs).is_valid ==> spec_parse_forest(vs).nodes.len() == vs.len(),
    decreases vs,
{
    if vs.len() > 0 {
        if spec_parse_node(vs[0]) is Ok {
            lemma_parse_result_invariant(vs.subrange(1, vs.len() as int));
        }
    }
}

pub open spec fn opt_json_view(o: Option<JsonValue>) -> Option<JsonView> {
    match o {
        None => None,
        Some(v) => Some(json_view(v)),
    }
}

/// Pulls the first `type`, `fields` and `children` entries out of an object's
/// entry list, by moving them; later duplicates are dropped.
fn split_entries(entries: Vec<(String, JsonValue)>) -> (r: (
    Option<JsonValue>,
    Option<JsonValue>,
    Option<JsonValue>,
))
    ensures
        opt_json_view(r.0) == spec_lookup(json_entries_view(entries@), "type"@),
        opt_json_view(r.1) == spec_lookup(json_entries_view(entries@), "fields"@),
        opt_json_view(r.2) == spec_lookup(json_entries_view(entries@), "children"@),
{
    broadcast use lemma_json_entries_view;

    let ghost full = json_entries_view(entries@);
    let mut rem = entries;
    let mut ty_v: Option<JsonValue> = None;
    let mut fields_v: Option<JsonValue> = None;
    let mut children_v: Option<JsonValue> = None;
    while rem.len() > 0
        invariant
            spec_lookup(full, "type"@) == (if ty_v is Some {
                opt_json_view(ty_v)
            } else {
                spec_lookup(json_entries_view(rem@), "type"@)
            }),
            spec_lookup(full, "fields"@) == (if fields_v is Some {
                opt_json_view(fields_v)
            } else {
                spec_lookup(json_entries_view(rem@), "fields"@)
            }),
            spec_lookup(full, "children"@) == (if children_v is Some {
                opt_json_view(children_v)
            } else {
                spec_lookup(json_entries_view(rem@), "children"@)
            }),
        decreases rem@.len(),
    {
        let ghost pre = rem@;
        let ghost old_rv = json_entries_view(rem@);
        let (k, v) = rem.remove(0);
        proof {
            reveal_strlit("type");
            reveal_strlit("fields");
            reveal_strlit("children");
            assert("type"@.len() == 4 && "fields"@.len() == 6 && "children"@.len() == 8);
            lemma_entries_pop_front(pre);
            assert(old_rv[0].0 == k@ && old_rv[0].1 == json_view(v));
            assert(json_entries_view(rem@) =~= old_rv.subrange(1, old_rv.len() as int));
        }
        if str_key_eq(&k, "type") {
            if ty_v.is_none() {
                ty_v = Some(v);
            }
        } else if str_key_eq(&k, "fields") {
            if fields_v.is_none() {
                fields_v = Some(v);
            }
        } else if str_key_eq(&k, "children") {
            if children_v.is_none() {
                children_v = Some(v);
            }
        }
    }
    (ty_v, fields_v, children_v)
}

/// Content equality between an owned key and a literal.
fn str_key_eq(k: &String, lit: &str) -> (r: bool)
    ensures
        r == (k@ == lit@),
{
    str_eq(k.as_str(), lit)
}

/// Parses an ordered child list, left to right, stopping at the first
/// failing child.
fn parse_child_list(items: Vec<JsonValue>) -> (r: Result<Vec<AstNode>, ParseError>)
    ensures
        match r {
            Ok(ns) => spec_parse_children(json_seq_view(items@)) == Ok::<
                Seq<AstNodeView>,
                ParseErrorKind,
            >(ast_seq_view(ns@)),
            Err(e) => spec_parse_children(json_seq_view(items@)) == Err::<
                Seq<AstNodeView>,
                ParseErrorKind,
            >(e.kind),
        },
    decreases json_seq_view(items@),
{
    broadcast use lemma_json_seq_view, lemma_ast_seq_view;

    let ghost full = json_seq_view(items@);
    let mut rem = items;
    if rem.len() == 0 {
        proof {
            assert(ast_seq_view(Seq::<AstNode>::empty()) =~= Seq::<AstNodeView>::empty());
        }
        return Ok(Vec::new());
    }
    let ghost pre = rem@;
    let item = rem.remove(0);
    proof {
        lemma_jseq_pop_front(pre);
        assert(item@ == full[0]);
        assert(json_seq_view(rem@) =~= full.subrange(1, full.len() as int));
        assert(decreases_to!(full => full[0]));
        assert(decreases_to!(full => full.subrange(1, full.len() as int)));
    }
    match parse_node(item) {
        Err(e) => Err(e),
        Ok(n) => match parse_child_list(rem) {
            Err(e) => Err(e),
            Ok(ns) => {
                let mut ns = ns;
                let ghost tail = ns@;
                ns.insert(0, n);
                proof {
                    assert(ns@ =~= seq![n] + tail);
                    assert(ast_seq_view(ns@) =~= seq![n@] + ast_seq_view(tail));
                }
                Ok(ns)
            },
        },
    }
}

/// Parses one untyped node into a typed one, or reports the first
/// structural error inside it.
pub fn parse_node(node: JsonValue) -> (r: Result<AstNode, ParseError>)
    ensures
        match r {
            Ok(n) => spec_parse_node(node@) == Ok::<AstNodeView, ParseErrorKind>(n@),
            Err(e) => spec_parse_node(node@) == Err::<AstNodeView, ParseErrorKind>(e.kind),
        },
    decreases node@,
{
    broadcast use lemma_json_seq_view, lemma_ast_seq_view;

    let ghost nv = node@;
    match node {
        JsonValue::Obj(entries) => {
            let ghost eview = json_entries_view(entries@);
            let (ty_v, fields_v, children_v) = split_entries(entries);
            let node_type: String = match ty_v {
                None => {
                    return Err(ParseError { kind: ParseErrorKind::MissingTypeField });
                },
                Some(JsonValue::Str(s)) => s,
                Some(_) => {
                    return Err(ParseError { kind: ParseErrorKind::TypeFieldNotString });
                },
            };
            let fields: JsonValue = match fields_v {
                Some(f) => f,
                None => JsonValue::Obj(Vec::new()),
            };
            proof {
                assert(json_entries_view(Seq::<(String, JsonValue)>::empty())
                    =~= Seq::<(Seq<char>, JsonView)>::empty());
            }
            let children: Option<Vec<AstNode>> = match children_v {
                None => None,
                Some(JsonValue::Arr(items)) => {
                    let ghost cv = spec_lookup(eview, "children"@)->0;
                    let ghost full_items = json_seq_view(items@);
                    proof {
                        lemma_lookup_index(eview, "children"@);
                        let i = choose|i: int|
                            0 <= i < eview.len() && (#[trigger] eview[i]).1 == spec_lookup(
                                eview,
                                "children"@,
                            )->0;
                        assert(decreases_to!(nv => nv->Obj_0));
                        assert(decreases_to!(nv->Obj_0 => nv->Obj_0[i]));
                        assert(decreases_to!(nv->Obj_0[i] => nv->Obj_0[i].1));
                        assert(decreases_to!(cv => cv->Arr_0));
                        assert(decreases_to!(nv => full_items));
                    }
                    match parse_child_list(items) {
                        Ok(parsed) => Some(parsed),
                        Err(e) => {
                            return Err(e);
                        },
                    }
                },
                Some(_) => {
                    return Err(ParseError { kind: ParseErrorKind::ChildrenNotArray });
                },
            };
            Ok(AstNode { node_type, fields, children })
        },
        _ => Err(ParseError { kind: ParseErrorKind::NotAnObject }),
    }
}

/// Parses a top-level forest, keeping the prefix parsed before the first
/// failure, as `spec_parse_forest` says.
#[verifier::loop_isolation(false)]
pub fn parse_ast_nodes(nodes: Vec<JsonValue>) -> (r: AstResult)
    ensures
        r@ == spec_parse_forest(json_seq_view(nodes@)),
{
    broadcast use lemma_json_seq_view, lemma_ast_seq_view;

    let ghost full = json_seq_view(nodes@);
    let mut parsed: Vec<AstNode> = Vec::new();
    let mut rem = nodes;
    while rem.len() > 0
        invariant
            spec_parse_forest(full) == (match spec_parse_forest(json_seq_view(rem@)) {
                AstResultView { nodes: ns, is_valid: ok, error_message: msg } => AstResultView {
                    nodes: ast_seq_view(parsed@) + ns,
                    is_valid: ok,
                    error_message: msg,
                },
            }),
        decreases rem@.len(),
    {
        let ghost pre = rem@;
        let ghost old_rv = json_seq_view(rem@);
        let node = rem.remove(0);
        proof {
            lemma_jseq_pop_front(pre);
            assert(old_rv[0] == node@);
            assert(json_seq_view(rem@) =~= old_rv.subrange(1, old_rv.len() as int));
        }
        match parse_node(node) {
            Ok(n) => {
                let ghost old_parsed = parsed@;
                parsed.push(n);
                proof {
                    let new_rv = json_seq_view(rem@);
                    let rest = spec_parse_forest(new_rv);
                    assert(spec_parse_forest(old_rv) == AstResultView {
                        nodes: seq![n@] + rest.nodes,
                        is_valid: rest.is_valid,
                        error_message: rest.error_message,
                    });
                    assert(parsed@.subrange(0, parsed@.len() - 1) =~= old_parsed);
                    assert(ast_seq_view(parsed@) =~= ast_seq_view(old_parsed).push(n@));
                    assert(ast_seq_view(old_parsed) + (seq![n@] + rest.nodes)
                        =~= ast_seq_view(parsed@) + rest.nodes);
                }
            },
            Err(e) => {
                proof {
                    assert(spec_parse_forest(old_rv) == AstResultView {
                        nodes: Seq::empty(),
                        is_valid: false,
                        error_message: Some(spec_error_message(e.kind)),
                    });
                    assert(ast_seq_view(parsed@) + Seq::<AstNodeView>::empty()
                        =~= ast_seq_view(parsed@));
                }
                return AstResult {
                    nodes: parsed,
                    is_valid: false,
                    error_message: Some(e.message()),
                };
            },
        }
    }
    proof {
        assert(json_seq_view(rem@) =~= Seq::<JsonView>::empty());
        assert(ast_seq_view(parsed@) + Seq::<AstNodeView>::empty() =~= ast_seq_view(parsed@));
    }
    AstResult { nodes: parsed, is_valid: true, error_message: None }
}

/// The spell-casting rule: a string `SPELL` field naming a known spell.
pub open spec fn spec_validate_cast_magic(fields: JsonView) -> Result<(), ParseErrorKind> {
    match spec_get(fields, "SPELL"@) {
        None => Err(ParseErrorKind::MissingSpellField),
        Some(JsonView::Str(s)) => if s == "FIRE"@ || s == "ICE"@ || s == "THUNDER"@ {
            Ok(())
        } else {
            Err(ParseErrorKind::UnknownSpellType)
        },
        Some(_) => Err(ParseErrorKind::SpellFieldNotString),
    }
}

/// The heal rule: `AMOUNT` is optional, but must be a number or an integer
/// string when present.
pub open spec fn spec_validate_heal(fields: JsonView) -> Result<(), ParseErrorKind> {
    match spec_get(fields, "AMOUNT"@) {
        None => Ok(()),
        Some(JsonView::Num(n)) => Ok(()),
        Some(JsonView::Str(s)) => if spec_is_i32_string(s) {
            Ok(())
        } else {
            Err(ParseErrorKind::InvalidAmount)
        },
        Some(_) => Err(ParseErrorKind::InvalidAmount),
    }
}

/// The wait rule: `SECONDS` is required, a number or a float string.
pub open spec fn spec_validate_wait_seconds(fields: JsonView) -> Result<(), ParseErrorKind> {
    match spec_get(fields, "SECONDS"@) {
        None => Err(ParseErrorKind::MissingSecondsField),
        Some(JsonView::Num(n)) => Ok(()),
        Some(JsonView::Str(s)) => if spec_is_float_string(s) {
            Ok(())
        } else {
            Err(ParseErrorKind::InvalidSeconds)
        },
        Some(_) => Err(ParseErrorKind::InvalidSeconds),
    }
}

/// The semantic rule for one node's own kind, ignoring its children.
pub open spec fn spec_validate_own(n: AstNodeView) -> Result<(), ParseErrorKind> {
    if n.node_type == "cast_magic"@ {
        spec_validate_cast_magic(n.fields)
    } else if n.node_type == "heal"@ {
        spec_validate_heal(n.fields)
    } else if n.node_type == "wait_seconds"@ {
        spec_validate_wait_seconds(n.fields)
    } else {
        Ok(())
    }
}

/// Validation of one node: its own rule first, then its children,
/// depth-first, first error wins.
pub open spec fn spec_validate_node(n: AstNodeView) -> Result<(), ParseErrorKind>
    decreases n,
{
    match spec_validate_own(n) {
        Err(e) => Err(e),
        Ok(u) => match n.children {
            None => Ok(()),
            Some(cs) => spec_validate_nodes(cs),
        },
    }
}

/// Validation of a node list, left to right, first error wins.
pub open spec fn spec_validate_nodes(ns: Seq<AstNodeView>) -> Result<(), ParseErrorKind>
    decreases ns,
{
    if ns.len() == 0 {
        Ok(())
    } else {
        match spec_validate_node(ns[0]) {
            Err(e) => Err(e),
            Ok(u) => spec_validate_nodes(ns.subrange(1, ns.len() as int)),
        }
    }
}

fn validate_cast_magic(node: &AstNode) -> (r: Result<(), ParseError>)
    ensures
        match r {
            Ok(u) => spec_validate_cast_magic(node@.fields) is Ok,
            Err(e) => spec_validate_cast_magic(node@.fields) == Err::<(), ParseErrorKind>(e.kind),
        },
{
    match node.fields.get_field("SPELL") {
        None => Err(ParseError { kind: ParseErrorKind::MissingSpellField }),
        Some(JsonValue::Str(s)) => {
            if str_eq(s.as_str(), "FIRE") || str_eq(s.as_str(), "ICE") || str_eq(
                s.as_str(),
                "THUNDER",
            ) {
                Ok(())
            } else {
                Err(ParseError { kind: ParseErrorKind::UnknownSpellType })
            }
        },
        Some(_) => Err(ParseError { kind: ParseErrorKind::SpellFieldNotString }),
    }
}

fn validate_heal(node: &AstNode) -> (r: Result<(), ParseError>)
    ensures
        match r {
            Ok(u) => spec_validate_heal(node@.fields) is Ok,
            Err(e) => spec_validate_heal(node@.fields) == Err::<(), ParseErrorKind>(e.kind),
        },
{
    match node.fields.get_field("AMOUNT") {
        None => Ok(()),
        Some(JsonValue::Num(n)) => Ok(()),
        Some(JsonValue::Str(s)) => {
            if is_i32_string(s.as_str()) {
                Ok(())
            } else {
                Err(ParseError { kind: ParseErrorKind::InvalidAmount })
            }
        },
        Some(_) => Err(ParseError { kind: ParseErrorKind::InvalidAmount }),
    }
}

fn validate_wait_seconds(node: &AstNode) -> (r: Result<(), ParseError>)
    ensures
        match r {
            Ok(u) => spec_validate_wait_seconds(node@.fields) is Ok,
            Err(e) => spec_validate_wait_seconds(node@.fields) == Err::<(), ParseErrorKind>(
                e.kind,
            ),
        },
{
    match node.fields.get_field("SECONDS") {
        None => Err(ParseError { kind: ParseErrorKind::MissingSecondsField }),
        Some(JsonValue::Num(n)) => Ok(()),
        Some(JsonValue::Str(s)) => {
            if is_float_string(s.as_str()) {
                Ok(())
            } else {
                Err(ParseError { kind: ParseErrorKind::InvalidSeconds })
            }
        },
        Some(_) => Err(ParseError { kind: ParseErrorKind::InvalidSeconds }),
    }
}

/// Checks the per-kind semantic rules over a whole forest, depth-first and
/// left-to-right, reporting the first broken rule.
#[verifier::loop_isolation(false)]
pub fn validate_blocks(nodes: &[AstNode]) -> (r: Result<(), ParseError>)
    ensures
        match r {
            Ok(u) => spec_validate_nodes(ast_seq_view(nodes@)) is Ok,
            Err(e) => spec_validate_nodes(ast_seq_view(nodes@)) == Err::<(), ParseErrorKind>(
                e.kind,
            ),
        },
    decreases ast_seq_view(nodes@),
{
    broadcast use lemma_ast_seq_view;

    let ghost full = ast_seq_view(nodes@);
    proof {
        assert(full.subrange(0, full.len() as int) =~= full);
    }
    let mut i: usize = 0;
    while i < nodes.len()
        invariant
            i <= nodes@.len(),
            spec_validate_nodes(full) == spec_validate_nodes(
                full.subrange(i as int, full.len() as int),
            ),
        decreases nodes@.len() - i,
    {
        let node = slice_index_get(nodes, i);
        let ghost suffix = full.subrange(i as int, full.len() as int);
        proof {
            assert(suffix[0] == full[i as int]);
            assert(full[i as int] == ast_view(nodes@[i as int]));
        }
        let own: Result<(), ParseError> = if str_eq(node.node_type.as_str(), "cast_magic") {
            validate_cast_magic(node)
        } else if str_eq(node.node_type.as_str(), "heal") {
            validate_heal(node)
        } else if str_eq(node.node_type.as_str(), "wait_seconds") {
            validate_wait_seconds(node)
        } else {
            Ok(())
        };
        if let Err(e) = own {
            proof {
                assert(spec_validate_node(suffix[0]) == Err::<(), ParseErrorKind>(e.kind));
            }
            return Err(e);
        }
        if let Some(children) = &node.children {
            proof {
                assert(decreases_to!(full => full[i as int]));
                assert(decreases_to!(full[i as int] => full[i as int].children));
                assert(decreases_to!(full[i as int].children => full[i as int].children->0));
                assert(full[i as int].children->0 == ast_seq_view(children@));
            }
            match validate_blocks(children.as_slice()) {
                Ok(u) => {},
                Err(e) => {
                    proof {
                        assert(spec_validate_node(suffix[0]) == Err::<(), ParseErrorKind>(
                            e.kind,
                        ));
                    }
                    return Err(e);
                },
            }
        }
        proof {
            assert(spec_validate_node(suffix[0]) is Ok);
            assert(full.subrange(i + 1, full.len() as int) =~= suffix.subrange(
                1,
                suffix.len() as int,
            ));
        }
        i += 1;
    }
    proof {
        assert(full.subrange(full.len() as int, full.len() as int)
            =~= Seq::<AstNodeView>::empty());
    }
    Ok(())
}

} // verus!
