//! The evaluator: walks a validated AST depth-first, left-to-right, and
//! emits the ordered list of game actions.
//!
//! One incantation context (the current spell and the gesture steps so far)
//! is threaded through the whole walk. A spell-casting node resets the
//! gesture accumulator on entry, lets its children append to it, then holds
//! the comma-joined gesture string against the pattern table: a match emits
//! completion actions, a mismatch a failure action. Unknown node kinds emit
//! nothing but remain transparent to the walk.

use vstd::prelude::*;
use vstd::string::{StrSliceExecFns, StringExecFns};
use crate::ast::{AstNode, AstNodeView, AstResult, ast_seq_view, lemma_ast_seq_view, ast_view,
    opt_str_view};
use crate::json::{JsonNum, JsonValue, JsonView, spec_get};
use crate::patterns::{spec_pattern_valid, evaluate_pattern};
use crate::strutil::str_eq;

verus! {

/// The closed set of action kinds the game runtime understands.
#[derive(Clone, Copy, Debug, PartialEq, Eq, Structural)]
pub enum ActionType {
    Attack,
    Heal,
    CastMagic,
    CastHealingMagic,
    Wait,
    StartIncantation,
    WaveLeftHand,
    WaveRightHand,
    CompleteIncantation,
    FailIncantation,
}

/// One gesture token, as produced by the hand-wave blocks.
#[derive(Clone, Copy, Debug, PartialEq, Eq, Structural)]
pub enum Gesture {
    Left,
    Right,
}

/// The per-kind parameter payload of an action.
#[derive(Debug, PartialEq)]
pub enum ActionParams {
    Empty,
    Spell { spell: String },
    SpellPattern { spell: String, pattern: String },
    Amount { amount: i64 },
    Seconds { seconds: JsonNum },
}

/// One discrete instruction for the game runtime.
#[derive(Debug, PartialEq)]
pub struct GameAction {
    pub action_type: ActionType,
    pub parameters: ActionParams,
}

/// The mathematical shape of `ActionParams`.
pub enum ActionParamsView {
    Empty,
    Spell { spell: Seq<char> },
    SpellPattern { spell: Seq<char>, pattern: Seq<char> },
    Amount { amount: i64 },
    Seconds { seconds: JsonNum },
}

/// The mathematical shape of a `GameAction`.
pub struct GameActionView {
    pub action_type: ActionType,
    pub parameters: ActionParamsView,
}

impl View for ActionParams {
    type V = ActionParamsView;

    open spec fn view(&self) -> ActionParamsView {
        match self {
            ActionParams::Empty => ActionParamsView::Empty,
            ActionParams::Spell { spell } => ActionParamsView::Spell { spell: spell@ },
            ActionParams::SpellPattern { spell, pattern } => ActionParamsView::SpellPattern {
                spell: spell@,
                pattern: pattern@,
            },
            ActionParams::Amount { amount } => ActionParamsView::Amount { amount: *amount },
            ActionParams::Seconds { seconds } => ActionParamsView::Seconds { seconds: *seconds },
        }
    }
}

impl View for GameAction {
    type V = GameActionView;

    open spec fn view(&self) -> GameActionView {
        GameActionView { action_type: self.action_type, parameters: self.parameters@ }
    }
}

impl DeepView for GameAction {
    type V = GameActionView;

    open spec fn deep_view(&self) -> GameActionView {
        self@
    }
}

/// Raised only when the supplied parse result is itself marked invalid.
#[derive(Debug, PartialEq)]
pub struct EvaluationError {
    pub message: String,
}

/// The incantation context: the spell being cast, and the gestures made so
/// far.
pub struct EvalState {
    pub steps: Seq<Gesture>,
    pub ctx: Option<Seq<char>>,
}

/// What walking one node (or one node list) does: the actions it emits, the
/// context it leaves behind, and whether its own incantation succeeded.
pub struct NodeEval {
    pub actions: Seq<GameActionView>,
    pub steps: Seq<Gesture>,
    pub ctx: Option<Seq<char>>,
    pub success: bool,
}

/// The walk starts with no spell and no gestures.
pub open spec fn init_state() -> EvalState {
    EvalState { steps: Seq::empty(), ctx: None }
}

pub open spec fn gesture_token(g: Gesture) -> Seq<char> {
    match g {
        Gesture::Left => "left"@,
        Gesture::Right => "right"@,
    }
}

/// Gesture steps rendered as a comma-joined token string.
pub open spec fn spec_pattern_of(steps: Seq<Gesture>) -> Seq<char>
    decreases steps,
{
    if steps.len() == 0 {
        Seq::empty()
    } else if steps.len() == 1 {
        gesture_token(steps[0])
    } else {
        spec_pattern_of(steps.subrange(0, steps.len() - 1)) + ","@ + gesture_token(
            steps[steps.len() - 1],
        )
    }
}

/// The named field when it is present and a string.
pub open spec fn spec_field_str(fields: JsonView, key: Seq<char>) -> Option<Seq<char>> {
    match spec_get(fields, key) {
        Some(JsonView::Str(s)) => Some(s),
        _ => None,
    }
}

/// The heal amount: the `AMOUNT` field as an integer, or ten.
pub open spec fn spec_heal_amount(fields: JsonView) -> i64 {
    match spec_get(fields, "AMOUNT"@) {
        Some(JsonView::Num(n)) => match n.spec_as_int() {
            Some(a) => a,
            None => 10,
        },
        _ => 10,
    }
}

/// The wait length: the `SECONDS` field as a number, or the number one.
pub open spec fn spec_wait_seconds(fields: JsonView) -> JsonNum {
    match spec_get(fields, "SECONDS"@) {
        Some(JsonView::Num(n)) => n,
        _ => JsonNum::PosInt(1),
    }
}

pub open spec fn act(t: ActionType, p: ActionParamsView) -> GameActionView {
    GameActionView { action_type: t, parameters: p }
}

/// A walk that changes nothing and emits nothing.
pub open spec fn idle_eval(st: EvalState) -> NodeEval {
    NodeEval { actions: Seq::empty(), steps: st.steps, ctx: st.ctx, success: true }
}

/// The actions a spell-casting block appends after its children: completion
/// and the cast on a match, a failure marker otherwise.
pub open spec fn incantation_outcome(
    spell: Seq<char>,
    pattern: Seq<char>,
    cast: GameActionView,
) -> Seq<GameActionView> {
    if spec_pattern_valid(spell, pattern) {
        seq![
            act(
                ActionType::CompleteIncantation,
                ActionParamsView::SpellPattern { spell, pattern },
            ),
            cast,
        ]
    } else {
        seq![act(ActionType::FailIncantation, ActionParamsView::SpellPattern { spell, pattern })]
    }
}

/// What walking one node does, given the incantation context handed in.
pub open spec fn eval_node(n: AstNodeView, st: EvalState) -> NodeEval
    decreases n,
{
    let nt = n.node_type;
    if nt == "cast_magic"@ {
        match spec_field_str(n.fields, "SPELL"@) {
            None => idle_eval(st),
            Some(spell) => {
                let ch = eval_opt_children(
                    n.children,
                    EvalState { steps: Seq::empty(), ctx: Some(spell) },
                );
                let pattern = spec_pattern_of(ch.steps);
                let start = act(ActionType::StartIncantation, ActionParamsView::Spell { spell });
                let cast = act(ActionType::CastMagic, ActionParamsView::Spell { spell });
                NodeEval {
                    actions: seq![start] + ch.actions + incantation_outcome(spell, pattern, cast),
                    steps: ch.steps,
                    ctx: None,
                    success: spec_pattern_valid(spell, pattern),
                }
            },
        }
    } else if nt == "cast_healing_magic"@ {
        let spell = "HEALING"@;
        let ch = eval_opt_children(n.children, EvalState { steps: Seq::empty(), ctx: Some(spell) });
        let pattern = spec_pattern_of(ch.steps);
        let start = act(ActionType::StartIncantation, ActionParamsView::Spell { spell });
        let cast = act(ActionType::CastHealingMagic, ActionParamsView::Amount { amount: 15 });
        NodeEval {
            actions: seq![start] + ch.actions + incantation_outcome(spell, pattern, cast),
            steps: ch.steps,
            ctx: None,
            success: spec_pattern_valid(spell, pattern),
        }
    } else if nt == "wave_left_hand"@ {
        NodeEval {
            actions: seq![act(ActionType::WaveLeftHand, ActionParamsView::Empty)],
            steps: st.steps.push(Gesture::Left),
            ctx: st.ctx,
            success: true,
        }
    } else if nt == "wave_right_hand"@ {
        NodeEval {
            actions: seq![act(ActionType::WaveRightHand, ActionParamsView::Empty)],
            steps: st.steps.push(Gesture::Right),
            ctx: st.ctx,
            success: true,
        }
    } else if nt == "attack"@ {
        NodeEval {
            actions: seq![act(ActionType::Attack, ActionParamsView::Empty)],
            steps: st.steps,
            ctx: st.ctx,
            success: true,
        }
    } else if nt == "heal"@ {
        NodeEval {
            actions: seq![
                act(
                    ActionType::Heal,
                    ActionParamsView::Amount { amount: spec_heal_amount(n.fields) },
                ),
            ],
            steps: st.steps,
            ctx: st.ctx,
            success: true,
        }
    } else if nt == "cast_healing"@ {
        NodeEval {
            actions: seq![act(ActionType::CastHealingMagic, ActionParamsView::Amount { amount: 15 })],
            steps: st.steps,
            ctx: st.ctx,
            success: true,
        }
    } else if nt == "wait_seconds"@ {
        NodeEval {
            actions: seq![
                act(
                    ActionType::Wait,
                    ActionParamsView::Seconds { seconds: spec_wait_seconds(n.fields) },
                ),
            ],
            steps: st.steps,
            ctx: st.ctx,
            success: true,
        }
    } else {
        // unrecognized kinds are transparent: nothing emitted of their own,
        // but the walk still descends into their children
        let ch = eval_opt_children(n.children, st);
        NodeEval { actions: ch.actions, steps: ch.steps, ctx: ch.ctx, success: true }
    }
}

pub open spec fn eval_opt_children(c: Option<Seq<AstNodeView>>, st: EvalState) -> NodeEval
    decreases c,
{
    match c {
        None => idle_eval(st),
        Some(cs) => eval_nodes(cs, st),
    }
}

/// What walking a node list does, threading the context left to right.
pub open spec fn eval_nodes(ns: Seq<AstNodeView>, st: EvalState) -> NodeEval
    decreases ns,
{
    if ns.len() == 0 {
        idle_eval(st)
    } else {
        let pre = eval_nodes(ns.subrange(0, ns.len() - 1), st);
        let last = eval_node(ns[ns.len() - 1], EvalState { steps: pre.steps, ctx: pre.ctx });
        NodeEval {
            actions: pre.actions + last.actions,
            steps: last.steps,
            ctx: last.ctx,
            success: pre.success && last.success,
        }
    }
}

/// What evaluating a whole parse result yields: the full action list, or
/// the stored failure reason when the result is marked invalid.
pub open spec fn spec_evaluate(a: crate::ast::AstResultView) -> Result<Seq<GameActionView>, Seq<char>> {
    if a.is_valid {
        Ok(eval_nodes(a.nodes, init_state()).actions)
    } else {
        Err(
            match a.error_message {
                Some(m) => m,
                None => "unknown error"@,
            },
        )
    }
}

/// Renders gesture steps as the comma-joined token string.
#[verifier::loop_isolation(false)]
fn join_pattern(steps: &Vec<Gesture>) -> (r: String)
    ensures
        r@ == spec_pattern_of(steps@),
{
    let mut out = String::new();
    let mut i: usize = 0;
    while i < steps.len()
        invariant
            i <= steps@.len(),
            out@ == spec_pattern_of(steps@.subrange(0, i as int)),
        decreases steps@.len() - i,
    {
        if i > 0 {
            out.append(",");
        }
        match steps[i] {
            Gesture::Left => out.append("left"),
            Gesture::Right => out.append("right"),
        }
        proof {
            let sub1 = steps@.subrange(0, i + 1);
            assert(sub1.subrange(0, i as int) =~= steps@.subrange(0, i as int));
            assert(sub1[i as int] == steps@[i as int]);
            if i == 0 {
                assert(Seq::<char>::empty() + gesture_token(steps@[0]) =~= gesture_token(
                    steps@[0],
                ));
            }
        }
        i += 1;
    }
    proof {
        assert(steps@.subrange(0, steps@.len() as int) =~= steps@);
    }
    out
}

/// Whether a rendered gesture string completes the named spell, by the
/// pattern table.
pub fn evaluate_incantation(spell: &str, pattern: &str) -> (r: bool)
    ensures
        r == spec_pattern_valid(spell@, pattern@),
{
    evaluate_pattern(spell, pattern).is_valid
}

/// Whether a rendered gesture string completes the healing spell.
pub fn evaluate_healing_incantation(pattern: &str) -> (r: bool)
    ensures
        r == spec_pattern_valid("HEALING"@, pattern@),
{
    evaluate_incantation("HEALING", pattern)
}

/// Walks one node list, threading the shared context, appending to
/// `actions`.
#[verifier::loop_isolation(false)]
fn process_children(
    children: &Vec<AstNode>,
    actions: &mut Vec<GameAction>,
    spell_context: &mut Option<String>,
    steps: &mut Vec<Gesture>,
)
    ensures
        ({
            let r = eval_nodes(
                ast_seq_view(children@),
                EvalState { steps: old(steps)@, ctx: opt_str_view(*old(spell_context)) },
            );
            final(actions).deep_view() == old(actions).deep_view() + r.actions
                && final(steps)@ == r.steps && opt_str_view(*final(spell_context)) == r.ctx
        }),
    decreases ast_seq_view(children@), 1int,
{
    broadcast use lemma_ast_seq_view;

    let ghost cview = ast_seq_view(children@);
    let ghost st0 = EvalState { steps: steps@, ctx: opt_str_view(*spell_context) };
    let ghost base = actions.deep_view();
    proof {
        assert(cview.subrange(0, 0) =~= Seq::<AstNodeView>::empty());
        assert(base + Seq::<GameActionView>::empty() =~= base);
    }
    let mut j: usize = 0;
    while j < children.len()
        invariant
            j <= children@.len(),
            ({
                let pre = eval_nodes(cview.subrange(0, j as int), st0);
                actions.deep_view() == base + pre.actions && steps@ == pre.steps && opt_str_view(
                    *spell_context,
                ) == pre.ctx
            }),
        decreases children@.len() - j,
    {
        let ghost pre = eval_nodes(cview.subrange(0, j as int), st0);
        proof {
            assert(decreases_to!(cview => cview[j as int]));
            assert(cview[j as int] == ast_view(children@[j as int]));
        }
        process_node(&children[j], actions, spell_context, steps);
        proof {
            let sub1 = cview.subrange(0, j + 1);
            assert(sub1.subrange(0, j as int) =~= cview.subrange(0, j as int));
            assert(sub1[j as int] == cview[j as int]);
            let rj = eval_node(cview[j as int], EvalState { steps: pre.steps, ctx: pre.ctx });
            assert(base + pre.actions + rj.actions =~= base + (pre.actions + rj.actions));
        }
        j += 1;
    }
    proof {
        assert(cview.subrange(0, cview.len() as int) =~= cview);
    }
}

/// Walks one node, appending what it emits to `actions` and mutating the
/// shared incantation context; says whether the node's own incantation (if
/// any) succeeded.
#[verifier::loop_isolation(false)]
fn process_node(
    node: &AstNode,
    actions: &mut Vec<GameAction>,
    spell_context: &mut Option<String>,
    steps: &mut Vec<Gesture>,
) -> (success: bool)
    ensures
        ({
            let r = eval_node(
                node@,
                EvalState { steps: old(steps)@, ctx: opt_str_view(*old(spell_context)) },
            );
            final(actions).deep_view() == old(actions).deep_view() + r.actions
                && final(steps)@ == r.steps && opt_str_view(*final(spell_context)) == r.ctx
                && success == r.success
        }),
    decreases node@, 0int,
{
    broadcast use lemma_ast_seq_view;

    let ghost nv = node@;
    let ghost st_in = EvalState { steps: steps@, ctx: opt_str_view(*spell_context) };
    let ghost base = actions.deep_view();
    if str_eq(node.node_type.as_str(), "cast_magic") {
        let mut success = true;
        match node.fields.get_field("SPELL") {
            Some(JsonValue::Str(spell)) => {
                *spell_context = Some(spell.clone());
                steps.clear();
                actions.push(
                    GameAction {
                        action_type: ActionType::StartIncantation,
                        parameters: ActionParams::Spell { spell: spell.clone() },
                    },
                );
                let ghost start = act(
                    ActionType::StartIncantation,
                    ActionParamsView::Spell { spell: spell@ },
                );
                proof {
                    assert(actions.deep_view() =~= base + seq![start]);
                }
                let ghost st1 = EvalState { steps: Seq::empty(), ctx: Some(spell@) };
                let ghost ch = eval_opt_children(nv.children, st1);
                if let Some(children) = &node.children {
                    proof {
                        assert(nv.children->0 == ast_seq_view(children@));
                        assert(decreases_to!(nv => nv.children));
                        assert(decreases_to!(nv.children => nv.children->0));
                    }
                    process_children(children, actions, spell_context, steps);
                }
                proof {
                    assert((base + seq![start]) + Seq::<GameActionView>::empty() =~= base
                        + seq![start]);
                    assert(actions.deep_view() == base + seq![start] + ch.actions);
                }
                let pattern = join_pattern(steps);
                let correct = evaluate_incantation(spell.as_str(), pattern.as_str());
                let ghost patv = spec_pattern_of(ch.steps);
                let ghost before_out = actions.deep_view();
                if correct {
                    actions.push(
                        GameAction {
                            action_type: ActionType::CompleteIncantation,
                            parameters: ActionParams::SpellPattern {
                                spell: spell.clone(),
                                pattern: pattern.clone(),
                            },
                        },
                    );
                    proof {
                        assert(actions.deep_view() =~= before_out.push(
                            act(
                                ActionType::CompleteIncantation,
                                ActionParamsView::SpellPattern { spell: spell@, pattern: patv },
                            ),
                        ));
                    }
                    actions.push(
                        GameAction {
                            action_type: ActionType::CastMagic,
                            parameters: ActionParams::Spell { spell: spell.clone() },
                        },
                    );
                    proof {
                        assert(actions.deep_view() =~= before_out.push(
                            act(
                                ActionType::CompleteIncantation,
                                ActionParamsView::SpellPattern { spell: spell@, pattern: patv },
                            ),
                        ).push(act(ActionType::CastMagic, ActionParamsView::Spell { spell: spell@ })));
                    }
                } else {
                    actions.push(
                        GameAction {
                            action_type: ActionType::FailIncantation,
                            parameters: ActionParams::SpellPattern {
                                spell: spell.clone(),
                                pattern,
                            },
                        },
                    );
                    proof {
                        assert(actions.deep_view() =~= before_out.push(
                            act(
                                ActionType::FailIncantation,
                                ActionParamsView::SpellPattern { spell: spell@, pattern: patv },
                            ),
                        ));
                    }
                    success = false;
                }
                proof {
                    let cast = act(ActionType::CastMagic, ActionParamsView::Spell { spell: spell@ });
                    assert(actions.deep_view() =~= base + (seq![start] + ch.actions
                        + incantation_outcome(spell@, patv, cast)));
                }
                *spell_context = None;
            },
            _ => {
                proof {
                    assert(base + Seq::<GameActionView>::empty() =~= base);
                }
            },
        }
        success
    } else if str_eq(node.node_type.as_str(), "cast_healing_magic") {
        let mut success = true;
        let spell = String::from_str("HEALING");
        *spell_context = Some(spell.clone());
        steps.clear();
        actions.push(
            GameAction {
                action_type: ActionType::StartIncantation,
                parameters: ActionParams::Spell { spell: spell.clone() },
            },
        );
        let ghost start = act(ActionType::StartIncantation, ActionParamsView::Spell {
            spell: "HEALING"@,
        });
        proof {
            assert(actions.deep_view() =~= base + seq![start]);
        }
        let ghost st1 = EvalState { steps: Seq::empty(), ctx: Some("HEALING"@) };
        let ghost ch = eval_opt_children(nv.children, st1);
        if let Some(children) = &node.children {
            proof {
                assert(nv.children->0 == ast_seq_view(children@));
                assert(decreases_to!(nv => nv.children));
                assert(decreases_to!(nv.children => nv.children->0));
            }
            process_children(children, actions, spell_context, steps);
        }
        proof {
            assert((base + seq![start]) + Seq::<GameActionView>::empty() =~= base + seq![start]);
            assert(actions.deep_view() == base + seq![start] + ch.actions);
        }
        let pattern = join_pattern(steps);
        let correct = evaluate_healing_incantation(pattern.as_str());
        let ghost patv = spec_pattern_of(ch.steps);
        let ghost before_out = actions.deep_view();
        if correct {
            actions.push(
                GameAction {
                    action_type: ActionType::CompleteIncantation,
                    parameters: ActionParams::SpellPattern { spell: spell.clone(), pattern },
                },
            );
            proof {
                assert(actions.deep_view() =~= before_out.push(
                    act(
                        ActionType::CompleteIncantation,
                        ActionParamsView::SpellPattern { spell: "HEALING"@, pattern: patv },
                    ),
                ));
            }
            actions.push(
                GameAction {
                    action_type: ActionType::CastHealingMagic,
                    parameters: ActionParams::Amount { amount: 15 },
                },
            );
            proof {
                assert(actions.deep_view() =~= before_out.push(
                    act(
                        ActionType::CompleteIncantation,
                        ActionParamsView::SpellPattern { spell: "HEALING"@, pattern: patv },
                    ),
                ).push(act(ActionType::CastHealingMagic, ActionParamsView::Amount { amount: 15 })));
            }
        } else {
            actions.push(
                GameAction {
                    action_type: ActionType::FailIncantation,
                    parameters: ActionParams::SpellPattern { spell: spell.clone(), pattern },
                },
            );
            proof {
                assert(actions.deep_view() =~= before_out.push(
                    act(
                        ActionType::FailIncantation,
                        ActionParamsView::SpellPattern { spell: "HEALING"@, pattern: patv },
                    ),
                ));
            }
            success = false;
        }
        proof {
            let cast = act(ActionType::CastHealingMagic, ActionParamsView::Amount { amount: 15 });
            assert(actions.deep_view() =~= base + (seq![start] + ch.actions
                + incantation_outcome("HEALING"@, patv, cast)));
        }
        *spell_context = None;
        success
    } else if str_eq(node.node_type.as_str(), "wave_left_hand") {
        steps.push(Gesture::Left);
        actions.push(
            GameAction { action_type: ActionType::WaveLeftHand, parameters: ActionParams::Empty },
        );
        proof {
            assert(actions.deep_view() =~= base + seq![
                act(ActionType::WaveLeftHand, ActionParamsView::Empty),
            ]);
        }
        true
    } else if str_eq(node.node_type.as_str(), "wave_right_hand") {
        steps.push(Gesture::Right);
        actions.push(
            GameAction { action_type: ActionType::WaveRightHand, parameters: ActionParams::Empty },
        );
        proof {
            assert(actions.deep_view() =~= base + seq![
                act(ActionType::WaveRightHand, ActionParamsView::Empty),
            ]);
        }
        true
    } else if str_eq(node.node_type.as_str(), "attack") {
        actions.push(
            GameAction { action_type: ActionType::Attack, parameters: ActionParams::Empty },
        );
        proof {
            assert(actions.deep_view() =~= base + seq![
                act(ActionType::Attack, ActionParamsView::Empty),
            ]);
        }
        true
    } else if str_eq(node.node_type.as_str(), "heal") {
        let amount: i64 = match node.fields.get_field("AMOUNT") {
            Some(JsonValue::Num(n)) => match n.as_int() {
                Some(a) => a,
                None => 10,
            },
            _ => 10,
        };
        actions.push(
            GameAction { action_type: ActionType::Heal, parameters: ActionParams::Amount { amount } },
        );
        proof {
            assert(actions.deep_view() =~= base + seq![
                act(ActionType::Heal, ActionParamsView::Amount { amount: spec_heal_amount(nv.fields) }),
            ]);
        }
        true
    } else if str_eq(node.node_type.as_str(), "cast_healing") {
        actions.push(
            GameAction {
                action_type: ActionType::CastHealingMagic,
                parameters: ActionParams::Amount { amount: 15 },
            },
        );
        proof {
            assert(actions.deep_view() =~= base + seq![
                act(ActionType::CastHealingMagic, ActionParamsView::Amount { amount: 15 }),
            ]);
        }
        true
    } else if str_eq(node.node_type.as_str(), "wait_seconds") {
        let seconds: JsonNum = match node.fields.get_field("SECONDS") {
            Some(JsonValue::Num(n)) => *n,
            _ => JsonNum::PosInt(1),
        };
        actions.push(
            GameAction {
                action_type: ActionType::Wait,
                parameters: ActionParams::Seconds { seconds },
            },
        );
        proof {
            assert(actions.deep_view() =~= base + seq![
                act(
                    ActionType::Wait,
                    ActionParamsView::Seconds { seconds: spec_wait_seconds(nv.fields) },
                ),
            ]);
        }
        true
    } else {
        let ghost ch = eval_opt_children(nv.children, st_in);
        if let Some(children) = &node.children {
            proof {
                assert(nv.children->0 == ast_seq_view(children@));
                assert(decreases_to!(nv => nv.children));
                assert(decreases_to!(nv.children => nv.children->0));
            }
            process_children(children, actions, spell_context, steps);
        }
        proof {
            assert(base + Seq::<GameActionView>::empty() =~= base);
        }
        true
    }
}

/// Parsing followed by evaluation never gets stuck: whenever a forest
/// parses cleanly, evaluating the parse result yields an action list, and
/// every action in it carries a kind from the closed `ActionType` set.
pub proof fn lemma_parse_then_evaluate_ok(vs: Seq<JsonView>)
    ensures
        crate::parser::spec_parse_forest(vs).is_valid ==> spec_evaluate(
            crate::parser::spec_parse_forest(vs),
        ) is Ok,
{
}

/// Evaluation is deterministic: the contract of `evaluate` admits a single
/// action list for a given parse result, so evaluating the same result
/// twice yields identical lists.
pub proof fn lemma_evaluate_deterministic(
    a: crate::ast::AstResultView,
    r1: Seq<GameActionView>,
    r2: Seq<GameActionView>,
)
    requires
        spec_evaluate(a) == Ok::<Seq<GameActionView>, Seq<char>>(r1),
        spec_evaluate(a) == Ok::<Seq<GameActionView>, Seq<char>>(r2),
    ensures
        r1 == r2,
{
}

/// Gesture accumulation resets per incantation block: what a spell-casting
/// node emits, and whether its incantation succeeds, do not depend on the
/// gesture steps or spell context accumulated before it, so sibling
/// spell-casting nodes are judged independently.
pub proof fn lemma_incantation_independent(n: AstNodeView, st1: EvalState, st2: EvalState)
    requires
        n.node_type == "cast_magic"@ || n.node_type == "cast_healing_magic"@,
    ensures
        eval_node(n, st1).actions == eval_node(n, st2).actions,
        eval_node(n, st1).success == eval_node(n, st2).success,
{
}

/// Evaluates a validated parse result into the full ordered action list;
/// an invalid result is refused with its stored failure reason.
pub fn evaluate(ast_result: AstResult) -> (r: Result<Vec<GameAction>, EvaluationError>)
    ensures
        (r is Ok) == ast_result@.is_valid,
        r is Ok ==> Ok::<Seq<GameActionView>, Seq<char>>(r->Ok_0.deep_view()) == spec_evaluate(
            ast_result@,
        ),
        r is Err ==> Err::<Seq<GameActionView>, Seq<char>>(r->Err_0.message@) == spec_evaluate(
            ast_result@,
        ),
{
    if !ast_result.is_valid {
        let message = match ast_result.error_message {
            Some(m) => m,
            None => String::from_str("unknown error"),
        };
        return Err(EvaluationError { message });
    }
    let mut actions: Vec<GameAction> = Vec::new();
    let mut spell_context: Option<String> = None;
    let mut steps: Vec<Gesture> = Vec::new();
    proof {
        assert(actions.deep_view() =~= Seq::<GameActionView>::empty());
    }
    process_children(&ast_result.nodes, &mut actions, &mut spell_context, &mut steps);
    proof {
        assert(Seq::<GameActionView>::empty() + eval_nodes(
            ast_seq_view(ast_result.nodes@),
            init_state(),
        ).actions =~= eval_nodes(ast_seq_view(ast_result.nodes@), init_state()).actions);
    }
    Ok(actions)
}

} // verus!
