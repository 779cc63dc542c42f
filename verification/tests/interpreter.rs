use game_core::ast::{AstNode, AstResult};
use game_core::evaluator::{
    evaluate, evaluate_healing_incantation, evaluate_incantation, ActionParams, ActionType,
    GameAction,
};
use game_core::json::{JsonNum, JsonValue};
use game_core::parser::{parse_ast_nodes, parse_node, validate_blocks, ParseErrorKind};
use game_core::patterns::{evaluate_pattern, get_available_spells};

fn jstr(v: &str) -> JsonValue {
    JsonValue::Str(v.to_string())
}

fn jobj(entries: Vec<(&str, JsonValue)>) -> JsonValue {
    JsonValue::Obj(entries.into_iter().map(|(k, v)| (k.to_string(), v)).collect())
}

fn node(ty: &str) -> JsonValue {
    jobj(vec![("type", jstr(ty))])
}

fn node_fields(ty: &str, fields: Vec<(&str, JsonValue)>) -> JsonValue {
    jobj(vec![("type", jstr(ty)), ("fields", jobj(fields))])
}

fn node_full(ty: &str, fields: Vec<(&str, JsonValue)>, children: Vec<JsonValue>) -> JsonValue {
    jobj(vec![
        ("type", jstr(ty)),
        ("fields", jobj(fields)),
        ("children", JsonValue::Arr(children)),
    ])
}

fn act_empty(t: ActionType) -> GameAction {
    GameAction { action_type: t, parameters: ActionParams::Empty }
}

fn act_spell(t: ActionType, spell: &str) -> GameAction {
    GameAction { action_type: t, parameters: ActionParams::Spell { spell: spell.to_string() } }
}

fn act_pattern(t: ActionType, spell: &str, pattern: &str) -> GameAction {
    GameAction {
        action_type: t,
        parameters: ActionParams::SpellPattern {
            spell: spell.to_string(),
            pattern: pattern.to_string(),
        },
    }
}

fn act_amount(t: ActionType, amount: i64) -> GameAction {
    GameAction { action_type: t, parameters: ActionParams::Amount { amount } }
}

fn parse_valid(nodes: Vec<JsonValue>) -> AstResult {
    let r = parse_ast_nodes(nodes);
    assert!(r.is_valid, "expected a clean parse, got {:?}", r.error_message);
    r
}

#[test]
fn pattern_fire_exact_match_is_valid() {
    let r = evaluate_pattern("FIRE", "right,right,left");
    assert!(r.is_valid);
    assert_eq!(r.expected_pattern, "right,right,left");
    assert_eq!(r.actual_pattern, "right,right,left");
    assert_eq!(r.spell_type, "FIRE");
}

#[test]
fn pattern_fire_longer_sequence_is_invalid() {
    let r = evaluate_pattern("FIRE", "right,right,left,left");
    assert!(!r.is_valid);
    assert_eq!(r.expected_pattern, "right,right,left");
}

#[test]
fn pattern_unknown_spell_is_invalid_with_empty_expectation() {
    let r = evaluate_pattern("UNKNOWN", "");
    assert!(!r.is_valid);
    assert_eq!(r.expected_pattern, "");
}

#[test]
fn pattern_table_entries() {
    assert!(evaluate_pattern("ICE", "left,left").is_valid);
    assert!(evaluate_pattern("THUNDER", "right,left,right,left").is_valid);
    assert!(evaluate_pattern("HEALING", "left,right,left,right,left,right").is_valid);
    assert!(!evaluate_pattern("ICE", "left").is_valid);
}

#[test]
fn available_spells_in_table_order() {
    assert_eq!(get_available_spells(), vec!["FIRE", "ICE", "THUNDER", "HEALING"]);
}

#[test]
fn incantation_helpers_follow_the_table() {
    assert!(evaluate_incantation("FIRE", "right,right,left"));
    assert!(!evaluate_incantation("FIRE", "right,left"));
    assert!(!evaluate_incantation("UNKNOWN", ""));
    assert!(evaluate_healing_incantation("left,right,left,right,left,right"));
    assert!(!evaluate_healing_incantation("left,right"));
}

#[test]
fn ice_incantation_scenario() {
    let input = vec![node_full(
        "cast_magic",
        vec![("SPELL", jstr("ICE"))],
        vec![node("wave_left_hand"), node("wave_left_hand")],
    )];
    let parsed = parse_valid(input);
    let actions = evaluate(parsed).expect("evaluation should succeed");
    let expected = vec![
        act_spell(ActionType::StartIncantation, "ICE"),
        act_empty(ActionType::WaveLeftHand),
        act_empty(ActionType::WaveLeftHand),
        act_pattern(ActionType::CompleteIncantation, "ICE", "left,left"),
        act_spell(ActionType::CastMagic, "ICE"),
    ];
    assert_eq!(actions, expected);
}

#[test]
fn wrong_gestures_fail_the_incantation() {
    let input = vec![node_full(
        "cast_magic",
        vec![("SPELL", jstr("ICE"))],
        vec![node("wave_right_hand")],
    )];
    let actions = evaluate(parse_valid(input)).unwrap();
    let expected = vec![
        act_spell(ActionType::StartIncantation, "ICE"),
        act_empty(ActionType::WaveRightHand),
        act_pattern(ActionType::FailIncantation, "ICE", "right"),
    ];
    assert_eq!(actions, expected);
}

#[test]
fn sibling_incantations_are_judged_independently() {
    // a correct first spell must not make a wrong second spell pass
    let input = vec![
        node_full(
            "cast_magic",
            vec![("SPELL", jstr("ICE"))],
            vec![node("wave_left_hand"), node("wave_left_hand")],
        ),
        node_full(
            "cast_magic",
            vec![("SPELL", jstr("FIRE"))],
            vec![node("wave_left_hand")],
        ),
    ];
    let actions = evaluate(parse_valid(input)).unwrap();
    let expected = vec![
        act_spell(ActionType::StartIncantation, "ICE"),
        act_empty(ActionType::WaveLeftHand),
        act_empty(ActionType::WaveLeftHand),
        act_pattern(ActionType::CompleteIncantation, "ICE", "left,left"),
        act_spell(ActionType::CastMagic, "ICE"),
        act_spell(ActionType::StartIncantation, "FIRE"),
        act_empty(ActionType::WaveLeftHand),
        act_pattern(ActionType::FailIncantation, "FIRE", "left"),
    ];
    assert_eq!(actions, expected);

    // and a wrong first spell must not fail a correct second one
    let input = vec![
        node_full("cast_magic", vec![("SPELL", jstr("FIRE"))], vec![node("wave_left_hand")]),
        node_full(
            "cast_magic",
            vec![("SPELL", jstr("ICE"))],
            vec![node("wave_left_hand"), node("wave_left_hand")],
        ),
    ];
    let actions = evaluate(parse_valid(input)).unwrap();
    assert_eq!(actions[0], act_spell(ActionType::StartIncantation, "FIRE"));
    assert_eq!(actions[2], act_pattern(ActionType::FailIncantation, "FIRE", "left"));
    assert_eq!(actions[6], act_pattern(ActionType::CompleteIncantation, "ICE", "left,left"));
    assert_eq!(actions[7], act_spell(ActionType::CastMagic, "ICE"));
}

#[test]
fn heal_without_amount_defaults_to_ten() {
    let actions = evaluate(parse_valid(vec![node("heal")])).unwrap();
    assert_eq!(actions, vec![act_amount(ActionType::Heal, 10)]);
}

#[test]
fn heal_with_numeric_amount_uses_it() {
    let input = vec![node_fields("heal", vec![("AMOUNT", JsonValue::Num(JsonNum::PosInt(25)))])];
    let actions = evaluate(parse_valid(input)).unwrap();
    assert_eq!(actions, vec![act_amount(ActionType::Heal, 25)]);
}

#[test]
fn heal_with_string_amount_falls_back_to_ten_in_evaluation() {
    // evaluation reads the field as an integer only; a string is ignored
    let input = vec![node_fields("heal", vec![("AMOUNT", jstr("25"))])];
    let actions = evaluate(parse_valid(input)).unwrap();
    assert_eq!(actions, vec![act_amount(ActionType::Heal, 10)]);
}

#[test]
fn wait_without_seconds_defaults_to_one() {
    let actions = evaluate(parse_valid(vec![node("wait_seconds")])).unwrap();
    assert_eq!(
        actions,
        vec![GameAction {
            action_type: ActionType::Wait,
            parameters: ActionParams::Seconds { seconds: JsonNum::PosInt(1) },
        }]
    );
}

#[test]
fn wait_without_seconds_is_a_validation_error() {
    let parsed = parse_valid(vec![node("wait_seconds")]);
    let err = validate_blocks(&parsed.nodes).unwrap_err();
    assert_eq!(err.kind, ParseErrorKind::MissingSecondsField);
}

#[test]
fn cast_healing_emits_fixed_amount() {
    let actions = evaluate(parse_valid(vec![node("cast_healing")])).unwrap();
    assert_eq!(actions, vec![act_amount(ActionType::CastHealingMagic, 15)]);
}

#[test]
fn healing_incantation_scenario() {
    let gestures = vec![
        node("wave_left_hand"),
        node("wave_right_hand"),
        node("wave_left_hand"),
        node("wave_right_hand"),
        node("wave_left_hand"),
        node("wave_right_hand"),
    ];
    let input = vec![node_full("cast_healing_magic", vec![], gestures)];
    let actions = evaluate(parse_valid(input)).unwrap();
    assert_eq!(actions.len(), 9);
    assert_eq!(actions[0], act_spell(ActionType::StartIncantation, "HEALING"));
    assert_eq!(
        actions[7],
        act_pattern(
            ActionType::CompleteIncantation,
            "HEALING",
            "left,right,left,right,left,right"
        )
    );
    assert_eq!(actions[8], act_amount(ActionType::CastHealingMagic, 15));
}

#[test]
fn cast_magic_without_spell_field_is_silently_skipped() {
    let input = vec![node_full("cast_magic", vec![], vec![node("attack")]), node("attack")];
    let actions = evaluate(parse_valid(input)).unwrap();
    // the whole spell block emits nothing, children included; the sibling runs
    assert_eq!(actions, vec![act_empty(ActionType::Attack)]);
}

#[test]
fn unknown_kinds_are_transparent_containers() {
    let input = vec![node_full("group", vec![], vec![node("attack"), node("heal")])];
    let actions = evaluate(parse_valid(input)).unwrap();
    assert_eq!(actions, vec![act_empty(ActionType::Attack), act_amount(ActionType::Heal, 10)]);
}

fn thunder_sample() -> Vec<JsonValue> {
    vec![
        node_full(
            "cast_magic",
            vec![("SPELL", jstr("THUNDER"))],
            vec![
                node("wave_right_hand"),
                node("wave_left_hand"),
                node("wave_right_hand"),
                node("wave_left_hand"),
            ],
        ),
        node("attack"),
    ]
}

#[test]
fn evaluating_twice_yields_identical_action_lists() {
    let first = evaluate(parse_valid(thunder_sample())).unwrap();
    let second = evaluate(parse_valid(thunder_sample())).unwrap();
    assert_eq!(first, second);
    assert_eq!(
        first[5],
        act_pattern(ActionType::CompleteIncantation, "THUNDER", "right,left,right,left")
    );
}

#[test]
fn all_known_kinds_parse_and_evaluate() {
    let input = vec![
        node("attack"),
        node("heal"),
        node("cast_healing"),
        node("wait_seconds"),
        node("wave_left_hand"),
        node("wave_right_hand"),
        node_full("cast_magic", vec![("SPELL", jstr("FIRE"))], vec![]),
        node_full("cast_healing_magic", vec![], vec![]),
        node("something_else"),
    ];
    let parsed = parse_valid(input);
    let actions = evaluate(parsed).unwrap();
    assert!(!actions.is_empty());
}

#[test]
fn invalid_ast_result_is_refused_by_evaluation() {
    let r = AstResult {
        nodes: vec![],
        is_valid: false,
        error_message: Some("missing type field".to_string()),
    };
    let err = evaluate(r).unwrap_err();
    assert_eq!(err.message, "missing type field");
}

#[test]
fn invalid_ast_result_without_message_reports_unknown_error() {
    let r = AstResult { nodes: vec![], is_valid: false, error_message: None };
    let err = evaluate(r).unwrap_err();
    assert_eq!(err.message, "unknown error");
}

#[test]
fn node_missing_type_fails_the_parse_and_then_evaluation() {
    let input = vec![node("attack"), jobj(vec![("fields", jobj(vec![]))]), node("heal")];
    let r = parse_ast_nodes(input);
    assert!(!r.is_valid);
    let msg = r.error_message.clone().unwrap();
    assert!(!msg.is_empty());
    // the prefix parsed before the failure is kept; the rest never ran
    assert_eq!(r.nodes.len(), 1);
    assert_eq!(r.nodes[0].node_type, "attack");
    assert!(evaluate(r).is_err());
}

#[test]
fn non_object_node_is_rejected() {
    let r = parse_ast_nodes(vec![jstr("attack")]);
    assert!(!r.is_valid);
    assert_eq!(r.error_message.unwrap(), "node is not an object");
    assert!(r.nodes.is_empty());
}

#[test]
fn non_string_type_tag_is_rejected() {
    let r = parse_ast_nodes(vec![jobj(vec![("type", JsonValue::Num(JsonNum::PosInt(3)))])]);
    assert!(!r.is_valid);
    assert_eq!(r.error_message.unwrap(), "type field is not a string");
}

#[test]
fn non_array_children_are_rejected() {
    let r = parse_ast_nodes(vec![jobj(vec![("type", jstr("attack")), ("children", jstr("x"))])]);
    assert!(!r.is_valid);
    assert_eq!(r.error_message.unwrap(), "children is not an array");
}

#[test]
fn failing_child_fails_the_whole_parent() {
    let bad_child = jobj(vec![("fields", jobj(vec![]))]);
    let r = parse_ast_nodes(vec![node("attack"), node_full("group", vec![], vec![bad_child])]);
    assert!(!r.is_valid);
    assert_eq!(r.nodes.len(), 1);
    assert_eq!(r.error_message.unwrap(), "missing type field");
}

#[test]
fn missing_fields_entry_defaults_to_empty() {
    let parsed = parse_node(node("attack")).unwrap();
    assert_eq!(parsed.fields, JsonValue::Obj(vec![]));
    assert_eq!(parsed.node_type, "attack");
    assert!(parsed.children.is_none());
}

#[test]
fn children_parse_recursively_in_order() {
    let input = node_full("group", vec![], vec![node("attack"), node("heal")]);
    let parsed: AstNode = parse_node(input).unwrap();
    let children = parsed.children.unwrap();
    assert_eq!(children.len(), 2);
    assert_eq!(children[0].node_type, "attack");
    assert_eq!(children[1].node_type, "heal");
}

#[test]
fn validate_accepts_the_known_spells() {
    for spell in ["FIRE", "ICE", "THUNDER"] {
        let parsed = parse_valid(vec![node_fields("cast_magic", vec![("SPELL", jstr(spell))])]);
        assert!(validate_blocks(&parsed.nodes).is_ok());
    }
}

#[test]
fn validate_rejects_unknown_spells() {
    let parsed = parse_valid(vec![node_fields("cast_magic", vec![("SPELL", jstr("WATER"))])]);
    let err = validate_blocks(&parsed.nodes).unwrap_err();
    assert_eq!(err.kind, ParseErrorKind::UnknownSpellType);
    assert_eq!(err.message(), "unknown spell type");
}

#[test]
fn validate_rejects_missing_or_non_string_spell() {
    let parsed = parse_valid(vec![node_fields("cast_magic", vec![])]);
    assert_eq!(validate_blocks(&parsed.nodes).unwrap_err().kind, ParseErrorKind::MissingSpellField);
    let parsed = parse_valid(vec![node_fields(
        "cast_magic",
        vec![("SPELL", JsonValue::Num(JsonNum::PosInt(1)))],
    )]);
    assert_eq!(
        validate_blocks(&parsed.nodes).unwrap_err().kind,
        ParseErrorKind::SpellFieldNotString
    );
}

#[test]
fn validate_checks_amounts() {
    let ok = parse_valid(vec![node_fields("heal", vec![("AMOUNT", jstr("42"))])]);
    assert!(validate_blocks(&ok.nodes).is_ok());
    let bad = parse_valid(vec![node_fields("heal", vec![("AMOUNT", jstr("lots"))])]);
    assert_eq!(validate_blocks(&bad.nodes).unwrap_err().kind, ParseErrorKind::InvalidAmount);
    let bad = parse_valid(vec![node_fields("heal", vec![("AMOUNT", JsonValue::Bool(true))])]);
    assert_eq!(validate_blocks(&bad.nodes).unwrap_err().kind, ParseErrorKind::InvalidAmount);
    let none = parse_valid(vec![node_fields("heal", vec![])]);
    assert!(validate_blocks(&none.nodes).is_ok());
}

#[test]
fn validate_checks_seconds() {
    let ok = parse_valid(vec![node_fields(
        "wait_seconds",
        vec![("SECONDS", JsonValue::Num(JsonNum::FloatBits(2.5f64.to_bits())))],
    )]);
    assert!(validate_blocks(&ok.nodes).is_ok());
    let ok = parse_valid(vec![node_fields("wait_seconds", vec![("SECONDS", jstr("1.5"))])]);
    assert!(validate_blocks(&ok.nodes).is_ok());
    let bad = parse_valid(vec![node_fields("wait_seconds", vec![("SECONDS", jstr("soon"))])]);
    assert_eq!(validate_blocks(&bad.nodes).unwrap_err().kind, ParseErrorKind::InvalidSeconds);
    let bad = parse_valid(vec![node_fields("wait_seconds", vec![("SECONDS", JsonValue::Null)])]);
    assert_eq!(validate_blocks(&bad.nodes).unwrap_err().kind, ParseErrorKind::InvalidSeconds);
}

#[test]
fn validation_recurses_into_children_of_any_kind() {
    let bad_inner = node_fields("cast_magic", vec![("SPELL", jstr("WATER"))]);
    let parsed = parse_valid(vec![node_full("group", vec![], vec![bad_inner])]);
    assert_eq!(validate_blocks(&parsed.nodes).unwrap_err().kind, ParseErrorKind::UnknownSpellType);
}

#[test]
fn nested_incantation_resets_and_leaves_residue() {
    // an inner spell block clears the shared gesture accumulator for its own
    // judgement; its gestures then count against the still-open outer spell
    let inner = node_full(
        "cast_magic",
        vec![("SPELL", jstr("FIRE"))],
        vec![node("wave_right_hand"), node("wave_right_hand"), node("wave_left_hand")],
    );
    let input = vec![node_full(
        "cast_magic",
        vec![("SPELL", jstr("ICE"))],
        vec![node("wave_left_hand"), inner, node("wave_left_hand")],
    )];
    let actions = evaluate(parse_valid(input)).unwrap();
    let expected = vec![
        act_spell(ActionType::StartIncantation, "ICE"),
        act_empty(ActionType::WaveLeftHand),
        act_spell(ActionType::StartIncantation, "FIRE"),
        act_empty(ActionType::WaveRightHand),
        act_empty(ActionType::WaveRightHand),
        act_empty(ActionType::WaveLeftHand),
        act_pattern(ActionType::CompleteIncantation, "FIRE", "right,right,left"),
        act_spell(ActionType::CastMagic, "FIRE"),
        act_empty(ActionType::WaveLeftHand),
        act_pattern(ActionType::FailIncantation, "ICE", "right,right,left,left"),
    ];
    assert_eq!(actions, expected);
}

#[test]
fn duplicate_object_keys_resolve_to_the_first() {
    let v = jobj(vec![("type", jstr("attack")), ("type", jstr("heal"))]);
    let parsed = parse_node(v).unwrap();
    assert_eq!(parsed.node_type, "attack");
}

#[test]
fn wait_with_numeric_seconds_passes_the_number_through() {
    let bits = 2.5f64.to_bits();
    let input = vec![node_fields(
        "wait_seconds",
        vec![("SECONDS", JsonValue::Num(JsonNum::FloatBits(bits)))],
    )];
    let actions = evaluate(parse_valid(input)).unwrap();
    assert_eq!(
        actions,
        vec![GameAction {
            action_type: ActionType::Wait,
            parameters: ActionParams::Seconds { seconds: JsonNum::FloatBits(bits) },
        }]
    );
}
