use qidi_core::model_command::{
    build_model_items, default_efforts, detect_effort_phase, group_member_items,
    group_phase_label, is_group_phase, picker_phase_title, resolve_effort, resolve_model,
    split_trailing_token, ModelAction, ModelCommand, ModelInfo, ModelState, ReasoningEffort,
};

fn state() -> ModelState {
    ModelState { available: Vec::new(), current: None, reasoning_effort: None }
}

fn plain_model(id: &str, name: &str) -> ModelInfo {
    ModelInfo {
        id: id.to_string(),
        name: name.to_string(),
        description: None,
        group: None,
        supports_effort: false,
        efforts: Vec::new(),
    }
}

fn model_with_reasoning(id: &str, name: &str) -> ModelInfo {
    ModelInfo { supports_effort: true, efforts: default_efforts(), ..plain_model(id, name) }
}

fn grouped_model(id: &str, name: &str, group: &str) -> ModelInfo {
    ModelInfo { group: Some(group.to_string()), ..plain_model(id, name) }
}

#[test]
fn split_trailing_token_splits_on_final_whitespace() {
    let split = |s: &str| split_trailing_token(s);
    assert_eq!(
        split("Reasoning X high"),
        Some(("Reasoning X".to_string(), "high".to_string()))
    );
    assert_eq!(
        split("reasoning-x  xhigh"),
        Some(("reasoning-x".to_string(), "xhigh".to_string()))
    );
    // No interior whitespace → nothing to split off.
    assert!(split("reasoning-x-pro").is_none());
    assert!(split("trailing ").is_none());
    assert!(split(" leading").is_none());
}

#[test]
fn empty_query_returns_one_row_per_logical_model() {
    let mut s = state();
    s.available.push(model_with_reasoning("reasoning-x", "Reasoning X"));
    s.available.push(plain_model("grok-4.5", "Grok 4.5"));
    let items = ModelCommand.suggest_args(&s, "").unwrap();
    assert_eq!(items.len(), 2, "model phase: one row per logical model");
    let reasoning = items.iter().find(|i| i.match_text == "Reasoning X").unwrap();
    assert_eq!(reasoning.insert_text, "Reasoning X ");
    let plain = items.iter().find(|i| i.match_text == "Grok 4.5").unwrap();
    assert_eq!(plain.insert_text, "Grok 4.5");
    assert!(ModelCommand.suggest_args(&state(), "").is_none());
}

#[test]
fn trailing_space_after_reasoning_model_enters_effort_phase() {
    let mut s = state();
    s.available.push(model_with_reasoning("reasoning-x", "Reasoning X"));
    let items = ModelCommand.suggest_args(&s, "Reasoning X ").unwrap();
    assert_eq!(items.len(), 4);
    assert_eq!(items[0].insert_text, "Reasoning X xhigh");
    assert_eq!(items[1].insert_text, "Reasoning X high");
    assert_eq!(items[2].insert_text, "Reasoning X medium");
    assert_eq!(items[3].insert_text, "Reasoning X low");
    assert_eq!(items[0].display, "xhigh");
    assert!(items[0].match_text.starts_with("a "));
    assert!(items[3].match_text.starts_with("d "));
}

#[test]
fn partial_effort_query_still_in_effort_phase() {
    let mut s = state();
    s.available.push(model_with_reasoning("reasoning-x", "Reasoning X"));
    let items = ModelCommand.suggest_args(&s, "Reasoning X h").unwrap();
    assert_eq!(items.len(), 4);
}

#[test]
fn partial_model_query_stays_in_model_phase() {
    let mut s = state();
    s.available.push(model_with_reasoning("reasoning-x", "Reasoning X"));
    let items = ModelCommand.suggest_args(&s, "Reason").unwrap();
    assert_eq!(items.len(), 1);
    assert_eq!(items[0].insert_text, "Reasoning X ");
}

#[test]
fn run_parses_model_plus_effort_when_supported() {
    let mut s = state();
    s.available.push(model_with_reasoning("reasoning-x", "Reasoning X"));
    match ModelCommand.run(&s, "Reasoning X xhigh") {
        ModelAction::Switch { model_id, effort } => {
            assert_eq!(model_id, "reasoning-x");
            assert_eq!(effort, ReasoningEffort::Xhigh);
        }
        other => panic!("expected a switch with effort, got {other:?}"),
    }
}

#[test]
fn run_rejects_unoffered_effort_with_effort_error_not_unknown_model() {
    let mut s = state();
    s.available.push(model_with_reasoning("reasoning-x", "Reasoning X"));
    match ModelCommand.run(&s, "Reasoning X none") {
        ModelAction::Error(msg) => {
            assert!(msg.contains("unknown effort level 'none'"), "got {msg}");
            assert!(msg.contains("use one of:"), "got {msg}");
            assert!(!msg.to_lowercase().contains("unknown model"), "got {msg}");
            let offered = msg.split_once("; ").map(|(_, r)| r).unwrap_or("");
            assert!(!offered.contains("none"), "got {msg}");
            assert!(offered.ends_with("xhigh, high, medium, low"), "got {msg}");
        }
        other => panic!("expected Error, got {other:?}"),
    }
}

#[test]
fn run_prefers_full_multi_word_model_name_over_prefix_plus_effort() {
    let mut s = state();
    s.available.push(model_with_reasoning("grok", "Grok"));
    s.available.push(model_with_reasoning("grok-4.5", "Grok 4.5"));
    match ModelCommand.run(&s, "Grok 4.5") {
        ModelAction::SetDefault { model_id } => assert_eq!(model_id, "grok-4.5"),
        other => panic!("expected Grok 4.5, got {other:?}"),
    }
}

#[test]
fn run_rejects_effort_for_non_reasoning_model() {
    let mut s = state();
    s.available.push(plain_model("grok-4.5", "Grok 4.5"));
    assert!(matches!(ModelCommand.run(&s, "Grok 4.5 high"), ModelAction::Error(_)));
}

#[test]
fn run_bare_model_name_dispatches_set_default_model() {
    let mut s = state();
    s.available.push(plain_model("grok-4.5", "Grok 4.5"));
    match ModelCommand.run(&s, "Grok 4.5") {
        ModelAction::SetDefault { model_id } => assert_eq!(model_id, "grok-4.5"),
        other => panic!("got {other:?}"),
    }
}

#[test]
fn run_set_default_model_resolves_case_insensitively() {
    let mut s = state();
    s.available.push(plain_model("grok-4.5", "Grok 4.5"));
    match ModelCommand.run(&s, "grok 4.5") {
        ModelAction::SetDefault { model_id } => assert_eq!(model_id, "grok-4.5"),
        other => panic!("got {other:?}"),
    }
}

#[test]
fn grouped_models_fold_into_one_row() {
    let mut s = state();
    s.available.push(plain_model("grok-4.5", "Grok 4.5"));
    s.available.push(grouped_model("wb-hy3", "wb-hy3", "workbuddy"));
    s.available.push(grouped_model("wb-glm-5.3", "wb-glm-5.3", "workbuddy"));
    let items = ModelCommand.suggest_args(&s, "").unwrap();
    assert_eq!(items.len(), 2);
    assert_eq!(items[0].display, "Grok 4.5");
    let group = &items[1];
    assert!(group.display.contains("workbuddy"), "got: {}", group.display);
    assert!(group.display.contains("2 models"), "got: {}", group.display);
    assert_eq!(group.insert_text, "workbuddy ");
    assert!(group.match_text.contains("wb-hy3"));
    assert!(group.match_text.contains("wb-glm-5.3"));
    assert_eq!(group.display, "workbuddy \u{25B8} 2 models");
    assert_eq!(group.match_text, "workbuddy group wb-hy3 wb-glm-5.3");
}

#[test]
fn group_query_expands_members() {
    let mut s = state();
    s.available.push(plain_model("grok-4.5", "Grok 4.5"));
    s.available.push(grouped_model("wb-hy3", "wb-hy3", "workbuddy"));
    s.available.push(grouped_model("wb-kimi-k2.7", "wb-kimi-k2.7", "workbuddy"));
    for q in ["workbuddy", "workbuddy ", "workbuddy glm", "WorkBuddy"] {
        let items = ModelCommand
            .suggest_args(&s, q)
            .unwrap_or_else(|| panic!("query {q:?} should expand the group"));
        assert_eq!(items.len(), 2, "query {q:?}");
        assert!(items.iter().all(|i| i.display.starts_with("wb-")));
        assert!(items[0].match_text.starts_with("a workbuddy "));
    }
}

#[test]
fn unrelated_fragment_keeps_group_collapsed() {
    let mut s = state();
    s.available.push(plain_model("grok-4.5", "Grok 4.5"));
    s.available.push(grouped_model("wb-kimi-k2.7", "wb-kimi-k2.7", "workbuddy"));
    let items = ModelCommand.suggest_args(&s, "kimi").unwrap();
    assert_eq!(items.len(), 2);
    assert_eq!(items[0].display, "Grok 4.5");
    assert!(items[1].display.contains("workbuddy"));
    assert!(items[1].match_text.contains("wb-kimi-k2.7"));
}

#[test]
fn group_row_marks_current_and_run_rejects_bare_label() {
    let mut s = state();
    s.available.push(plain_model("grok-4.5", "Grok 4.5"));
    s.available.push(grouped_model("wb-hy3", "wb-hy3", "workbuddy"));
    s.current = Some("wb-hy3".to_string());
    let items = ModelCommand.suggest_args(&s, "").unwrap();
    let group = items.last().unwrap();
    assert!(group.display.contains("(current)"), "got: {}", group.display);
    match ModelCommand.run(&s, "workbuddy") {
        ModelAction::Error(msg) => assert!(msg.contains("source group"), "got: {msg}"),
        other => panic!("expected Error, got {other:?}"),
    }
}

#[test]
fn groups_come_in_the_order_of_their_first_models() {
    let mut s = state();
    for (id, g) in [("1", "b"), ("2", "a"), ("3", " b "), ("4", "c"), ("5", "  ")] {
        s.available.push(grouped_model(id, id, g));
    }
    let rows: Vec<String> = build_model_items(&s).into_iter().map(|i| i.display).collect();
    assert_eq!(
        rows,
        vec!["5", "b \u{25B8} 2 models", "a \u{25B8} 1 model", "c \u{25B8} 1 model"]
    );
}

#[test]
fn longest_names_and_labels_win() {
    let mut s = state();
    s.available.push(model_with_reasoning("g", "Grok"));
    s.available.push(model_with_reasoning("g45", "Grok 4.5"));
    s.available.push(grouped_model("x", "x", "acme"));
    s.available.push(grouped_model("y", "y", "acme pro"));
    assert_eq!(detect_effort_phase(&s, "grok 4.5 hi"), Some(1));
    assert_eq!(detect_effort_phase(&s, "grok 4.6"), Some(0));
    assert_eq!(detect_effort_phase(&s, "grok"), None);
    assert_eq!(group_phase_label(&s, " ACME Pro y").as_deref(), Some("acme pro"));
    assert_eq!(group_phase_label(&s, "acme p").as_deref(), Some("acme"));
    assert!(!is_group_phase(&s, "acmepro"));
    assert_eq!(picker_phase_title(&s, "grok "), "Pick reasoning effort");
    assert_eq!(picker_phase_title(&s, "acme"), "Pick acme model");
    assert_eq!(picker_phase_title(&s, ""), "Pick model");
}

#[test]
fn current_rows_are_marked() {
    let mut s = state();
    s.available.push(model_with_reasoning("g", "Grok"));
    s.current = Some("g".to_string());
    s.reasoning_effort = Some(ReasoningEffort::High);
    assert_eq!(build_model_items(&s)[0].display, "Grok (current)");
    let items = ModelCommand.suggest_args(&s, "Grok ").unwrap();
    assert_eq!(items[1].display, "high (current)");
    assert_eq!(items[2].display, "medium");
}

#[test]
fn letters_keep_the_order_of_many_members() {
    let mut s = state();
    for i in 0..28 {
        s.available.push(grouped_model(&format!("m{i}"), &format!("m{i}"), "g"));
    }
    let items = group_member_items(&s, "G");
    assert_eq!(items.len(), 28);
    assert_eq!(items[0].match_text, "a G m0");
    assert_eq!(items[25].match_text, "z G m25");
    assert_eq!(items[27].match_text, "z G m27");
}

#[test]
fn commands_without_a_model_are_refused() {
    let s = state();
    match ModelCommand.run(&s, "  ") {
        ModelAction::Error(e) => assert_eq!(e, "Usage: /model <name> [effort]"),
        other => panic!("got {other:?}"),
    }
    match ModelCommand.run(&s, " nope ") {
        ModelAction::Error(e) => assert_eq!(e, "Unknown model: nope"),
        other => panic!("got {other:?}"),
    }
    assert_eq!(resolve_model(&s, "x"), None);
    assert_eq!(
        resolve_effort(&default_efforts(), "HIGH"),
        Ok(ReasoningEffort::High)
    );
    assert_eq!(ModelCommand.name(), "model");
    assert_eq!(ModelCommand.aliases(), vec!["m"]);
    assert!(ModelCommand.session_scoped() && ModelCommand.offered_when_session_less());
    assert!(ModelCommand.takes_args() && ModelCommand.args_required());
    assert_eq!(ModelCommand.arg_placeholder(), Some("<model> [effort]"));
}
