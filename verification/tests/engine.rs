use keyremap::config::{InputEvent, KeyDef, KeyMapping, OutputEvent};
use keyremap::engine::{run_service, EventKind, Origin, Outcome, RawEvent, RemapEngine};
use keyremap::synth::{SynthStep, SETTLE_DELAY_MS};

fn rule(name: &str, enable: bool, from: InputEvent, to: OutputEvent) -> KeyMapping {
    KeyMapping {
        name: String::from(name),
        comment: String::new(),
        enable,
        from,
        to,
    }
}

fn from_key(code: u32) -> InputEvent {
    InputEvent { key: Some(code), button: None }
}

fn from_button(code: u32) -> InputEvent {
    InputEvent { button: Some(code), key: None }
}

fn to_single(code: u32) -> OutputEvent {
    OutputEvent { key: Some(code), combination: None }
}

fn to_block() -> OutputEvent {
    OutputEvent { key: None, combination: None }
}

fn to_combination(codes: &[u32]) -> OutputEvent {
    OutputEvent {
        key: None,
        combination: Some(codes.iter().map(|&key| KeyDef { key }).collect()),
    }
}

fn press(origin: Origin) -> RawEvent {
    RawEvent { kind: EventKind::Press, origin }
}

fn release(origin: Origin) -> RawEvent {
    RawEvent { kind: EventKind::Release, origin }
}

#[test]
fn first_enabled_match_wins() {
    let engine = RemapEngine::new(vec![
        rule("first", true, from_key(1), to_single(10)),
        rule("second", true, from_key(1), to_single(20)),
    ]);
    let d = engine.decide(press(Origin::Key(1)));
    assert_eq!(d.outcome, Outcome::Suppress);
    assert_eq!(d.synthesis, vec![SynthStep::Event { code: 10, press: true }]);
}

#[test]
fn disabled_rule_is_skipped() {
    let engine = RemapEngine::new(vec![
        rule("off", false, from_key(1), to_single(10)),
        rule("on", true, from_key(1), to_single(20)),
    ]);
    let d = engine.decide(press(Origin::Key(1)));
    assert_eq!(d.outcome, Outcome::Suppress);
    assert_eq!(d.synthesis, vec![SynthStep::Event { code: 20, press: true }]);
}

#[test]
fn all_rules_disabled_passes_through() {
    let engine = RemapEngine::new(vec![rule("off", false, from_key(1), to_single(10))]);
    let d = engine.decide(press(Origin::Key(1)));
    assert_eq!(d.outcome, Outcome::PassThrough);
    assert!(d.synthesis.is_empty());
}

#[test]
fn unmatched_event_passes_through() {
    let engine = RemapEngine::new(vec![rule("a", true, from_key(1), to_single(10))]);
    let d = engine.decide(press(Origin::Key(2)));
    assert_eq!(d.outcome, Outcome::PassThrough);
    assert!(d.synthesis.is_empty());
}

#[test]
fn empty_table_passes_through() {
    let engine = RemapEngine::new(Vec::new());
    let d = engine.decide(release(Origin::Button(0)));
    assert_eq!(d.outcome, Outcome::PassThrough);
    assert!(d.synthesis.is_empty());
}

#[test]
fn cross_kind_never_matches() {
    let engine = RemapEngine::new(vec![
        rule("key", true, from_key(1), to_single(10)),
        rule("button", true, from_button(2), to_single(20)),
    ]);
    let d = engine.decide(press(Origin::Button(1)));
    assert_eq!(d.outcome, Outcome::PassThrough);
    assert!(d.synthesis.is_empty());
    let d = engine.decide(press(Origin::Key(2)));
    assert_eq!(d.outcome, Outcome::PassThrough);
    assert!(d.synthesis.is_empty());
}

#[test]
fn inert_selector_matches_nothing() {
    let inert = InputEvent { key: None, button: None };
    let engine = RemapEngine::new(vec![rule("inert", true, inert, to_single(10))]);
    let d = engine.decide(press(Origin::Key(0)));
    assert_eq!(d.outcome, Outcome::PassThrough);
    assert!(d.synthesis.is_empty());
}

#[test]
fn single_key_round_trip() {
    let engine = RemapEngine::new(vec![rule("map", true, from_key(30), to_single(48))]);
    let d = engine.decide(press(Origin::Key(30)));
    assert_eq!(d.outcome, Outcome::Suppress);
    assert_eq!(d.synthesis, vec![SynthStep::Event { code: 48, press: true }]);
    let d = engine.decide(release(Origin::Key(30)));
    assert_eq!(d.outcome, Outcome::Suppress);
    assert_eq!(d.synthesis, vec![SynthStep::Event { code: 48, press: false }]);
}

#[test]
fn block_only_rule_suppresses_silently() {
    let engine = RemapEngine::new(vec![rule("block", true, from_key(7), to_block())]);
    let d = engine.decide(press(Origin::Key(7)));
    assert_eq!(d.outcome, Outcome::Suppress);
    assert!(d.synthesis.is_empty());
    let d = engine.decide(release(Origin::Key(7)));
    assert_eq!(d.outcome, Outcome::Suppress);
    assert!(d.synthesis.is_empty());
}

#[test]
fn combination_fires_fully_on_press() {
    let ctrl = 100;
    let c = 101;
    let engine = RemapEngine::new(vec![rule(
        "chord",
        true,
        from_button(0),
        to_combination(&[ctrl, c]),
    )]);
    let d = engine.decide(press(Origin::Button(0)));
    assert_eq!(d.outcome, Outcome::Suppress);
    assert_eq!(
        d.synthesis,
        vec![
            SynthStep::Event { code: ctrl, press: true },
            SynthStep::Event { code: c, press: true },
            SynthStep::Wait { millis: SETTLE_DELAY_MS },
            SynthStep::Event { code: c, press: false },
            SynthStep::Event { code: ctrl, press: false },
        ]
    );
}

#[test]
fn combination_release_is_swallowed() {
    let engine = RemapEngine::new(vec![rule(
        "chord",
        true,
        from_button(0),
        to_combination(&[100, 101]),
    )]);
    let d = engine.decide(release(Origin::Button(0)));
    assert_eq!(d.outcome, Outcome::Suppress);
    assert!(d.synthesis.is_empty());
}

#[test]
fn degenerate_combination_of_one_key() {
    let engine = RemapEngine::new(vec![rule("one", true, from_key(5), to_combination(&[9]))]);
    let d = engine.decide(press(Origin::Key(5)));
    assert_eq!(d.outcome, Outcome::Suppress);
    assert_eq!(
        d.synthesis,
        vec![
            SynthStep::Event { code: 9, press: true },
            SynthStep::Wait { millis: SETTLE_DELAY_MS },
            SynthStep::Event { code: 9, press: false },
        ]
    );
}

#[test]
fn empty_combination_is_block_only() {
    let engine = RemapEngine::new(vec![rule("empty", true, from_key(5), to_combination(&[]))]);
    let d = engine.decide(press(Origin::Key(5)));
    assert_eq!(d.outcome, Outcome::Suppress);
    assert!(d.synthesis.is_empty());
    let d = engine.decide(release(Origin::Key(5)));
    assert_eq!(d.outcome, Outcome::Suppress);
    assert!(d.synthesis.is_empty());
}

#[test]
fn combination_takes_precedence_over_key() {
    let both = OutputEvent {
        key: Some(77),
        combination: Some(vec![KeyDef { key: 1 }, KeyDef { key: 2 }]),
    };
    let engine = RemapEngine::new(vec![rule("both", true, from_key(3), both)]);
    let d = engine.decide(press(Origin::Key(3)));
    assert_eq!(d.synthesis.len(), 5);
    assert_eq!(d.synthesis[0], SynthStep::Event { code: 1, press: true });
}

#[test]
fn toggling_irrelevant_rule_changes_nothing() {
    let relevant = rule("hit", true, from_key(1), to_single(10));
    let event = press(Origin::Key(1));
    let enabled = RemapEngine::new(vec![
        rule("other", true, from_key(2), to_single(20)),
        relevant.clone(),
    ]);
    let disabled = RemapEngine::new(vec![
        rule("other", false, from_key(2), to_single(20)),
        relevant,
    ]);
    assert_eq!(enabled.decide(event), disabled.decide(event));
}

#[test]
fn swapping_non_overlapping_rules_keeps_match() {
    let a = rule("a", true, from_key(1), to_single(10));
    let b = rule("b", true, from_key(2), to_single(20));
    let forward = RemapEngine::new(vec![a.clone(), b.clone()]);
    let backward = RemapEngine::new(vec![b, a]);
    for origin in [Origin::Key(1), Origin::Key(2), Origin::Key(3)] {
        assert_eq!(forward.decide(press(origin)), backward.decide(press(origin)));
        assert_eq!(forward.decide(release(origin)), backward.decide(release(origin)));
    }
}

#[test]
fn run_service_decides_each_event_in_order() {
    let engine = RemapEngine::new(vec![rule("map", true, from_key(1), to_single(9))]);
    let events = vec![
        press(Origin::Key(1)),
        press(Origin::Key(2)),
        release(Origin::Key(1)),
    ];
    let decisions = run_service(&engine, &events);
    assert_eq!(decisions.len(), 3);
    assert_eq!(decisions[0].outcome, Outcome::Suppress);
    assert_eq!(decisions[0].synthesis, vec![SynthStep::Event { code: 9, press: true }]);
    assert_eq!(decisions[1].outcome, Outcome::PassThrough);
    assert!(decisions[1].synthesis.is_empty());
    assert_eq!(decisions[2].outcome, Outcome::Suppress);
    assert_eq!(decisions[2].synthesis, vec![SynthStep::Event { code: 9, press: false }]);
}
