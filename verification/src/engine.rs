//! The remap engine: matching and dispatch.
//!
//! One raw hardware event at a time is matched against the rule table in
//! order. Disabled rules are skipped; the first enabled rule whose selector
//! equals the event's origin wins, and no later rule is considered. A matched
//! event is always suppressed, and the matched rule's output action decides
//! which synthesis steps the host must perform: a single synthetic press or
//! release mirrors the event's kind, a chord is planned in full at the press
//! and the paired release is swallowed with no synthesis, and a block-only
//! action plans nothing. An unmatched event passes through unchanged with no
//! synthesis.

use vstd::prelude::*;

use crate::config::{combo_keys, Config, InputEvent, KeyMapping, OutputEvent};
use crate::synth::{chord_steps, combination_steps, single_step, SynthStep};

verus! {

/// Whether a raw event is a press or a release.
#[derive(Clone, Copy, Debug, PartialEq, Eq, Structural)]
pub enum EventKind {
    Press,
    Release,
}

/// The physical origin of a raw event: a key code or a button code.
#[derive(Clone, Copy, Debug, PartialEq, Eq, Structural)]
pub enum Origin {
    Key(u32),
    Button(u32),
}

/// One raw hardware event, as the host runtime's hook delivers it.
#[derive(Clone, Copy, Debug, PartialEq, Eq, Structural)]
pub struct RawEvent {
    pub kind: EventKind,
    pub origin: Origin,
}

/// What the host must do with the physical event: forward it unchanged, or
/// swallow it.
#[derive(Clone, Copy, Debug, PartialEq, Eq, Structural)]
pub enum Outcome {
    PassThrough,
    Suppress,
}

/// The engine's answer for one raw event: the outcome for the physical event
/// itself, and the synthesis steps the host must perform in its place.
#[derive(Debug, PartialEq, Eq)]
pub struct Decision {
    pub outcome: Outcome,
    pub synthesis: Vec<SynthStep>,
}

/// The output action a rule's `to` side denotes. A populated combination
/// takes precedence over a populated single key; an empty combination is
/// treated as block-only rather than faulted; with nothing populated the rule
/// only blocks.
pub enum OutputAction {
    Block,
    Single(u32),
    Chord(Seq<u32>),
}

/// Whether a rule's selector names exactly this origin. A key selector can
/// only match a key origin and a button selector only a button origin; a
/// selector with neither side populated matches nothing.
pub open spec fn selector_matches(sel: InputEvent, origin: Origin) -> bool {
    match origin {
        Origin::Key(code) => sel.key == Some(code),
        Origin::Button(code) => sel.button == Some(code),
    }
}

/// Whether a rule takes part in matching this origin: it must be enabled and
/// its selector must equal the origin.
pub open spec fn enabled_match(rule: KeyMapping, origin: Origin) -> bool {
    rule.enable && selector_matches(rule.from, origin)
}

/// The index of the first enabled rule whose selector equals the origin, in
/// table order, or `None` where no enabled rule matches.
pub open spec fn first_match(table: Seq<KeyMapping>, origin: Origin) -> Option<int>
    decreases table.len(),
{
    if table.len() == 0 {
        None
    } else if enabled_match(table[0], origin) {
        Some(0 as int)
    } else {
        match first_match(table.drop_first(), origin) {
            None => None,
            Some(i) => Some(i + 1),
        }
    }
}

/// The rule that matches the origin, if any: the rule at the first matching
/// index.
pub open spec fn matched_rule(table: Seq<KeyMapping>, origin: Origin) -> Option<KeyMapping> {
    match first_match(table, origin) {
        Some(i) => Some(table[i]),
        None => None,
    }
}

/// The output action denoted by a rule's `to` side.
pub open spec fn action_of(out: OutputEvent) -> OutputAction {
    match out.combination {
        Some(combo) => if combo@.len() == 0 {
            OutputAction::Block
        } else {
            OutputAction::Chord(combo_keys(combo@))
        },
        None => match out.key {
            Some(code) => OutputAction::Single(code),
            None => OutputAction::Block,
        },
    }
}

/// The synthesis steps owed for a matched rule's action, by event kind. A
/// chord fires entirely at the press; its paired release owes nothing.
pub open spec fn synthesis_for(action: OutputAction, kind: EventKind) -> Seq<SynthStep> {
    match kind {
        EventKind::Press => match action {
            OutputAction::Block => Seq::empty(),
            OutputAction::Single(code) => seq![SynthStep::Event { code, press: true }],
            OutputAction::Chord(keys) => chord_steps(keys),
        },
        EventKind::Release => match action {
            OutputAction::Block => Seq::empty(),
            OutputAction::Single(code) => seq![SynthStep::Event { code, press: false }],
            OutputAction::Chord(_) => Seq::empty(),
        },
    }
}

/// The outcome owed for an event: suppress exactly when some enabled rule
/// matches its origin.
pub open spec fn decision_outcome(table: Seq<KeyMapping>, event: RawEvent) -> Outcome {
    if first_match(table, event.origin) is Some {
        Outcome::Suppress
    } else {
        Outcome::PassThrough
    }
}

/// The synthesis steps owed for an event: those of the matched rule's action,
/// or none where no enabled rule matches.
pub open spec fn decision_synthesis(table: Seq<KeyMapping>, event: RawEvent) -> Seq<SynthStep> {
    match first_match(table, event.origin) {
        Some(i) => synthesis_for(action_of(table[i].to), event.kind),
        None => Seq::empty(),
    }
}

/// The matched rule, where there is one, is the first enabled rule in table
/// order whose selector equals the origin: it matches itself, and no earlier
/// rule is an enabled match. Where there is none, no rule of the table is an
/// enabled match.
pub proof fn lemma_matched_rule_is_first(table: Seq<KeyMapping>, origin: Origin)
    ensures
        first_match(table, origin) matches Some(i) ==> 0 <= i < table.len() && enabled_match(
            table[i],
            origin,
        ) && (forall|j: int| 0 <= j < i ==> !enabled_match(table[j], origin)),
        first_match(table, origin) is None ==> forall|j: int|
            0 <= j < table.len() ==> !enabled_match(table[j], origin),
    decreases table.len(),
{
    if table.len() == 0 {
    } else if enabled_match(table[0], origin) {
    } else {
        let rest = table.drop_first();
        lemma_matched_rule_is_first(rest, origin);
        match first_match(rest, origin) {
            None => {
                assert(first_match(table, origin) is None);
                assert forall|j: int| 0 <= j < table.len() implies !enabled_match(
                    table[j],
                    origin,
                ) by {
                    if j > 0 {
                        assert(rest[j - 1] == table[j]);
                    }
                }
            },
            Some(k) => {
                assert(first_match(table, origin) == Some(k + 1));
                assert(rest[k] == table[k + 1]);
                assert forall|j: int| 0 <= j < k + 1 implies !enabled_match(
                    table[j],
                    origin,
                ) by {
                    if j > 0 {
                        assert(rest[j - 1] == table[j]);
                    }
                }
            },
        }
    }
}

/// Conversely: a rule that is an enabled match, with no enabled match before
/// it, is the matched rule.
pub proof fn lemma_first_match_found(table: Seq<KeyMapping>, origin: Origin, i: int)
    requires
        0 <= i < table.len(),
        enabled_match(table[i], origin),
        forall|j: int| 0 <= j < i ==> !enabled_match(table[j], origin),
    ensures
        first_match(table, origin) == Some(i),
    decreases table.len(),
{
    if i == 0 {
    } else {
        assert(!enabled_match(table[0], origin));
        assert(table.drop_first()[i - 1] == table[i]);
        assert(forall|j: int|
            0 <= j < i - 1 ==> table.drop_first()[j] == table[j + 1] && !enabled_match(
                table[j + 1],
                origin,
            ));
        lemma_first_match_found(table.drop_first(), origin, i - 1);
    }
}

/// Whether one rule matches one event, and with what synthesis: `None` where
/// the rule's selector does not equal the event's origin; otherwise the
/// synthesis steps its action owes for the event's kind. The rule's `enable`
/// flag is the caller's concern, not this function's.
pub fn process_mapping(mapping: &KeyMapping, event: RawEvent) -> (r: Option<Vec<SynthStep>>)
    ensures
        r is Some <==> selector_matches(mapping.from, event.origin),
        r matches Some(steps) ==> steps@ == synthesis_for(action_of(mapping.to), event.kind),
{
    let matched = match event.origin {
        Origin::Key(code) => mapping.from.matches_key(code),
        Origin::Button(code) => mapping.from.matches_button(code),
    };
    if !matched {
        return None;
    }
    match event.kind {
        EventKind::Press => match mapping.to.get_combination() {
            Some(combo) => {
                if combo.len() == 0 {
                    proof {
                        assert(Seq::<SynthStep>::empty() =~= synthesis_for(
                            action_of(mapping.to),
                            event.kind,
                        ));
                    }
                    Some(Vec::new())
                } else {
                    Some(combination_steps(&combo))
                }
            },
            None => match mapping.to.key {
                Some(code) => Some(single_step(code, true)),
                None => {
                    proof {
                        assert(Seq::<SynthStep>::empty() =~= synthesis_for(
                            action_of(mapping.to),
                            event.kind,
                        ));
                    }
                    Some(Vec::new())
                },
            },
        },
        EventKind::Release => match mapping.to.get_combination() {
            Some(_) => {
                proof {
                    assert(Seq::<SynthStep>::empty() =~= synthesis_for(
                        action_of(mapping.to),
                        event.kind,
                    ));
                }
                Some(Vec::new())
            },
            None => match mapping.to.key {
                Some(code) => Some(single_step(code, false)),
                None => {
                    proof {
                        assert(Seq::<SynthStep>::empty() =~= synthesis_for(
                            action_of(mapping.to),
                            event.kind,
                        ));
                    }
                    Some(Vec::new())
                },
            },
        },
    }
}

/// The remap engine: an immutable, ordered rule table. The table is fixed at
/// construction and never reordered or mutated; the engine keeps no state
/// across events.
pub struct RemapEngine {
    pub table: Vec<KeyMapping>,
}

impl RemapEngine {
    /// Builds an engine over the given rule table, kept in the given order.
    pub fn new(table: Vec<KeyMapping>) -> (engine: RemapEngine)
        ensures
            engine.table@ == table@,
    {
        RemapEngine { table }
    }

    /// Builds an engine over a parsed configuration's rule table.
    pub fn from_config(config: Config) -> (engine: RemapEngine)
        ensures
            engine.table@ == config.key_mappings@,
    {
        RemapEngine { table: config.key_mappings }
    }

    /// Decides one raw event: suppress it with the matched rule's synthesis
    /// steps, or pass it through unchanged with no synthesis where no enabled
    /// rule matches.
    pub fn decide(&self, event: RawEvent) -> (d: Decision)
        ensures
            d.outcome == decision_outcome(self.table@, event),
            d.synthesis@ == decision_synthesis(self.table@, event),
    {
        let mut i: usize = 0;
        while i < self.table.len()
            invariant
                i <= self.table@.len(),
                forall|j: int| 0 <= j < i ==> !enabled_match(self.table@[j], event.origin),
            decreases self.table@.len() - i,
        {
            let rule = &self.table[i];
            if rule.enable {
                if let Some(steps) = process_mapping(rule, event) {
                    proof {
                        lemma_first_match_found(self.table@, event.origin, i as int);
                    }
                    return Decision { outcome: Outcome::Suppress, synthesis: steps };
                }
            }
            i += 1;
        }
        proof {
            lemma_matched_rule_is_first(self.table@, event.origin);
        }
        Decision { outcome: Outcome::PassThrough, synthesis: Vec::new() }
    }
}

/// Decides a whole batch of raw events, one decision per event, in delivery
/// order. This is the engine's share of the host's service loop: the host
/// feeds the events its hook delivers and carries out each decision in turn.
pub fn run_service(engine: &RemapEngine, events: &Vec<RawEvent>) -> (decisions: Vec<Decision>)
    ensures
        decisions@.len() == events@.len(),
        forall|i: int|
            0 <= i < events@.len() ==> decisions@[i].outcome == decision_outcome(
                engine.table@,
                events@[i],
            ),
        forall|i: int|
            0 <= i < events@.len() ==> decisions@[i].synthesis@ == decision_synthesis(
                engine.table@,
                events@[i],
            ),
{
    let mut decisions: Vec<Decision> = Vec::new();
    let mut i: usize = 0;
    while i < events.len()
        invariant
            i <= events@.len(),
            decisions@.len() == i,
            forall|j: int|
                0 <= j < i ==> decisions@[j].outcome == decision_outcome(
                    engine.table@,
                    events@[j],
                ),
            forall|j: int|
                0 <= j < i ==> decisions@[j].synthesis@ == decision_synthesis(
                    engine.table@,
                    events@[j],
                ),
        decreases events@.len() - i,
    {
        let d = engine.decide(events[i]);
        decisions.push(d);
        i += 1;
    }
    decisions
}

} // verus!
