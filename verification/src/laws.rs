//! The engine's laws, each stated over whole rule tables and proved once and
//! for all: how precedence, the `enable` flag, pass-through and the two
//! output shapes behave for every table and every event.

use vstd::prelude::*;

use crate::config::{with_enable, KeyMapping, OutputEvent};
use crate::engine::{
    action_of, decision_outcome, decision_synthesis, enabled_match, first_match,
    lemma_first_match_found, lemma_matched_rule_is_first, matched_rule, selector_matches,
    synthesis_for, EventKind, Origin, OutputAction, Outcome, RawEvent,
};
use crate::synth::{chord_steps, SynthStep, SETTLE_DELAY_MS};

verus! {

/// A table whose head is no enabled match decides as the table without its
/// head does.
proof fn lemma_matched_rule_skip_head(table: Seq<KeyMapping>, origin: Origin)
    requires
        table.len() > 0,
        !enabled_match(table[0], origin),
    ensures
        matched_rule(table, origin) == matched_rule(table.drop_first(), origin),
{
    let rest = table.drop_first();
    lemma_matched_rule_is_first(rest, origin);
    match first_match(rest, origin) {
        None => {},
        Some(k) => {
            assert(first_match(table, origin) == Some(k + 1));
            assert(table[k + 1] == rest[k]);
        },
    }
}

/// Two tables whose rules match the origin at exactly the same positions
/// agree on the first matching position.
proof fn lemma_first_match_same_matches(t1: Seq<KeyMapping>, t2: Seq<KeyMapping>, origin: Origin)
    requires
        t1.len() == t2.len(),
        forall|j: int|
            0 <= j < t1.len() ==> enabled_match(t1[j], origin) == enabled_match(t2[j], origin),
    ensures
        first_match(t1, origin) == first_match(t2, origin),
    decreases t1.len(),
{
    if t1.len() == 0 {
    } else {
        assert(enabled_match(t1[0], origin) == enabled_match(t2[0], origin));
        assert(forall|j: int|
            0 <= j < t1.drop_first().len() ==> t1.drop_first()[j] == t1[j + 1]
                && t2.drop_first()[j] == t2[j + 1]);
        lemma_first_match_same_matches(t1.drop_first(), t2.drop_first(), origin);
    }
}

/// Precedence is deterministic: swapping two rules of which at most one is
/// an enabled match for the origin, with no enabled match strictly between
/// them, never changes which rule matches. In particular any two adjacent
/// rules that do not both match may trade places freely.
pub proof fn lemma_swap_independent_rules(table: Seq<KeyMapping>, a: int, b: int, origin: Origin)
    requires
        0 <= a < b < table.len(),
        !(enabled_match(table[a], origin) && enabled_match(table[b], origin)),
        forall|j: int| a < j < b ==> !enabled_match(table[j], origin),
    ensures
        matched_rule(table.update(a, table[b]).update(b, table[a]), origin) == matched_rule(
            table,
            origin,
        ),
{
    let swapped = table.update(a, table[b]).update(b, table[a]);
    lemma_matched_rule_is_first(table, origin);
    match first_match(table, origin) {
        None => {
            lemma_matched_rule_is_first(swapped, origin);
            match first_match(swapped, origin) {
                None => {},
                Some(k) => {
                    if k == a {
                        assert(swapped[k] == table[b]);
                    } else if k == b {
                        assert(swapped[k] == table[a]);
                    } else {
                        assert(swapped[k] == table[k]);
                    }
                    assert(false);
                },
            }
        },
        Some(j) => {
            let target: int = if j == a {
                b
            } else if j == b {
                a
            } else {
                j
            };
            assert(swapped[target] == table[j]);
            assert forall|l: int| 0 <= l < target implies !enabled_match(swapped[l], origin) by {
                if l == a {
                    assert(swapped[l] == table[b]);
                } else if l == b {
                    assert(swapped[l] == table[a]);
                } else {
                    assert(swapped[l] == table[l]);
                }
            }
            lemma_first_match_found(swapped, origin, target);
        },
    }
}

/// Disabling a rule is exactly removal from consideration: the table with
/// rule `i` disabled matches as the table with rule `i` removed does, for
/// every origin, so no other rule's outcome is affected.
pub proof fn lemma_disabled_rule_invisible(table: Seq<KeyMapping>, i: int, origin: Origin)
    requires
        0 <= i < table.len(),
    ensures
        matched_rule(table.update(i, with_enable(table[i], false)), origin) == matched_rule(
            table.remove(i),
            origin,
        ),
    decreases table.len(),
{
    let t2 = table.update(i, with_enable(table[i], false));
    let removed = table.remove(i);
    if i == 0 {
        assert(!enabled_match(t2[0], origin));
        lemma_matched_rule_skip_head(t2, origin);
        assert(t2.drop_first() =~= removed);
    } else {
        assert(t2[0] == table[0]);
        assert(removed[0] == table[0]);
        if enabled_match(table[0], origin) {
            assert(first_match(t2, origin) == Some(0 as int));
            assert(first_match(removed, origin) == Some(0 as int));
        } else {
            lemma_matched_rule_skip_head(t2, origin);
            lemma_matched_rule_skip_head(removed, origin);
            assert(t2.drop_first() =~= table.drop_first().update(
                i - 1,
                with_enable(table[i], false),
            ));
            assert(removed.drop_first() =~= table.drop_first().remove(i - 1));
            assert(table.drop_first()[i - 1] == table[i]);
            lemma_disabled_rule_invisible(table.drop_first(), i - 1, origin);
        }
    }
}

/// Pass-through is total: an event whose origin no enabled rule matches is
/// passed through, with no synthesis at all.
pub proof fn lemma_pass_through_totality(table: Seq<KeyMapping>, event: RawEvent)
    requires
        forall|j: int| 0 <= j < table.len() ==> !enabled_match(table[j], event.origin),
    ensures
        decision_outcome(table, event) == Outcome::PassThrough,
        decision_synthesis(table, event) == Seq::<SynthStep>::empty(),
{
    lemma_matched_rule_is_first(table, event.origin);
    match first_match(table, event.origin) {
        None => {},
        Some(j) => {
            assert(false);
        },
    }
}

/// Single-key round trip: where the matched rule maps the origin to the
/// single key `code`, the physical press is suppressed with exactly one
/// synthetic press of `code`, and the paired physical release is suppressed
/// with exactly one synthetic release of `code` - one synthetic event per
/// physical event, and no settle delay.
pub proof fn lemma_single_key_round_trip(table: Seq<KeyMapping>, origin: Origin, code: u32)
    requires
        matched_rule(table, origin) matches Some(rule) && action_of(rule.to)
            == OutputAction::Single(code),
    ensures
        decision_outcome(table, (RawEvent { kind: EventKind::Press, origin })) == Outcome::Suppress,
        decision_synthesis(table, (RawEvent { kind: EventKind::Press, origin })) == seq![
            (SynthStep::Event { code, press: true }),
        ],
        decision_outcome(table, (RawEvent { kind: EventKind::Release, origin }))
            == Outcome::Suppress,
        decision_synthesis(table, (RawEvent { kind: EventKind::Release, origin })) == seq![
            (SynthStep::Event { code, press: false }),
        ],
{
    lemma_matched_rule_is_first(table, origin);
}

/// Chord timing and order: where the matched rule maps the origin to a
/// combination, the physical press is suppressed and its plan is each key
/// pressed in listed order, then the settle delay, then each key released in
/// exactly the reverse order; the paired physical release is suppressed with
/// no synthesis at all.
pub proof fn lemma_combination_timing_and_order(
    table: Seq<KeyMapping>,
    origin: Origin,
    keys: Seq<u32>,
)
    requires
        matched_rule(table, origin) matches Some(rule) && action_of(rule.to)
            == OutputAction::Chord(keys),
    ensures
        decision_outcome(table, (RawEvent { kind: EventKind::Press, origin })) == Outcome::Suppress,
        ({
            let plan = decision_synthesis(table, (RawEvent { kind: EventKind::Press, origin }));
            &&& plan.len() == 2 * keys.len() + 1
            &&& forall|j: int|
                0 <= j < keys.len() ==> plan[j] == (SynthStep::Event { code: keys[j], press: true })
            &&& plan[keys.len() as int] == (SynthStep::Wait { millis: SETTLE_DELAY_MS })
            &&& forall|m: int|
                keys.len() + 1 <= m < plan.len() ==> plan[m] == (SynthStep::Event {
                    code: keys[2 * keys.len() - m],
                    press: false,
                })
        }),
        decision_outcome(table, (RawEvent { kind: EventKind::Release, origin }))
            == Outcome::Suppress,
        decision_synthesis(table, (RawEvent { kind: EventKind::Release, origin }))
            == Seq::<SynthStep>::empty(),
{
    lemma_matched_rule_is_first(table, origin);
    let plan = decision_synthesis(table, (RawEvent { kind: EventKind::Press, origin }));
    assert(plan == chord_steps(keys));
}

/// A combination of length one behaves as the single key does, except for
/// the settle delay: its whole plan is that key's press, the delay, then
/// that key's release.
pub proof fn lemma_degenerate_combination(code: u32)
    ensures
        chord_steps(seq![code]) == synthesis_for(OutputAction::Single(code), EventKind::Press)
            + seq![(SynthStep::Wait { millis: SETTLE_DELAY_MS })] + synthesis_for(
            OutputAction::Single(code),
            EventKind::Release,
        ),
{
    assert(chord_steps(seq![code]) =~= synthesis_for(OutputAction::Single(code), EventKind::Press)
        + seq![(SynthStep::Wait { millis: SETTLE_DELAY_MS })] + synthesis_for(
        OutputAction::Single(code),
        EventKind::Release,
    ));
}

/// An empty combination is block-only rather than a fault: the action plans
/// no synthesis for either event kind.
pub proof fn lemma_empty_combination_blocks(out: OutputEvent, kind: EventKind)
    requires
        out.combination matches Some(combo) && combo@.len() == 0,
    ensures
        action_of(out) is Block,
        synthesis_for(action_of(out), kind) == Seq::<SynthStep>::empty(),
{
}

/// Toggling the `enable` flag of a rule whose selector does not equal the
/// event's origin never changes the decision for that event.
pub proof fn lemma_irrelevant_toggle(table: Seq<KeyMapping>, i: int, enable: bool, event: RawEvent)
    requires
        0 <= i < table.len(),
        !selector_matches(table[i].from, event.origin),
    ensures
        decision_outcome(table.update(i, with_enable(table[i], enable)), event)
            == decision_outcome(table, event),
        decision_synthesis(table.update(i, with_enable(table[i], enable)), event)
            == decision_synthesis(table, event),
{
    let t2 = table.update(i, with_enable(table[i], enable));
    lemma_first_match_same_matches(table, t2, event.origin);
    lemma_matched_rule_is_first(table, event.origin);
    match first_match(table, event.origin) {
        None => {},
        Some(j) => {
            assert(j != i);
            assert(t2[j] == table[j]);
        },
    }
}

} // verus!
