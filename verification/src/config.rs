//! The rule table's data model.
//!
//! A configuration document is an ordered list of remap rules. Order encodes
//! matching priority and is fixed once the table is built. Key and mouse
//! button codes are plain integers here; the host runtime translates between
//! these codes and the OS-level identifiers it works with.

use vstd::prelude::*;

verus! {

/// A parsed configuration: an ordered rule table plus diagnostic metadata.
#[derive(Clone, Debug)]
pub struct Config {
    pub version: String,
    pub name: String,
    pub comment: String,
    pub key_mappings: Vec<KeyMapping>,
}

/// The default of a rule's `enable` flag: a rule is enabled unless the
/// configuration says otherwise.
pub fn default_true() -> (b: bool)
    ensures
        b,
{
    true
}

/// One remap rule. `name` and `comment` are diagnostic only; `enable` decides
/// whether the rule takes part in matching; `from` selects the physical input
/// and `to` names the output action.
#[derive(Clone, Debug)]
pub struct KeyMapping {
    pub name: String,
    pub comment: String,
    pub enable: bool,
    pub from: InputEvent,
    pub to: OutputEvent,
}

/// A rule's input selector. At most one side is populated: a key code or a
/// button code. A selector with neither populated is inert - valid, but it
/// never matches any event.
#[derive(Clone, Copy, Debug, PartialEq, Eq, Structural)]
pub struct InputEvent {
    pub key: Option<u32>,
    pub button: Option<u32>,
}

/// A rule's output action. A populated `combination` takes precedence over a
/// populated `key`; with neither populated the rule only blocks its input.
#[derive(Clone, Debug)]
pub struct OutputEvent {
    pub key: Option<u32>,
    pub combination: Option<Vec<KeyDef>>,
}

/// One key of a combination.
#[derive(Clone, Copy, Debug, PartialEq, Eq, Structural)]
pub struct KeyDef {
    pub key: u32,
}

/// The same rule with its `enable` flag set to the given value, all other
/// fields unchanged.
pub open spec fn with_enable(rule: KeyMapping, enable: bool) -> KeyMapping {
    KeyMapping {
        name: rule.name,
        comment: rule.comment,
        enable,
        from: rule.from,
        to: rule.to,
    }
}

/// The key codes of a combination, in listed (press) order.
pub open spec fn combo_keys(combo: Seq<KeyDef>) -> Seq<u32> {
    combo.map_values(|kd: KeyDef| kd.key)
}

impl InputEvent {
    /// Whether this selector names exactly the given key code.
    pub fn matches_key(&self, key: u32) -> (b: bool)
        ensures
            b == (self.key == Some(key)),
    {
        match self.key {
            Some(k) => k == key,
            None => false,
        }
    }

    /// Whether this selector names exactly the given button code.
    pub fn matches_button(&self, button: u32) -> (b: bool)
        ensures
            b == (self.button == Some(button)),
    {
        match self.button {
            Some(c) => c == button,
            None => false,
        }
    }
}

impl OutputEvent {
    /// The combination's key codes in listed order, or `None` where this
    /// action has no combination.
    pub fn get_combination(&self) -> (r: Option<Vec<u32>>)
        ensures
            r is Some <==> self.combination is Some,
            r matches Some(keys) ==> self.combination matches Some(combo) && keys@
                == combo_keys(combo@),
    {
        match &self.combination {
            Some(combo) => {
                let mut keys: Vec<u32> = Vec::new();
                let mut i: usize = 0;
                while i < combo.len()
                    invariant
                        i <= combo@.len(),
                        keys@ == combo_keys(combo@.subrange(0, i as int)),
                    decreases combo@.len() - i,
                {
                    keys.push(combo[i].key);
                    proof {
                        assert(combo@.subrange(0, i + 1).drop_last() =~= combo@.subrange(
                            0,
                            i as int,
                        ));
                        assert(keys@ =~= combo_keys(combo@.subrange(0, i + 1)));
                    }
                    i += 1;
                }
                proof {
                    assert(combo@.subrange(0, combo@.len() as int) =~= combo@);
                }
                Some(keys)
            },
            None => None,
        }
    }
}

} // verus!
