//! Device capabilities and sets of them.

use vstd::prelude::*;

verus! {

/// What a device, or a seat, can do.
#[derive(Clone, Copy, Debug, PartialEq, Eq, Structural)]
pub enum Capability {
    /// Relative pointer motion.
    Pointer,
    /// Absolute pointer motion.
    PointerAbsolute,
    /// Keyboard keys.
    Keyboard,
    /// Touch input.
    Touch,
    /// Scrolling.
    Scroll,
    /// Pointer buttons.
    Button,
    /// Text input.
    Text,
}

/// A set of capabilities.
#[derive(Clone, Copy, Debug, PartialEq, Eq, Structural)]
pub struct CapabilitySet {
    pub pointer: bool,
    pub pointer_absolute: bool,
    pub keyboard: bool,
    pub touch: bool,
    pub scroll: bool,
    pub button: bool,
    pub text: bool,
}

impl View for CapabilitySet {
    type V = Set<Capability>;

    open spec fn view(&self) -> Set<Capability> {
        Set::new(|c: Capability| self.has(c))
    }
}

impl CapabilitySet {
    /// Whether `c` is a member.
    pub open spec fn has(self, c: Capability) -> bool {
        match c {
            Capability::Pointer => self.pointer,
            Capability::PointerAbsolute => self.pointer_absolute,
            Capability::Keyboard => self.keyboard,
            Capability::Touch => self.touch,
            Capability::Scroll => self.scroll,
            Capability::Button => self.button,
            Capability::Text => self.text,
        }
    }

    /// The set with the members of `self` and `c`.
    pub open spec fn with(self, c: Capability) -> CapabilitySet {
        match c {
            Capability::Pointer => CapabilitySet { pointer: true, ..self },
            Capability::PointerAbsolute => CapabilitySet { pointer_absolute: true, ..self },
            Capability::Keyboard => CapabilitySet { keyboard: true, ..self },
            Capability::Touch => CapabilitySet { touch: true, ..self },
            Capability::Scroll => CapabilitySet { scroll: true, ..self },
            Capability::Button => CapabilitySet { button: true, ..self },
            Capability::Text => CapabilitySet { text: true, ..self },
        }
    }

    /// The set without members.
    pub open spec fn none() -> CapabilitySet {
        CapabilitySet {
            pointer: false,
            pointer_absolute: false,
            keyboard: false,
            touch: false,
            scroll: false,
            button: false,
            text: false,
        }
    }

    /// The set of the first `n` entries of `list`.
    pub open spec fn of_prefix(list: Seq<Capability>, n: int) -> CapabilitySet
        decreases n,
    {
        if n <= 0 {
            CapabilitySet::none()
        } else {
            CapabilitySet::of_prefix(list, n - 1).with(list[n - 1])
        }
    }

    /// The set of the entries of `list`.
    pub fn from_list(list: &[Capability]) -> (r: CapabilitySet)
        ensures
            r == CapabilitySet::of_prefix(list@, list@.len() as int),
            forall|c: Capability| r.has(c) == list@.contains(c),
    {
        let mut r = CapabilitySet::empty();
        let mut i: usize = 0;
        while i < list.len()
            invariant
                i <= list.len(),
                r == CapabilitySet::of_prefix(list@, i as int),
                forall|c: Capability|
                    r.has(c) == exists|k: int| 0 <= k < i && #[trigger] list@[k] == c,
            decreases list.len() - i,
        {
            let ghost before = r;
            r.insert(list[i]);
            assert forall|c: Capability|
                r.has(c) == exists|k: int| 0 <= k < i + 1 && #[trigger] list@[k] == c by {
                if before.has(c) {
                    let k = choose|k: int| 0 <= k < i && #[trigger] list@[k] == c;
                    assert(0 <= k < i + 1 && list@[k] == c);
                }
                if c == list@[i as int] {
                    assert(0 <= i < i + 1 && list@[i as int] == c);
                }
            }
            i += 1;
        }
        assert forall|c: Capability| r.has(c) == list@.contains(c) by {
            if list@.contains(c) {
                let k = choose|k: int| 0 <= k < list@.len() && list@[k] == c;
                assert(0 <= k < i && list@[k] == c);
            }
        }
        r
    }

    /// The set without members.
    pub fn empty() -> (r: CapabilitySet)
        ensures
            r == CapabilitySet::none(),
            r@ == Set::<Capability>::empty(),
            forall|c: Capability| !r.has(c),
    {
        let r = CapabilitySet {
            pointer: false,
            pointer_absolute: false,
            keyboard: false,
            touch: false,
            scroll: false,
            button: false,
            text: false,
        };
        assert(r@ =~= Set::<Capability>::empty());
        r
    }

    /// Whether `c` is a member.
    pub fn contains(&self, c: Capability) -> (r: bool)
        ensures
            r == self.has(c),
            r == self@.contains(c),
    {
        match c {
            Capability::Pointer => self.pointer,
            Capability::PointerAbsolute => self.pointer_absolute,
            Capability::Keyboard => self.keyboard,
            Capability::Touch => self.touch,
            Capability::Scroll => self.scroll,
            Capability::Button => self.button,
            Capability::Text => self.text,
        }
    }

    /// Adds `c`.
    pub fn insert(&mut self, c: Capability)
        ensures
            *final(self) == old(self).with(c),
            final(self)@ == old(self)@.insert(c),
    {
        match c {
            Capability::Pointer => { self.pointer = true; },
            Capability::PointerAbsolute => { self.pointer_absolute = true; },
            Capability::Keyboard => { self.keyboard = true; },
            Capability::Touch => { self.touch = true; },
            Capability::Scroll => { self.scroll = true; },
            Capability::Button => { self.button = true; },
            Capability::Text => { self.text = true; },
        }
        assert(self@ =~= old(self)@.insert(c));
    }
}

} // verus!
