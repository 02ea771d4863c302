//! Which sections of the asset editor are expanded. A section that was never
//! collapsed or expanded by hand shows expanded.

use vstd::prelude::*;

use crate::name_map::NameMap;

verus! {

/// Whether the section called `name` shows expanded, given the states set by hand in `m`.
pub open spec fn expanded_in(m: Map<Seq<char>, bool>, name: Seq<char>) -> bool {
    if m.contains_key(name) {
        m[name]
    } else {
        true
    }
}

/// The expanded state of the editor's sections, by section name.
pub struct SectionStates {
    states: NameMap<bool>,
}

impl SectionStates {
    /// The states set by hand, by section name.
    pub closed spec fn states_map(&self) -> Map<Seq<char>, bool> {
        self.states.as_map()
    }

    /// No state set yet: every section shows expanded.
    pub fn new() -> (s: SectionStates)
        ensures
            s.states_map() == Map::<Seq<char>, bool>::empty(),
    {
        SectionStates { states: NameMap::new() }
    }

    /// Whether the section called `section_name` shows expanded; `true` when its
    /// state was never set.
    pub fn get_section_expanded_state(&self, section_name: &str) -> (b: bool)
        ensures
            b == expanded_in(self.states_map(), section_name@),
    {
        match self.states.get(section_name) {
            Some(expanded) => expanded,
            None => true,
        }
    }

    /// Records whether the section called `section_name` shows expanded.
    pub fn set_section_expanded_state(&mut self, section_name: &str, expanded: bool)
        ensures
            final(self).states_map() == old(self).states_map().insert(section_name@, expanded),
    {
        self.states.insert(section_name, expanded);
    }
}

/// Reading a section's state gives back the last state set for it; setting one
/// section leaves every other section as it was; and a section never set shows expanded.
pub proof fn lemma_section_state_read_after_write(
    m: Map<Seq<char>, bool>,
    name: Seq<char>,
    other: Seq<char>,
    expanded: bool,
)
    ensures
        expanded_in(m.insert(name, expanded), name) == expanded,
        other != name ==> expanded_in(m.insert(name, expanded), other) == expanded_in(m, other),
        expanded_in(Map::<Seq<char>, bool>::empty(), other),
{
}

} // verus!
