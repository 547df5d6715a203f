//! The manifest of a profile: which mods it holds and what is selected in
//! each of them.

use std::collections::HashMap;
use vstd::prelude::*;
use vstd::std_specs::hash::spec_keys_iter;
use vstd::std_specs::iter::IteratorSpec;
use crate::guid::Guid;

verus! {

/// What a profile selects in one mod. The two lists are aligned with the
/// options of the mod, index by index.
#[derive(Debug, PartialEq, Eq)]
pub struct ModState {
    enabled: bool,
    options: Vec<bool>,
    sub_options: Vec<usize>,
}

/// Mathematical model of a [`ModState`].
pub struct ModStateView {
    pub enabled: bool,
    /// Whether each option is enabled.
    pub options: Seq<bool>,
    /// The index of the sub-option chosen under each option.
    pub sub_options: Seq<usize>,
}

impl View for ModState {
    type V = ModStateView;

    closed spec fn view(&self) -> ModStateView {
        ModStateView {
            enabled: self.enabled,
            options: self.options@,
            sub_options: self.sub_options@,
        }
    }
}

impl ModState {
    pub fn new(enabled: bool, options: Vec<bool>, sub_options: Vec<usize>) -> (r: Self)
        ensures
            r@ == (ModStateView { enabled, options: options@, sub_options: sub_options@ }),
    {
        Self { enabled, options, sub_options }
    }

    pub fn enabled(&self) -> (r: bool)
        ensures
            r == self@.enabled,
    {
        self.enabled
    }

    pub fn options_mut(&mut self) -> (r: &mut [bool])
        ensures
            r@ == old(self)@.options,
            final(self)@ == (ModStateView { options: final(r)@, ..old(self)@ }),
    {
        self.options.as_mut_slice()
    }

    pub fn options(&self) -> (r: &[bool])
        ensures
            r@ == self@.options,
    {
        self.options.as_slice()
    }

    pub fn sub_options_mut(&mut self) -> (r: &mut [usize])
        ensures
            r@ == old(self)@.sub_options,
            final(self)@ == (ModStateView { sub_options: final(r)@, ..old(self)@ }),
    {
        self.sub_options.as_mut_slice()
    }

    pub fn sub_options(&self) -> (r: &[usize])
        ensures
            r@ == self@.sub_options,
    {
        self.sub_options.as_slice()
    }
}

/// The models of the states that a map holds.
pub open spec fn state_views(mods: Map<Guid, ModState>) -> Map<Guid, ModStateView> {
    mods.map_values(|state: ModState| state@)
}

/// A named selection of mods: for each mod in it, by identifier, what is
/// selected in that mod.
#[derive(Debug, PartialEq, Eq)]
pub struct ProfileManifest {
    name: String,
    mods: HashMap<Guid, ModState>,
}

/// Mathematical model of a [`ProfileManifest`].
pub struct ProfileView {
    pub name: Seq<char>,
    pub mods: Map<Guid, ModStateView>,
}

impl View for ProfileManifest {
    type V = ProfileView;

    closed spec fn view(&self) -> ProfileView {
        ProfileView { name: self.name@, mods: state_views(self.mods@) }
    }
}

impl ProfileManifest {
    pub fn new(name: String, mods: HashMap<Guid, ModState>) -> (r: Self)
        ensures
            r@ == (ProfileView { name: name@, mods: state_views(mods@) }),
    {
        Self { name, mods }
    }

    pub fn name(&self) -> (r: &str)
        ensures
            r@ == self@.name,
    {
        self.name.as_str()
    }

    /// The identifiers of the mods in the profile, each once, in no
    /// particular order.
    pub fn mods(&self) -> (r: Vec<Guid>)
        ensures
            r@.to_set() == self@.mods.dom(),
            r@.no_duplicates(),
    {
        let ghost all = spec_keys_iter(&self.mods).remaining().unref();
        let mut out: Vec<Guid> = Vec::new();
        for guid in it: self.mods.keys()
            invariant
                it.seq().unref() == all,
                out@ == all.take(it.index()),
        {
            out.push(*guid);
        }
        assert(out@ == all);
        out
    }

    /// Adds a mod with its state, unless the profile holds that mod already:
    /// a state that is there is never overwritten. Returns whether the mod
    /// was added.
    pub fn add_mod(&mut self, guid: &Guid, state: ModState) -> (r: bool)
        ensures
            r == !old(self)@.mods.contains_key(*guid),
            final(self)@.name == old(self)@.name,
            final(self)@.mods == if r {
                old(self)@.mods.insert(*guid, state@)
            } else {
                old(self)@.mods
            },
    {
        if self.mods.contains_key(guid) {
            false
        } else {
            self.mods.insert(*guid, state);
            true
        }
    }

    /// Removes a mod from the profile; a mod that is not in it is no error.
    pub fn remove_mod(&mut self, guid: &Guid)
        ensures
            final(self)@.name == old(self)@.name,
            final(self)@.mods == old(self)@.mods.remove(*guid),
    {
        self.mods.remove(guid);
    }

    /// The state of a mod, if the profile holds that mod.
    pub fn get_state(&self, guid: &Guid) -> (r: Option<&ModState>)
        ensures
            match r {
                Some(state) => self@.mods.contains_key(*guid) && self@.mods[*guid] == state@,
                None => !self@.mods.contains_key(*guid),
            },
    {
        self.mods.get(guid)
    }
}

} // verus!
