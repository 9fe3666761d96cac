//! The device-side effect engine: an ordered set of effects, one selected,
//! the selection persisted under a fixed key.

use vstd::prelude::*;
use crate::color::RGBLedColor;
use crate::effects::{params_match, persisted, Direct, Effect, HueRotate};
use crate::params::ParameterTypes;
use crate::store::SettingsStore;

verus! {

/// The engine dispatching requests to its effects.
pub struct RgbControl {
    effects: Vec<Effect>,
    selected_effect_index: usize,
}

impl RgbControl {
    /// The effects, in their fixed construction order.
    pub closed spec fn effects(self) -> Seq<Effect> {
        self.effects@
    }

    /// Index of the selected effect.
    pub closed spec fn selected(self) -> int {
        self.selected_effect_index as int
    }

    /// At least one effect, a valid selection, every phase in bounds.
    pub open spec fn wf(self) -> bool {
        &&& 0 < self.effects().len()
        &&& 0 <= self.selected() < self.effects().len()
        &&& forall|i: int| 0 <= i < self.effects().len() ==> (#[trigger] self.effects()[i]).wf()
    }

    /// The selected effect.
    pub open spec fn current(self) -> Effect {
        self.effects()[self.selected()]
    }

    /// Starts with the static color effect and the hue sweep, the first
    /// selected.
    pub fn new() -> (r: Self)
        ensures
            r.wf(),
            r.effects() =~= seq![
                Effect::Direct(Direct::initial()),
                Effect::HueRotate(HueRotate::initial()),
            ],
            r.selected() == 0,
    {
        let mut effects: Vec<Effect> = Vec::new();
        effects.push(Effect::Direct(Direct::new()));
        effects.push(Effect::HueRotate(HueRotate::new()));
        RgbControl { effects, selected_effect_index: 0 }
    }

    /// Restores the persisted selection; an absent or out-of-range stored
    /// index falls back to the first effect.
    pub fn init(&mut self, store: &SettingsStore)
        requires
            old(self).wf(),
        ensures
            final(self).wf(),
            final(self).effects() == old(self).effects(),
            final(self).selected() == match store.word_at("settings"@, "effect_index"@) {
                Some(i) => if i < old(self).effects().len() {
                    i as int
                } else {
                    0
                },
                None => 0,
            },
    {
        self.selected_effect_index = match store.get_u32("settings", "effect_index") {
            Some(i) => if (i as usize) < self.effects.len() {
                i as usize
            } else {
                0
            },
            None => 0,
        };
    }

    /// Persists the selection under its fixed key.
    pub fn save_selection(&self, store: &mut SettingsStore)
        requires
            self.selected() <= u32::MAX,
        ensures
            final(store).word_at("settings"@, "effect_index"@) == Some(
                self.selected() as u32,
            ),
            forall|n: Seq<char>, k: Seq<char>|
                !(n == "settings"@ && k == "effect_index"@) ==> final(store).word_at(n, k) == old(
                    store,
                ).word_at(n, k),
            final(store).texts() == old(store).texts(),
    {
        store.set_u32("settings", "effect_index", self.selected_effect_index as u32);
    }

    /// Accepts an in-range index and moves the selection there; an
    /// out-of-range index is rejected and changes nothing.
    pub fn set_effect(&mut self, index: usize) -> (r: bool)
        requires
            old(self).wf(),
        ensures
            r == (index < old(self).effects().len()),
            r ==> final(self).selected() == index,
            !r ==> final(self).selected() == old(self).selected(),
            final(self).effects() == old(self).effects(),
            final(self).wf(),
    {
        if index > self.effects.len() - 1 {
            return false;
        }
        self.selected_effect_index = index;
        true
    }

    /// Name of the selected effect.
    pub fn get_effect_name(&self) -> (r: &str)
        requires
            self.wf(),
        ensures
            r@ == self.current().spec_name(),
    {
        self.effects[self.selected_effect_index].name()
    }

    /// Parameter listing of the selected effect.
    pub fn get_effect_options(&self) -> (r: Vec<(String, ParameterTypes)>)
        requires
            self.wf(),
        ensures
            params_match(r@, self.current().spec_parameters()),
    {
        self.effects[self.selected_effect_index].get_parameters()
    }

    /// Hands the value to the selected effect, then persists that effect's
    /// entire parameter set whatever the outcome.
    pub fn set_effect_parameter(&mut self, name: &str, value: ParameterTypes, store: &mut SettingsStore) -> (r:
        bool)
        requires
            old(self).wf(),
        ensures
            r == old(self).current().accepts(name@),
            final(self).effects() == old(self).effects().update(
                old(self).selected(),
                old(self).current().with_parameter(name@, value),
            ),
            final(self).selected() == old(self).selected(),
            final(self).wf(),
            persisted(final(self).current(), *old(store), *final(store)),
    {
        let e = &mut self.effects[self.selected_effect_index];
        let r = e.set_parameter(name, value);
        let accepted_effect = &self.effects[self.selected_effect_index];
        accepted_effect.save(store);
        r
    }

    /// The effect names, in order.
    pub fn get_effects_name(&self) -> (r: Vec<String>)
        requires
            self.wf(),
        ensures
            r@.len() == self.effects().len(),
            forall|i: int|
                0 <= i < r@.len() ==> (#[trigger] r@[i])@ == self.effects()[i].spec_name(),
    {
        let mut r: Vec<String> = Vec::new();
        let mut i: usize = 0;
        while i < self.effects.len()
            invariant
                self.wf(),
                i <= self.effects().len(),
                r@.len() == i,
                forall|j: int|
                    0 <= j < i ==> (#[trigger] r@[j])@ == self.effects()[j].spec_name(),
            decreases self.effects().len() - i,
        {
            r.push(self.effects[i].name().to_owned());
            i = i + 1;
        }
        r
    }

    /// Advances the selected effect by `delta_ms` milliseconds and renders
    /// its color.
    pub fn update(&mut self, delta_ms: u32) -> (c: RGBLedColor)
        requires
            old(self).wf(),
        ensures
            final(self).effects() == old(self).effects().update(
                old(self).selected(),
                old(self).current().spec_updated(delta_ms as int),
            ),
            final(self).selected() == old(self).selected(),
            final(self).wf(),
            c == old(self).current().spec_updated(delta_ms as int).spec_render(),
    {
        let e = &mut self.effects[self.selected_effect_index];
        e.update(delta_ms);
        self.effects[self.selected_effect_index].render()
    }
}

} // verus!
