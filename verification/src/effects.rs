//! The device-side effects: each one declares a parameter schema, advances
//! an animation phase per tick, and renders a color. The set of variants
//! is closed, dispatched through the `Effect` enum.
//!
//! Time is in milliseconds; scalars are fixed-point thousandths, hue is in
//! thousandths of a degree.

use vstd::prelude::*;
use crate::color::{spec_from_hsv, RGBLedColor};
use crate::params::{decoded_like, scalar_of, store_word_of, ParameterTypes};
use crate::store::SettingsStore;
use crate::strutil::str_eq;

verus! {

broadcast use vstd::string::group_string_axioms;

/// A scalar clamped to at most `1.0` (a thousand thousandths), the domain
/// of the HSV conversion.
pub open spec fn clamp_milli(x: u32) -> int {
    if x > 1000 {
        1000
    } else {
        x as int
    }
}

/// The hue one tick later: `speed` thousandths of a degree per second for
/// `delta_ms` milliseconds, wrapped at a full turn.
pub open spec fn hue_after(hue: int, speed: int, delta_ms: int) -> int {
    (hue + speed * delta_ms / 1000) % 360_000
}

/// The ramp level one tick later: reset once the top was reached, else
/// advanced by `speed` thousandths per second and held at the top.
pub open spec fn decay_after(level: int, speed: int, delta_ms: int) -> int {
    if level >= 1000 {
        0
    } else if level + speed * delta_ms / 1000 > 1000 {
        1000
    } else {
        level + speed * delta_ms / 1000
    }
}

/// Whether an executable parameter listing matches its specification-level
/// counterpart entry by entry.
pub open spec fn params_match(
    v: Seq<(String, ParameterTypes)>,
    s: Seq<(Seq<char>, ParameterTypes)>,
) -> bool {
    &&& v.len() == s.len()
    &&& forall|i: int| 0 <= i < v.len() ==> (#[trigger] v[i]).0@ == s[i].0 && v[i].1 == s[i].1
}

/// A static color: one `color` parameter, no animation.
#[derive(Clone, Copy, Debug, PartialEq, Eq, Structural)]
pub struct Direct {
    pub color: ParameterTypes,
}

impl Direct {
    /// The state an engine starts this effect in: black.
    pub open spec fn initial() -> Direct {
        Direct { color: ParameterTypes::Color(RGBLedColor { red: 0, green: 0, blue: 0 }) }
    }

    /// The declared schema with its current values.
    pub open spec fn spec_parameters(self) -> Seq<(Seq<char>, ParameterTypes)> {
        seq![("color"@, self.color)]
    }

    /// The stored color, black where the parameter was overwritten with a
    /// scalar.
    pub open spec fn spec_render(self) -> RGBLedColor {
        match self.color {
            ParameterTypes::Color(c) => c,
            ParameterTypes::Float(_) => RGBLedColor { red: 0, green: 0, blue: 0 },
        }
    }

    /// The effect after a parameter set: only the declared name takes.
    pub open spec fn with_parameter(self, name: Seq<char>, value: ParameterTypes) -> Direct {
        if name == "color"@ {
            Direct { color: value }
        } else {
            self
        }
    }

    pub fn new() -> (r: Self)
        ensures
            r == Direct::initial(),
    {
        Self { color: ParameterTypes::Color(RGBLedColor::new(0, 0, 0)) }
    }

    /// The color this effect renders.
    pub fn get_color(&self) -> (c: RGBLedColor)
        ensures
            c == self.spec_render(),
    {
        match self.color {
            ParameterTypes::Color(c) => c,
            ParameterTypes::Float(_) => RGBLedColor::new(0, 0, 0),
        }
    }

    pub fn get_parameters(&self) -> (r: Vec<(String, ParameterTypes)>)
        ensures
            params_match(r@, self.spec_parameters()),
    {
        let mut r: Vec<(String, ParameterTypes)> = Vec::new();
        r.push(("color".to_owned(), self.color));
        r
    }

    /// Accepts only the declared name; `false` leaves the state untouched.
    pub fn set_parameter(&mut self, name: &str, value: ParameterTypes) -> (r: bool)
        ensures
            r == (name@ == "color"@),
            *final(self) == old(self).with_parameter(name@, value),
    {
        if str_eq(name, "color") {
            self.color = value;
            true
        } else {
            false
        }
    }

    pub fn name(&self) -> (r: &str)
        ensures
            r@ == "Direct"@,
    {
        "Direct"
    }

    /// A static effect: ticks change nothing.
    pub fn update(&mut self, _delta_ms: u32)
        ensures
            *final(self) == *old(self),
    {
    }

    pub fn render(&self) -> (c: RGBLedColor)
        ensures
            c == self.spec_render(),
    {
        self.get_color()
    }
}

/// A hue sweep: saturation, value and speed parameters, the hue phase
/// accumulating with time.
#[derive(Clone, Copy, Debug, PartialEq, Eq, Structural)]
pub struct HueRotate {
    pub saturation: ParameterTypes,
    pub value: ParameterTypes,
    pub speed: ParameterTypes,
    pub hue: u32,
}

impl HueRotate {
    /// The hue phase stays below a full turn.
    pub open spec fn wf(self) -> bool {
        self.hue < 360_000
    }

    /// The state an engine starts this effect in: full saturation and
    /// value, unit speed, hue at zero.
    pub open spec fn initial() -> HueRotate {
        HueRotate {
            saturation: ParameterTypes::Float(1000),
            value: ParameterTypes::Float(1000),
            speed: ParameterTypes::Float(1000),
            hue: 0,
        }
    }

    /// The declared schema with its current values.
    pub open spec fn spec_parameters(self) -> Seq<(Seq<char>, ParameterTypes)> {
        seq![("saturation"@, self.saturation), ("value"@, self.value), ("speed"@, self.speed)]
    }

    /// HSV of the current phase; saturation and value clamped to `1.0`,
    /// read as zero where a color was stored over a scalar.
    pub open spec fn spec_render(self) -> RGBLedColor {
        spec_from_hsv(
            self.hue as int,
            clamp_milli(scalar_of(self.saturation)),
            clamp_milli(scalar_of(self.value)),
        )
    }

    /// The effect after a parameter set: only declared names take.
    pub open spec fn with_parameter(self, name: Seq<char>, value: ParameterTypes) -> HueRotate {
        if name == "saturation"@ {
            HueRotate { saturation: value, value: self.value, speed: self.speed, hue: self.hue }
        } else if name == "value"@ {
            HueRotate { saturation: self.saturation, value, speed: self.speed, hue: self.hue }
        } else if name == "speed"@ {
            HueRotate { saturation: self.saturation, value: self.value, speed: value, hue: self.hue }
        } else {
            self
        }
    }

    pub fn new() -> (r: Self)
        ensures
            r == HueRotate::initial(),
            r.wf(),
    {
        Self {
            saturation: ParameterTypes::Float(1000),
            value: ParameterTypes::Float(1000),
            speed: ParameterTypes::Float(1000),
            hue: 0,
        }
    }

    pub fn get_parameters(&self) -> (r: Vec<(String, ParameterTypes)>)
        ensures
            params_match(r@, self.spec_parameters()),
    {
        let mut r: Vec<(String, ParameterTypes)> = Vec::new();
        r.push(("saturation".to_owned(), self.saturation));
        r.push(("value".to_owned(), self.value));
        r.push(("speed".to_owned(), self.speed));
        r
    }

    /// Accepts only the declared names; `false` leaves the state untouched.
    pub fn set_parameter(&mut self, name: &str, value: ParameterTypes) -> (r: bool)
        ensures
            r == (name@ == "saturation"@ || name@ == "value"@ || name@ == "speed"@),
            *final(self) == old(self).with_parameter(name@, value),
    {
        if str_eq(name, "saturation") {
            self.saturation = value;
            true
        } else if str_eq(name, "value") {
            self.value = value;
            true
        } else if str_eq(name, "speed") {
            self.speed = value;
            true
        } else {
            false
        }
    }

    pub fn name(&self) -> (r: &str)
        ensures
            r@ == "Hue Rotate"@,
    {
        "Hue Rotate"
    }

    /// Advances the hue by `speed × delta`, wrapping at a full turn.
    pub fn update(&mut self, delta_ms: u32)
        requires
            old(self).wf(),
        ensures
            final(self).hue == hue_after(
                old(self).hue as int,
                scalar_of(old(self).speed) as int,
                delta_ms as int,
            ),
            final(self).saturation == old(self).saturation,
            final(self).value == old(self).value,
            final(self).speed == old(self).speed,
            final(self).wf(),
    {
        let speed = self.speed.scalar_or_zero();
        proof {
            assert((speed as int) * (delta_ms as int) <= 0xFFFF_FFFFint * 0xFFFF_FFFFint)
                by (nonlinear_arith)
                requires
                    speed <= 0xFFFF_FFFFu32,
                    delta_ms <= 0xFFFF_FFFFu32,
            ;
        }
        let advance: u64 = (speed as u64) * (delta_ms as u64) / 1000;
        self.hue = (((self.hue as u64) + advance) % 360_000) as u32;
    }

    pub fn render(&self) -> (c: RGBLedColor)
        requires
            self.wf(),
        ensures
            c == self.spec_render(),
    {
        let s = self.saturation.scalar_or_zero();
        let v = self.value.scalar_or_zero();
        let s = if s > 1000 {
            1000
        } else {
            s
        };
        let v = if v > 1000 {
            1000
        } else {
            v
        };
        RGBLedColor::from_hsv(self.hue, s, v)
    }
}

/// A greyscale ramp: one speed parameter; the level climbs from zero to
/// full and starts over.
#[derive(Clone, Copy, Debug, PartialEq, Eq, Structural)]
pub struct Decay {
    pub speed: ParameterTypes,
    pub level: u32,
}

impl Decay {
    /// The ramp level stays within its scale.
    pub open spec fn wf(self) -> bool {
        self.level <= 1000
    }

    /// The state an engine starts this effect in: unit speed, level zero.
    pub open spec fn initial() -> Decay {
        Decay { speed: ParameterTypes::Float(1000), level: 0 }
    }

    /// The declared schema with its current values.
    pub open spec fn spec_parameters(self) -> Seq<(Seq<char>, ParameterTypes)> {
        seq![("speed"@, self.speed)]
    }

    /// Grey at the current level.
    pub open spec fn spec_render(self) -> RGBLedColor {
        let ch = (self.level * 255 / 1000) as u8;
        RGBLedColor { red: ch, green: ch, blue: ch }
    }

    /// The effect after a parameter set: only the declared name takes.
    pub open spec fn with_parameter(self, name: Seq<char>, value: ParameterTypes) -> Decay {
        if name == "speed"@ {
            Decay { speed: value, level: self.level }
        } else {
            self
        }
    }

    pub fn new() -> (r: Self)
        ensures
            r == Decay::initial(),
            r.wf(),
    {
        Self { speed: ParameterTypes::Float(1000), level: 0 }
    }

    pub fn get_parameters(&self) -> (r: Vec<(String, ParameterTypes)>)
        ensures
            params_match(r@, self.spec_parameters()),
    {
        let mut r: Vec<(String, ParameterTypes)> = Vec::new();
        r.push(("speed".to_owned(), self.speed));
        r
    }

    /// Accepts only the declared name; `false` leaves the state untouched.
    pub fn set_parameter(&mut self, name: &str, value: ParameterTypes) -> (r: bool)
        ensures
            r == (name@ == "speed"@),
            *final(self) == old(self).with_parameter(name@, value),
    {
        if str_eq(name, "speed") {
            self.speed = value;
            true
        } else {
            false
        }
    }

    pub fn name(&self) -> (r: &str)
        ensures
            r@ == "Decay"@,
    {
        "Decay"
    }

    /// Advances the ramp by `speed × delta`, restarting after the top.
    pub fn update(&mut self, delta_ms: u32)
        requires
            old(self).wf(),
        ensures
            final(self).level == decay_after(
                old(self).level as int,
                scalar_of(old(self).speed) as int,
                delta_ms as int,
            ),
            final(self).speed == old(self).speed,
            final(self).wf(),
    {
        let speed = self.speed.scalar_or_zero();
        if self.level >= 1000 {
            self.level = 0;
        } else {
            proof {
                assert((speed as int) * (delta_ms as int) <= 0xFFFF_FFFFint * 0xFFFF_FFFFint)
                    by (nonlinear_arith)
                    requires
                        speed <= 0xFFFF_FFFFu32,
                        delta_ms <= 0xFFFF_FFFFu32,
                ;
            }
            let advance: u64 = (speed as u64) * (delta_ms as u64) / 1000;
            let next: u64 = (self.level as u64) + advance;
            self.level = if next > 1000 {
                1000
            } else {
                next as u32
            };
        }
    }

    pub fn render(&self) -> (c: RGBLedColor)
        requires
            self.wf(),
        ensures
            c == self.spec_render(),
    {
        let ch = (self.level * 255 / 1000) as u8;
        RGBLedColor::new(ch, ch, ch)
    }
}

/// One effect of the closed set, dispatched by variant.
#[derive(Clone, Copy, Debug, PartialEq, Eq, Structural)]
pub enum Effect {
    Direct(Direct),
    HueRotate(HueRotate),
    Decay(Decay),
}

/// Whether `k` is one of the declared parameter names of `e`.
pub open spec fn declares_key(e: Effect, k: Seq<char>) -> bool {
    exists|i: int| 0 <= i < e.spec_parameters().len() && (#[trigger] e.spec_parameters()[i]).0 == k
}

/// Every declared parameter of `e` stands in `post` under the effect's
/// name, and nothing else moved from `pre`.
pub open spec fn persisted(e: Effect, pre: SettingsStore, post: SettingsStore) -> bool {
    &&& forall|i: int|
        0 <= i < e.spec_parameters().len() ==> post.word_at(
            e.spec_name(),
            (#[trigger] e.spec_parameters()[i]).0,
        ) == Some(store_word_of(e.spec_parameters()[i].1) as u32)
    &&& forall|n: Seq<char>, k: Seq<char>|
        !(n == e.spec_name() && declares_key(e, k)) ==> post.word_at(n, k) == pre.word_at(n, k)
    &&& post.texts() == pre.texts()
}

impl Effect {
    /// The phase bounds of the variant.
    pub open spec fn wf(self) -> bool {
        match self {
            Effect::Direct(_) => true,
            Effect::HueRotate(e) => e.wf(),
            Effect::Decay(e) => e.wf(),
        }
    }

    /// The effect's name, which also namespaces its persisted parameters.
    pub open spec fn spec_name(self) -> Seq<char> {
        match self {
            Effect::Direct(_) => "Direct"@,
            Effect::HueRotate(_) => "Hue Rotate"@,
            Effect::Decay(_) => "Decay"@,
        }
    }

    /// The declared schema with its current values.
    pub open spec fn spec_parameters(self) -> Seq<(Seq<char>, ParameterTypes)> {
        match self {
            Effect::Direct(e) => e.spec_parameters(),
            Effect::HueRotate(e) => e.spec_parameters(),
            Effect::Decay(e) => e.spec_parameters(),
        }
    }

    /// The effect after a parameter set: only declared names take.
    pub open spec fn with_parameter(self, name: Seq<char>, value: ParameterTypes) -> Effect {
        match self {
            Effect::Direct(e) => Effect::Direct(e.with_parameter(name, value)),
            Effect::HueRotate(e) => Effect::HueRotate(e.with_parameter(name, value)),
            Effect::Decay(e) => Effect::Decay(e.with_parameter(name, value)),
        }
    }

    /// Whether a parameter set under this name is accepted.
    pub open spec fn accepts(self, name: Seq<char>) -> bool {
        match self {
            Effect::Direct(_) => name == "color"@,
            Effect::HueRotate(_) => name == "saturation"@ || name == "value"@ || name == "speed"@,
            Effect::Decay(_) => name == "speed"@,
        }
    }

    /// The effect one tick of `delta_ms` milliseconds later.
    pub open spec fn spec_updated(self, delta_ms: int) -> Effect {
        match self {
            Effect::Direct(e) => Effect::Direct(e),
            Effect::HueRotate(e) => Effect::HueRotate(
                HueRotate {
                    saturation: e.saturation,
                    value: e.value,
                    speed: e.speed,
                    hue: hue_after(e.hue as int, scalar_of(e.speed) as int, delta_ms) as u32,
                },
            ),
            Effect::Decay(e) => Effect::Decay(
                Decay {
                    speed: e.speed,
                    level: decay_after(e.level as int, scalar_of(e.speed) as int, delta_ms) as u32,
                },
            ),
        }
    }

    /// The color the variant renders in its current state.
    pub open spec fn spec_render(self) -> RGBLedColor {
        match self {
            Effect::Direct(e) => e.spec_render(),
            Effect::HueRotate(e) => e.spec_render(),
            Effect::Decay(e) => e.spec_render(),
        }
    }

    pub fn get_parameters(&self) -> (r: Vec<(String, ParameterTypes)>)
        ensures
            params_match(r@, self.spec_parameters()),
    {
        match self {
            Effect::Direct(e) => e.get_parameters(),
            Effect::HueRotate(e) => e.get_parameters(),
            Effect::Decay(e) => e.get_parameters(),
        }
    }

    /// Accepts only names of the declared schema; `false` leaves the state
    /// untouched.
    pub fn set_parameter(&mut self, name: &str, value: ParameterTypes) -> (r: bool)
        ensures
            r == old(self).accepts(name@),
            *final(self) == old(self).with_parameter(name@, value),
            old(self).wf() ==> final(self).wf(),
    {
        match self {
            Effect::Direct(e) => e.set_parameter(name, value),
            Effect::HueRotate(e) => e.set_parameter(name, value),
            Effect::Decay(e) => e.set_parameter(name, value),
        }
    }

    pub fn name(&self) -> (r: &str)
        ensures
            r@ == self.spec_name(),
    {
        match self {
            Effect::Direct(e) => e.name(),
            Effect::HueRotate(e) => e.name(),
            Effect::Decay(e) => e.name(),
        }
    }

    /// Advances the variant's animation phase by `delta_ms` milliseconds.
    pub fn update(&mut self, delta_ms: u32)
        requires
            old(self).wf(),
        ensures
            *final(self) == old(self).spec_updated(delta_ms as int),
            final(self).wf(),
    {
        match self {
            Effect::Direct(e) => e.update(delta_ms),
            Effect::HueRotate(e) => e.update(delta_ms),
            Effect::Decay(e) => e.update(delta_ms),
        }
    }

    pub fn render(&self) -> (c: RGBLedColor)
        requires
            self.wf(),
        ensures
            c == self.spec_render(),
    {
        match self {
            Effect::Direct(e) => e.render(),
            Effect::HueRotate(e) => e.render(),
            Effect::Decay(e) => e.render(),
        }
    }

    /// Writes every declared parameter to the store, one word per name,
    /// namespaced by the effect's name.
    pub fn save(&self, store: &mut SettingsStore)
        ensures
            persisted(*self, *old(store), *final(store)),
    {
        let ghost pre = *store;
        match self {
            Effect::Direct(e) => {
                store.set_u32("Direct", "color", e.color.to_store_word());
                proof {
                    assert(self.spec_parameters()[0].0 == "color"@);
                    assert forall|n: Seq<char>, k: Seq<char>|
                        !(n == self.spec_name() && declares_key(*self, k)) implies store.word_at(
                        n,
                        k,
                    ) == pre.word_at(n, k) by {
                        if n == "Direct"@ && k == "color"@ {
                            assert(declares_key(*self, k));
                        }
                    }
                }
            },
            Effect::HueRotate(e) => {
                let ghost mid1 = *store;
                store.set_u32("Hue Rotate", "saturation", e.saturation.to_store_word());
                let ghost mid2 = *store;
                store.set_u32("Hue Rotate", "value", e.value.to_store_word());
                let ghost mid3 = *store;
                store.set_u32("Hue Rotate", "speed", e.speed.to_store_word());
                proof {
                    reveal_strlit("saturation");
                    reveal_strlit("value");
                    reveal_strlit("speed");
                    assert(self.spec_parameters()[0].0 == "saturation"@);
                    assert(self.spec_parameters()[1].0 == "value"@);
                    assert(self.spec_parameters()[2].0 == "speed"@);
                    assert("value"@.len() == 5);
                    assert("value"@[0] == 'v');
                    assert("speed"@[0] == 's');
                    assert("saturation"@ != "value"@ && "saturation"@ != "speed"@ && "value"@
                        != "speed"@);
                    assert forall|n: Seq<char>, k: Seq<char>|
                        !(n == self.spec_name() && declares_key(*self, k)) implies store.word_at(
                        n,
                        k,
                    ) == pre.word_at(n, k) by {
                        if n == "Hue Rotate"@ {
                            if k == "saturation"@ || k == "value"@ || k == "speed"@ {
                                assert(declares_key(*self, k));
                            }
                        }
                    }
                }
            },
            Effect::Decay(e) => {
                store.set_u32("Decay", "speed", e.speed.to_store_word());
                proof {
                    assert(self.spec_parameters()[0].0 == "speed"@);
                    assert forall|n: Seq<char>, k: Seq<char>|
                        !(n == self.spec_name() && declares_key(*self, k)) implies store.word_at(
                        n,
                        k,
                    ) == pre.word_at(n, k) by {
                        if n == "Decay"@ && k == "speed"@ {
                            assert(declares_key(*self, k));
                        }
                    }
                }
            },
        }
    }

    /// Reads every declared parameter back from the store, keeping each
    /// parameter's kind; names the store does not hold stay as they are.
    pub fn init(&mut self, store: &SettingsStore)
        ensures
            final(self).spec_name() == old(self).spec_name(),
            final(self).wf() == old(self).wf(),
            final(self).spec_parameters().len() == old(self).spec_parameters().len(),
            forall|i: int|
                0 <= i < old(self).spec_parameters().len() ==> (
                #[trigger] final(self).spec_parameters()[i]).0 == old(self).spec_parameters()[i].0
                && final(self).spec_parameters()[i].1 == match store.word_at(
                old(self).spec_name(),
                old(self).spec_parameters()[i].0,
            ) {
                Some(w) => decoded_like(old(self).spec_parameters()[i].1, w),
                None => old(self).spec_parameters()[i].1,
            },
    {
        match self {
            Effect::Direct(e) => {
                if let Some(w) = store.get_u32("Direct", "color") {
                    e.color = e.color.from_store_word(w);
                }
            },
            Effect::HueRotate(e) => {
                if let Some(w) = store.get_u32("Hue Rotate", "saturation") {
                    e.saturation = e.saturation.from_store_word(w);
                }
                if let Some(w) = store.get_u32("Hue Rotate", "value") {
                    e.value = e.value.from_store_word(w);
                }
                if let Some(w) = store.get_u32("Hue Rotate", "speed") {
                    e.speed = e.speed.from_store_word(w);
                }
            },
            Effect::Decay(e) => {
                if let Some(w) = store.get_u32("Decay", "speed") {
                    e.speed = e.speed.from_store_word(w);
                }
            },
        }
    }
}

} // verus!
