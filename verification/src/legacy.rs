//! The byte-oriented protocol revision kept for compatibility: one
//! request is four raw bytes, a kind byte and three color channels.

use vstd::prelude::*;
use crate::color::{color_from_u32, color_u32, RGBLedColor};
use crate::store::SettingsStore;

verus! {

/// Request kinds of the byte-oriented revision.
#[derive(Clone, Copy, Debug, PartialEq, Eq, Structural)]
pub enum RequestType {
    SetColor,
    SetEffect,
}

/// A packet whose kind byte names no known request.
#[derive(Clone, Copy, Debug)]
pub struct UnknownRequestError;

/// One request of the byte-oriented revision.
#[derive(Clone, Copy, Debug, PartialEq, Eq, Structural)]
pub struct RGBRequest {
    pub request_type: RequestType,
    pub color: RGBLedColor,
}

impl RGBRequest {
    /// Reads a four-byte packet: the kind byte, then red, green and
    /// blue. Only the color request's kind byte (zero) is accepted.
    pub fn new(bytes: [u8; 4]) -> (r: Result<Self, UnknownRequestError>)
        ensures
            r is Ok <==> bytes[0] == 0,
            r matches Ok(q) ==> q.request_type == RequestType::SetColor && q.color == (RGBLedColor {
                red: bytes[1],
                green: bytes[2],
                blue: bytes[3],
            }),
    {
        if bytes[0] > 0 {
            return Err(UnknownRequestError);
        }
        Ok(Self {
            request_type: RequestType::SetColor,
            color: RGBLedColor::new(bytes[1], bytes[2], bytes[3]),
        })
    }
}

impl Default for RGBRequest {
    /// A color request carrying black.
    fn default() -> (r: Self)
        ensures
            r.request_type == RequestType::SetColor,
            r.color == (RGBLedColor { red: 0, green: 0, blue: 0 }),
    {
        Self { request_type: RequestType::SetColor, color: RGBLedColor::default() }
    }
}


/// The older firmware's controller: one directly driven color, persisted
/// under a fixed key. The PWM outputs it feeds are hardware collaborators
/// outside this core.
pub struct RgbControl {
    pub color: RGBLedColor,
}

impl RgbControl {
    /// Starts black until the persisted color is loaded.
    pub fn new() -> (r: Self)
        ensures
            r.color == (RGBLedColor { red: 0, green: 0, blue: 0 }),
    {
        RgbControl { color: RGBLedColor::default() }
    }

    /// Restores the persisted color; with none stored the current color
    /// stands.
    pub fn init(&mut self, store: &SettingsStore)
        ensures
            final(self).color == match store.word_at("rgb"@, "color"@) {
                Some(w) => color_from_u32(w),
                None => old(self).color,
            },
    {
        if let Some(w) = store.get_u32("rgb", "color") {
            self.color = RGBLedColor::new_from_u32(w);
        }
    }

    /// Takes a new color and persists it at once, write-through.
    pub fn set_color(&mut self, color: RGBLedColor, store: &mut SettingsStore)
        ensures
            final(self).color == color,
            final(store).word_at("rgb"@, "color"@) == Some(color_u32(color) as u32),
            forall|n: Seq<char>, k: Seq<char>|
                !(n == "rgb"@ && k == "color"@) ==> final(store).word_at(n, k) == old(
                    store,
                ).word_at(n, k),
            final(store).texts() == old(store).texts(),
    {
        self.color = color;
        store.set_u32("rgb", "color", color.to_u32());
    }
}

} // verus!
