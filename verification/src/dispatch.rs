//! The device-side request dispatcher: frames inbound bytes into one
//! document, answers it through the engine, and frames the response. Bad
//! input never halts the control loop — an undecodable frame is simply
//! dropped.
//!
//! Both directions use the same framing: one newline-terminated document.

use vstd::prelude::*;
use crate::engine::RgbControl;
use crate::params::ParameterTypes;
use crate::store::SettingsStore;
use crate::wire::{
    decode_request, enc_response, encode_response, spec_decode_request, ReqView, Request, RespView,
    Response,
};
use crate::effects::persisted;

verus! {

broadcast use vstd::string::group_string_axioms;

/// The byte that ends one frame in either direction.
pub const FRAME_TERMINATOR: u8 = 10;

/// The name the device reports to `GetName`.
pub const DEVICE_NAME: &'static str = "LentO'Chka";

/// The effect names the engine offers, in order.
pub open spec fn spec_effect_names(e: RgbControl) -> Seq<Seq<char>> {
    Seq::new(e.effects().len(), |i: int| e.effects()[i].spec_name())
}

/// Accumulates inbound bytes until the frame terminator.
pub struct RequestDispatcher {
    buffer: Vec<u8>,
}

impl RequestDispatcher {
    /// The bytes of the unfinished frame.
    pub closed spec fn buffered(self) -> Seq<u8> {
        self.buffer@
    }

    /// An empty accumulator.
    pub fn new() -> (d: Self)
        ensures
            d.buffered() == Seq::<u8>::empty(),
    {
        RequestDispatcher { buffer: Vec::new() }
    }

    /// Takes one inbound byte: the terminator closes and yields the
    /// accumulated frame, any other byte extends it.
    pub fn push_byte(&mut self, b: u8) -> (frame: Option<Vec<u8>>)
        ensures
            b == FRAME_TERMINATOR ==> (frame matches Some(f) && f@ == old(self).buffered()
                && final(self).buffered() == Seq::<u8>::empty()),
            b != FRAME_TERMINATOR ==> (frame is None
                && final(self).buffered() == old(self).buffered().push(b)),
    {
        if b == FRAME_TERMINATOR {
            let f = self.buffer.split_off(0);
            proof {
                assert(f@ =~= old(self).buffered());
                assert(self.buffer@ =~= Seq::<u8>::empty());
            }
            Some(f)
        } else {
            self.buffer.push(b);
            None
        }
    }
}

/// Answers one framed document. A document that is not a well-formed
/// request yields no response and changes nothing — the control loop
/// drops it and goes on. Every answered document yields exactly one
/// newline-terminated response: the name for `GetName`, the effect list
/// for `GetEffects`, the selected effect's name for `GetEffect`, its
/// parameters for `GetParameters`, the selection outcome for
/// `SetEffect`, and — as the protocol has always done — an unconditional
/// acknowledgment for `SetOption`, whose parameter is handed to the
/// selected effect and whose whole parameter set is then persisted.
pub fn respond(engine: &mut RgbControl, store: &mut SettingsStore, line: &str) -> (r: Option<
    String,
>)
    requires
        old(engine).wf(),
    ensures
        final(engine).wf(),
        match spec_decode_request(line@) {
            None => r is None && *final(engine) == *old(engine) && *final(store) == *old(store),
            Some(req) => r matches Some(t) && match req {
                ReqView::GetName => t@ == enc_response(RespView::Text(DEVICE_NAME@)).push('\n')
                    && *final(engine) == *old(engine) && *final(store) == *old(store),
                ReqView::GetEffects => t@ == enc_response(
                    RespView::Names(spec_effect_names(*old(engine))),
                ).push('\n') && *final(engine) == *old(engine) && *final(store) == *old(store),
                ReqView::GetEffect => t@ == enc_response(
                    RespView::Text(old(engine).current().spec_name()),
                ).push('\n') && *final(engine) == *old(engine) && *final(store) == *old(store),
                ReqView::GetParameters => t@ == enc_response(
                    RespView::Options(old(engine).current().spec_parameters()),
                ).push('\n') && *final(engine) == *old(engine) && *final(store) == *old(store),
                ReqView::SetEffect(n) => t@ == enc_response(
                    RespView::Accepted(n < old(engine).effects().len()),
                ).push('\n') && final(engine).effects() == old(engine).effects()
                    && final(engine).selected() == (if n < old(engine).effects().len() {
                    n
                } else {
                    old(engine).selected()
                }) && *final(store) == *old(store),
                ReqView::SetOption(name, p) => t@ == enc_response(RespView::Accepted(true)).push(
                    '\n',
                ) && final(engine).effects() == old(engine).effects().update(
                    old(engine).selected(),
                    old(engine).current().with_parameter(name, p),
                ) && final(engine).selected() == old(engine).selected() && persisted(
                    final(engine).current(),
                    *old(store),
                    *final(store),
                ),
            },
        },
{
    proof {
        reveal_strlit("\n");
    }
    let req = match decode_request(line) {
        Some(req) => req,
        None => {
            return None;
        },
    };
    let resp: Response = match req {
        Request::GetName => Response::Text(DEVICE_NAME.to_owned()),
        Request::GetEffects => {
            let names = engine.get_effects_name();
            proof {
                assert(names@.map_values(|s: String| s@) =~= spec_effect_names(*engine));
            }
            Response::Names(names)
        },
        Request::GetEffect => Response::Text(engine.get_effect_name().to_owned()),
        Request::GetParameters => {
            let options = engine.get_effect_options();
            proof {
                assert(options@.map_values(|e: (String, ParameterTypes)| (e.0@, e.1))
                    =~= engine.current().spec_parameters());
            }
            Response::Options(options)
        },
        Request::SetEffect(index) => Response::Accepted(engine.set_effect(index)),
        Request::SetOption(name, value) => {
            engine.set_effect_parameter(name.as_str(), value, store);
            Response::Accepted(true)
        },
    };
    let mut out = encode_response(&resp);
    out.append("\n");
    proof {
        assert(out@ =~= enc_response(resp@).push('\n'));
    }
    Some(out)
}

} // verus!
