use espled::color::RGBLedColor;
use espled::params::ParameterTypes;
use espled::wire::{decode_request, decode_response, encode_request, encode_response, Request, Response};

#[test]
fn hsv_primary_red() {
    let c = RGBLedColor::from_hsv(0, 1000, 1000);
    assert_eq!((c.red, c.green, c.blue), (255, 0, 0));
}

#[test]
fn hsv_primary_green() {
    let c = RGBLedColor::from_hsv(120_000, 1000, 1000);
    assert_eq!((c.red, c.green, c.blue), (0, 255, 0));
}

#[test]
fn hsv_primary_blue() {
    let c = RGBLedColor::from_hsv(240_000, 1000, 1000);
    assert_eq!((c.red, c.green, c.blue), (0, 0, 255));
}

#[test]
fn hsv_ten_degrees() {
    let c = RGBLedColor::from_hsv(10_000, 1000, 1000);
    assert_eq!((c.red, c.green, c.blue), (255, 43, 0));
}

#[test]
fn hsv_full_turn_is_red() {
    let c = RGBLedColor::from_hsv(360_000, 1000, 1000);
    assert_eq!((c.red, c.green, c.blue), (255, 0, 0));
}

#[test]
fn hsv_past_the_circle_is_black() {
    let c = RGBLedColor::from_hsv(400_000, 1000, 1000);
    assert_eq!((c.red, c.green, c.blue), (0, 0, 0));
}

#[test]
fn hsv_zero_value_is_black() {
    let c = RGBLedColor::from_hsv(90_000, 1000, 0);
    assert_eq!((c.red, c.green, c.blue), (0, 0, 0));
}

#[test]
fn hsv_zero_saturation_is_white() {
    let c = RGBLedColor::from_hsv(90_000, 0, 1000);
    assert_eq!((c.red, c.green, c.blue), (255, 255, 255));
}

#[test]
fn pack_to_u32() {
    assert_eq!(RGBLedColor::new(10, 20, 30).to_u32(), 0x0A141E);
}

#[test]
fn unpack_from_u32() {
    let c = RGBLedColor::new_from_u32(0x0A141E);
    assert_eq!((c.red, c.green, c.blue), (10, 20, 30));
}

#[test]
fn unpack_ignores_high_byte() {
    let c = RGBLedColor::new_from_u32(0xFF0A141E);
    assert_eq!((c.red, c.green, c.blue), (10, 20, 30));
}

#[test]
fn pack_unpack_round_trip() {
    let c = RGBLedColor::new(1, 2, 3);
    assert_eq!(RGBLedColor::new_from_u32(c.to_u32()), c);
}

#[test]
fn encode_get_name_exactly() {
    assert_eq!(encode_request(&Request::GetName), "\"GetName\"");
}

#[test]
fn encode_set_effect_exactly() {
    assert_eq!(encode_request(&Request::SetEffect(5)), "{\"SetEffect\":5}");
}

#[test]
fn encode_set_option_exactly() {
    let r = Request::SetOption("speed".to_string(), ParameterTypes::Float(1000));
    assert_eq!(encode_request(&r), "{\"SetOption\":[\"speed\",{\"Float\":1000}]}");
}

#[test]
fn encode_set_option_color_exactly() {
    let r = Request::SetOption(
        "color".to_string(),
        ParameterTypes::Color(RGBLedColor::new(10, 20, 30)),
    );
    assert_eq!(encode_request(&r), "{\"SetOption\":[\"color\",{\"Color\":660510}]}");
}

fn assert_request_round_trips(r: Request) {
    let encoded = encode_request(&r);
    let decoded = decode_request(&encoded).expect("decoding an encoded request");
    match (&r, &decoded) {
        (Request::GetEffects, Request::GetEffects) => {}
        (Request::GetEffect, Request::GetEffect) => {}
        (Request::GetParameters, Request::GetParameters) => {}
        (Request::GetName, Request::GetName) => {}
        (Request::SetEffect(a), Request::SetEffect(b)) => assert_eq!(a, b),
        (Request::SetOption(n1, p1), Request::SetOption(n2, p2)) => {
            assert_eq!(n1, n2);
            assert_eq!(p1, p2);
        }
        _ => panic!("request changed shape in the round trip"),
    }
}

#[test]
fn request_round_trip_all_variants() {
    assert_request_round_trips(Request::GetEffects);
    assert_request_round_trips(Request::GetEffect);
    assert_request_round_trips(Request::GetParameters);
    assert_request_round_trips(Request::GetName);
    assert_request_round_trips(Request::SetEffect(0));
    assert_request_round_trips(Request::SetEffect(7));
    assert_request_round_trips(Request::SetEffect(u32::MAX as usize));
    assert_request_round_trips(Request::SetOption(
        "speed".to_string(),
        ParameterTypes::Float(12345),
    ));
    assert_request_round_trips(Request::SetOption(
        "color".to_string(),
        ParameterTypes::Color(RGBLedColor::new(255, 0, 128)),
    ));
    assert_request_round_trips(Request::SetOption(String::new(), ParameterTypes::Float(0)));
}

#[test]
fn decode_rejects_malformed_requests() {
    assert!(decode_request("").is_none());
    assert!(decode_request("nonsense").is_none());
    assert!(decode_request("\"GetNam\"").is_none());
    assert!(decode_request("\"GetName\" ").is_none());
    assert!(decode_request("{\"SetEffect\":}").is_none());
    assert!(decode_request("{\"SetEffect\":5").is_none());
    assert!(decode_request("{\"SetEffect\":99999999999}").is_none());
    assert!(decode_request("{\"SetSomething\":5}").is_none());
    assert!(decode_request("{\"SetOption\":[\"a\",{\"Weird\":1}]}").is_none());
}

#[test]
fn encode_response_shapes_exactly() {
    assert_eq!(encode_response(&Response::Accepted(true)), "true");
    assert_eq!(encode_response(&Response::Accepted(false)), "false");
    assert_eq!(encode_response(&Response::Names(vec![])), "[]");
    assert_eq!(encode_response(&Response::Options(vec![])), "{}");
    assert_eq!(encode_response(&Response::Text("hi".to_string())), "\"hi\"");
    assert_eq!(
        encode_response(&Response::Names(vec!["Direct".to_string(), "Hue Rotate".to_string()])),
        "[\"Direct\",\"Hue Rotate\"]"
    );
    assert_eq!(
        encode_response(&Response::Options(vec![
            ("speed".to_string(), ParameterTypes::Float(1000)),
            ("color".to_string(), ParameterTypes::Color(RGBLedColor::new(0, 0, 1))),
        ])),
        "{\"speed\":{\"Float\":1000},\"color\":{\"Color\":1}}"
    );
}

fn assert_response_round_trips(r: Response) {
    let encoded = encode_response(&r);
    let decoded = decode_response(&encoded).expect("decoding an encoded response");
    match (&r, &decoded) {
        (Response::Text(a), Response::Text(b)) => assert_eq!(a, b),
        (Response::Names(a), Response::Names(b)) => assert_eq!(a, b),
        (Response::Options(a), Response::Options(b)) => assert_eq!(a, b),
        (Response::Accepted(a), Response::Accepted(b)) => assert_eq!(a, b),
        _ => panic!("response changed shape in the round trip"),
    }
}

#[test]
fn response_round_trip_all_shapes() {
    assert_response_round_trips(Response::Text(String::new()));
    assert_response_round_trips(Response::Text("LentO'Chka".to_string()));
    assert_response_round_trips(Response::Names(vec![]));
    assert_response_round_trips(Response::Names(vec!["one".to_string()]));
    assert_response_round_trips(Response::Names(vec![
        "Direct".to_string(),
        "Hue Rotate".to_string(),
        "Decay".to_string(),
    ]));
    assert_response_round_trips(Response::Options(vec![]));
    assert_response_round_trips(Response::Options(vec![
        ("saturation".to_string(), ParameterTypes::Float(1000)),
        ("value".to_string(), ParameterTypes::Float(500)),
        ("color".to_string(), ParameterTypes::Color(RGBLedColor::new(9, 8, 7))),
    ]));
    assert_response_round_trips(Response::Accepted(true));
    assert_response_round_trips(Response::Accepted(false));
}

#[test]
fn decode_rejects_malformed_responses() {
    assert!(decode_response("").is_none());
    assert!(decode_response("truthy").is_none());
    assert!(decode_response("[").is_none());
    assert!(decode_response("[\"a\",]").is_none());
    assert!(decode_response("{\"a\":1}").is_none());
    assert!(decode_response("\"unterminated").is_none());
}
