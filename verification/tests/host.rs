use espled::color::{RGBLedColor, RGBRequest};
use espled::framer::{TransportFramer, BAUD_RATE, MAX_READ_ATTEMPTS};
use espled::legacy;
use espled::message::{DialogType, Message};
use espled::params::ParameterTypes;
use espled::wire::{Request, Response};
use espled::worker::{
    probe_controller_on_serial_port, ChannelStatus, Command, ControlChannel, ControlWorker,
    Controller,
};

fn probed(address: &str) -> Option<Controller> {
    probe_controller_on_serial_port(
        address.to_string(),
        Some("LentO'Chka".to_string()),
        Some(vec![("speed".to_string(), ParameterTypes::Float(1000))]),
        Some("Direct".to_string()),
        Some(vec!["Direct".to_string(), "Hue Rotate".to_string()]),
    )
}

#[test]
fn probe_needs_every_handshake_step() {
    let c = probed("COM3").expect("a full handshake yields a controller");
    assert_eq!(c.name, "LentO'Chka");
    assert_eq!(c.address, "COM3");
    assert_eq!(c.get_effect(), "Direct");
    assert_eq!(c.effect_list, vec!["Direct".to_string(), "Hue Rotate".to_string()]);
    let failed = probe_controller_on_serial_port(
        "COM3".to_string(),
        Some("LentO'Chka".to_string()),
        None,
        Some("Direct".to_string()),
        Some(vec![]),
    );
    assert!(failed.is_none());
}

#[test]
fn probing_same_port_twice_registers_once() {
    let mut worker = ControlWorker::new();
    for _ in 0..2 {
        worker.start_scan(vec!["COM3".to_string()]);
        let (port, status) = worker.current_target().expect("one port to scan");
        assert_eq!(port, "COM3");
        assert_eq!(status, ChannelStatus::ProbingControllers("COM3".to_string()));
        worker.record_result(probed(&port));
        assert!(worker.current_target().is_none());
        let done = worker.finish_scan();
        assert_eq!(done, ChannelStatus::Done);
    }
    assert_eq!(worker.controllers().len(), 1);
    assert_eq!(worker.controllers()[0].address, "COM3");
}

#[test]
fn scan_without_devices_reports_no_controllers() {
    let mut worker = ControlWorker::new();
    worker.start_scan(vec!["COM1".to_string(), "COM2".to_string()]);
    while let Some((_port, _status)) = worker.current_target() {
        worker.record_result(None);
    }
    assert_eq!(worker.finish_scan(), ChannelStatus::NoControllers);
    assert!(worker.controllers().is_empty());
}

#[test]
fn set_effect_resolves_index_with_fallback_to_zero() {
    let mut c = probed("COM4").unwrap();
    match c.set_effect("Hue Rotate") {
        Request::SetEffect(i) => assert_eq!(i, 1),
        _ => panic!("a selection must send SetEffect"),
    }
    assert_eq!(c.get_effect(), "Hue Rotate");
    // an absent name falls back to index 0, exactly
    match c.set_effect("Strobe") {
        Request::SetEffect(i) => assert_eq!(i, 0),
        _ => panic!("a selection must send SetEffect"),
    }
    assert_eq!(c.get_effect(), "Strobe");
}

#[test]
fn refresh_overwrites_options_wholesale() {
    let mut c = probed("COM4").unwrap();
    c.refresh_options(vec![("value".to_string(), ParameterTypes::Float(2))]);
    assert_eq!(c.options, vec![("value".to_string(), ParameterTypes::Float(2))]);
}

#[test]
fn set_options_sends_one_request_per_entry() {
    let mut c = probed("COM4").unwrap();
    c.refresh_options(vec![
        ("speed".to_string(), ParameterTypes::Float(7)),
        ("color".to_string(), ParameterTypes::Color(RGBLedColor::new(1, 2, 3))),
    ]);
    let requests = c.set_options();
    assert_eq!(requests.len(), 2);
    match &requests[0] {
        Request::SetOption(name, ParameterTypes::Float(v)) => {
            assert_eq!(name, "speed");
            assert_eq!(*v, 7);
        }
        _ => panic!("the first request must carry the first option"),
    }
}

#[test]
fn silent_port_gives_up_after_exactly_two_reads() {
    assert_eq!(MAX_READ_ATTEMPTS, 2);
    let mut framer = TransportFramer::new(&Request::GetName);
    assert_eq!(framer.line_to_send(), "\"GetName\"\n");
    framer.on_sent();
    framer.on_read_failed();
    // one failure is not enough to give up
    assert!(!framer.is_finished());
    framer.on_read_failed();
    assert!(framer.is_finished());
    assert!(framer.into_reply().is_none());
}

#[test]
fn unopenable_port_fails_without_retry() {
    let mut framer = TransportFramer::new(&Request::GetName);
    framer.on_open_failed();
    assert!(framer.is_finished());
    assert!(framer.into_reply().is_none());
}

#[test]
fn reply_line_decodes_and_finishes() {
    let mut framer = TransportFramer::new(&Request::GetName);
    framer.on_sent();
    framer.on_reply_line("\"LentO'Chka\"");
    assert!(framer.is_finished());
    match framer.into_reply() {
        Some(Response::Text(name)) => assert_eq!(name, "LentO'Chka"),
        _ => panic!("a decoded text reply was expected"),
    }
}

#[test]
fn undecodable_reply_is_a_mismatch_not_a_retry() {
    let mut framer = TransportFramer::new(&Request::GetName);
    framer.on_sent();
    framer.on_reply_line("garbage");
    assert!(framer.is_finished());
    assert!(framer.into_reply().is_none());
}

#[test]
fn status_poll_caches_the_latest_message() {
    let mut channel = ControlChannel::new();
    assert_eq!(channel.status(None), ChannelStatus::Idle);
    assert_eq!(
        channel.status(Some(ChannelStatus::ProbingControllers("COM1".to_string()))),
        ChannelStatus::ProbingControllers("COM1".to_string())
    );
    // with no new message the cached status stands
    assert_eq!(
        channel.status(None),
        ChannelStatus::ProbingControllers("COM1".to_string())
    );
    assert_eq!(channel.status(Some(ChannelStatus::Done)), ChannelStatus::Done);
    channel.acknown_status();
    assert_eq!(channel.status(None), ChannelStatus::Idle);
    assert_eq!(channel.discover_controllers(), Command::ProbeControllersOnSerials);
}

#[test]
fn status_lines_for_humans() {
    assert_eq!(ChannelStatus::Done.describe(), "Done");
    assert_eq!(
        ChannelStatus::ProbingControllers("COM7".to_string()).describe(),
        "Probing controller on address: COM7"
    );
    assert_eq!(
        ChannelStatus::NoControllers.describe(),
        "No COM/Serial Ports controllers are present in system"
    );
}

#[test]
fn framer_policy_constants() {
    assert_eq!(BAUD_RATE, 115200);
}

#[test]
fn message_keeps_content_and_kind() {
    let m = Message::new("No controllers found", DialogType::Acknowledge);
    assert_eq!(m.content(), "No controllers found");
    assert_eq!(m.dialog_type(), DialogType::Acknowledge);
}

#[test]
fn three_byte_color_request() {
    let r = RGBRequest::new([10, 20, 30]);
    assert_eq!((r.color.red, r.color.green, r.color.blue), (10, 20, 30));
    assert_eq!(RGBRequest::default().color, RGBLedColor::new(0, 0, 0));
}

#[test]
fn legacy_packet_accepts_only_the_color_kind() {
    let ok = legacy::RGBRequest::new([0, 1, 2, 3]).unwrap();
    assert_eq!(ok.request_type, legacy::RequestType::SetColor);
    assert_eq!(ok.color, RGBLedColor::new(1, 2, 3));
    assert!(legacy::RGBRequest::new([1, 1, 2, 3]).is_err());
    assert!(legacy::RGBRequest::new([255, 0, 0, 0]).is_err());
    assert_eq!(legacy::RGBRequest::default().request_type, legacy::RequestType::SetColor);
}

#[test]
fn apply_color_builds_the_textual_command() {
    let c = probed("COM4").unwrap();
    assert_eq!(c.apply_color(RGBLedColor::new(10, 20, 30)), "color a141e\n");
    assert_eq!(c.apply_color(RGBLedColor::new(0, 0, 0)), "color 0\n");
}

#[test]
fn apply_color_round_trips_through_the_device_parser() {
    let c = probed("COM4").unwrap();
    for color in [
        RGBLedColor::new(10, 20, 30),
        RGBLedColor::new(255, 255, 255),
        RGBLedColor::new(0, 0, 1),
    ] {
        let line = c.apply_color(color);
        let parsed = espled::commands::parse_color_command(line.trim_end());
        assert_eq!(parsed, Some(color));
    }
}
