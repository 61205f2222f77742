use wizctl::capability::{BulbKind, DeviceKind};
use wizctl::color::RGBCW;
use wizctl::control::Pilot;
use wizctl::device::{devices_from_datagrams, parse_set_pilot_outcome, Device, DeviceError};
use wizctl::messages::{GetSystemConfigResponseResult, SetPilotResponse, SetPilotResponseResult};
use wizctl::network::{Datagram, IpAddress};

fn ip(o0: u8, o1: u8, o2: u8, o3: u8) -> IpAddress {
    IpAddress { o0, o1, o2, o3 }
}

fn config_result(module_name: &str) -> GetSystemConfigResponseResult {
    GetSystemConfigResponseResult {
        mac: "a8bb5006033d".to_string(),
        home_id: 649402,
        room_id: 989983,
        rgn: "eu".to_string(),
        module_name: module_name.to_string(),
        fw_version: "1.17.1".to_string(),
        group_id: 0,
        ping: 0,
    }
}

fn config_payload(module_name: &str) -> Vec<u8> {
    let text = format!(
        "{{\"method\":\"getSystemConfig\",\"env\":\"pro\",\"result\":{{\"mac\":\"a8bb5006033d\",\"homeId\":649402,\"roomId\":989983,\"rgn\":\"eu\",\"moduleName\":\"{}\",\"fwVersion\":\"1.17.1\",\"groupId\":0,\"ping\":0}}}}",
        module_name
    );
    text.into_bytes()
}

#[test]
fn connect_builds_a_device_from_a_config_reply() {
    let addr = ip(192, 168, 0, 33);
    let device = Device::from_config_payload(addr, config_payload("ESP01_SHRGB1C_31")).unwrap();
    assert_eq!(*device.ip(), addr);
    assert_eq!(device.mac(), "a8bb5006033d");
    assert_eq!(*device.kind(), DeviceKind::Bulb(BulbKind::Color));
}

#[test]
fn connect_surfaces_unknown_module_identifiers() {
    let err = Device::from_config_payload(ip(1, 2, 3, 4), config_payload("ESP01_XYZ_01"))
        .unwrap_err();
    match err {
        DeviceError::UnrecognizedModuleName(raw) => assert_eq!(raw, "ESP01_XYZ_01"),
        _ => panic!("expected the unrecognized-identifier error"),
    }
}

#[test]
fn connect_surfaces_codec_failures() {
    let err = Device::from_config_payload(ip(1, 2, 3, 4), b"nonsense".to_vec()).unwrap_err();
    assert!(matches!(err, DeviceError::ConnectError(_)));
}

#[test]
fn discovery_skips_bad_replies_and_keeps_the_rest() {
    let good_plug = Datagram {
        data: config_payload("ESP01_SOCKET_01"),
        source_ip: ip(192, 168, 0, 10),
        source_port: 38899,
    };
    let malformed = Datagram {
        data: b"not json".to_vec(),
        source_ip: ip(192, 168, 0, 11),
        source_port: 38899,
    };
    let unknown_kind = Datagram {
        data: config_payload("ESP01_XYZ_01"),
        source_ip: ip(192, 168, 0, 12),
        source_port: 38899,
    };
    let good_strip = Datagram {
        data: config_payload("ESP25_SHRGB_01ABI"),
        source_ip: ip(192, 168, 0, 13),
        source_port: 38899,
    };
    let devices = devices_from_datagrams(vec![good_plug, malformed, unknown_kind, good_strip]);
    assert_eq!(devices.len(), 2);
    assert_eq!(*devices[0].ip(), ip(192, 168, 0, 10));
    assert_eq!(*devices[0].kind(), DeviceKind::Plug);
    assert_eq!(*devices[1].ip(), ip(192, 168, 0, 13));
    assert_eq!(*devices[1].kind(), DeviceKind::LightStrip);
}

#[test]
fn empty_discovery_yields_no_devices() {
    assert!(devices_from_datagrams(vec![]).is_empty());
}

#[test]
fn builder_accumulates_state_and_brightness() {
    let device = Device::from_system_config(ip(1, 1, 1, 1), config_result("ESP01_DW_01")).unwrap();
    let builder = device.set_pilot().on().brightness(128).unwrap();
    let (request, _device) = builder.build();
    assert_eq!(
        request.encode(),
        "{\"method\":\"setPilot\",\"params\":{\"state\":true,\"dimming\":128}}"
    );
}

#[test]
fn plug_refuses_brightness_before_any_network_traffic() {
    let device =
        Device::from_system_config(ip(1, 1, 1, 1), config_result("ESP01_SOCKET_01")).unwrap();
    let err = device.set_pilot().brightness(5).unwrap_err();
    match err {
        DeviceError::UnsupportedCommand(kind, _) => assert_eq!(kind, DeviceKind::Plug),
        _ => panic!("expected the unsupported-command error"),
    }
}

#[test]
fn white_bulb_refuses_color() {
    let device = Device::from_system_config(ip(1, 1, 1, 1), config_result("ESP01_DW_01")).unwrap();
    let err = device.set_pilot().rgbcw(RGBCW::white()).unwrap_err();
    assert!(matches!(
        err,
        DeviceError::UnsupportedCommand(DeviceKind::Bulb(BulbKind::DimmableWhite), _)
    ));
}

#[test]
fn light_strip_accepts_color() {
    let device =
        Device::from_system_config(ip(1, 1, 1, 1), config_result("ESP25_SHRGB_01ABI")).unwrap();
    let builder = device.set_pilot().rgbcw(RGBCW::new(1, 2, 3, 4, 5)).unwrap();
    let (request, _device) = builder.build();
    assert_eq!(
        request.encode(),
        "{\"method\":\"setPilot\",\"params\":{\"r\":1,\"g\":2,\"b\":3,\"c\":4,\"w\":5}}"
    );
}

#[test]
fn set_pilot_outcome_success() {
    let payload =
        b"{\"method\":\"setPilot\",\"env\":\"pro\",\"result\":{\"success\":true}}".to_vec();
    assert!(parse_set_pilot_outcome(payload).is_ok());
}

#[test]
fn set_pilot_outcome_device_refusal() {
    let payload =
        b"{\"method\":\"setPilot\",\"env\":\"pro\",\"result\":{\"success\":false}}".to_vec();
    let err = parse_set_pilot_outcome(payload).unwrap_err();
    assert!(matches!(err, DeviceError::UnsuccessfulRequest));
}

#[test]
fn set_pilot_outcome_codec_failure() {
    let err = parse_set_pilot_outcome(b"garbage".to_vec()).unwrap_err();
    assert!(matches!(err, DeviceError::SetPilotError(_)));
}

#[test]
fn end_to_end_set_pilot_round_trip() {
    let device =
        Device::from_system_config(ip(10, 0, 0, 5), config_result("ESP25_SHRGB_01ABI")).unwrap();
    let (request, _device) = device.set_pilot().on().build();
    assert_eq!(
        request.encode(),
        "{\"method\":\"setPilot\",\"params\":{\"state\":true}}"
    );
    let reply = SetPilotResponse {
        method: "setPilot".to_string(),
        env: "pro".to_string(),
        result: SetPilotResponseResult { success: true },
    };
    assert!(parse_set_pilot_outcome(reply.encode().into_bytes()).is_ok());
}

#[test]
fn rssi_is_read_from_a_pilot_reply() {
    let device = Device::from_system_config(ip(1, 1, 1, 1), config_result("ESP01_DW_01")).unwrap();
    let payload = b"{\"method\":\"getPilot\",\"env\":\"pro\",\"result\":{\"mac\":\"m\",\"rssi\":-63,\"state\":true,\"sceneId\":0,\"dimming\":100}}".to_vec();
    assert_eq!(device.rssi_from_payload(payload).unwrap(), -63);
}

#[test]
fn pilot_accumulator_builds_a_full_request() {
    let pilot = Pilot::default().on().rgbcw(RGBCW::new(9, 8, 7, 6, 5)).brightness(50);
    let request = pilot.build_request();
    assert_eq!(
        request.encode(),
        "{\"method\":\"setPilot\",\"params\":{\"state\":true,\"r\":9,\"g\":8,\"b\":7,\"c\":6,\"w\":5,\"dimming\":50}}"
    );
}

#[test]
fn pilot_accumulator_defaults_to_no_change() {
    let request = Pilot::default().build_request();
    assert_eq!(request.encode(), "{\"method\":\"setPilot\",\"params\":{}}");
}
