use wizctl::codec::{decode_get_power_response, decode_get_pilot_response,
    decode_model_config_response, decode_set_pilot_response, decode_system_config_response,
    datagram_text, CodecError};
use wizctl::messages::{ErrorResponse, ErrorResponseError, GetModelConfigRequest,
    GetModelConfigResponse, GetModelConfigResponseResult, GetPilotRequest, GetPilotResponse,
    GetPilotResponseResult, GetPowerRequest, GetPowerResponse, GetPowerResponseResult,
    GetSystemConfigRequest, GetSystemConfigResponse, GetSystemConfigResponseResult,
    SetPilotRequest, SetPilotResponse, SetPilotResponseResult, SetResponse};

#[test]
fn encodes_parameterless_requests() {
    assert_eq!(GetPilotRequest::default().encode(), "{\"method\":\"getPilot\"}");
    assert_eq!(
        GetSystemConfigRequest::default().encode(),
        "{\"method\":\"getSystemConfig\"}"
    );
    assert_eq!(
        GetModelConfigRequest::default().encode(),
        "{\"method\":\"getModelConfig\"}"
    );
    assert_eq!(GetPowerRequest::default().encode(), "{\"method\":\"getPower\"}");
}

#[test]
fn encodes_set_pilot_on_and_off() {
    assert_eq!(
        SetPilotRequest::on().encode(),
        "{\"method\":\"setPilot\",\"params\":{\"state\":true}}"
    );
    assert_eq!(
        SetPilotRequest::off().encode(),
        "{\"method\":\"setPilot\",\"params\":{\"state\":false}}"
    );
}

#[test]
fn encodes_set_pilot_color() {
    let rgbcw = wizctl::color::RGBCW::new(255, 250, 245, 1, 2);
    let request = SetPilotRequest::color(&rgbcw);
    assert_eq!(
        request.encode(),
        "{\"method\":\"setPilot\",\"params\":{\"r\":255,\"g\":250,\"b\":245,\"c\":1,\"w\":2}}"
    );
}

#[test]
fn encoded_requests_parse_as_json() {
    let text = SetPilotRequest::on().encode();
    let value: serde_json::Value = serde_json::from_str(&text).unwrap();
    assert_eq!(value["method"], "setPilot");
    assert_eq!(value["params"]["state"], true);

    let text = GetSystemConfigRequest::default().encode();
    let value: serde_json::Value = serde_json::from_str(&text).unwrap();
    assert_eq!(value["method"], "getSystemConfig");
}

#[test]
fn decodes_set_pilot_success() {
    let text = "{\"method\":\"setPilot\",\"env\":\"pro\",\"result\":{\"success\":true}}";
    let resp = decode_set_pilot_response(text).unwrap();
    assert_eq!(resp.method, "setPilot");
    assert_eq!(resp.env, "pro");
    assert!(resp.result.success);
    assert!(resp.success());
}

#[test]
fn decodes_set_pilot_failure_flag() {
    let text = "{\"method\":\"setPilot\",\"env\":\"pro\",\"result\":{\"success\":false}}";
    let resp = decode_set_pilot_response(text).unwrap();
    assert!(!resp.result.success);
}

#[test]
fn set_pilot_round_trips_through_encode() {
    let resp = SetPilotResponse {
        method: "setPilot".to_string(),
        env: "pro".to_string(),
        result: SetPilotResponseResult { success: true },
    };
    let text = resp.encode();
    let back = decode_set_pilot_response(&text).unwrap();
    assert_eq!(back.method, "setPilot");
    assert_eq!(back.env, "pro");
    assert!(back.result.success);
}

#[test]
fn decodes_error_envelope_as_protocol_error() {
    let text = "{\"method\":\"getPower\",\"env\":\"pro\",\"error\":{\"code\":-32601,\"message\":\"Method not found\"}}";
    let err = decode_get_power_response(text).unwrap_err();
    match err {
        CodecError::ProtocolError { code, message } => {
            assert_eq!(code, -32601);
            assert_eq!(message, "Method not found");
        }
        _ => panic!("expected the protocol error"),
    }
}

#[test]
fn error_shape_wins_even_with_result_present() {
    let text = "{\"method\":\"setPilot\",\"env\":\"pro\",\"error\":{\"code\":5,\"message\":\"busy\"},\"result\":{\"success\":true}}";
    let err = decode_set_pilot_response(text).unwrap_err();
    assert!(matches!(err, CodecError::ProtocolError { code: 5, .. }));
}

#[test]
fn error_envelope_encode_round_trips() {
    let resp = ErrorResponse {
        method: "getPower".to_string(),
        env: "pro".to_string(),
        error: ErrorResponseError { code: -32601, message: "Method not found".to_string() },
    };
    let text = resp.encode();
    let err = decode_get_power_response(&text).unwrap_err();
    assert!(matches!(err, CodecError::ProtocolError { code: -32601, .. }));
}

#[test]
fn unknown_shape_is_surfaced_with_raw_text() {
    let text = "{\"method\":\"setPilot\",\"env\":\"pro\"}";
    let err = decode_set_pilot_response(text).unwrap_err();
    match err {
        CodecError::UnrecognizedResponse { raw } => assert_eq!(raw, text),
        _ => panic!("expected the unrecognized-response error"),
    }
}

#[test]
fn malformed_text_is_surfaced_with_raw_text() {
    let text = "not json at all";
    let err = decode_set_pilot_response(text).unwrap_err();
    match err {
        CodecError::UnrecognizedResponse { raw } => assert_eq!(raw, text),
        _ => panic!("expected the unrecognized-response error"),
    }
}

#[test]
fn invalid_utf8_is_an_encoding_error() {
    let err = datagram_text(vec![0xff, 0xfe, b'{']).unwrap_err();
    assert!(matches!(err, CodecError::EncodingError));
}

#[test]
fn valid_utf8_bytes_become_text() {
    let text = datagram_text(b"{\"a\":1}".to_vec()).unwrap();
    assert_eq!(text, "{\"a\":1}");
}

#[test]
fn decodes_get_pilot_with_optional_channels_absent() {
    let text = "{\"method\":\"getPilot\",\"env\":\"pro\",\"result\":{\"mac\":\"a8bb5006033d\",\"rssi\":-60,\"state\":true,\"sceneId\":0,\"dimming\":42}}";
    let resp = decode_get_pilot_response(text).unwrap();
    assert_eq!(resp.result.mac, "a8bb5006033d");
    assert_eq!(resp.result.rssi, -60);
    assert!(resp.result.state);
    assert_eq!(resp.result.scene_id, 0);
    assert_eq!(resp.result.r, None);
    assert_eq!(resp.result.w, None);
    assert_eq!(resp.result.dimming, 42);
}

#[test]
fn decodes_get_pilot_with_channels_present() {
    let text = "{\"method\":\"getPilot\",\"env\":\"pro\",\"result\":{\"mac\":\"a8bb5006033d\",\"rssi\":-45,\"state\":false,\"sceneId\":3,\"r\":255,\"g\":0,\"b\":10,\"c\":0,\"w\":0,\"dimming\":100}}";
    let resp = decode_get_pilot_response(text).unwrap();
    assert_eq!(resp.result.r, Some(255));
    assert_eq!(resp.result.g, Some(0));
    assert_eq!(resp.result.b, Some(10));
    assert!(!resp.result.state);
    assert_eq!(resp.result.scene_id, 3);
}

#[test]
fn get_pilot_accepts_any_member_order() {
    let text = "{\"env\":\"pro\",\"result\":{\"dimming\":42,\"state\":true,\"rssi\":-60,\"sceneId\":0,\"mac\":\"m\"},\"method\":\"getPilot\"}";
    let resp = decode_get_pilot_response(text).unwrap();
    assert_eq!(resp.result.dimming, 42);
    assert_eq!(resp.result.mac, "m");
}

#[test]
fn get_pilot_round_trips_through_encode() {
    let resp = GetPilotResponse {
        method: "getPilot".to_string(),
        env: "pro".to_string(),
        result: GetPilotResponseResult {
            mac: "a8bb5006033d".to_string(),
            rssi: -72,
            state: true,
            scene_id: 1,
            r: Some(7),
            g: None,
            b: Some(0),
            c: None,
            w: Some(255),
            dimming: 13,
        },
    };
    let text = resp.encode();
    let back = decode_get_pilot_response(&text).unwrap();
    assert_eq!(back.result.mac, "a8bb5006033d");
    assert_eq!(back.result.rssi, -72);
    assert_eq!(back.result.r, Some(7));
    assert_eq!(back.result.g, None);
    assert_eq!(back.result.w, Some(255));
    assert_eq!(back.result.dimming, 13);
}

#[test]
fn decodes_system_config() {
    let text = "{\"method\":\"getSystemConfig\",\"env\":\"pro\",\"result\":{\"mac\":\"a8bb5006033d\",\"homeId\":649402,\"roomId\":989983,\"rgn\":\"eu\",\"moduleName\":\"ESP01_SHRGB1C_31\",\"fwVersion\":\"1.17.1\",\"groupId\":0,\"ping\":0}}";
    let resp = decode_system_config_response(text).unwrap();
    assert_eq!(resp.result.mac, "a8bb5006033d");
    assert_eq!(resp.result.home_id, 649402);
    assert_eq!(resp.result.room_id, 989983);
    assert_eq!(resp.result.rgn, "eu");
    assert_eq!(resp.result.module_name, "ESP01_SHRGB1C_31");
    assert_eq!(resp.result.fw_version, "1.17.1");
}

#[test]
fn system_config_round_trips_through_encode() {
    let resp = GetSystemConfigResponse {
        method: "getSystemConfig".to_string(),
        env: "pro".to_string(),
        result: GetSystemConfigResponseResult {
            mac: "a8bb5006033d".to_string(),
            home_id: 649402,
            room_id: 989983,
            rgn: "eu".to_string(),
            module_name: "ESP01_SHRGB1C_31".to_string(),
            fw_version: "1.17.1".to_string(),
            group_id: 0,
            ping: 0,
        },
    };
    let text = resp.encode();
    let back = decode_system_config_response(&text).unwrap();
    assert_eq!(back.result.module_name, "ESP01_SHRGB1C_31");
    assert_eq!(back.result.home_id, 649402);
}

#[test]
fn decodes_get_power() {
    let text = "{\"method\":\"getPower\",\"env\":\"pro\",\"result\":{\"power\":1201465}}";
    let resp = decode_get_power_response(text).unwrap();
    assert_eq!(resp.result.power, 1201465);
}

#[test]
fn get_power_round_trips_through_encode() {
    let resp = GetPowerResponse {
        method: "getPower".to_string(),
        env: "pro".to_string(),
        result: GetPowerResponseResult { power: 7 },
    };
    let back = decode_get_power_response(&resp.encode()).unwrap();
    assert_eq!(back.result.power, 7);
}

#[test]
fn decodes_model_config_with_arrays() {
    let text = "{\"method\":\"getModelConfig\",\"env\":\"pro\",\"result\":{\"ps\":1,\"pwmFreq\":1000,\"pwmRange\":[3,100],\"wcr\":20,\"nowc\":1,\"cctRange\":[2200,2700,6500,6500],\"renderFactor\":[171,255,75,255,43,85,0,0,0,0],\"srvIface\":0}}";
    let resp = decode_model_config_response(text).unwrap();
    assert_eq!(resp.result.ps, 1);
    assert_eq!(resp.result.pwm_freq, 1000);
    assert_eq!(resp.result.pwm_range, vec![3, 100]);
    assert_eq!(resp.result.cct_range, vec![2200, 2700, 6500, 6500]);
    assert_eq!(resp.result.render_factor.len(), 10);
    assert_eq!(resp.result.drv_iface, Some(0));
}

#[test]
fn model_config_round_trips_through_encode() {
    let resp = GetModelConfigResponse {
        method: "getModelConfig".to_string(),
        env: "pro".to_string(),
        result: GetModelConfigResponseResult {
            ps: 1,
            pwm_freq: 200,
            pwm_range: vec![0, 100],
            wcr: 20,
            nowc: 1,
            cct_range: vec![2700, 2700, 6500, 6500],
            render_factor: vec![255, 0, 0, 0, 0, 0, 0, 0, 0, 0],
            drv_iface: None,
        },
    };
    let back = decode_model_config_response(&resp.encode()).unwrap();
    assert_eq!(back.result.pwm_range, vec![0, 100]);
    assert_eq!(back.result.drv_iface, None);
}

#[test]
fn rejects_out_of_range_field_values() {
    let text = "{\"method\":\"getPilot\",\"env\":\"pro\",\"result\":{\"mac\":\"m\",\"rssi\":-300,\"state\":true,\"sceneId\":0,\"dimming\":42}}";
    let err = decode_get_pilot_response(text).unwrap_err();
    assert!(matches!(err, CodecError::UnrecognizedResponse { .. }));
}

#[test]
fn rejects_trailing_garbage() {
    let text = "{\"method\":\"setPilot\",\"env\":\"pro\",\"result\":{\"success\":true}}x";
    let err = decode_set_pilot_response(text).unwrap_err();
    assert!(matches!(err, CodecError::UnrecognizedResponse { .. }));
}

#[test]
fn string_escapes_round_trip() {
    let resp = SetPilotResponse {
        method: "set\"Pi\\lot".to_string(),
        env: "pro".to_string(),
        result: SetPilotResponseResult { success: true },
    };
    let text = resp.encode();
    let back = decode_set_pilot_response(&text).unwrap();
    assert_eq!(back.method, "set\"Pi\\lot");
}

#[test]
fn negative_and_large_integers_decode() {
    let text = "{\"method\":\"getSystemConfig\",\"env\":\"pro\",\"result\":{\"mac\":\"m\",\"homeId\":9223372036854775807,\"roomId\":0,\"rgn\":\"eu\",\"moduleName\":\"ESP01_SHDW_01\",\"fwVersion\":\"1\",\"groupId\":1,\"ping\":0}}";
    let resp = decode_system_config_response(text).unwrap();
    assert_eq!(resp.result.home_id, 9223372036854775807);
}
