use wizctl::capability::{BulbKind, DeviceKind};
use wizctl::device::DeviceError;

#[test]
fn classifies_a_socket_as_plug() {
    let kind = DeviceKind::from_module_name("ESP01_SOCKET_01").unwrap();
    assert_eq!(kind, DeviceKind::Plug);
}

#[test]
fn classifies_rgb_with_abi_suffix_as_light_strip() {
    let kind = DeviceKind::from_module_name("ESP25_RGB_01ABI").unwrap();
    assert_eq!(kind, DeviceKind::LightStrip);
}

#[test]
fn classifies_rgb_without_abi_suffix_as_color_bulb() {
    let kind = DeviceKind::from_module_name("ESP25_RGB_01").unwrap();
    assert_eq!(kind, DeviceKind::Bulb(BulbKind::Color));
}

#[test]
fn classifies_dw_as_dimmable_white_bulb() {
    let kind = DeviceKind::from_module_name("ESP01_DW_01").unwrap();
    assert_eq!(kind, DeviceKind::Bulb(BulbKind::DimmableWhite));
}

#[test]
fn classifies_tw_as_tunable_white_bulb() {
    let kind = DeviceKind::from_module_name("ESP56_SHTW3_01").unwrap();
    assert_eq!(kind, DeviceKind::Bulb(BulbKind::TunableWhite));
}

#[test]
fn tw_takes_priority_over_dw_and_rgb() {
    let kind = DeviceKind::from_module_name("ESP01_SHRGBTW_01").unwrap();
    assert_eq!(kind, DeviceKind::Bulb(BulbKind::TunableWhite));
}

#[test]
fn rejects_garbage_identifier() {
    let err = DeviceKind::from_module_name("garbage").unwrap_err();
    match err {
        DeviceError::UnrecognizedModuleName(raw) => assert_eq!(raw, "garbage"),
        _ => panic!("expected the unrecognized-identifier error"),
    }
}

#[test]
fn rejects_well_formed_identifier_with_unknown_token() {
    let err = DeviceKind::from_module_name("ESP01_XYZ_01").unwrap_err();
    assert!(matches!(err, DeviceError::UnrecognizedModuleName(_)));
}

#[test]
fn rejects_identifier_without_trailing_digits() {
    assert!(DeviceKind::from_module_name("ESP01_SOCKET_").is_err());
    assert!(DeviceKind::from_module_name("ESP01_SOCKET").is_err());
    assert!(DeviceKind::from_module_name("").is_err());
}

#[test]
fn plug_is_neither_dimmable_nor_color() {
    assert!(!DeviceKind::Plug.is_dimmable());
    assert!(!DeviceKind::Plug.is_color());
}

#[test]
fn every_bulb_is_dimmable() {
    assert!(DeviceKind::Bulb(BulbKind::DimmableWhite).is_dimmable());
    assert!(DeviceKind::Bulb(BulbKind::TunableWhite).is_dimmable());
    assert!(DeviceKind::Bulb(BulbKind::Color).is_dimmable());
}

#[test]
fn light_strip_is_dimmable_and_color() {
    assert!(DeviceKind::LightStrip.is_dimmable());
    assert!(DeviceKind::LightStrip.is_color());
}

#[test]
fn only_color_bulbs_support_color() {
    assert!(!DeviceKind::Bulb(BulbKind::DimmableWhite).is_color());
    assert!(!DeviceKind::Bulb(BulbKind::TunableWhite).is_color());
    assert!(DeviceKind::Bulb(BulbKind::Color).is_color());
}

#[test]
fn describes_each_kind() {
    assert_eq!(DeviceKind::Plug.describe(), "Plug");
    assert_eq!(DeviceKind::LightStrip.describe(), "Light Strip");
    assert_eq!(DeviceKind::Bulb(BulbKind::Color).describe(), "Color Bulb");
}
