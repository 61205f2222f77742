//! The device facade: a discovered or connected device, its classified
//! kind, and the capability-gated builder for state changes.
//!
//! The facade computes; it does not touch a socket. The caller sends the
//! bytes a builder produces and feeds the reply bytes back in, so every
//! decision — classification, gating, response interpretation — is made
//! by verified code.

use vstd::prelude::*;

use crate::capability::DeviceKind;
use crate::capability::classify_spec;
use crate::codec::CodecError;
use crate::codec::ResponseClass;
use crate::codec::classify_datagram;
use crate::codec::datagram_text;
use crate::codec::decode_get_pilot_response;
use crate::codec::decode_set_pilot_response;
use crate::codec::decode_system_config_response;
use crate::color::RGBCW;
use crate::messages::GetSystemConfigResponseResult;
use crate::messages::SetResponse;
use crate::messages::SetPilotRequest;
use crate::messages::SetPilotRequestParams;
use crate::messages::get_pilot_response_of;
use crate::messages::set_pilot_response_of;
use crate::messages::system_config_response_of;
use crate::network::Datagram;
use crate::network::IpAddress;

verus! {

/// Why a facade operation failed.
#[derive(Debug)]
pub enum DeviceError {
    /// The configuration round trip failed in the codec.
    ConnectError(CodecError),
    /// The device's module identifier fits no known kind; carries the
    /// identifier.
    UnrecognizedModuleName(String),
    /// A state-change round trip failed in the codec.
    SetPilotError(CodecError),
    /// The command is not valid for this kind of device; carries the
    /// kind and the command's name. Raised before anything is sent.
    UnsupportedCommand(DeviceKind, String),
    /// The device accepted the request but reported failure.
    UnsuccessfulRequest,
}

/// One known device: its address, its reported hardware address, and
/// its classified kind, fixed at construction.
#[derive(Debug)]
pub struct Device {
    ip: IpAddress,
    mac: String,
    kind: DeviceKind,
}

impl View for Device {
    type V = (IpAddress, Seq<char>, DeviceKind);

    closed spec fn view(&self) -> (IpAddress, Seq<char>, DeviceKind) {
        (self.ip, self.mac@, self.kind)
    }
}

/// How a configuration reply read from `bytes` names a device at `ip`:
/// the payload must decode as a "get system configuration" success
/// envelope whose module identifier classifies.
pub open spec fn device_reading(ip: IpAddress, bytes: Seq<u8>) -> Option<
    (IpAddress, Seq<char>, DeviceKind),
> {
    match classify_datagram(bytes) {
        ResponseClass::Payload(doc) => match system_config_response_of(doc) {
            Some((m, e, p)) => match classify_spec(p.module_name) {
                Some(kind) => Some((ip, p.mac, kind)),
                None => None,
            },
            None => None,
        },
        _ => None,
    }
}

impl Device {
    /// Builds a device from an already-decoded configuration result.
    pub fn from_system_config(ip: IpAddress, config: GetSystemConfigResponseResult) -> (r: Result<
        Device,
        DeviceError,
    >)
        ensures
            (match r {
                Ok(dev) => classify_spec(config.module_name@) == Some(dev@.2) && dev@.0 == ip
                    && dev@.1 == config.mac@,
                Err(DeviceError::UnrecognizedModuleName(raw)) => raw@ == config.module_name@
                    && classify_spec(config.module_name@) is None,
                Err(_) => false,
            }),
    {
        match DeviceKind::from_module_name(config.module_name.as_str()) {
            Ok(kind) => Ok(Device { ip, mac: config.mac, kind }),
            Err(e) => Err(e),
        }
    }

    /// Builds the device that a configuration reply from `ip` names, as
    /// [`device_reading`] describes. A reply that does not decode is a
    /// connection failure; one whose module identifier does not classify
    /// is surfaced with that identifier.
    pub fn from_config_payload(ip: IpAddress, payload: Vec<u8>) -> (r: Result<Device, DeviceError>)
        ensures
            (match r {
                Ok(dev) => device_reading(ip, payload@) == Some(dev@),
                Err(_) => device_reading(ip, payload@) is None,
            }),
    {
        let text = match datagram_text(payload) {
            Ok(text) => text,
            Err(e) => {
                return Err(DeviceError::ConnectError(e));
            },
        };
        let resp = match decode_system_config_response(text.as_str()) {
            Ok(resp) => resp,
            Err(e) => {
                return Err(DeviceError::ConnectError(e));
            },
        };
        Device::from_system_config(ip, resp.result)
    }

    pub fn ip(&self) -> (r: &IpAddress)
        ensures
            r == self@.0,
    {
        &self.ip
    }

    pub fn mac(&self) -> (r: &str)
        ensures
            r@ == self@.1,
    {
        self.mac.as_str()
    }

    pub fn kind(&self) -> (r: &DeviceKind)
        ensures
            r == self@.2,
    {
        &self.kind
    }

    /// Starts accumulating a state change for this device.
    pub fn set_pilot(self) -> (r: SetPilotBuilder)
        ensures
            r.device == self,
            r.params == SetPilotRequestParams::empty_spec(),
    {
        SetPilotBuilder { device: self, params: SetPilotRequestParams::default() }
    }

    /// Reads the signal strength out of a "get pilot" reply from this
    /// device.
    pub fn rssi_from_payload(&self, payload: Vec<u8>) -> (r: Result<i8, DeviceError>)
        ensures
            (match r {
                Ok(rssi) => (classify_datagram(payload@) matches ResponseClass::Payload(doc)
                    && get_pilot_response_of(doc) matches Some(t) && t.2.rssi == rssi as int),
                Err(DeviceError::ConnectError(_)) => !(classify_datagram(payload@) matches
                    ResponseClass::Payload(doc) && get_pilot_response_of(doc) is Some),
                Err(_) => false,
            }),
    {
        let text = match datagram_text(payload) {
            Ok(text) => text,
            Err(e) => {
                return Err(DeviceError::ConnectError(e));
            },
        };
        match decode_get_pilot_response(text.as_str()) {
            Ok(resp) => Ok(resp.result.rssi),
            Err(e) => Err(DeviceError::ConnectError(e)),
        }
    }
}

impl SetPilotRequestParams {
    /// The all-unset parameter block.
    pub open spec fn empty_spec() -> SetPilotRequestParams {
        SetPilotRequestParams {
            state: None,
            r: None,
            g: None,
            b: None,
            c: None,
            w: None,
            dimming: None,
        }
    }
}

/// Accumulates a state change for one device, refusing what the
/// device's kind cannot do before anything reaches the network.
#[derive(Debug)]
pub struct SetPilotBuilder {
    pub device: Device,
    pub params: SetPilotRequestParams,
}

impl SetPilotBuilder {
    /// Turns the device on.
    pub fn on(self) -> (r: Self)
        ensures
            r.device == self.device,
            r.params == (SetPilotRequestParams { state: Some(true), ..self.params }),
    {
        let mut params = self.params;
        params.state = Some(true);
        SetPilotBuilder { device: self.device, params }
    }

    /// Turns the device off.
    pub fn off(self) -> (r: Self)
        ensures
            r.device == self.device,
            r.params == (SetPilotRequestParams { state: Some(false), ..self.params }),
    {
        let mut params = self.params;
        params.state = Some(false);
        SetPilotBuilder { device: self.device, params }
    }

    /// Sets the color, which only color-capable kinds accept: on any
    /// other kind this fails before any network traffic, with the kind
    /// and the command name.
    pub fn rgbcw(self, value: RGBCW) -> (r: Result<Self, DeviceError>)
        ensures
            (match r {
                Ok(b) => crate::capability::spec_is_color(self.device@.2) && b.device
                    == self.device && b.params == (SetPilotRequestParams {
                    r: Some(value.r),
                    g: Some(value.g),
                    b: Some(value.b),
                    c: Some(value.c),
                    w: Some(value.w),
                    ..self.params
                }),
                Err(DeviceError::UnsupportedCommand(kind, _)) => !crate::capability::spec_is_color(
                    self.device@.2,
                ) && kind == self.device@.2,
                Err(_) => false,
            }),
    {
        if !self.device.kind().is_color() {
            Err(
                DeviceError::UnsupportedCommand(
                    *self.device.kind(),
                    String::from_str("setting color"),
                ),
            )
        } else {
            let mut params = self.params;
            params.r = Some(*value.r());
            params.g = Some(*value.g());
            params.b = Some(*value.b());
            params.c = Some(*value.c());
            params.w = Some(*value.w());
            Ok(SetPilotBuilder { device: self.device, params })
        }
    }

    /// Sets the brightness, which every kind but a plug accepts: on a
    /// plug this fails before any network traffic, with the kind and
    /// the command name.
    pub fn brightness(self, value: u8) -> (r: Result<Self, DeviceError>)
        ensures
            (match r {
                Ok(b) => crate::capability::spec_is_dimmable(self.device@.2) && b.device
                    == self.device && b.params == (SetPilotRequestParams {
                    dimming: Some(value),
                    ..self.params
                }),
                Err(DeviceError::UnsupportedCommand(kind, _)) =>
                    !crate::capability::spec_is_dimmable(self.device@.2) && kind == self.device@.2,
                Err(_) => false,
            }),
    {
        if !self.device.kind().is_dimmable() {
            Err(
                DeviceError::UnsupportedCommand(
                    *self.device.kind(),
                    String::from_str("setting brightness"),
                ),
            )
        } else {
            let mut params = self.params;
            params.dimming = Some(value);
            Ok(SetPilotBuilder { device: self.device, params })
        }
    }

    /// The one request carrying everything accumulated, and the device
    /// it is for.
    pub fn build(self) -> (r: (SetPilotRequest, Device))
        ensures
            r.0.params == self.params,
            r.1 == self.device,
    {
        (SetPilotRequest { params: self.params }, self.device)
    }
}

/// How a "set pilot" reply reads: the device's verdict on the change.
pub open spec fn set_outcome_reading(bytes: Seq<u8>) -> Option<bool> {
    match classify_datagram(bytes) {
        ResponseClass::Payload(doc) => match set_pilot_response_of(doc) {
            Some((m, e, success)) => Some(success),
            None => None,
        },
        _ => None,
    }
}

/// Interprets a "set pilot" reply: a well-formed success envelope whose
/// flag is false fails with the device's refusal; one whose flag is true
/// succeeds; anything else is a codec failure.
pub fn parse_set_pilot_outcome(payload: Vec<u8>) -> (r: Result<(), DeviceError>)
    ensures
        (match r {
            Ok(()) => set_outcome_reading(payload@) == Some(true),
            Err(DeviceError::UnsuccessfulRequest) => set_outcome_reading(payload@) == Some(false),
            Err(DeviceError::SetPilotError(_)) => set_outcome_reading(payload@) is None,
            Err(_) => false,
        }),
{
    let text = match datagram_text(payload) {
        Ok(text) => text,
        Err(e) => {
            return Err(DeviceError::SetPilotError(e));
        },
    };
    match decode_set_pilot_response(text.as_str()) {
        Ok(resp) => {
            if resp.success() {
                Ok(())
            } else {
                Err(DeviceError::UnsuccessfulRequest)
            }
        },
        Err(e) => Err(DeviceError::SetPilotError(e)),
    }
}

/// End to end: the bytes of a synthetic "set pilot" success envelope
/// read back as exactly the verdict that was put in, so a reply whose
/// flag is false can never pass for success.
pub proof fn lemma_set_pilot_outcome_end_to_end(m: Seq<char>, e: Seq<char>, success: bool)
    ensures
        ({
            let text = crate::json::ser_json(
                crate::messages::success_envelope(
                    m,
                    e,
                    crate::messages::set_pilot_result_data(success),
                ),
            );
            set_outcome_reading(vstd::utf8::encode_utf8(text)) == Some(success)
        }),
{
    let d = crate::messages::success_envelope(m, e, crate::messages::set_pilot_result_data(success));
    let text = crate::json::ser_json(d);
    vstd::utf8::encode_utf8_valid_utf8(text);
    vstd::utf8::encode_utf8_decode_utf8(text);
    crate::codec::lemma_set_pilot_round_trip(m, e, success);
}

/// The devices named by a batch of discovery replies, in arrival order:
/// each reply that reads as a configuration from a classifiable device
/// contributes one device, and a reply that does not is skipped without
/// voiding the rest.
pub open spec fn devices_of(ds: Seq<Datagram>) -> Seq<(IpAddress, Seq<char>, DeviceKind)>
    decreases ds.len(),
{
    if ds.len() == 0 {
        Seq::empty()
    } else {
        devices_of(ds.drop_last()) + (match device_reading(ds.last().source_ip, ds.last().data@) {
            Some(t) => seq![t],
            None => Seq::empty(),
        })
    }
}

/// Builds one device per classifiable discovery reply, as [`devices_of`]
/// describes.
pub fn devices_from_datagrams(datagrams: Vec<Datagram>) -> (r: Vec<Device>)
    ensures
        r@.map_values(|d: Device| d@) == devices_of(datagrams@),
{
    let ghost gds = datagrams@;
    let mut out: Vec<Device> = Vec::new();
    let mut rest = datagrams;
    let ghost mut i: int = 0;
    proof {
        assert(gds.take(0) =~= Seq::<Datagram>::empty());
        assert(out@.map_values(|d: Device| d@) =~= devices_of(gds.take(0)));
        assert(rest@ =~= gds.skip(0));
    }
    loop
        invariant
            0 <= i <= gds.len(),
            rest@ == gds.skip(i),
            out@.map_values(|d: Device| d@) == devices_of(gds.take(i)),
        ensures
            i == gds.len(),
            out@.map_values(|d: Device| d@) == devices_of(gds.take(i)),
        decreases gds.len() - i,
    {
        if rest.len() == 0 {
            break ;
        }
        let d = rest.remove(0);
        assert(d == gds[i]);
        proof {
            assert(gds.take(i + 1).drop_last() =~= gds.take(i));
            assert(gds.take(i + 1).last() == gds[i]);
            assert(gds.skip(i).drop_first() =~= gds.skip(i + 1));
        }
        let ip = d.source_ip;
        match Device::from_config_payload(ip, d.data) {
            Ok(dev) => {
                let ghost prev = out@;
                out.push(dev);
                proof {
                    assert(out@.map_values(|x: Device| x@) =~= prev.map_values(|x: Device| x@)
                        + seq![dev@]);
                }
            },
            Err(_) => {},
        }
        proof {
            i = i + 1;
        }
    }
    proof {
        assert(gds.take(gds.len() as int) =~= gds);
    }
    out
}

} // verus!
