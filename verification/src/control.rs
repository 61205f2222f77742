//! An ungated accumulator for "set pilot" parameters: a plain value that
//! collects the state, color and brightness a caller wants, and turns
//! them into one request. Capability gating belongs to the device
//! facade; this form serves callers that address a device by bare
//! address.

use vstd::prelude::*;

use crate::color::RGBCW;
use crate::messages::SetPilotRequest;
use crate::messages::SetPilotRequestParams;

verus! {

/// A control operation that could not be carried out.
pub struct ControlError {}

/// The accumulated settings: each starts unset and an unset field is
/// left off the wire.
pub struct Pilot {
    pub state: Option<bool>,
    pub rgbcw: Option<RGBCW>,
    pub dimming: Option<u8>,
}

impl Default for Pilot {
    /// Nothing set: building from this changes nothing on the device.
    fn default() -> (r: Self)
        ensures
            r.state is None && r.rgbcw is None && r.dimming is None,
    {
        Pilot { state: None, rgbcw: None, dimming: None }
    }
}

impl Pilot {
    /// Sets the power state to on, leaving the rest as accumulated.
    pub fn on(self) -> (r: Self)
        ensures
            r.state == Some(true),
            r.rgbcw == self.rgbcw,
            r.dimming == self.dimming,
    {
        Pilot { state: Some(true), ..self }
    }

    /// Sets the power state to off, leaving the rest as accumulated.
    pub fn off(self) -> (r: Self)
        ensures
            r.state == Some(false),
            r.rgbcw == self.rgbcw,
            r.dimming == self.dimming,
    {
        Pilot { state: Some(false), ..self }
    }

    /// Sets the color, leaving the rest as accumulated.
    pub fn rgbcw(self, rgbcw: RGBCW) -> (r: Self)
        ensures
            r.rgbcw == Some(rgbcw),
            r.state == self.state,
            r.dimming == self.dimming,
    {
        Pilot { rgbcw: Some(rgbcw), ..self }
    }

    /// Sets the brightness, leaving the rest as accumulated.
    pub fn brightness(self, brightness: u8) -> (r: Self)
        ensures
            r.dimming == Some(brightness),
            r.state == self.state,
            r.rgbcw == self.rgbcw,
    {
        Pilot { dimming: Some(brightness), ..self }
    }

    /// The parameters these settings put on the wire: the five channels
    /// of the color together, each other field on its own.
    pub open spec fn params_spec(&self) -> SetPilotRequestParams {
        SetPilotRequestParams {
            state: self.state,
            r: (match self.rgbcw {
                Some(v) => Some(v.r),
                None => None,
            }),
            g: (match self.rgbcw {
                Some(v) => Some(v.g),
                None => None,
            }),
            b: (match self.rgbcw {
                Some(v) => Some(v.b),
                None => None,
            }),
            c: (match self.rgbcw {
                Some(v) => Some(v.c),
                None => None,
            }),
            w: (match self.rgbcw {
                Some(v) => Some(v.w),
                None => None,
            }),
            dimming: self.dimming,
        }
    }

    /// One "set pilot" request carrying everything accumulated so far.
    pub fn build_request(&self) -> (r: SetPilotRequest)
        ensures
            r.params == self.params_spec(),
    {
        let mut params = SetPilotRequestParams::default();
        params.state = self.state;
        match &self.rgbcw {
            Some(v) => {
                params.r = Some(*v.r());
                params.g = Some(*v.g());
                params.b = Some(*v.b());
                params.c = Some(*v.c());
                params.w = Some(*v.w());
            },
            None => {},
        }
        params.dimming = self.dimming;
        SetPilotRequest { params }
    }
}

} // verus!
