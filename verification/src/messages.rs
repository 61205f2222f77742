//! The protocol's typed messages: one request and one response type per
//! method, with encoding to the JSON wire form and decoding back.
//!
//! A request goes on the wire as `{"method":"<name>"}`, with a `params`
//! object added for the one method that mutates state. Optional params
//! are left off the wire entirely when unset, so that an omitted field
//! can never override device state.

use vstd::prelude::*;

use crate::json::JsonData;
use crate::json::JsonValue;
use crate::json::field_views_of_seq;
use crate::json::obj_lookup;
use crate::json::ser_json;
use crate::json::view_of;

verus! {

broadcast use vstd::seq::group_seq_axioms, vstd::std_specs::vec::group_vec_axioms;

/// A member's string value, if the document is an object holding one.
pub open spec fn str_field(d: JsonData, key: Seq<char>) -> Option<Seq<char>> {
    match obj_lookup(d, key) {
        Some(JsonData::Str(s)) => Some(s),
        _ => None,
    }
}

/// A member's integer value, if the document is an object holding one.
pub open spec fn int_field(d: JsonData, key: Seq<char>) -> Option<int> {
    match obj_lookup(d, key) {
        Some(JsonData::Int(n)) => Some(n),
        _ => None,
    }
}

/// A member's boolean value, if the document is an object holding one.
pub open spec fn bool_field(d: JsonData, key: Seq<char>) -> Option<bool> {
    match obj_lookup(d, key) {
        Some(JsonData::Bool(b)) => Some(b),
        _ => None,
    }
}

/// A member's value of any shape.
pub open spec fn any_field(d: JsonData, key: Seq<char>) -> Option<JsonData> {
    obj_lookup(d, key)
}

/// A member's integer value within the given bounds, if any.
pub open spec fn int_field_in(d: JsonData, key: Seq<char>, lo: int, hi: int) -> Option<int> {
    match int_field(d, key) {
        Some(n) => if lo <= n <= hi {
            Some(n)
        } else {
            None
        },
        None => None,
    }
}

impl JsonValue {
    /// The member's string value, cloned out of this object.
    pub fn get_str(&self, key: &str) -> (r: Option<String>)
        ensures
            (match r {
                Some(s) => str_field(self@, key@) == Some(s@),
                None => str_field(self@, key@) is None,
            }),
    {
        match self.get(key) {
            Some(JsonValue::Str(s)) => Some(s.clone()),
            _ => None,
        }
    }

    /// The member's integer value.
    pub fn get_int(&self, key: &str) -> (r: Option<i64>)
        ensures
            (match r {
                Some(n) => int_field(self@, key@) == Some(n as int),
                None => int_field(self@, key@) is None,
            }),
    {
        match self.get(key) {
            Some(JsonValue::Int(n)) => Some(*n),
            _ => None,
        }
    }

    /// The member's boolean value.
    pub fn get_bool(&self, key: &str) -> (r: Option<bool>)
        ensures
            (match r {
                Some(b) => bool_field(self@, key@) == Some(b),
                None => bool_field(self@, key@) is None,
            }),
    {
        match self.get(key) {
            Some(JsonValue::Bool(b)) => Some(*b),
            _ => None,
        }
    }
}

/// The wire form of a request without parameters.
pub open spec fn method_request_data(method: Seq<char>) -> JsonData {
    JsonData::Obj(seq![("method"@, JsonData::Str(method))])
}

/// The wire form of a success envelope around a result document.
pub open spec fn success_envelope(m: Seq<char>, e: Seq<char>, result: JsonData) -> JsonData {
    JsonData::Obj(
        seq![
            ("method"@, JsonData::Str(m)),
            ("env"@, JsonData::Str(e)),
            ("result"@, result),
        ],
    )
}

/// The wire form of an error envelope.
pub open spec fn error_envelope(m: Seq<char>, e: Seq<char>, code: int, message: Seq<char>) -> JsonData {
    JsonData::Obj(
        seq![
            ("method"@, JsonData::Str(m)),
            ("env"@, JsonData::Str(e)),
            (
                "error"@,
                JsonData::Obj(
                    seq![("code"@, JsonData::Int(code)), ("message"@, JsonData::Str(message))],
                ),
            ),
        ],
    )
}

fn encode_method_request(method: &str) -> (out: String)
    ensures
        out@ == ser_json(method_request_data(method@)),
{
    let mut fields: Vec<(String, JsonValue)> = Vec::new();
    fields.push((String::from_str("method"), JsonValue::Str(String::from_str(method))));
    let ghost gf = fields@;
    let doc = JsonValue::Obj(fields);
    proof {
        assert(field_views_of_seq(gf) =~= seq![("method"@, JsonData::Str(method@))]);
        assert(doc@ == method_request_data(method@));
    }
    doc.serialize()
}

/// The "get device state" request.
pub struct GetPilotRequest {}

impl GetPilotRequest {
    pub fn encode(&self) -> (out: String)
        ensures
            out@ == ser_json(method_request_data("getPilot"@)),
    {
        encode_method_request("getPilot")
    }
}

impl Default for GetPilotRequest {
    fn default() -> (r: Self) {
        GetPilotRequest {  }
    }
}

/// The "get system configuration" request.
pub struct GetSystemConfigRequest {}

impl GetSystemConfigRequest {
    pub fn encode(&self) -> (out: String)
        ensures
            out@ == ser_json(method_request_data("getSystemConfig"@)),
    {
        encode_method_request("getSystemConfig")
    }
}

impl Default for GetSystemConfigRequest {
    fn default() -> (r: Self) {
        GetSystemConfigRequest {  }
    }
}

/// The "get model configuration" request.
pub struct GetModelConfigRequest {}

impl GetModelConfigRequest {
    pub fn encode(&self) -> (out: String)
        ensures
            out@ == ser_json(method_request_data("getModelConfig"@)),
    {
        encode_method_request("getModelConfig")
    }
}

impl Default for GetModelConfigRequest {
    fn default() -> (r: Self) {
        GetModelConfigRequest {  }
    }
}

/// The "get power draw" request.
pub struct GetPowerRequest {}

impl GetPowerRequest {
    pub fn encode(&self) -> (out: String)
        ensures
            out@ == ser_json(method_request_data("getPower"@)),
    {
        encode_method_request("getPower")
    }
}

impl Default for GetPowerRequest {
    fn default() -> (r: Self) {
        GetPowerRequest {  }
    }
}

/// The optional parameters of a "set pilot" request. Only the fields
/// that are set appear on the wire.
#[derive(Debug)]
pub struct SetPilotRequestParams {
    pub state: Option<bool>,
    pub r: Option<u8>,
    pub g: Option<u8>,
    pub b: Option<u8>,
    pub c: Option<u8>,
    pub w: Option<u8>,
    pub dimming: Option<u8>,
}

impl Default for SetPilotRequestParams {
    /// All parameters unset: such a request changes nothing.
    fn default() -> (r: Self)
        ensures
            r.state is None && r.r is None && r.g is None && r.b is None && r.c is None && r.w
                is None && r.dimming is None,
    {
        SetPilotRequestParams {
            state: None,
            r: None,
            g: None,
            b: None,
            c: None,
            w: None,
            dimming: None,
        }
    }
}

pub open spec fn opt_bool_field(key: Seq<char>, v: Option<bool>) -> Seq<(Seq<char>, JsonData)> {
    match v {
        Some(b) => seq![(key, JsonData::Bool(b))],
        None => Seq::empty(),
    }
}

pub open spec fn opt_u8_field(key: Seq<char>, v: Option<u8>) -> Seq<(Seq<char>, JsonData)> {
    match v {
        Some(n) => seq![(key, JsonData::Int(n as int))],
        None => Seq::empty(),
    }
}

/// The members of the `params` object, in wire order.
pub open spec fn set_pilot_params_fields(p: SetPilotRequestParams) -> Seq<(Seq<char>, JsonData)> {
    opt_bool_field("state"@, p.state) + opt_u8_field("r"@, p.r) + opt_u8_field("g"@, p.g)
        + opt_u8_field("b"@, p.b) + opt_u8_field("c"@, p.c) + opt_u8_field("w"@, p.w)
        + opt_u8_field("dimming"@, p.dimming)
}

/// The wire form of a "set pilot" request.
pub open spec fn set_pilot_request_data(p: SetPilotRequestParams) -> JsonData {
    JsonData::Obj(
        seq![
            ("method"@, JsonData::Str("setPilot"@)),
            ("params"@, JsonData::Obj(set_pilot_params_fields(p))),
        ],
    )
}

fn push_opt_bool(fields: &mut Vec<(String, JsonValue)>, key: &str, v: Option<bool>)
    ensures
        field_views_of_seq(final(fields)@) == field_views_of_seq(old(fields)@) + opt_bool_field(
            key@,
            v,
        ),
{
    match v {
        Some(b) => {
            fields.push((String::from_str(key), JsonValue::Bool(b)));
            assert(field_views_of_seq(final(fields)@) =~= field_views_of_seq(old(fields)@)
                + opt_bool_field(key@, v));
        },
        None => {
            assert(field_views_of_seq(final(fields)@) =~= field_views_of_seq(old(fields)@)
                + opt_bool_field(key@, v));
        },
    }
}

fn push_opt_u8(fields: &mut Vec<(String, JsonValue)>, key: &str, v: Option<u8>)
    ensures
        field_views_of_seq(final(fields)@) == field_views_of_seq(old(fields)@) + opt_u8_field(
            key@,
            v,
        ),
{
    match v {
        Some(n) => {
            fields.push((String::from_str(key), JsonValue::Int(n as i64)));
            assert(field_views_of_seq(final(fields)@) =~= field_views_of_seq(old(fields)@)
                + opt_u8_field(key@, v));
        },
        None => {
            assert(field_views_of_seq(final(fields)@) =~= field_views_of_seq(old(fields)@)
                + opt_u8_field(key@, v));
        },
    }
}

/// The "set device state" request.
#[derive(Debug)]
pub struct SetPilotRequest {
    pub params: SetPilotRequestParams,
}

impl SetPilotRequest {
    /// A request that only turns the device on.
    pub fn on() -> (r: Self)
        ensures
            r.params.state == Some(true),
            r.params.r is None && r.params.g is None && r.params.b is None && r.params.c is None
                && r.params.w is None && r.params.dimming is None,
    {
        let mut params = SetPilotRequestParams::default();
        params.state = Some(true);
        SetPilotRequest { params }
    }

    /// A request that only turns the device off.
    pub fn off() -> (r: Self)
        ensures
            r.params.state == Some(false),
            r.params.r is None && r.params.g is None && r.params.b is None && r.params.c is None
                && r.params.w is None && r.params.dimming is None,
    {
        let mut params = SetPilotRequestParams::default();
        params.state = Some(false);
        SetPilotRequest { params }
    }

    /// A request that only sets the five color channels.
    pub fn color(rgbcw: &crate::color::RGBCW) -> (r: Self)
        ensures
            r.params.r == Some(rgbcw.r),
            r.params.g == Some(rgbcw.g),
            r.params.b == Some(rgbcw.b),
            r.params.c == Some(rgbcw.c),
            r.params.w == Some(rgbcw.w),
            r.params.state is None && r.params.dimming is None,
    {
        let mut params = SetPilotRequestParams::default();
        params.r = Some(*rgbcw.r());
        params.g = Some(*rgbcw.g());
        params.b = Some(*rgbcw.b());
        params.c = Some(*rgbcw.c());
        params.w = Some(*rgbcw.w());
        SetPilotRequest { params }
    }

    pub fn encode(&self) -> (out: String)
        ensures
            out@ == ser_json(set_pilot_request_data(self.params)),
    {
        let mut pf: Vec<(String, JsonValue)> = Vec::new();
        assert(field_views_of_seq(pf@) =~= Seq::<(Seq<char>, JsonData)>::empty());
        push_opt_bool(&mut pf, "state", self.params.state);
        push_opt_u8(&mut pf, "r", self.params.r);
        push_opt_u8(&mut pf, "g", self.params.g);
        push_opt_u8(&mut pf, "b", self.params.b);
        push_opt_u8(&mut pf, "c", self.params.c);
        push_opt_u8(&mut pf, "w", self.params.w);
        push_opt_u8(&mut pf, "dimming", self.params.dimming);
        proof {
            assert(field_views_of_seq(pf@) =~= set_pilot_params_fields(self.params));
        }
        let params_doc = JsonValue::Obj(pf);
        assert(params_doc@ == JsonData::Obj(set_pilot_params_fields(self.params)));
        let mut fields: Vec<(String, JsonValue)> = Vec::new();
        fields.push((String::from_str("method"), JsonValue::Str(String::from_str("setPilot"))));
        fields.push((String::from_str("params"), params_doc));
        let ghost gf = fields@;
        let doc = JsonValue::Obj(fields);
        proof {
            assert(field_views_of_seq(gf) =~= seq![
                ("method"@, JsonData::Str("setPilot"@)),
                ("params"@, JsonData::Obj(set_pilot_params_fields(self.params))),
            ]);
            assert(doc@ == set_pilot_request_data(self.params));
        }
        doc.serialize()
    }
}

/// A response to a request that changes state: it reports whether the
/// device accepted the change.
pub trait SetResponse {
    spec fn success_spec(&self) -> bool;

    fn success(&self) -> (r: bool)
        ensures
            r == self.success_spec(),
    ;
}

/// The `error` member of an error envelope.
#[derive(Debug)]
pub struct ErrorResponseError {
    pub code: i64,
    pub message: String,
}

/// The error envelope a device sends in place of a result.
#[derive(Debug)]
pub struct ErrorResponse {
    pub method: String,
    pub env: String,
    pub error: ErrorResponseError,
}

impl View for ErrorResponse {
    type V = (Seq<char>, Seq<char>, int, Seq<char>);

    open spec fn view(&self) -> (Seq<char>, Seq<char>, int, Seq<char>) {
        (self.method@, self.env@, self.error.code as int, self.error.message@)
    }
}

/// The error-envelope reading of a document: an object with string
/// `method` and `env` members and an `error` member holding an integer
/// `code` and a string `message`. Other members are ignored.
pub open spec fn error_response_of(d: JsonData) -> Option<(Seq<char>, Seq<char>, int, Seq<char>)> {
    match (str_field(d, "method"@), str_field(d, "env"@), any_field(d, "error"@)) {
        (Some(m), Some(e), Some(err)) => match (int_field(err, "code"@), str_field(
            err,
            "message"@,
        )) {
            (Some(c), Some(msg)) => Some((m, e, c, msg)),
            _ => None,
        },
        _ => None,
    }
}

impl ErrorResponse {
    /// Reads a parsed document as an error envelope, as
    /// [`error_response_of`] describes.
    pub fn from_json(v: &JsonValue) -> (r: Option<Self>)
        ensures
            (match r {
                Some(resp) => error_response_of(v@) == Some(resp@),
                None => error_response_of(v@) is None,
            }),
    {
        let m = v.get_str("method");
        let e = v.get_str("env");
        let err = v.get("error");
        match (m, e, err) {
            (Some(method), Some(env), Some(err)) => {
                let c = err.get_int("code");
                let msg = err.get_str("message");
                match (c, msg) {
                    (Some(code), Some(message)) => Some(
                        ErrorResponse { method, env, error: ErrorResponseError { code, message } },
                    ),
                    _ => None,
                }
            },
            _ => None,
        }
    }

    /// The wire text of this error envelope.
    pub fn encode(&self) -> (out: String)
        ensures
            out@ == ser_json(
                error_envelope(self.method@, self.env@, self.error.code as int, self.error.message@),
            ),
    {
        let mut ef: Vec<(String, JsonValue)> = Vec::new();
        ef.push((String::from_str("code"), JsonValue::Int(self.error.code)));
        ef.push((String::from_str("message"), JsonValue::Str(self.error.message.clone())));
        let ghost gef = ef@;
        let err_doc = JsonValue::Obj(ef);
        proof {
            assert(field_views_of_seq(gef) =~= seq![
                ("code"@, JsonData::Int(self.error.code as int)),
                ("message"@, JsonData::Str(self.error.message@)),
            ]);
        }
        let mut fields: Vec<(String, JsonValue)> = Vec::new();
        fields.push((String::from_str("method"), JsonValue::Str(self.method.clone())));
        fields.push((String::from_str("env"), JsonValue::Str(self.env.clone())));
        fields.push((String::from_str("error"), err_doc));
        let ghost gf = fields@;
        let doc = JsonValue::Obj(fields);
        proof {
            assert(field_views_of_seq(gf) =~= seq![
                ("method"@, JsonData::Str(self.method@)),
                ("env"@, JsonData::Str(self.env@)),
                (
                    "error"@,
                    JsonData::Obj(
                        seq![
                            ("code"@, JsonData::Int(self.error.code as int)),
                            ("message"@, JsonData::Str(self.error.message@)),
                        ],
                    ),
                ),
            ]);
            assert(doc@ == error_envelope(
                self.method@,
                self.env@,
                self.error.code as int,
                self.error.message@,
            ));
        }
        doc.serialize()
    }
}

/// Encodes a success envelope around an already-built result document.
fn encode_success_envelope(method: &String, env: &String, result: JsonValue) -> (out: String)
    ensures
        out@ == ser_json(success_envelope(method@, env@, result@)),
{
    let ghost rd = result@;
    let mut fields: Vec<(String, JsonValue)> = Vec::new();
    fields.push((String::from_str("method"), JsonValue::Str(method.clone())));
    fields.push((String::from_str("env"), JsonValue::Str(env.clone())));
    fields.push((String::from_str("result"), result));
    let ghost gf = fields@;
    let doc = JsonValue::Obj(fields);
    proof {
        assert(field_views_of_seq(gf) =~= seq![
            ("method"@, JsonData::Str(method@)),
            ("env"@, JsonData::Str(env@)),
            ("result"@, rd),
        ]);
        assert(doc@ == success_envelope(method@, env@, rd));
    }
    doc.serialize()
}

/// The result of a "set pilot" request.
#[derive(Debug)]
pub struct SetPilotResponseResult {
    pub success: bool,
}

/// The success envelope of a "set pilot" request.
#[derive(Debug)]
pub struct SetPilotResponse {
    pub method: String,
    pub env: String,
    pub result: SetPilotResponseResult,
}

impl View for SetPilotResponse {
    type V = (Seq<char>, Seq<char>, bool);

    open spec fn view(&self) -> (Seq<char>, Seq<char>, bool) {
        (self.method@, self.env@, self.result.success)
    }
}

impl SetResponse for SetPilotResponse {
    open spec fn success_spec(&self) -> bool {
        self.result.success
    }

    fn success(&self) -> (r: bool) {
        self.result.success
    }
}

/// The wire form of a "set pilot" result.
pub open spec fn set_pilot_result_data(success: bool) -> JsonData {
    JsonData::Obj(seq![("success"@, JsonData::Bool(success))])
}

/// The success-envelope reading of a "set pilot" response.
pub open spec fn set_pilot_response_of(d: JsonData) -> Option<(Seq<char>, Seq<char>, bool)> {
    match (str_field(d, "method"@), str_field(d, "env"@), any_field(d, "result"@)) {
        (Some(m), Some(e), Some(res)) => match bool_field(res, "success"@) {
            Some(b) => Some((m, e, b)),
            None => None,
        },
        _ => None,
    }
}

impl SetPilotResponse {
    /// Reads a parsed document as a "set pilot" success envelope, as
    /// [`set_pilot_response_of`] describes.
    pub fn from_json(v: &JsonValue) -> (r: Option<Self>)
        ensures
            (match r {
                Some(resp) => set_pilot_response_of(v@) == Some(resp@),
                None => set_pilot_response_of(v@) is None,
            }),
    {
        let m = v.get_str("method");
        let e = v.get_str("env");
        let res = v.get("result");
        match (m, e, res) {
            (Some(method), Some(env), Some(res)) => match res.get_bool("success") {
                Some(success) => Some(
                    SetPilotResponse { method, env, result: SetPilotResponseResult { success } },
                ),
                None => None,
            },
            _ => None,
        }
    }

    /// The wire text of this envelope, as a device would send it.
    pub fn encode(&self) -> (out: String)
        ensures
            out@ == ser_json(
                success_envelope(self.method@, self.env@, set_pilot_result_data(self.result.success)),
            ),
    {
        let mut rf: Vec<(String, JsonValue)> = Vec::new();
        rf.push((String::from_str("success"), JsonValue::Bool(self.result.success)));
        let ghost grf = rf@;
        let result_doc = JsonValue::Obj(rf);
        proof {
            assert(field_views_of_seq(grf) =~= seq![
                ("success"@, JsonData::Bool(self.result.success)),
            ]);
            assert(result_doc@ == set_pilot_result_data(self.result.success));
        }
        encode_success_envelope(&self.method, &self.env, result_doc)
    }
}

/// An optional small-integer member: `Some(None)` when the member is
/// absent or null, `Some(Some(n))` when it holds an integer within
/// bounds, and `None` when it holds anything else.
pub open spec fn opt_int_field_in(d: JsonData, key: Seq<char>, lo: int, hi: int) -> Option<
    Option<int>,
> {
    match any_field(d, key) {
        None => Some(None),
        Some(JsonData::Null) => Some(None),
        Some(JsonData::Int(n)) => if lo <= n <= hi {
            Some(Some(n))
        } else {
            None
        },
        Some(_) => None,
    }
}

impl JsonValue {
    /// The member's integer value if it lies within the given bounds.
    pub fn get_int_in(&self, key: &str, lo: i64, hi: i64) -> (r: Option<i64>)
        ensures
            (match r {
                Some(n) => int_field_in(self@, key@, lo as int, hi as int) == Some(n as int) && lo
                    <= n <= hi,
                None => int_field_in(self@, key@, lo as int, hi as int) is None,
            }),
    {
        match self.get_int(key) {
            Some(n) => if lo <= n && n <= hi {
                Some(n)
            } else {
                None
            },
            None => None,
        }
    }

    /// An optional byte-sized member, as [`opt_int_field_in`] describes
    /// with bounds 0 and 255.
    pub fn get_opt_u8(&self, key: &str) -> (r: Option<Option<u8>>)
        ensures
            (match r {
                Some(Some(n)) => opt_int_field_in(self@, key@, 0, 255) == Some(Some(n as int)),
                Some(None) => opt_int_field_in(self@, key@, 0, 255) == Some(None::<int>),
                None => opt_int_field_in(self@, key@, 0, 255) is None,
            }),
    {
        match self.get(key) {
            None => Some(None),
            Some(JsonValue::Null) => Some(None),
            Some(JsonValue::Int(n)) => {
                if 0 <= *n && *n <= 255 {
                    Some(Some(*n as u8))
                } else {
                    None
                }
            },
            Some(_) => None,
        }
    }
}

/// The model of a device's reported operating state.
pub struct GetPilotData {
    pub mac: Seq<char>,
    pub rssi: int,
    pub state: bool,
    pub scene_id: int,
    pub r: Option<int>,
    pub g: Option<int>,
    pub b: Option<int>,
    pub c: Option<int>,
    pub w: Option<int>,
    pub dimming: int,
}

/// The result of a "get pilot" request: the device's current state.
#[derive(Debug)]
pub struct GetPilotResponseResult {
    pub mac: String,
    pub rssi: i8,
    pub state: bool,
    pub scene_id: i8,
    pub r: Option<u8>,
    pub g: Option<u8>,
    pub b: Option<u8>,
    pub c: Option<u8>,
    pub w: Option<u8>,
    pub dimming: u8,
}

pub open spec fn opt_u8_view(v: Option<u8>) -> Option<int> {
    match v {
        Some(n) => Some(n as int),
        None => None,
    }
}

impl View for GetPilotResponseResult {
    type V = GetPilotData;

    open spec fn view(&self) -> GetPilotData {
        GetPilotData {
            mac: self.mac@,
            rssi: self.rssi as int,
            state: self.state,
            scene_id: self.scene_id as int,
            r: opt_u8_view(self.r),
            g: opt_u8_view(self.g),
            b: opt_u8_view(self.b),
            c: opt_u8_view(self.c),
            w: opt_u8_view(self.w),
            dimming: self.dimming as int,
        }
    }
}

impl GetPilotResponseResult {
    /// The four-bucket rendering of this state's signal strength.
    pub fn signal_strength(&self) -> (r: String)
        ensures
            self.rssi < -70 ==> r@ == "\u{2840} "@,
            -70 <= self.rssi < -60 ==> r@ == "\u{28e0} "@,
            -60 <= self.rssi < -50 ==> r@ == "\u{28e0}\u{2846}"@,
            -50 <= self.rssi ==> r@ == "\u{28e0}\u{28fe}"@,
    {
        crate::network::rssi_to_signal_strength(self.rssi)
    }
}

/// The success envelope of a "get pilot" request.
#[derive(Debug)]
pub struct GetPilotResponse {
    pub method: String,
    pub env: String,
    pub result: GetPilotResponseResult,
}

impl View for GetPilotResponse {
    type V = (Seq<char>, Seq<char>, GetPilotData);

    open spec fn view(&self) -> (Seq<char>, Seq<char>, GetPilotData) {
        (self.method@, self.env@, self.result@)
    }
}

/// The reading of a "get pilot" result object.
pub open spec fn get_pilot_result_of(res: JsonData) -> Option<GetPilotData> {
    match (str_field(res, "mac"@), int_field_in(res, "rssi"@, -128, 127), bool_field(
        res,
        "state"@,
    ), int_field_in(res, "sceneId"@, -128, 127), int_field_in(res, "dimming"@, 0, 255)) {
        (Some(mac), Some(rssi), Some(state), Some(scene_id), Some(dimming)) => {
            match (opt_int_field_in(res, "r"@, 0, 255), opt_int_field_in(res, "g"@, 0, 255),
            opt_int_field_in(res, "b"@, 0, 255), opt_int_field_in(res, "c"@, 0, 255),
            opt_int_field_in(res, "w"@, 0, 255)) {
                (Some(r), Some(g), Some(b), Some(c), Some(w)) => Some(
                    GetPilotData { mac, rssi, state, scene_id, r, g, b, c, w, dimming },
                ),
                _ => None,
            }
        },
        _ => None,
    }
}

/// The success-envelope reading of a "get pilot" response.
pub open spec fn get_pilot_response_of(d: JsonData) -> Option<
    (Seq<char>, Seq<char>, GetPilotData),
> {
    match (str_field(d, "method"@), str_field(d, "env"@), any_field(d, "result"@)) {
        (Some(m), Some(e), Some(res)) => match get_pilot_result_of(res) {
            Some(p) => Some((m, e, p)),
            None => None,
        },
        _ => None,
    }
}

impl GetPilotResponse {
    /// Reads a parsed document as a "get pilot" success envelope, as
    /// [`get_pilot_response_of`] describes.
    pub fn from_json(v: &JsonValue) -> (r: Option<Self>)
        ensures
            (match r {
                Some(resp) => get_pilot_response_of(v@) == Some(resp@),
                None => get_pilot_response_of(v@) is None,
            }),
    {
        let m = v.get_str("method");
        let e = v.get_str("env");
        let res = match v.get("result") {
            Some(res) => res,
            None => {
                return None;
            },
        };
        let (method, env) = match (m, e) {
            (Some(method), Some(env)) => (method, env),
            _ => {
                return None;
            },
        };
        let mac = res.get_str("mac");
        let rssi = res.get_int_in("rssi", -128, 127);
        let state = res.get_bool("state");
        let scene_id = res.get_int_in("sceneId", -128, 127);
        let dimming = res.get_int_in("dimming", 0, 255);
        match (mac, rssi, state, scene_id, dimming) {
            (Some(mac), Some(rssi), Some(state), Some(scene_id), Some(dimming)) => {
                match (res.get_opt_u8("r"), res.get_opt_u8("g"), res.get_opt_u8("b"), res.get_opt_u8(
                    "c",
                ), res.get_opt_u8("w")) {
                    (Some(r), Some(g), Some(b), Some(c), Some(w)) => Some(
                        GetPilotResponse {
                            method,
                            env,
                            result: GetPilotResponseResult {
                                mac,
                                rssi: rssi as i8,
                                state,
                                scene_id: scene_id as i8,
                                r,
                                g,
                                b,
                                c,
                                w,
                                dimming: dimming as u8,
                            },
                        },
                    ),
                    _ => None,
                }
            },
            _ => None,
        }
    }
}

/// An optional member's value on the wire: `null` when unset. A decoder
/// reads `null` and an absent member alike as unset.
pub open spec fn opt_int_data(o: Option<int>) -> JsonData {
    match o {
        Some(n) => JsonData::Int(n),
        None => JsonData::Null,
    }
}

/// The wire form of a "get pilot" result.
pub open spec fn get_pilot_result_data(p: GetPilotData) -> JsonData {
    JsonData::Obj(
        seq![
            ("mac"@, JsonData::Str(p.mac)),
            ("rssi"@, JsonData::Int(p.rssi)),
            ("state"@, JsonData::Bool(p.state)),
            ("sceneId"@, JsonData::Int(p.scene_id)),
            ("r"@, opt_int_data(p.r)),
            ("g"@, opt_int_data(p.g)),
            ("b"@, opt_int_data(p.b)),
            ("c"@, opt_int_data(p.c)),
            ("w"@, opt_int_data(p.w)),
            ("dimming"@, JsonData::Int(p.dimming)),
        ],
    )
}

fn opt_u8_value(o: Option<u8>) -> (v: JsonValue)
    ensures
        v@ == opt_int_data(opt_u8_view(o)),
{
    match o {
        Some(n) => JsonValue::Int(n as i64),
        None => JsonValue::Null,
    }
}

impl GetPilotResponse {
    /// The wire text of this envelope, as a device would send it; unset
    /// color channels go out as `null`.
    pub fn encode(&self) -> (out: String)
        ensures
            out@ == ser_json(
                success_envelope(self.method@, self.env@, get_pilot_result_data(self.result@)),
            ),
    {
        let p = &self.result;
        let mut rf: Vec<(String, JsonValue)> = Vec::new();
        rf.push((String::from_str("mac"), JsonValue::Str(p.mac.clone())));
        rf.push((String::from_str("rssi"), JsonValue::Int(p.rssi as i64)));
        rf.push((String::from_str("state"), JsonValue::Bool(p.state)));
        rf.push((String::from_str("sceneId"), JsonValue::Int(p.scene_id as i64)));
        rf.push((String::from_str("r"), opt_u8_value(p.r)));
        rf.push((String::from_str("g"), opt_u8_value(p.g)));
        rf.push((String::from_str("b"), opt_u8_value(p.b)));
        rf.push((String::from_str("c"), opt_u8_value(p.c)));
        rf.push((String::from_str("w"), opt_u8_value(p.w)));
        rf.push((String::from_str("dimming"), JsonValue::Int(p.dimming as i64)));
        let ghost grf = rf@;
        let result_doc = JsonValue::Obj(rf);
        proof {
            assert(field_views_of_seq(grf) =~= get_pilot_result_data(self.result@)->Obj_0);
            assert(result_doc@ == get_pilot_result_data(self.result@));
        }
        encode_success_envelope(&self.method, &self.env, result_doc)
    }
}

/// The model of a device's reported system configuration.
pub struct SystemConfigData {
    pub mac: Seq<char>,
    pub home_id: int,
    pub room_id: int,
    pub rgn: Seq<char>,
    pub module_name: Seq<char>,
    pub fw_version: Seq<char>,
    pub group_id: int,
    pub ping: int,
}

/// The result of a "get system configuration" request. The module name
/// is the input of the capability classifier.
#[derive(Debug)]
pub struct GetSystemConfigResponseResult {
    pub mac: String,
    pub home_id: u64,
    pub room_id: u64,
    pub rgn: String,
    pub module_name: String,
    pub fw_version: String,
    pub group_id: u64,
    pub ping: u64,
}

impl View for GetSystemConfigResponseResult {
    type V = SystemConfigData;

    open spec fn view(&self) -> SystemConfigData {
        SystemConfigData {
            mac: self.mac@,
            home_id: self.home_id as int,
            room_id: self.room_id as int,
            rgn: self.rgn@,
            module_name: self.module_name@,
            fw_version: self.fw_version@,
            group_id: self.group_id as int,
            ping: self.ping as int,
        }
    }
}

/// The success envelope of a "get system configuration" request.
#[derive(Debug)]
pub struct GetSystemConfigResponse {
    pub method: String,
    pub env: String,
    pub result: GetSystemConfigResponseResult,
}

impl View for GetSystemConfigResponse {
    type V = (Seq<char>, Seq<char>, SystemConfigData);

    open spec fn view(&self) -> (Seq<char>, Seq<char>, SystemConfigData) {
        (self.method@, self.env@, self.result@)
    }
}

/// The reading of a "get system configuration" result object.
pub open spec fn system_config_result_of(res: JsonData) -> Option<SystemConfigData> {
    match (str_field(res, "mac"@), int_field_in(res, "homeId"@, 0, i64::MAX as int), int_field_in(
        res,
        "roomId"@,
        0,
        i64::MAX as int,
    ), str_field(res, "rgn"@), str_field(res, "moduleName"@)) {
        (Some(mac), Some(home_id), Some(room_id), Some(rgn), Some(module_name)) => {
            match (str_field(res, "fwVersion"@), int_field_in(res, "groupId"@, 0, i64::MAX as int),
            int_field_in(res, "ping"@, 0, i64::MAX as int)) {
                (Some(fw_version), Some(group_id), Some(ping)) => Some(
                    SystemConfigData {
                        mac,
                        home_id,
                        room_id,
                        rgn,
                        module_name,
                        fw_version,
                        group_id,
                        ping,
                    },
                ),
                _ => None,
            }
        },
        _ => None,
    }
}

/// The success-envelope reading of a "get system configuration" response.
pub open spec fn system_config_response_of(d: JsonData) -> Option<
    (Seq<char>, Seq<char>, SystemConfigData),
> {
    match (str_field(d, "method"@), str_field(d, "env"@), any_field(d, "result"@)) {
        (Some(m), Some(e), Some(res)) => match system_config_result_of(res) {
            Some(p) => Some((m, e, p)),
            None => None,
        },
        _ => None,
    }
}

impl GetSystemConfigResponse {
    /// Reads a parsed document as a "get system configuration" success
    /// envelope, as [`system_config_response_of`] describes.
    pub fn from_json(v: &JsonValue) -> (r: Option<Self>)
        ensures
            (match r {
                Some(resp) => system_config_response_of(v@) == Some(resp@),
                None => system_config_response_of(v@) is None,
            }),
    {
        let m = v.get_str("method");
        let e = v.get_str("env");
        let res = match v.get("result") {
            Some(res) => res,
            None => {
                return None;
            },
        };
        let (method, env) = match (m, e) {
            (Some(method), Some(env)) => (method, env),
            _ => {
                return None;
            },
        };
        let mac = res.get_str("mac");
        let home_id = res.get_int_in("homeId", 0, i64::MAX);
        let room_id = res.get_int_in("roomId", 0, i64::MAX);
        let rgn = res.get_str("rgn");
        let module_name = res.get_str("moduleName");
        let fw_version = res.get_str("fwVersion");
        let group_id = res.get_int_in("groupId", 0, i64::MAX);
        let ping = res.get_int_in("ping", 0, i64::MAX);
        match (mac, home_id, room_id, rgn, module_name, fw_version, group_id, ping) {
            (
                Some(mac),
                Some(home_id),
                Some(room_id),
                Some(rgn),
                Some(module_name),
                Some(fw_version),
                Some(group_id),
                Some(ping),
            ) => Some(
                GetSystemConfigResponse {
                    method,
                    env,
                    result: GetSystemConfigResponseResult {
                        mac,
                        home_id: home_id as u64,
                        room_id: room_id as u64,
                        rgn,
                        module_name,
                        fw_version,
                        group_id: group_id as u64,
                        ping: ping as u64,
                    },
                },
            ),
            _ => None,
        }
    }
}

/// The result of a "get power draw" request.
#[derive(Debug)]
pub struct GetPowerResponseResult {
    pub power: u32,
}

/// The success envelope of a "get power draw" request.
#[derive(Debug)]
pub struct GetPowerResponse {
    pub method: String,
    pub env: String,
    pub result: GetPowerResponseResult,
}

impl View for GetPowerResponse {
    type V = (Seq<char>, Seq<char>, int);

    open spec fn view(&self) -> (Seq<char>, Seq<char>, int) {
        (self.method@, self.env@, self.result.power as int)
    }
}

/// The success-envelope reading of a "get power draw" response.
pub open spec fn get_power_response_of(d: JsonData) -> Option<(Seq<char>, Seq<char>, int)> {
    match (str_field(d, "method"@), str_field(d, "env"@), any_field(d, "result"@)) {
        (Some(m), Some(e), Some(res)) => match int_field_in(res, "power"@, 0, 0xffffffff) {
            Some(p) => Some((m, e, p)),
            None => None,
        },
        _ => None,
    }
}

impl GetPowerResponse {
    /// Reads a parsed document as a "get power draw" success envelope,
    /// as [`get_power_response_of`] describes.
    pub fn from_json(v: &JsonValue) -> (r: Option<Self>)
        ensures
            (match r {
                Some(resp) => get_power_response_of(v@) == Some(resp@),
                None => get_power_response_of(v@) is None,
            }),
    {
        let m = v.get_str("method");
        let e = v.get_str("env");
        let res = match v.get("result") {
            Some(res) => res,
            None => {
                return None;
            },
        };
        match (m, e) {
            (Some(method), Some(env)) => match res.get_int_in("power", 0, 0xffffffff) {
                Some(power) => Some(
                    GetPowerResponse {
                        method,
                        env,
                        result: GetPowerResponseResult { power: power as u32 },
                    },
                ),
                None => None,
            },
            _ => None,
        }
    }
}

/// The values of an array of integers, all within the given bounds.
pub open spec fn bounded_ints_of(es: Seq<JsonData>, lo: int, hi: int) -> Option<Seq<int>>
    decreases es.len(),
{
    if es.len() == 0 {
        Some(Seq::empty())
    } else {
        match es[0] {
            JsonData::Int(n) => if lo <= n <= hi {
                match bounded_ints_of(es.drop_first(), lo, hi) {
                    Some(t) => Some(seq![n] + t),
                    None => None,
                }
            } else {
                None
            },
            _ => None,
        }
    }
}

/// A member holding an array of integers within the given bounds.
pub open spec fn int_arr_field_in(d: JsonData, key: Seq<char>, lo: int, hi: int) -> Option<
    Seq<int>,
> {
    match any_field(d, key) {
        Some(JsonData::Arr(es)) => bounded_ints_of(es, lo, hi),
        _ => None,
    }
}

pub open spec fn u8s_view(ns: Seq<u8>) -> Seq<int> {
    ns.map_values(|x: u8| x as int)
}

pub open spec fn u16s_view(ns: Seq<u16>) -> Seq<int> {
    ns.map_values(|x: u16| x as int)
}

fn u8s_from(es: &Vec<JsonValue>, k: usize) -> (r: Option<Vec<u8>>)
    requires
        k <= es@.len(),
    ensures
        (match r {
            Some(ns) => bounded_ints_of(crate::json::views_of_seq(es@).skip(k as int), 0, 255)
                == Some(u8s_view(ns@)),
            None => bounded_ints_of(crate::json::views_of_seq(es@).skip(k as int), 0, 255)
                is None,
        }),
    decreases es@.len() - k@,
{
    let ghost gs = crate::json::views_of_seq(es@);
    if k == es.len() {
        let ns: Vec<u8> = Vec::new();
        proof {
            assert(gs.skip(k as int) =~= Seq::<JsonData>::empty());
            assert(u8s_view(ns@) =~= Seq::<int>::empty());
        }
        Some(ns)
    } else {
        proof {
            assert(gs.skip(k as int)[0] == view_of(es@[k as int]));
            assert(gs.skip(k as int).drop_first() =~= gs.skip(k + 1));
        }
        match &es[k] {
            JsonValue::Int(n) => {
                if 0 <= *n && *n <= 255 {
                    match u8s_from(es, k + 1) {
                        Some(mut ns) => {
                            ns.insert(0, *n as u8);
                            proof {
                                assert(u8s_view(ns@) =~= seq![*n as int] + u8s_view(
                                    ns@.drop_first(),
                                ));
                            }
                            Some(ns)
                        },
                        None => None,
                    }
                } else {
                    None
                }
            },
            _ => None,
        }
    }
}

fn u16s_from(es: &Vec<JsonValue>, k: usize) -> (r: Option<Vec<u16>>)
    requires
        k <= es@.len(),
    ensures
        (match r {
            Some(ns) => bounded_ints_of(crate::json::views_of_seq(es@).skip(k as int), 0, 65535)
                == Some(u16s_view(ns@)),
            None => bounded_ints_of(crate::json::views_of_seq(es@).skip(k as int), 0, 65535)
                is None,
        }),
    decreases es@.len() - k@,
{
    let ghost gs = crate::json::views_of_seq(es@);
    if k == es.len() {
        let ns: Vec<u16> = Vec::new();
        proof {
            assert(gs.skip(k as int) =~= Seq::<JsonData>::empty());
            assert(u16s_view(ns@) =~= Seq::<int>::empty());
        }
        Some(ns)
    } else {
        proof {
            assert(gs.skip(k as int)[0] == view_of(es@[k as int]));
            assert(gs.skip(k as int).drop_first() =~= gs.skip(k + 1));
        }
        match &es[k] {
            JsonValue::Int(n) => {
                if 0 <= *n && *n <= 65535 {
                    match u16s_from(es, k + 1) {
                        Some(mut ns) => {
                            ns.insert(0, *n as u16);
                            proof {
                                assert(u16s_view(ns@) =~= seq![*n as int] + u16s_view(
                                    ns@.drop_first(),
                                ));
                            }
                            Some(ns)
                        },
                        None => None,
                    }
                } else {
                    None
                }
            },
            _ => None,
        }
    }
}

impl JsonValue {
    /// A member holding an array of byte-sized integers.
    pub fn get_u8_arr(&self, key: &str) -> (r: Option<Vec<u8>>)
        ensures
            (match r {
                Some(ns) => int_arr_field_in(self@, key@, 0, 255) == Some(u8s_view(ns@)),
                None => int_arr_field_in(self@, key@, 0, 255) is None,
            }),
    {
        match self.get(key) {
            Some(JsonValue::Arr(es)) => {
                proof {
                    assert(crate::json::views_of_seq(es@).skip(0) =~= crate::json::views_of_seq(
                        es@,
                    ));
                }
                u8s_from(es, 0)
            },
            _ => None,
        }
    }

    /// A member holding an array of 16-bit integers.
    pub fn get_u16_arr(&self, key: &str) -> (r: Option<Vec<u16>>)
        ensures
            (match r {
                Some(ns) => int_arr_field_in(self@, key@, 0, 65535) == Some(u16s_view(ns@)),
                None => int_arr_field_in(self@, key@, 0, 65535) is None,
            }),
    {
        match self.get(key) {
            Some(JsonValue::Arr(es)) => {
                proof {
                    assert(crate::json::views_of_seq(es@).skip(0) =~= crate::json::views_of_seq(
                        es@,
                    ));
                }
                u16s_from(es, 0)
            },
            _ => None,
        }
    }
}

/// The model of a device's reported driver configuration.
pub struct ModelConfigData {
    pub ps: int,
    pub pwm_freq: int,
    pub pwm_range: Seq<int>,
    pub wcr: int,
    pub nowc: int,
    pub cct_range: Seq<int>,
    pub render_factor: Seq<int>,
    pub drv_iface: Option<int>,
}

/// The result of a "get model configuration" request: the lamp driver's
/// calibration words. The two pulse-width bounds, the four white-point
/// temperatures and the ten render factors come as fixed-length arrays.
#[derive(Debug)]
pub struct GetModelConfigResponseResult {
    pub ps: u8,
    pub pwm_freq: u16,
    pub pwm_range: Vec<u8>,
    pub wcr: u8,
    pub nowc: u8,
    pub cct_range: Vec<u16>,
    pub render_factor: Vec<u8>,
    pub drv_iface: Option<u8>,
}

impl View for GetModelConfigResponseResult {
    type V = ModelConfigData;

    open spec fn view(&self) -> ModelConfigData {
        ModelConfigData {
            ps: self.ps as int,
            pwm_freq: self.pwm_freq as int,
            pwm_range: u8s_view(self.pwm_range@),
            wcr: self.wcr as int,
            nowc: self.nowc as int,
            cct_range: u16s_view(self.cct_range@),
            render_factor: u8s_view(self.render_factor@),
            drv_iface: (match self.drv_iface {
                Some(n) => Some(n as int),
                None => None,
            }),
        }
    }
}

/// The success envelope of a "get model configuration" request.
#[derive(Debug)]
pub struct GetModelConfigResponse {
    pub method: String,
    pub env: String,
    pub result: GetModelConfigResponseResult,
}

impl View for GetModelConfigResponse {
    type V = (Seq<char>, Seq<char>, ModelConfigData);

    open spec fn view(&self) -> (Seq<char>, Seq<char>, ModelConfigData) {
        (self.method@, self.env@, self.result@)
    }
}

/// The reading of a "get model configuration" result object.
pub open spec fn model_config_result_of(res: JsonData) -> Option<ModelConfigData> {
    match (int_field_in(res, "ps"@, 0, 255), int_field_in(res, "pwmFreq"@, 0, 65535),
    int_arr_field_in(res, "pwmRange"@, 0, 255), int_field_in(res, "wcr"@, 0, 255), int_field_in(
        res,
        "nowc"@,
        0,
        255,
    )) {
        (Some(ps), Some(pwm_freq), Some(pwm_range), Some(wcr), Some(nowc)) => {
            match (int_arr_field_in(res, "cctRange"@, 0, 65535), int_arr_field_in(
                res,
                "renderFactor"@,
                0,
                255,
            ), opt_int_field_in(res, "srvIface"@, 0, 255)) {
                (Some(cct_range), Some(render_factor), Some(drv_iface)) => {
                    if pwm_range.len() == 2 && cct_range.len() == 4 && render_factor.len() == 10 {
                        Some(
                            ModelConfigData {
                                ps,
                                pwm_freq,
                                pwm_range,
                                wcr,
                                nowc,
                                cct_range,
                                render_factor,
                                drv_iface,
                            },
                        )
                    } else {
                        None
                    }
                },
                _ => None,
            }
        },
        _ => None,
    }
}

/// The success-envelope reading of a "get model configuration" response.
pub open spec fn model_config_response_of(d: JsonData) -> Option<
    (Seq<char>, Seq<char>, ModelConfigData),
> {
    match (str_field(d, "method"@), str_field(d, "env"@), any_field(d, "result"@)) {
        (Some(m), Some(e), Some(res)) => match model_config_result_of(res) {
            Some(p) => Some((m, e, p)),
            None => None,
        },
        _ => None,
    }
}

impl GetModelConfigResponse {
    /// Reads a parsed document as a "get model configuration" success
    /// envelope, as [`model_config_response_of`] describes.
    pub fn from_json(v: &JsonValue) -> (r: Option<Self>)
        ensures
            (match r {
                Some(resp) => model_config_response_of(v@) == Some(resp@),
                None => model_config_response_of(v@) is None,
            }),
    {
        let m = v.get_str("method");
        let e = v.get_str("env");
        let res = match v.get("result") {
            Some(res) => res,
            None => {
                return None;
            },
        };
        let (method, env) = match (m, e) {
            (Some(method), Some(env)) => (method, env),
            _ => {
                return None;
            },
        };
        let ps = res.get_int_in("ps", 0, 255);
        let pwm_freq = res.get_int_in("pwmFreq", 0, 65535);
        let pwm_range = res.get_u8_arr("pwmRange");
        let wcr = res.get_int_in("wcr", 0, 255);
        let nowc = res.get_int_in("nowc", 0, 255);
        let cct_range = res.get_u16_arr("cctRange");
        let render_factor = res.get_u8_arr("renderFactor");
        let drv_iface = res.get_opt_u8("srvIface");
        match (ps, pwm_freq, pwm_range, wcr, nowc, cct_range, render_factor, drv_iface) {
            (
                Some(ps),
                Some(pwm_freq),
                Some(pwm_range),
                Some(wcr),
                Some(nowc),
                Some(cct_range),
                Some(render_factor),
                Some(drv_iface),
            ) => {
                if pwm_range.len() == 2 && cct_range.len() == 4 && render_factor.len() == 10 {
                    Some(
                        GetModelConfigResponse {
                            method,
                            env,
                            result: GetModelConfigResponseResult {
                                ps: ps as u8,
                                pwm_freq: pwm_freq as u16,
                                pwm_range,
                                wcr: wcr as u8,
                                nowc: nowc as u8,
                                cct_range,
                                render_factor,
                                drv_iface,
                            },
                        },
                    )
                } else {
                    None
                }
            },
            _ => None,
        }
    }
}

/// The wire form of a "get system configuration" result.
pub open spec fn system_config_result_data(p: SystemConfigData) -> JsonData {
    JsonData::Obj(
        seq![
            ("mac"@, JsonData::Str(p.mac)),
            ("homeId"@, JsonData::Int(p.home_id)),
            ("roomId"@, JsonData::Int(p.room_id)),
            ("rgn"@, JsonData::Str(p.rgn)),
            ("moduleName"@, JsonData::Str(p.module_name)),
            ("fwVersion"@, JsonData::Str(p.fw_version)),
            ("groupId"@, JsonData::Int(p.group_id)),
            ("ping"@, JsonData::Int(p.ping)),
        ],
    )
}

impl GetSystemConfigResponse {
    /// The wire text of this envelope, as a device would send it. The
    /// identifiers must fit a JSON integer as this codec bounds it;
    /// decoding never produces anything larger.
    pub fn encode(&self) -> (out: String)
        requires
            self.result.home_id <= i64::MAX,
            self.result.room_id <= i64::MAX,
            self.result.group_id <= i64::MAX,
            self.result.ping <= i64::MAX,
        ensures
            out@ == ser_json(
                success_envelope(self.method@, self.env@, system_config_result_data(self.result@)),
            ),
    {
        let p = &self.result;
        let mut rf: Vec<(String, JsonValue)> = Vec::new();
        rf.push((String::from_str("mac"), JsonValue::Str(p.mac.clone())));
        rf.push((String::from_str("homeId"), JsonValue::Int(p.home_id as i64)));
        rf.push((String::from_str("roomId"), JsonValue::Int(p.room_id as i64)));
        rf.push((String::from_str("rgn"), JsonValue::Str(p.rgn.clone())));
        rf.push((String::from_str("moduleName"), JsonValue::Str(p.module_name.clone())));
        rf.push((String::from_str("fwVersion"), JsonValue::Str(p.fw_version.clone())));
        rf.push((String::from_str("groupId"), JsonValue::Int(p.group_id as i64)));
        rf.push((String::from_str("ping"), JsonValue::Int(p.ping as i64)));
        let ghost grf = rf@;
        let result_doc = JsonValue::Obj(rf);
        proof {
            assert(field_views_of_seq(grf) =~= system_config_result_data(self.result@)->Obj_0);
            assert(result_doc@ == system_config_result_data(self.result@));
        }
        encode_success_envelope(&self.method, &self.env, result_doc)
    }
}

/// The wire form of a "get power draw" result.
pub open spec fn get_power_result_data(power: int) -> JsonData {
    JsonData::Obj(seq![("power"@, JsonData::Int(power))])
}

impl GetPowerResponse {
    /// The wire text of this envelope, as a device would send it.
    pub fn encode(&self) -> (out: String)
        ensures
            out@ == ser_json(
                success_envelope(
                    self.method@,
                    self.env@,
                    get_power_result_data(self.result.power as int),
                ),
            ),
    {
        let mut rf: Vec<(String, JsonValue)> = Vec::new();
        rf.push((String::from_str("power"), JsonValue::Int(self.result.power as i64)));
        let ghost grf = rf@;
        let result_doc = JsonValue::Obj(rf);
        proof {
            assert(field_views_of_seq(grf) =~= get_power_result_data(
                self.result.power as int,
            )->Obj_0);
            assert(result_doc@ == get_power_result_data(self.result.power as int));
        }
        encode_success_envelope(&self.method, &self.env, result_doc)
    }
}

/// The wire form of an array of integers.
pub open spec fn int_arr_data(ns: Seq<int>) -> JsonData {
    JsonData::Arr(ns.map_values(|n: int| JsonData::Int(n)))
}

fn u8_arr_value(ns: &Vec<u8>) -> (v: JsonValue)
    ensures
        v@ == int_arr_data(u8s_view(ns@)),
{
    let mut es: Vec<JsonValue> = Vec::new();
    let mut i: usize = 0;
    while i < ns.len()
        invariant
            0 <= i <= ns@.len(),
            es@.len() == i,
            forall|k: int| 0 <= k < i ==> es@[k] == JsonValue::Int(ns@[k] as i64),
        decreases ns@.len() - i,
    {
        es.push(JsonValue::Int(ns[i] as i64));
        i = i + 1;
    }
    let ghost ges = es@;
    let v = JsonValue::Arr(es);
    proof {
        assert(crate::json::views_of_seq(ges) =~= u8s_view(ns@).map_values(
            |n: int| JsonData::Int(n),
        ));
    }
    v
}

fn u16_arr_value(ns: &Vec<u16>) -> (v: JsonValue)
    ensures
        v@ == int_arr_data(u16s_view(ns@)),
{
    let mut es: Vec<JsonValue> = Vec::new();
    let mut i: usize = 0;
    while i < ns.len()
        invariant
            0 <= i <= ns@.len(),
            es@.len() == i,
            forall|k: int| 0 <= k < i ==> es@[k] == JsonValue::Int(ns@[k] as i64),
        decreases ns@.len() - i,
    {
        es.push(JsonValue::Int(ns[i] as i64));
        i = i + 1;
    }
    let ghost ges = es@;
    let v = JsonValue::Arr(es);
    proof {
        assert(crate::json::views_of_seq(ges) =~= u16s_view(ns@).map_values(
            |n: int| JsonData::Int(n),
        ));
    }
    v
}

/// The wire form of a "get model configuration" result.
pub open spec fn model_config_result_data(p: ModelConfigData) -> JsonData {
    JsonData::Obj(
        seq![
            ("ps"@, JsonData::Int(p.ps)),
            ("pwmFreq"@, JsonData::Int(p.pwm_freq)),
            ("pwmRange"@, int_arr_data(p.pwm_range)),
            ("wcr"@, JsonData::Int(p.wcr)),
            ("nowc"@, JsonData::Int(p.nowc)),
            ("cctRange"@, int_arr_data(p.cct_range)),
            ("renderFactor"@, int_arr_data(p.render_factor)),
            ("srvIface"@, opt_int_data(p.drv_iface)),
        ],
    )
}

impl GetModelConfigResponse {
    /// The wire text of this envelope, as a device would send it; an
    /// unset interface word goes out as `null`.
    pub fn encode(&self) -> (out: String)
        ensures
            out@ == ser_json(
                success_envelope(self.method@, self.env@, model_config_result_data(self.result@)),
            ),
    {
        let p = &self.result;
        let mut rf: Vec<(String, JsonValue)> = Vec::new();
        rf.push((String::from_str("ps"), JsonValue::Int(p.ps as i64)));
        rf.push((String::from_str("pwmFreq"), JsonValue::Int(p.pwm_freq as i64)));
        rf.push((String::from_str("pwmRange"), u8_arr_value(&p.pwm_range)));
        rf.push((String::from_str("wcr"), JsonValue::Int(p.wcr as i64)));
        rf.push((String::from_str("nowc"), JsonValue::Int(p.nowc as i64)));
        rf.push((String::from_str("cctRange"), u16_arr_value(&p.cct_range)));
        rf.push((String::from_str("renderFactor"), u8_arr_value(&p.render_factor)));
        rf.push((String::from_str("srvIface"), opt_u8_value(p.drv_iface)));
        let ghost grf = rf@;
        let result_doc = JsonValue::Obj(rf);
        proof {
            assert(field_views_of_seq(grf) =~= model_config_result_data(self.result@)->Obj_0);
            assert(result_doc@ == model_config_result_data(self.result@));
        }
        encode_success_envelope(&self.method, &self.env, result_doc)
    }
}

} // verus!
