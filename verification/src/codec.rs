//! Decoding of response datagrams, with the protocol's error taxonomy.
//!
//! A received payload is read in three steps: the bytes must be UTF-8
//! text, the text must be one compact JSON document, and the document is
//! first read as an error envelope — only when that reading fails is it
//! read as the expected success envelope. A document that fits neither
//! shape is surfaced with its raw text, never dropped silently.

use vstd::prelude::*;

use crate::json::JsonData;
use crate::json::JsonValue;
use crate::json::parse_json;
use crate::json::ser_json;
use crate::messages::ErrorResponse;
use crate::messages::GetModelConfigResponse;
use crate::messages::GetPilotResponse;
use crate::messages::GetPowerResponse;
use crate::messages::GetSystemConfigResponse;
use crate::messages::SetPilotResponse;
use crate::messages::any_field;
use crate::messages::bool_field;
use crate::messages::error_envelope;
use crate::messages::error_response_of;
use crate::messages::get_pilot_response_of;
use crate::messages::get_pilot_result_data;
use crate::messages::get_power_result_data;
use crate::messages::system_config_result_data;
use crate::messages::get_power_response_of;
use crate::messages::model_config_response_of;
use crate::messages::set_pilot_response_of;
use crate::messages::set_pilot_result_data;
use crate::messages::str_field;
use crate::messages::success_envelope;
use crate::messages::system_config_response_of;

verus! {

broadcast use vstd::string::group_string_axioms;

/// Why a response payload could not be decoded.
#[derive(Debug)]
pub enum CodecError {
    /// The payload is not UTF-8 text.
    EncodingError,
    /// The device answered with a structured error envelope.
    ProtocolError { code: i64, message: String },
    /// The payload is text but matches no known response shape; the raw
    /// text is kept for diagnostics.
    UnrecognizedResponse { raw: String },
}

/// How a response payload reads, before any per-method interpretation.
pub enum ResponseClass {
    /// Not UTF-8 text.
    NotText,
    /// Text, but not one compact JSON document.
    Malformed,
    /// An error envelope: method, env, code, message.
    ErrorEnvelope((Seq<char>, Seq<char>, int, Seq<char>)),
    /// A parsed document that is not an error envelope.
    Payload(JsonData),
}

/// The three-step reading of response text: parse, then prefer the
/// error-envelope interpretation over any success shape.
pub open spec fn classify_response(s: Seq<char>) -> ResponseClass {
    match parse_json(s) {
        None => ResponseClass::Malformed,
        Some(d) => match error_response_of(d) {
            Some(t) => ResponseClass::ErrorEnvelope(t),
            None => ResponseClass::Payload(d),
        },
    }
}

/// The reading of raw payload bytes.
pub open spec fn classify_datagram(bytes: Seq<u8>) -> ResponseClass {
    if !vstd::utf8::valid_utf8(bytes) {
        ResponseClass::NotText
    } else {
        classify_response(vstd::utf8::decode_utf8(bytes))
    }
}

/// Relies on String::from_utf8: it returns the string of exactly the
/// given bytes, and fails precisely when they are not UTF-8.
#[verifier::external_body]
fn utf8_string(bytes: Vec<u8>) -> (r: Option<String>)
    ensures
        (match r {
            Some(s) => vstd::utf8::valid_utf8(bytes@) && vstd::utf8::encode_utf8(s@) == bytes@,
            None => !vstd::utf8::valid_utf8(bytes@),
        }),
{
    match String::from_utf8(bytes) {
        Ok(s) => Some(s),
        Err(_) => None,
    }
}

/// Turns payload bytes into text, as the first step of
/// [`classify_datagram`] describes.
pub fn datagram_text(bytes: Vec<u8>) -> (r: Result<String, CodecError>)
    ensures
        (match r {
            Ok(s) => vstd::utf8::valid_utf8(bytes@) && s@ == vstd::utf8::decode_utf8(bytes@),
            Err(e) => e is EncodingError && classify_datagram(bytes@) is NotText,
        }),
{
    let ghost gbytes = bytes@;
    match utf8_string(bytes) {
        Some(s) => {
            proof {
                vstd::utf8::decode_utf8_encode_utf8(gbytes);
                vstd::utf8::encode_utf8_decode_utf8(s@);
            }
            Ok(s)
        },
        None => Err(CodecError::EncodingError),
    }
}

/// Parses response text and applies the error-envelope preference, as
/// [`classify_response`] describes. `Ok` carries the parsed document for
/// a per-method reading.
pub fn classify(text: &str) -> (r: Result<JsonValue, CodecError>)
    ensures
        (match r {
            Ok(v) => classify_response(text@) == ResponseClass::Payload(v@),
            Err(CodecError::ProtocolError { code, message }) => (classify_response(text@) matches
                ResponseClass::ErrorEnvelope(t) && t.2 == code as int && t.3 == message@),
            Err(CodecError::UnrecognizedResponse { raw }) => raw@ == text@ && classify_response(
                text@,
            ) is Malformed,
            Err(CodecError::EncodingError) => false,
        }),
{
    match JsonValue::parse(text) {
        None => Err(CodecError::UnrecognizedResponse { raw: text.to_owned() }),
        Some(v) => {
            match ErrorResponse::from_json(&v) {
                Some(err) => Err(
                    CodecError::ProtocolError { code: err.error.code, message: err.error.message },
                ),
                None => Ok(v),
            }
        },
    }
}

/// Decodes a "set pilot" response payload: the error envelope is
/// preferred; a payload of neither shape is returned raw.
pub fn decode_set_pilot_response(text: &str) -> (r: Result<SetPilotResponse, CodecError>)
    ensures
        (match r {
            Ok(resp) => (classify_response(text@) matches ResponseClass::Payload(d)
                && set_pilot_response_of(d) == Some(resp@)),
            Err(CodecError::ProtocolError { code, message }) => (classify_response(text@) matches
                ResponseClass::ErrorEnvelope(t) && t.2 == code as int && t.3 == message@),
            Err(CodecError::UnrecognizedResponse { raw }) => raw@ == text@ && (classify_response(
                text@,
            ) is Malformed || (classify_response(text@) matches ResponseClass::Payload(d)
                && set_pilot_response_of(d) is None)),
            Err(CodecError::EncodingError) => false,
        }),
{
    match classify(text) {
        Ok(v) => match SetPilotResponse::from_json(&v) {
            Some(resp) => Ok(resp),
            None => Err(CodecError::UnrecognizedResponse { raw: text.to_owned() }),
        },
        Err(e) => Err(e),
    }
}

/// Decodes a "get pilot" response payload.
pub fn decode_get_pilot_response(text: &str) -> (r: Result<GetPilotResponse, CodecError>)
    ensures
        (match r {
            Ok(resp) => (classify_response(text@) matches ResponseClass::Payload(d)
                && get_pilot_response_of(d) == Some(resp@)),
            Err(CodecError::ProtocolError { code, message }) => (classify_response(text@) matches
                ResponseClass::ErrorEnvelope(t) && t.2 == code as int && t.3 == message@),
            Err(CodecError::UnrecognizedResponse { raw }) => raw@ == text@ && (classify_response(
                text@,
            ) is Malformed || (classify_response(text@) matches ResponseClass::Payload(d)
                && get_pilot_response_of(d) is None)),
            Err(CodecError::EncodingError) => false,
        }),
{
    match classify(text) {
        Ok(v) => match GetPilotResponse::from_json(&v) {
            Some(resp) => Ok(resp),
            None => Err(CodecError::UnrecognizedResponse { raw: text.to_owned() }),
        },
        Err(e) => Err(e),
    }
}

/// Decodes a "get system configuration" response payload.
pub fn decode_system_config_response(text: &str) -> (r: Result<GetSystemConfigResponse, CodecError>)
    ensures
        (match r {
            Ok(resp) => (classify_response(text@) matches ResponseClass::Payload(d)
                && system_config_response_of(d) == Some(resp@)),
            Err(CodecError::ProtocolError { code, message }) => (classify_response(text@) matches
                ResponseClass::ErrorEnvelope(t) && t.2 == code as int && t.3 == message@),
            Err(CodecError::UnrecognizedResponse { raw }) => raw@ == text@ && (classify_response(
                text@,
            ) is Malformed || (classify_response(text@) matches ResponseClass::Payload(d)
                && system_config_response_of(d) is None)),
            Err(CodecError::EncodingError) => false,
        }),
{
    match classify(text) {
        Ok(v) => match GetSystemConfigResponse::from_json(&v) {
            Some(resp) => Ok(resp),
            None => Err(CodecError::UnrecognizedResponse { raw: text.to_owned() }),
        },
        Err(e) => Err(e),
    }
}

/// Decodes a "get power draw" response payload.
pub fn decode_get_power_response(text: &str) -> (r: Result<GetPowerResponse, CodecError>)
    ensures
        (match r {
            Ok(resp) => (classify_response(text@) matches ResponseClass::Payload(d)
                && get_power_response_of(d) == Some(resp@)),
            Err(CodecError::ProtocolError { code, message }) => (classify_response(text@) matches
                ResponseClass::ErrorEnvelope(t) && t.2 == code as int && t.3 == message@),
            Err(CodecError::UnrecognizedResponse { raw }) => raw@ == text@ && (classify_response(
                text@,
            ) is Malformed || (classify_response(text@) matches ResponseClass::Payload(d)
                && get_power_response_of(d) is None)),
            Err(CodecError::EncodingError) => false,
        }),
{
    match classify(text) {
        Ok(v) => match GetPowerResponse::from_json(&v) {
            Some(resp) => Ok(resp),
            None => Err(CodecError::UnrecognizedResponse { raw: text.to_owned() }),
        },
        Err(e) => Err(e),
    }
}

/// Decodes a "get model configuration" response payload.
pub fn decode_model_config_response(text: &str) -> (r: Result<GetModelConfigResponse, CodecError>)
    ensures
        (match r {
            Ok(resp) => (classify_response(text@) matches ResponseClass::Payload(d)
                && model_config_response_of(d) == Some(resp@)),
            Err(CodecError::ProtocolError { code, message }) => (classify_response(text@) matches
                ResponseClass::ErrorEnvelope(t) && t.2 == code as int && t.3 == message@),
            Err(CodecError::UnrecognizedResponse { raw }) => raw@ == text@ && (classify_response(
                text@,
            ) is Malformed || (classify_response(text@) matches ResponseClass::Payload(d)
                && model_config_response_of(d) is None)),
            Err(CodecError::EncodingError) => false,
        }),
{
    match classify(text) {
        Ok(v) => match GetModelConfigResponse::from_json(&v) {
            Some(resp) => Ok(resp),
            None => Err(CodecError::UnrecognizedResponse { raw: text.to_owned() }),
        },
        Err(e) => Err(e),
    }
}

/// How a success envelope reads back, member by member: its three
/// members come out under their names, and it is never read as an
/// error envelope.
pub proof fn lemma_success_envelope_reading(m: Seq<char>, e: Seq<char>, result: JsonData)
    ensures
        str_field(success_envelope(m, e, result), "method"@) == Some(m),
        str_field(success_envelope(m, e, result), "env"@) == Some(e),
        any_field(success_envelope(m, e, result), "result"@) == Some(result),
        error_response_of(success_envelope(m, e, result)) is None,
{
    reveal_strlit("method");
    reveal_strlit("env");
    reveal_strlit("result");
    reveal_strlit("error");
    let fs = success_envelope(m, e, result)->Obj_0;
    let fs1 = fs.drop_first();
    let fs2 = fs1.drop_first();
    assert(fs1 =~= seq![("env"@, JsonData::Str(e)), ("result"@, result)]);
    assert(fs2 =~= seq![("result"@, result)]);
    assert("method"@ != "env"@) by {
        assert("method"@.len() == 6);
        assert("env"@.len() == 3);
    }
    assert("method"@ != "result"@) by {
        assert("method"@[0] == 'm');
        assert("result"@[0] == 'r');
    }
    assert("method"@ != "error"@) by {
        assert("method"@.len() == 6);
        assert("error"@.len() == 5);
    }
    assert("env"@ != "result"@) by {
        assert("env"@.len() == 3);
        assert("result"@.len() == 6);
    }
    assert("env"@ != "error"@) by {
        assert("env"@.len() == 3);
        assert("error"@.len() == 5);
    }
    assert("result"@ != "error"@) by {
        assert("result"@.len() == 6);
        assert("error"@.len() == 5);
    }
    let empty = fs2.drop_first();
    assert(empty =~= Seq::<(Seq<char>, JsonData)>::empty());
    assert(crate::json::lookup_field(fs, "method"@) == Some(JsonData::Str(m)));
    assert(crate::json::lookup_field(fs, "env"@) == crate::json::lookup_field(fs1, "env"@));
    assert(crate::json::lookup_field(fs1, "env"@) == Some(JsonData::Str(e)));
    assert(crate::json::lookup_field(fs, "result"@) == crate::json::lookup_field(fs1, "result"@));
    assert(crate::json::lookup_field(fs1, "result"@) == crate::json::lookup_field(
        fs2,
        "result"@,
    ));
    assert(crate::json::lookup_field(fs2, "result"@) == Some(result));
    assert(crate::json::lookup_field(fs, "error"@) == crate::json::lookup_field(fs1, "error"@));
    assert(crate::json::lookup_field(fs1, "error"@) == crate::json::lookup_field(fs2, "error"@));
    assert(crate::json::lookup_field(fs2, "error"@) == crate::json::lookup_field(empty, "error"@));
    assert(crate::json::lookup_field(empty, "error"@) is None);
}

/// How an error envelope reads back: exactly its method, env, code and
/// message.
pub proof fn lemma_error_envelope_reading(m: Seq<char>, e: Seq<char>, code: int, message: Seq<char>)
    ensures
        error_response_of(error_envelope(m, e, code, message)) == Some((m, e, code, message)),
{
    reveal_strlit("method");
    reveal_strlit("env");
    reveal_strlit("error");
    reveal_strlit("code");
    reveal_strlit("message");
    let fs = error_envelope(m, e, code, message)->Obj_0;
    let fs1 = fs.drop_first();
    let fs2 = fs1.drop_first();
    let err = JsonData::Obj(
        seq![("code"@, JsonData::Int(code)), ("message"@, JsonData::Str(message))],
    );
    assert(fs1 =~= seq![("env"@, JsonData::Str(e)), ("error"@, err)]);
    assert(fs2 =~= seq![("error"@, err)]);
    assert("method"@ != "env"@) by {
        assert("method"@.len() == 6);
        assert("env"@.len() == 3);
    }
    assert("method"@ != "error"@) by {
        assert("method"@.len() == 6);
        assert("error"@.len() == 5);
    }
    assert("env"@ != "error"@) by {
        assert("env"@.len() == 3);
        assert("error"@.len() == 5);
    }
    let es = err->Obj_0;
    let es1 = es.drop_first();
    assert(es1 =~= seq![("message"@, JsonData::Str(message))]);
    assert("code"@ != "message"@) by {
        assert("code"@.len() == 4);
        assert("message"@.len() == 7);
    }
    assert(crate::json::lookup_field(fs, "method"@) == Some(JsonData::Str(m)));
    assert(crate::json::lookup_field(fs, "env"@) == crate::json::lookup_field(fs1, "env"@));
    assert(crate::json::lookup_field(fs1, "env"@) == Some(JsonData::Str(e)));
    assert(crate::json::lookup_field(fs, "error"@) == crate::json::lookup_field(fs1, "error"@));
    assert(crate::json::lookup_field(fs1, "error"@) == crate::json::lookup_field(fs2, "error"@));
    assert(crate::json::lookup_field(fs2, "error"@) == Some(err));
    assert(crate::json::lookup_field(es, "code"@) == Some(JsonData::Int(code)));
    assert(crate::json::lookup_field(es, "message"@) == crate::json::lookup_field(
        es1,
        "message"@,
    ));
    assert(crate::json::lookup_field(es1, "message"@) == Some(JsonData::Str(message)));
}

/// Whatever the transport delivered, the reading of a serialized error
/// envelope is the error interpretation, never the unrecognized one:
/// the error shape takes precedence as soon as its members are present,
/// and a document carrying any further members — a `result` among them —
/// reads the same way.
pub proof fn lemma_error_shape_preferred(d: JsonData, t: (Seq<char>, Seq<char>, int, Seq<char>))
    requires
        crate::json::wf_json(d),
        error_response_of(d) == Some(t),
    ensures
        classify_response(ser_json(d)) == ResponseClass::ErrorEnvelope(t),
{
    crate::json::lemma_parse_json_of_ser(d);
}

/// Round trip for a synthetic "set pilot" success envelope: decoding
/// the encoded text yields exactly the constructed fields.
pub proof fn lemma_set_pilot_round_trip(m: Seq<char>, e: Seq<char>, success: bool)
    ensures
        ({
            let d = success_envelope(m, e, set_pilot_result_data(success));
            classify_response(ser_json(d)) == ResponseClass::Payload(d)
                && set_pilot_response_of(d) == Some((m, e, success))
        }),
{
    let rd = set_pilot_result_data(success);
    let d = success_envelope(m, e, rd);
    assert forall|i: int| 0 <= i < rd->Obj_0.len() implies crate::json::wf_json(
        #[trigger] rd->Obj_0[i].1,
    ) by {
        assert(rd->Obj_0[i] == ("success"@, JsonData::Bool(success)));
    }
    assert(crate::json::wf_json(rd));
    lemma_envelope_wf(m, e, rd);
    crate::json::lemma_parse_json_of_ser(d);
    lemma_success_envelope_reading(m, e, rd);
    reveal_strlit("success");
    assert(bool_field(rd, "success"@) == Some(success));
}

/// Round trip for a synthetic "get pilot" success envelope.
pub proof fn lemma_get_pilot_round_trip(resp: GetPilotResponse)
    ensures
        ({
            let d = success_envelope(resp.method@, resp.env@, get_pilot_result_data(resp.result@));
            classify_response(ser_json(d)) == ResponseClass::Payload(d) && get_pilot_response_of(d)
                == Some(resp@)
        }),
{
    let p = resp.result@;
    let rd = get_pilot_result_data(p);
    let fs = rd->Obj_0;
    assert forall|i: int| 0 <= i < fs.len() implies crate::json::wf_json(
        #[trigger] fs[i].1,
    ) by {
        match p.r {
            Some(_) => {},
            None => {},
        }
    }
    assert(crate::json::wf_json(rd));
    lemma_envelope_wf(resp.method@, resp.env@, rd);
    let d = success_envelope(resp.method@, resp.env@, rd);
    crate::json::lemma_parse_json_of_ser(d);
    lemma_success_envelope_reading(resp.method@, resp.env@, rd);
    reveal_strlit("mac");
    reveal_strlit("rssi");
    reveal_strlit("state");
    reveal_strlit("sceneId");
    reveal_strlit("r");
    reveal_strlit("g");
    reveal_strlit("b");
    reveal_strlit("c");
    reveal_strlit("w");
    reveal_strlit("dimming");
    assert("mac"@.len() == 3);
    assert("rssi"@.len() == 4);
    assert("state"@.len() == 5);
    assert("sceneId"@.len() == 7);
    assert("r"@.len() == 1);
    assert("g"@.len() == 1);
    assert("b"@.len() == 1);
    assert("c"@.len() == 1);
    assert("w"@.len() == 1);
    assert("dimming"@.len() == 7);
    assert("r"@[0] == 'r');
    assert("g"@[0] == 'g');
    assert("b"@[0] == 'b');
    assert("c"@[0] == 'c');
    assert("w"@[0] == 'w');
    assert("sceneId"@[0] == 's');
    assert("dimming"@[0] == 'd');
    assert forall|j: int| 0 <= j < 0 implies (#[trigger] fs[j]).0 != "mac"@ by {}
    crate::json::lemma_lookup_at(fs, 0, "mac"@);
    assert forall|j: int| 0 <= j < 1 implies (#[trigger] fs[j]).0 != "rssi"@ by {}
    crate::json::lemma_lookup_at(fs, 1, "rssi"@);
    assert forall|j: int| 0 <= j < 2 implies (#[trigger] fs[j]).0 != "state"@ by {}
    crate::json::lemma_lookup_at(fs, 2, "state"@);
    assert forall|j: int| 0 <= j < 3 implies (#[trigger] fs[j]).0 != "sceneId"@ by {}
    crate::json::lemma_lookup_at(fs, 3, "sceneId"@);
    assert forall|j: int| 0 <= j < 4 implies (#[trigger] fs[j]).0 != "r"@ by {}
    crate::json::lemma_lookup_at(fs, 4, "r"@);
    assert forall|j: int| 0 <= j < 5 implies (#[trigger] fs[j]).0 != "g"@ by {}
    crate::json::lemma_lookup_at(fs, 5, "g"@);
    assert forall|j: int| 0 <= j < 6 implies (#[trigger] fs[j]).0 != "b"@ by {}
    crate::json::lemma_lookup_at(fs, 6, "b"@);
    assert forall|j: int| 0 <= j < 7 implies (#[trigger] fs[j]).0 != "c"@ by {}
    crate::json::lemma_lookup_at(fs, 7, "c"@);
    assert forall|j: int| 0 <= j < 8 implies (#[trigger] fs[j]).0 != "w"@ by {}
    crate::json::lemma_lookup_at(fs, 8, "w"@);
    assert forall|j: int| 0 <= j < 9 implies (#[trigger] fs[j]).0 != "dimming"@ by {}
    crate::json::lemma_lookup_at(fs, 9, "dimming"@);
    match p.r {
        Some(_) => {},
        None => {},
    }
    match p.g {
        Some(_) => {},
        None => {},
    }
    match p.b {
        Some(_) => {},
        None => {},
    }
    match p.c {
        Some(_) => {},
        None => {},
    }
    match p.w {
        Some(_) => {},
        None => {},
    }
    assert(crate::messages::get_pilot_result_of(rd) == Some(p));
}

/// Round trip for a synthetic "get system configuration" success
/// envelope. The identifiers must fit a JSON integer, as a decoded
/// response's always do.
pub proof fn lemma_system_config_round_trip(resp: GetSystemConfigResponse)
    requires
        resp.result.home_id <= i64::MAX,
        resp.result.room_id <= i64::MAX,
        resp.result.group_id <= i64::MAX,
        resp.result.ping <= i64::MAX,
    ensures
        ({
            let d = success_envelope(
                resp.method@,
                resp.env@,
                system_config_result_data(resp.result@),
            );
            classify_response(ser_json(d)) == ResponseClass::Payload(d)
                && system_config_response_of(d) == Some(resp@)
        }),
{
    let p = resp.result@;
    let rd = system_config_result_data(p);
    let fs = rd->Obj_0;
    assert forall|i: int| 0 <= i < fs.len() implies crate::json::wf_json(
        #[trigger] fs[i].1,
    ) by {}
    assert(crate::json::wf_json(rd));
    lemma_envelope_wf(resp.method@, resp.env@, rd);
    let d = success_envelope(resp.method@, resp.env@, rd);
    crate::json::lemma_parse_json_of_ser(d);
    lemma_success_envelope_reading(resp.method@, resp.env@, rd);
    reveal_strlit("mac");
    reveal_strlit("homeId");
    reveal_strlit("roomId");
    reveal_strlit("rgn");
    reveal_strlit("moduleName");
    reveal_strlit("fwVersion");
    reveal_strlit("groupId");
    reveal_strlit("ping");
    assert("mac"@.len() == 3);
    assert("homeId"@.len() == 6);
    assert("roomId"@.len() == 6);
    assert("rgn"@.len() == 3);
    assert("moduleName"@.len() == 10);
    assert("fwVersion"@.len() == 9);
    assert("groupId"@.len() == 7);
    assert("ping"@.len() == 4);
    assert("homeId"@[0] == 'h');
    assert("roomId"@[0] == 'r');
    assert("mac"@[0] == 'm');
    assert("rgn"@[0] == 'r');
    crate::json::lemma_lookup_at(fs, 0, "mac"@);
    assert forall|j: int| 0 <= j < 1 implies (#[trigger] fs[j]).0 != "homeId"@ by {}
    crate::json::lemma_lookup_at(fs, 1, "homeId"@);
    assert forall|j: int| 0 <= j < 2 implies (#[trigger] fs[j]).0 != "roomId"@ by {}
    crate::json::lemma_lookup_at(fs, 2, "roomId"@);
    assert forall|j: int| 0 <= j < 3 implies (#[trigger] fs[j]).0 != "rgn"@ by {}
    crate::json::lemma_lookup_at(fs, 3, "rgn"@);
    assert forall|j: int| 0 <= j < 4 implies (#[trigger] fs[j]).0 != "moduleName"@ by {}
    crate::json::lemma_lookup_at(fs, 4, "moduleName"@);
    assert forall|j: int| 0 <= j < 5 implies (#[trigger] fs[j]).0 != "fwVersion"@ by {}
    crate::json::lemma_lookup_at(fs, 5, "fwVersion"@);
    assert forall|j: int| 0 <= j < 6 implies (#[trigger] fs[j]).0 != "groupId"@ by {}
    crate::json::lemma_lookup_at(fs, 6, "groupId"@);
    assert forall|j: int| 0 <= j < 7 implies (#[trigger] fs[j]).0 != "ping"@ by {}
    crate::json::lemma_lookup_at(fs, 7, "ping"@);
    assert(crate::messages::system_config_result_of(rd) == Some(p));
}

/// Round trip for a synthetic "get power draw" success envelope.
pub proof fn lemma_get_power_round_trip(resp: GetPowerResponse)
    ensures
        ({
            let d = success_envelope(
                resp.method@,
                resp.env@,
                get_power_result_data(resp.result.power as int),
            );
            classify_response(ser_json(d)) == ResponseClass::Payload(d) && get_power_response_of(d)
                == Some(resp@)
        }),
{
    let rd = get_power_result_data(resp.result.power as int);
    let fs = rd->Obj_0;
    assert forall|i: int| 0 <= i < fs.len() implies crate::json::wf_json(
        #[trigger] fs[i].1,
    ) by {}
    assert(crate::json::wf_json(rd));
    lemma_envelope_wf(resp.method@, resp.env@, rd);
    let d = success_envelope(resp.method@, resp.env@, rd);
    crate::json::lemma_parse_json_of_ser(d);
    lemma_success_envelope_reading(resp.method@, resp.env@, rd);
    crate::json::lemma_lookup_at(fs, 0, "power"@);
}

/// An array of in-bounds integers reads back as exactly its values.
proof fn lemma_bounded_ints_of_map(ns: Seq<int>, lo: int, hi: int)
    requires
        forall|i: int| 0 <= i < ns.len() ==> lo <= #[trigger] ns[i] <= hi,
    ensures
        crate::messages::bounded_ints_of(ns.map_values(|n: int| JsonData::Int(n)), lo, hi) == Some(
            ns,
        ),
    decreases ns.len(),
{
    let ms = ns.map_values(|n: int| JsonData::Int(n));
    if ns.len() == 0 {
        assert(crate::messages::bounded_ints_of(ms, lo, hi) == Some(Seq::<int>::empty()));
        assert(ns =~= Seq::<int>::empty());
    } else {
        assert(ms[0] == JsonData::Int(ns[0]));
        assert(ms.drop_first() =~= ns.drop_first().map_values(|n: int| JsonData::Int(n)));
        lemma_bounded_ints_of_map(ns.drop_first(), lo, hi);
        assert(seq![ns[0]] + ns.drop_first() =~= ns);
    }
}

/// Round trip for a synthetic "get model configuration" success
/// envelope, given arrays of the lengths the protocol fixes.
pub proof fn lemma_model_config_round_trip(resp: GetModelConfigResponse)
    requires
        resp.result.pwm_range@.len() == 2,
        resp.result.cct_range@.len() == 4,
        resp.result.render_factor@.len() == 10,
    ensures
        ({
            let d = success_envelope(
                resp.method@,
                resp.env@,
                crate::messages::model_config_result_data(resp.result@),
            );
            classify_response(ser_json(d)) == ResponseClass::Payload(d)
                && model_config_response_of(d) == Some(resp@)
        }),
{
    let p = resp.result@;
    let rd = crate::messages::model_config_result_data(p);
    let fs = rd->Obj_0;
    let m1 = p.pwm_range.map_values(|n: int| JsonData::Int(n));
    let m2 = p.cct_range.map_values(|n: int| JsonData::Int(n));
    let m3 = p.render_factor.map_values(|n: int| JsonData::Int(n));
    assert forall|k: int| 0 <= k < m1.len() implies crate::json::wf_json(#[trigger] m1[k]) by {
        assert(m1[k] == JsonData::Int(p.pwm_range[k]));
        assert(p.pwm_range[k] == resp.result.pwm_range@[k] as int);
    }
    assert forall|k: int| 0 <= k < m2.len() implies crate::json::wf_json(#[trigger] m2[k]) by {
        assert(m2[k] == JsonData::Int(p.cct_range[k]));
        assert(p.cct_range[k] == resp.result.cct_range@[k] as int);
    }
    assert forall|k: int| 0 <= k < m3.len() implies crate::json::wf_json(#[trigger] m3[k]) by {
        assert(m3[k] == JsonData::Int(p.render_factor[k]));
        assert(p.render_factor[k] == resp.result.render_factor@[k] as int);
    }
    assert(crate::json::wf_json(JsonData::Arr(m1)));
    assert(crate::json::wf_json(JsonData::Arr(m2)));
    assert(crate::json::wf_json(JsonData::Arr(m3)));
    assert forall|i: int| 0 <= i < fs.len() implies crate::json::wf_json(
        #[trigger] fs[i].1,
    ) by {
        match p.drv_iface {
            Some(_) => {},
            None => {},
        }
    }
    assert(crate::json::wf_json(rd));
    lemma_envelope_wf(resp.method@, resp.env@, rd);
    let d = success_envelope(resp.method@, resp.env@, rd);
    crate::json::lemma_parse_json_of_ser(d);
    lemma_success_envelope_reading(resp.method@, resp.env@, rd);
    reveal_strlit("ps");
    reveal_strlit("pwmFreq");
    reveal_strlit("pwmRange");
    reveal_strlit("wcr");
    reveal_strlit("nowc");
    reveal_strlit("cctRange");
    reveal_strlit("renderFactor");
    reveal_strlit("srvIface");
    assert("ps"@.len() == 2);
    assert("pwmFreq"@.len() == 7);
    assert("pwmRange"@.len() == 8);
    assert("wcr"@.len() == 3);
    assert("nowc"@.len() == 4);
    assert("cctRange"@.len() == 8);
    assert("renderFactor"@.len() == 12);
    assert("srvIface"@.len() == 8);
    assert("pwmRange"@[0] == 'p');
    assert("cctRange"@[0] == 'c');
    assert("srvIface"@[0] == 's');
    crate::json::lemma_lookup_at(fs, 0, "ps"@);
    assert forall|j: int| 0 <= j < 1 implies (#[trigger] fs[j]).0 != "pwmFreq"@ by {}
    crate::json::lemma_lookup_at(fs, 1, "pwmFreq"@);
    assert forall|j: int| 0 <= j < 2 implies (#[trigger] fs[j]).0 != "pwmRange"@ by {}
    crate::json::lemma_lookup_at(fs, 2, "pwmRange"@);
    assert forall|j: int| 0 <= j < 3 implies (#[trigger] fs[j]).0 != "wcr"@ by {}
    crate::json::lemma_lookup_at(fs, 3, "wcr"@);
    assert forall|j: int| 0 <= j < 4 implies (#[trigger] fs[j]).0 != "nowc"@ by {}
    crate::json::lemma_lookup_at(fs, 4, "nowc"@);
    assert forall|j: int| 0 <= j < 5 implies (#[trigger] fs[j]).0 != "cctRange"@ by {}
    crate::json::lemma_lookup_at(fs, 5, "cctRange"@);
    assert forall|j: int| 0 <= j < 6 implies (#[trigger] fs[j]).0 != "renderFactor"@ by {}
    crate::json::lemma_lookup_at(fs, 6, "renderFactor"@);
    assert forall|j: int| 0 <= j < 7 implies (#[trigger] fs[j]).0 != "srvIface"@ by {}
    crate::json::lemma_lookup_at(fs, 7, "srvIface"@);
    assert forall|i: int| 0 <= i < p.pwm_range.len() implies 0 <= #[trigger] p.pwm_range[i]
        <= 255 by {
        assert(p.pwm_range[i] == resp.result.pwm_range@[i] as int);
    }
    lemma_bounded_ints_of_map(p.pwm_range, 0, 255);
    assert forall|i: int| 0 <= i < p.cct_range.len() implies 0 <= #[trigger] p.cct_range[i]
        <= 65535 by {
        assert(p.cct_range[i] == resp.result.cct_range@[i] as int);
    }
    lemma_bounded_ints_of_map(p.cct_range, 0, 65535);
    assert forall|i: int| 0 <= i < p.render_factor.len() implies 0 <= #[trigger] p.render_factor[i]
        <= 255 by {
        assert(p.render_factor[i] == resp.result.render_factor@[i] as int);
    }
    lemma_bounded_ints_of_map(p.render_factor, 0, 255);
    match p.drv_iface {
        Some(_) => {},
        None => {},
    }
    assert(crate::messages::model_config_result_of(rd) == Some(p));
}

/// A success envelope is well-formed whenever its result document is.
proof fn lemma_envelope_wf(m: Seq<char>, e: Seq<char>, result: JsonData)
    requires
        crate::json::wf_json(result),
    ensures
        crate::json::wf_json(success_envelope(m, e, result)),
{
    let fs = success_envelope(m, e, result)->Obj_0;
    assert forall|i: int| 0 <= i < fs.len() implies crate::json::wf_json(#[trigger] fs[i].1) by {
        if i == 0 {
            assert(fs[0].1 == JsonData::Str(m));
        } else if i == 1 {
            assert(fs[1].1 == JsonData::Str(e));
        } else {
            assert(fs[2].1 == result);
        }
    }
}

} // verus!
