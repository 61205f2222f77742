//! A small JSON codec for the protocol's wire format.
//!
//! The devices speak compact JSON: a single object per datagram, with
//! string, integer, boolean, array and object values. This module models
//! such documents with [`JsonValue`], serializes them to the compact text
//! form, and parses compact text back. Serialization and parsing are
//! specified against each other: parsing a serialized document returns
//! exactly the original document.

use vstd::prelude::*;

verus! {

broadcast use vstd::seq::group_seq_axioms, vstd::std_specs::vec::group_vec_axioms;

/// The mathematical model of a JSON document.
pub enum JsonData {
    Null,
    Bool(bool),
    Int(int),
    Str(Seq<char>),
    Arr(Seq<JsonData>),
    Obj(Seq<(Seq<char>, JsonData)>),
}

/// A JSON document as held at run time. Integers are restricted to the
/// `i64` range, as the devices never send anything wider.
#[derive(Debug)]
pub enum JsonValue {
    Null,
    Bool(bool),
    Int(i64),
    Str(String),
    Arr(Vec<JsonValue>),
    Obj(Vec<(String, JsonValue)>),
}

pub open spec fn view_of(v: JsonValue) -> JsonData
    decreases v, 1int,
{
    match v {
        JsonValue::Null => JsonData::Null,
        JsonValue::Bool(b) => JsonData::Bool(b),
        JsonValue::Int(n) => JsonData::Int(n as int),
        JsonValue::Str(s) => JsonData::Str(s@),
        JsonValue::Arr(vs) => JsonData::Arr(views_of_seq(vs@)),
        JsonValue::Obj(fs) => JsonData::Obj(field_views_of_seq(fs@)),
    }
}

pub open spec fn views_of_seq(vs: Seq<JsonValue>) -> Seq<JsonData>
    decreases vs, 0int,
{
    Seq::new(
        vs.len(),
        |i: int|
            if 0 <= i < vs.len() {
                view_of(vs[i])
            } else {
                JsonData::Null
            },
    )
}

pub open spec fn field_views_of_seq(fs: Seq<(String, JsonValue)>) -> Seq<(Seq<char>, JsonData)>
    decreases fs, 0int,
{
    Seq::new(
        fs.len(),
        |i: int|
            if 0 <= i < fs.len() {
                (fs[i].0@, view_of(fs[i].1))
            } else {
                (Seq::empty(), JsonData::Null)
            },
    )
}

impl View for JsonValue {
    type V = JsonData;

    open spec fn view(&self) -> JsonData {
        view_of(*self)
    }
}

/// Documents whose integers fit in `i64`. Run-time values always satisfy
/// this, and only such documents parse back from their text form.
pub open spec fn wf_json(v: JsonData) -> bool
    decreases v,
{
    match v {
        JsonData::Null => true,
        JsonData::Bool(_) => true,
        JsonData::Int(n) => i64::MIN <= n <= i64::MAX,
        JsonData::Str(_) => true,
        JsonData::Arr(es) => forall|i: int| 0 <= i < es.len() ==> wf_json(#[trigger] es[i]),
        JsonData::Obj(fs) => forall|i: int| 0 <= i < fs.len() ==> wf_json(#[trigger] fs[i].1),
    }
}

pub proof fn lemma_view_wf(v: JsonValue)
    ensures
        wf_json(v@),
    decreases v,
{
    match v {
        JsonValue::Arr(vs) => {
            assert forall|i: int| 0 <= i < vs@.len() implies wf_json(
                #[trigger] v@->Arr_0[i],
            ) by {
                lemma_view_wf(vs@[i]);
            }
        },
        JsonValue::Obj(fs) => {
            assert forall|i: int| 0 <= i < fs@.len() implies wf_json(
                #[trigger] v@->Obj_0[i].1,
            ) by {
                lemma_view_wf(fs@[i].1);
            }
        },
        _ => {},
    }
}

pub open spec fn is_digit(c: char) -> bool {
    c == '0' || c == '1' || c == '2' || c == '3' || c == '4' || c == '5' || c == '6' || c == '7'
        || c == '8' || c == '9'
}

pub open spec fn digit_char(d: int) -> char {
    if d == 0 {
        '0'
    } else if d == 1 {
        '1'
    } else if d == 2 {
        '2'
    } else if d == 3 {
        '3'
    } else if d == 4 {
        '4'
    } else if d == 5 {
        '5'
    } else if d == 6 {
        '6'
    } else if d == 7 {
        '7'
    } else if d == 8 {
        '8'
    } else {
        '9'
    }
}

pub open spec fn digit_val(c: char) -> int {
    if c == '0' {
        0
    } else if c == '1' {
        1
    } else if c == '2' {
        2
    } else if c == '3' {
        3
    } else if c == '4' {
        4
    } else if c == '5' {
        5
    } else if c == '6' {
        6
    } else if c == '7' {
        7
    } else if c == '8' {
        8
    } else {
        9
    }
}

/// The decimal digits of a non-negative integer, most significant first.
pub open spec fn ser_digits(n: int) -> Seq<char>
    decreases n,
{
    if n < 10 {
        seq![digit_char(n)]
    } else {
        ser_digits(n / 10).push(digit_char(n % 10))
    }
}

/// The text form of an integer: an optional minus sign and the digits.
pub open spec fn ser_int(n: int) -> Seq<char> {
    if n < 0 {
        seq!['-'] + ser_digits(-n)
    } else {
        ser_digits(n)
    }
}

/// A string character as it appears between the quotes of a JSON string:
/// quotes and backslashes get a backslash escape, all else is verbatim.
pub open spec fn esc_char(c: char) -> Seq<char> {
    if c == '"' || c == '\\' {
        seq!['\\', c]
    } else {
        seq![c]
    }
}

pub open spec fn escape_str(s: Seq<char>) -> Seq<char>
    decreases s.len(),
{
    if s.len() == 0 {
        Seq::empty()
    } else {
        esc_char(s[0]) + escape_str(s.drop_first())
    }
}

/// The compact text form of a document: no whitespace, fields and
/// elements separated by single commas.
pub open spec fn ser_json(v: JsonData) -> Seq<char>
    decreases v, 1int,
{
    match v {
        JsonData::Null => seq!['n', 'u', 'l', 'l'],
        JsonData::Bool(b) => if b {
            seq!['t', 'r', 'u', 'e']
        } else {
            seq!['f', 'a', 'l', 's', 'e']
        },
        JsonData::Int(n) => ser_int(n),
        JsonData::Str(s) => seq!['"'] + escape_str(s) + seq!['"'],
        JsonData::Arr(es) => seq!['['] + ser_elems(es) + seq![']'],
        JsonData::Obj(fs) => seq!['{'] + ser_fields(fs) + seq!['}'],
    }
}

pub open spec fn ser_elems(es: Seq<JsonData>) -> Seq<char>
    decreases es, 0int,
{
    if es.len() == 0 {
        Seq::empty()
    } else if es.len() == 1 {
        ser_json(es[0])
    } else {
        ser_json(es[0]) + seq![','] + ser_elems(es.drop_first())
    }
}

pub open spec fn ser_field(f: (Seq<char>, JsonData)) -> Seq<char>
    decreases f, 1int,
{
    seq!['"'] + escape_str(f.0) + seq!['"', ':'] + ser_json(f.1)
}

pub open spec fn ser_fields(fs: Seq<(Seq<char>, JsonData)>) -> Seq<char>
    decreases fs, 0int,
{
    if fs.len() == 0 {
        Seq::empty()
    } else if fs.len() == 1 {
        ser_field(fs[0])
    } else {
        ser_field(fs[0]) + seq![','] + ser_fields(fs.drop_first())
    }
}

/// The first position at or after `i` that does not hold a decimal digit.
pub open spec fn digits_end(s: Seq<char>, i: int) -> int
    decreases s.len() - i,
{
    if i < 0 || i >= s.len() {
        i
    } else if !is_digit(s[i]) {
        i
    } else {
        digits_end(s, i + 1)
    }
}

/// The value of a sequence of decimal digits, most significant first.
pub open spec fn val_of(ds: Seq<char>) -> int
    decreases ds.len(),
{
    if ds.len() == 0 {
        0
    } else {
        val_of(ds.drop_last()) * 10 + digit_val(ds.last())
    }
}

/// Parses an integer starting at `i`: an optional minus sign and at
/// least one digit, consumed greedily. Fails when the value does not
/// fit in `i64`.
pub open spec fn parse_int(s: Seq<char>, i: int) -> Option<(JsonData, int)> {
    let neg = 0 <= i < s.len() && s[i] == '-';
    let d0 = if neg {
        i + 1
    } else {
        i
    };
    let j = digits_end(s, d0);
    if j == d0 {
        None
    } else {
        let m = val_of(s.subrange(d0, j));
        if neg {
            if i64::MIN <= -m {
                Some((JsonData::Int(-m), j))
            } else {
                None
            }
        } else {
            if m <= i64::MAX {
                Some((JsonData::Int(m), j))
            } else {
                None
            }
        }
    }
}

/// Parses the body of a string after the opening quote, up to and past
/// the closing quote. Only the two escapes the serializer emits are
/// recognized: an escaped quote and an escaped backslash.
pub open spec fn parse_str_body(s: Seq<char>, i: int) -> Option<(Seq<char>, int)>
    decreases s.len() - i,
{
    if i < 0 || i >= s.len() {
        None
    } else if s[i] == '"' {
        Some((Seq::empty(), i + 1))
    } else if s[i] == '\\' {
        if i + 1 < s.len() && (s[i + 1] == '"' || s[i + 1] == '\\') {
            match parse_str_body(s, i + 2) {
                Some((cs, j)) => Some((seq![s[i + 1]] + cs, j)),
                None => None,
            }
        } else {
            None
        }
    } else {
        match parse_str_body(s, i + 1) {
            Some((cs, j)) => Some((seq![s[i]] + cs, j)),
            None => None,
        }
    }
}

/// Parses one JSON value starting exactly at `i` (no leading whitespace).
/// On success the returned index is just past the value.
pub open spec fn parse_value(s: Seq<char>, i: int) -> Option<(JsonData, int)>
    decreases s.len() - i, 0int,
{
    if i < 0 || i >= s.len() {
        None
    } else {
        let c = s[i];
        if c == 'n' {
            if i + 4 <= s.len() && s[i + 1] == 'u' && s[i + 2] == 'l' && s[i + 3] == 'l' {
                Some((JsonData::Null, i + 4))
            } else {
                None
            }
        } else if c == 't' {
            if i + 4 <= s.len() && s[i + 1] == 'r' && s[i + 2] == 'u' && s[i + 3] == 'e' {
                Some((JsonData::Bool(true), i + 4))
            } else {
                None
            }
        } else if c == 'f' {
            if i + 5 <= s.len() && s[i + 1] == 'a' && s[i + 2] == 'l' && s[i + 3] == 's' && s[i
                + 4] == 'e' {
                Some((JsonData::Bool(false), i + 5))
            } else {
                None
            }
        } else if c == '"' {
            match parse_str_body(s, i + 1) {
                Some((cs, j)) => Some((JsonData::Str(cs), j)),
                None => None,
            }
        } else if c == '-' || is_digit(c) {
            parse_int(s, i)
        } else if c == '[' {
            if i + 1 < s.len() && s[i + 1] == ']' {
                Some((JsonData::Arr(Seq::empty()), i + 2))
            } else {
                match parse_elems(s, i + 1) {
                    Some((es, j)) => Some((JsonData::Arr(es), j)),
                    None => None,
                }
            }
        } else if c == '{' {
            if i + 1 < s.len() && s[i + 1] == '}' {
                Some((JsonData::Obj(Seq::empty()), i + 2))
            } else {
                match parse_fields(s, i + 1) {
                    Some((fs, j)) => Some((JsonData::Obj(fs), j)),
                    None => None,
                }
            }
        } else {
            None
        }
    }
}

/// Parses the non-empty element list of an array, up to and past the
/// closing bracket.
pub open spec fn parse_elems(s: Seq<char>, i: int) -> Option<(Seq<JsonData>, int)>
    decreases s.len() - i, 1int,
{
    match parse_value(s, i) {
        Some((v, j)) => {
            if i < j && j < s.len() {
                if s[j] == ',' {
                    match parse_elems(s, j + 1) {
                        Some((es, k)) => Some((seq![v] + es, k)),
                        None => None,
                    }
                } else if s[j] == ']' {
                    Some((seq![v], j + 1))
                } else {
                    None
                }
            } else {
                None
            }
        },
        None => None,
    }
}

/// Parses the non-empty member list of an object, up to and past the
/// closing brace.
pub open spec fn parse_fields(s: Seq<char>, i: int) -> Option<(Seq<(Seq<char>, JsonData)>, int)>
    decreases s.len() - i, 1int,
{
    if 0 <= i && i < s.len() && s[i] == '"' {
        match parse_str_body(s, i + 1) {
            Some((key, j1)) => {
                if i < j1 && j1 < s.len() && s[j1] == ':' {
                    match parse_value(s, j1 + 1) {
                        Some((v, j2)) => {
                            if j1 < j2 && j2 < s.len() {
                                if s[j2] == ',' {
                                    match parse_fields(s, j2 + 1) {
                                        Some((fs, k)) => Some((seq![(key, v)] + fs, k)),
                                        None => None,
                                    }
                                } else if s[j2] == '}' {
                                    Some((seq![(key, v)], j2 + 1))
                                } else {
                                    None
                                }
                            } else {
                                None
                            }
                        },
                        None => None,
                    }
                } else {
                    None
                }
            },
            None => None,
        }
    } else {
        None
    }
}

/// Parses a whole document: one value that must span the entire text.
pub open spec fn parse_json(s: Seq<char>) -> Option<JsonData> {
    match parse_value(s, 0) {
        Some((v, j)) => if j == s.len() {
            Some(v)
        } else {
            None
        },
        None => None,
    }
}

proof fn lemma_views_prepend(v: JsonValue, vs: Seq<JsonValue>)
    ensures
        views_of_seq(vs.insert(0, v)) == seq![view_of(v)] + views_of_seq(vs),
{
    assert(views_of_seq(vs.insert(0, v)) =~= seq![view_of(v)] + views_of_seq(vs));
}

proof fn lemma_field_views_prepend(f: (String, JsonValue), fs: Seq<(String, JsonValue)>)
    ensures
        field_views_of_seq(fs.insert(0, f)) == seq![(f.0@, view_of(f.1))] + field_views_of_seq(fs),
{
    assert(field_views_of_seq(fs.insert(0, f)) =~= seq![(f.0@, view_of(f.1))]
        + field_views_of_seq(fs));
}

/// Decimal digit test on a character.
pub fn is_digit_ascii(c: char) -> (r: bool)
    ensures
        r == is_digit(c),
{
    matches!(c, '0' | '1' | '2' | '3' | '4' | '5' | '6' | '7' | '8' | '9')
}

fn val_of_digit(c: char) -> (d: u64)
    requires
        is_digit(c),
    ensures
        d == digit_val(c),
        d < 10,
{
    match c {
        '0' => 0,
        '1' => 1,
        '2' => 2,
        '3' => 3,
        '4' => 4,
        '5' => 5,
        '6' => 6,
        '7' => 7,
        '8' => 8,
        _ => 9,
    }
}

/// `u64::MAX / 10`, for the overflow test while accumulating digits.
const LAST_SAFE_ACC: u64 = 1844674407370955161;

proof fn lemma_val_of_nonneg(ds: Seq<char>)
    ensures
        val_of(ds) >= 0,
    decreases ds.len(),
{
    if ds.len() > 0 {
        lemma_val_of_nonneg(ds.drop_last());
    }
}

/// Scans the run of digits starting at `i` and accumulates its value;
/// the value comes back as `None` when it exceeds `u64::MAX`.
fn p_digits(s: &str, i: usize) -> (r: (Option<u64>, usize))
    requires
        i <= s@.len(),
    ensures
        r.1 == digits_end(s@, i as int),
        i <= r.1 <= s@.len(),
        (match r.0 {
            Some(x) => x == val_of(s@.subrange(i as int, r.1 as int)),
            None => val_of(s@.subrange(i as int, r.1 as int)) > u64::MAX,
        }),
{
    let n = s.unicode_len();
    let mut j = i;
    let mut val: Option<u64> = Some(0u64);
    loop
        invariant
            i <= j <= n,
            n == s@.len(),
            digits_end(s@, i as int) == digits_end(s@, j as int),
            (match val {
                Some(x) => x == val_of(s@.subrange(i as int, j as int)),
                None => val_of(s@.subrange(i as int, j as int)) > u64::MAX,
            }),
        ensures
            j == digits_end(s@, i as int),
            j <= n,
            i <= j,
            (match val {
                Some(x) => x == val_of(s@.subrange(i as int, j as int)),
                None => val_of(s@.subrange(i as int, j as int)) > u64::MAX,
            }),
        decreases s@.len() - j,
    {
        if j == n {
            break ;
        }
        let c = s.get_char(j);
        if !is_digit_ascii(c) {
            break ;
        }
        let d = val_of_digit(c);
        proof {
            assert(s@.subrange(i as int, j + 1).drop_last() =~= s@.subrange(i as int, j as int));
            assert(s@.subrange(i as int, j + 1).last() == s@[j as int]);
            lemma_val_of_nonneg(s@.subrange(i as int, j as int));
        }
        val = match val {
            Some(x) => {
                if x < LAST_SAFE_ACC || (x == LAST_SAFE_ACC && d <= 5) {
                    Some(x * 10 + d)
                } else {
                    None
                }
            },
            None => None,
        };
        j = j + 1;
    }
    (val, j)
}

/// Parses an integer starting at `i`, as [`parse_int`] describes.
fn p_int(s: &str, i: usize) -> (r: Option<(JsonValue, usize)>)
    requires
        i < s@.len(),
    ensures
        (match r {
            Some((v, j)) => parse_int(s@, i as int) == Some((v@, j as int)) && i < j <= s@.len(),
            None => parse_int(s@, i as int) is None,
        }),
{
    let n = s.unicode_len();
    let neg = s.get_char(i) == '-';
    let d0 = if neg {
        i + 1
    } else {
        i
    };
    let (val, j) = p_digits(s, d0);
    if j == d0 {
        return None;
    }
    proof {
        lemma_val_of_nonneg(s@.subrange(d0 as int, j as int));
    }
    match val {
        Some(x) => {
            if neg {
                if x <= 9223372036854775808u64 {
                    let m: i64 = if x == 9223372036854775808u64 {
                        i64::MIN
                    } else {
                        -(x as i64)
                    };
                    Some((JsonValue::Int(m), j))
                } else {
                    None
                }
            } else {
                if x <= 9223372036854775807u64 {
                    Some((JsonValue::Int(x as i64), j))
                } else {
                    None
                }
            }
        },
        None => None,
    }
}

/// Parses a string body after the opening quote, as [`parse_str_body`]
/// describes.
fn p_str_body(s: &str, i: usize) -> (r: Option<(String, usize)>)
    requires
        i <= s@.len(),
    ensures
        (match r {
            Some((cs, j)) => parse_str_body(s@, i as int) == Some((cs@, j as int)) && i < j
                <= s@.len(),
            None => parse_str_body(s@, i as int) is None,
        }),
    decreases s@.len() - i,
{
    let n = s.unicode_len();
    if i == n {
        return None;
    }
    let c = s.get_char(i);
    if c == '"' {
        let out = String::new();
        assert(out@ =~= Seq::<char>::empty());
        Some((out, i + 1))
    } else if c == '\\' {
        if i + 1 < n {
            let c2 = s.get_char(i + 1);
            if c2 == '"' || c2 == '\\' {
                match p_str_body(s, i + 2) {
                    Some((rest, j)) => {
                        let mut out = String::new();
                        push_char(&mut out, c2);
                        out.append(rest.as_str());
                        assert(out@ =~= seq![s@[i + 1]] + rest@);
                        Some((out, j))
                    },
                    None => None,
                }
            } else {
                None
            }
        } else {
            None
        }
    } else {
        match p_str_body(s, i + 1) {
            Some((rest, j)) => {
                let mut out = String::new();
                push_char(&mut out, c);
                out.append(rest.as_str());
                assert(out@ =~= seq![s@[i as int]] + rest@);
                Some((out, j))
            },
            None => None,
        }
    }
}

/// Parses one value starting at `i`, as [`parse_value`] describes.
fn p_value(s: &str, i: usize) -> (r: Option<(JsonValue, usize)>)
    requires
        i <= s@.len(),
    ensures
        (match r {
            Some((v, j)) => parse_value(s@, i as int) == Some((v@, j as int)) && i < j <= s@.len(),
            None => parse_value(s@, i as int) is None,
        }),
    decreases s@.len() - i, 0int,
{
    let n = s.unicode_len();
    if i == n {
        return None;
    }
    let c = s.get_char(i);
    if c == 'n' {
        if n - i >= 4 && s.get_char(i + 1) == 'u' && s.get_char(i + 2) == 'l' && s.get_char(i + 3)
            == 'l' {
            Some((JsonValue::Null, i + 4))
        } else {
            None
        }
    } else if c == 't' {
        if n - i >= 4 && s.get_char(i + 1) == 'r' && s.get_char(i + 2) == 'u' && s.get_char(i + 3)
            == 'e' {
            Some((JsonValue::Bool(true), i + 4))
        } else {
            None
        }
    } else if c == 'f' {
        if n - i >= 5 && s.get_char(i + 1) == 'a' && s.get_char(i + 2) == 'l' && s.get_char(i + 3)
            == 's' && s.get_char(i + 4) == 'e' {
            Some((JsonValue::Bool(false), i + 5))
        } else {
            None
        }
    } else if c == '"' {
        match p_str_body(s, i + 1) {
            Some((cs, j)) => Some((JsonValue::Str(cs), j)),
            None => None,
        }
    } else if c == '-' || is_digit_ascii(c) {
        p_int(s, i)
    } else if c == '[' {
        if i + 1 < n && s.get_char(i + 1) == ']' {
            let es: Vec<JsonValue> = Vec::new();
            proof {
                assert(views_of_seq(es@) =~= Seq::<JsonData>::empty());
            }
            Some((JsonValue::Arr(es), i + 2))
        } else {
            match p_elems(s, i + 1) {
                Some((es, j)) => Some((JsonValue::Arr(es), j)),
                None => None,
            }
        }
    } else if c == '{' {
        if i + 1 < n && s.get_char(i + 1) == '}' {
            let fs: Vec<(String, JsonValue)> = Vec::new();
            proof {
                assert(field_views_of_seq(fs@) =~= Seq::<(Seq<char>, JsonData)>::empty());
            }
            Some((JsonValue::Obj(fs), i + 2))
        } else {
            match p_fields(s, i + 1) {
                Some((fs, j)) => Some((JsonValue::Obj(fs), j)),
                None => None,
            }
        }
    } else {
        None
    }
}

/// Parses a non-empty array element list, as [`parse_elems`] describes.
fn p_elems(s: &str, i: usize) -> (r: Option<(Vec<JsonValue>, usize)>)
    requires
        i <= s@.len(),
    ensures
        (match r {
            Some((es, j)) => parse_elems(s@, i as int) == Some((views_of_seq(es@), j as int)) && i
                < j <= s@.len(),
            None => parse_elems(s@, i as int) is None,
        }),
    decreases s@.len() - i, 1int,
{
    let n = s.unicode_len();
    match p_value(s, i) {
        Some((v, j)) => {
            if j < n {
                let c = s.get_char(j);
                if c == ',' {
                    match p_elems(s, j + 1) {
                        Some((mut es, k)) => {
                            proof {
                                lemma_views_prepend(v, es@);
                            }
                            es.insert(0, v);
                            Some((es, k))
                        },
                        None => None,
                    }
                } else if c == ']' {
                    let mut es: Vec<JsonValue> = Vec::new();
                    es.push(v);
                    proof {
                        assert(views_of_seq(es@) =~= seq![view_of(v)]);
                    }
                    Some((es, j + 1))
                } else {
                    None
                }
            } else {
                None
            }
        },
        None => None,
    }
}

/// Parses a non-empty object member list, as [`parse_fields`] describes.
fn p_fields(s: &str, i: usize) -> (r: Option<(Vec<(String, JsonValue)>, usize)>)
    requires
        i <= s@.len(),
    ensures
        (match r {
            Some((fs, j)) => parse_fields(s@, i as int) == Some(
                (field_views_of_seq(fs@), j as int),
            ) && i < j <= s@.len(),
            None => parse_fields(s@, i as int) is None,
        }),
    decreases s@.len() - i, 1int,
{
    let n = s.unicode_len();
    if i == n {
        return None;
    }
    if s.get_char(i) != '"' {
        return None;
    }
    match p_str_body(s, i + 1) {
        Some((key, j1)) => {
            if j1 < n && s.get_char(j1) == ':' {
                match p_value(s, j1 + 1) {
                    Some((v, j2)) => {
                        if j2 < n {
                            let c = s.get_char(j2);
                            if c == ',' {
                                match p_fields(s, j2 + 1) {
                                    Some((mut fs, k)) => {
                                        proof {
                                            lemma_field_views_prepend((key, v), fs@);
                                        }
                                        fs.insert(0, (key, v));
                                        Some((fs, k))
                                    },
                                    None => None,
                                }
                            } else if c == '}' {
                                let mut fs: Vec<(String, JsonValue)> = Vec::new();
                                fs.push((key, v));
                                proof {
                                    assert(field_views_of_seq(fs@) =~= seq![
                                        (key@, view_of(v)),
                                    ]);
                                }
                                Some((fs, j2 + 1))
                            } else {
                                None
                            }
                        } else {
                            None
                        }
                    },
                    None => None,
                }
            } else {
                None
            }
        },
        None => None,
    }
}

impl JsonValue {
    /// Parses a whole compact JSON document, as [`parse_json`] describes.
    pub fn parse(s: &str) -> (r: Option<JsonValue>)
        ensures
            (match r {
                Some(v) => parse_json(s@) == Some(v@),
                None => parse_json(s@) is None,
            }),
    {
        let n = s.unicode_len();
        match p_value(s, 0) {
            Some((v, j)) => {
                if j == n {
                    Some(v)
                } else {
                    None
                }
            },
            None => None,
        }
    }
}

/// Relies on String::push: appends exactly the given character.
#[verifier::external_body]
fn push_char(s: &mut String, c: char)
    ensures
        final(s)@ == old(s)@.push(c),
{
    s.push(c);
}

fn digit_of(d: u64) -> (c: char)
    requires
        d < 10,
    ensures
        c == digit_char(d as int),
{
    match d {
        0 => '0',
        1 => '1',
        2 => '2',
        3 => '3',
        4 => '4',
        5 => '5',
        6 => '6',
        7 => '7',
        8 => '8',
        _ => '9',
    }
}

fn digits_string(n: u64) -> (out: String)
    ensures
        out@ == ser_digits(n as int),
    decreases n,
{
    if n < 10 {
        let mut out = String::new();
        push_char(&mut out, digit_of(n));
        assert(out@ =~= ser_digits(n as int));
        out
    } else {
        let mut out = digits_string(n / 10);
        push_char(&mut out, digit_of(n % 10));
        out
    }
}

fn int_string(n: i64) -> (out: String)
    ensures
        out@ == ser_int(n as int),
{
    if n >= 0 {
        digits_string(n as u64)
    } else {
        // the magnitude, computed without negating i64::MIN
        let mag: u64 = ((-(n + 1)) as u64) + 1;
        assert(mag == -(n as int));
        let mut out = String::new();
        push_char(&mut out, '-');
        let digits = digits_string(mag);
        out.append(digits.as_str());
        assert(out@ =~= ser_int(n as int));
        out
    }
}

/// Appends the escaped form of `s[i..]` to `out`.
fn append_escaped(out: &mut String, s: &str, i: usize)
    requires
        i <= s@.len(),
    ensures
        final(out)@ == old(out)@ + escape_str(s@.skip(i as int)),
    decreases s@.len() - i@,
{
    let n = s.unicode_len();
    if i == n {
        assert(escape_str(s@.skip(i as int)) =~= Seq::empty());
        assert(final(out)@ =~= old(out)@ + escape_str(s@.skip(i as int)));
    } else {
        let c = s.get_char(i);
        if c == '"' || c == '\\' {
            push_char(out, '\\');
        }
        push_char(out, c);
        append_escaped(out, s, i + 1);
        proof {
            assert(s@.skip(i as int).drop_first() =~= s@.skip(i + 1));
            assert(s@.skip(i as int)[0] == c);
            assert(final(out)@ =~= old(out)@ + escape_str(s@.skip(i as int)));
        }
    }
}

/// Appends a quoted, escaped JSON string to `out`.
fn append_quoted(out: &mut String, s: &str)
    ensures
        final(out)@ == old(out)@ + seq!['"'] + escape_str(s@) + seq!['"'],
{
    push_char(out, '"');
    append_escaped(out, s, 0);
    push_char(out, '"');
    proof {
        assert(s@.skip(0) =~= s@);
        assert(final(out)@ =~= old(out)@ + seq!['"'] + escape_str(s@) + seq!['"']);
    }
}

impl JsonValue {
    /// The compact text form of this document.
    pub fn serialize(&self) -> (out: String)
        ensures
            out@ == ser_json(self@),
    {
        let mut out = String::new();
        self.append_to(&mut out);
        out
    }

    fn append_to(&self, out: &mut String)
        ensures
            final(out)@ == old(out)@ + ser_json(self@),
        decreases self,
    {
        match self {
            JsonValue::Null => {
                out.append("null");
                proof {
                    reveal_strlit("null");
                    assert(final(out)@ =~= old(out)@ + ser_json(self@));
                }
            },
            JsonValue::Bool(b) => {
                if *b {
                    out.append("true");
                    proof {
                        reveal_strlit("true");
                        assert(final(out)@ =~= old(out)@ + ser_json(self@));
                    }
                } else {
                    out.append("false");
                    proof {
                        reveal_strlit("false");
                        assert(final(out)@ =~= old(out)@ + ser_json(self@));
                    }
                }
            },
            JsonValue::Int(n) => {
                let digits = int_string(*n);
                out.append(digits.as_str());
            },
            JsonValue::Str(s) => {
                append_quoted(out, s.as_str());
                assert(final(out)@ =~= old(out)@ + ser_json(self@));
            },
            JsonValue::Arr(vs) => {
                push_char(out, '[');
                Self::append_elems(vs, 0, out);
                push_char(out, ']');
                proof {
                    let es = self@->Arr_0;
                    assert(es.skip(0) =~= es);
                    assert(final(out)@ =~= old(out)@ + ser_json(self@));
                }
            },
            JsonValue::Obj(fs) => {
                push_char(out, '{');
                Self::append_fields(fs, 0, out);
                push_char(out, '}');
                proof {
                    let gs = self@->Obj_0;
                    assert(gs.skip(0) =~= gs);
                    assert(final(out)@ =~= old(out)@ + ser_json(self@));
                }
            },
        }
    }

    fn append_elems(vs: &Vec<JsonValue>, k: usize, out: &mut String)
        requires
            k <= vs@.len(),
        ensures
            final(out)@ == old(out)@ + ser_elems(view_of(JsonValue::Arr(*vs))->Arr_0.skip(k as int)),
        decreases vs, vs@.len() - k@,
    {
        let ghost es = view_of(JsonValue::Arr(*vs))->Arr_0;
        if k == vs.len() {
            assert(final(out)@ =~= old(out)@ + ser_elems(es.skip(k as int)));
        } else {
            vs[k].append_to(out);
            proof {
                assert(es.skip(k as int)[0] == view_of(vs@[k as int]));
            }
            if k + 1 == vs.len() {
                assert(es.skip(k as int).len() == 1);
                assert(final(out)@ =~= old(out)@ + ser_elems(es.skip(k as int)));
            } else {
                push_char(out, ',');
                Self::append_elems(vs, k + 1, out);
                proof {
                    assert(es.skip(k as int).drop_first() =~= es.skip(k + 1));
                    assert(final(out)@ =~= old(out)@ + ser_elems(es.skip(k as int)));
                }
            }
        }
    }

    fn append_fields(fs: &Vec<(String, JsonValue)>, k: usize, out: &mut String)
        requires
            k <= fs@.len(),
        ensures
            final(out)@ == old(out)@ + ser_fields(
                view_of(JsonValue::Obj(*fs))->Obj_0.skip(k as int),
            ),
        decreases fs, fs@.len() - k@,
    {
        let ghost gs = view_of(JsonValue::Obj(*fs))->Obj_0;
        if k == fs.len() {
            assert(final(out)@ =~= old(out)@ + ser_fields(gs.skip(k as int)));
        } else {
            append_quoted(out, fs[k].0.as_str());
            push_char(out, ':');
            fs[k].1.append_to(out);
            proof {
                assert(gs.skip(k as int)[0] == (fs@[k as int].0@, view_of(fs@[k as int].1)));
                assert(ser_field(gs.skip(k as int)[0]) =~= seq!['"'] + escape_str(
                    fs@[k as int].0@,
                ) + seq!['"', ':'] + ser_json(view_of(fs@[k as int].1)));
            }
            if k + 1 == fs.len() {
                assert(gs.skip(k as int).len() == 1);
                assert(final(out)@ =~= old(out)@ + ser_fields(gs.skip(k as int)));
            } else {
                push_char(out, ',');
                Self::append_fields(fs, k + 1, out);
                proof {
                    assert(gs.skip(k as int).drop_first() =~= gs.skip(k + 1));
                    assert(final(out)@ =~= old(out)@ + ser_fields(gs.skip(k as int)));
                }
            }
        }
    }
}

proof fn lemma_ser_digits_are_digits(n: int)
    requires
        n >= 0,
    ensures
        ser_digits(n).len() >= 1,
        forall|k: int| 0 <= k < ser_digits(n).len() ==> is_digit(#[trigger] ser_digits(n)[k]),
    decreases n,
{
    if n >= 10 {
        lemma_ser_digits_are_digits(n / 10);
    }
}

proof fn lemma_val_of_ser_digits(n: int)
    requires
        n >= 0,
    ensures
        val_of(ser_digits(n)) == n,
    decreases n,
{
    assert(ser_digits(n).len() > 0) by {
        lemma_ser_digits_are_digits(n);
    }
    assert(val_of(ser_digits(n)) == val_of(ser_digits(n).drop_last()) * 10 + digit_val(
        ser_digits(n).last(),
    ));
    if n < 10 {
        assert(ser_digits(n).drop_last() =~= Seq::<char>::empty());
        assert(val_of(Seq::<char>::empty()) == 0);
        assert(ser_digits(n).last() == digit_char(n));
        assert(digit_val(digit_char(n)) == n);
    } else {
        lemma_val_of_ser_digits(n / 10);
        assert(ser_digits(n).drop_last() =~= ser_digits(n / 10));
        assert(ser_digits(n).last() == digit_char(n % 10));
        assert(digit_val(digit_char(n % 10)) == n % 10);
        vstd::arithmetic::div_mod::lemma_fundamental_div_mod(n, 10);
    }
}

proof fn lemma_digits_end_of_digits(s: Seq<char>, i: int, len: int)
    requires
        0 <= i,
        i + len <= s.len(),
        0 <= len,
        forall|k: int| i <= k < i + len ==> is_digit(#[trigger] s[k]),
        i + len == s.len() || !is_digit(s[i + len]),
    ensures
        digits_end(s, i) == i + len,
    decreases len,
{
    if len > 0 {
        lemma_digits_end_of_digits(s, i + 1, len - 1);
    }
}

proof fn lemma_parse_int_of_ser(n: int, s: Seq<char>, i: int)
    requires
        i64::MIN <= n <= i64::MAX,
        0 <= i,
        i + ser_int(n).len() <= s.len(),
        s.subrange(i, i + ser_int(n).len()) == ser_int(n),
        i + ser_int(n).len() == s.len() || !is_digit(s[i + ser_int(n).len()]),
    ensures
        parse_int(s, i) == Some((JsonData::Int(n), i + ser_int(n).len())),
{
    let ser = ser_int(n);
    let l = ser.len() as int;
    assert forall|k: int| 0 <= k < l implies s[i + k] == #[trigger] ser[k] by {
        assert(s.subrange(i, i + l)[k] == s[i + k]);
    }
    if n >= 0 {
        lemma_ser_digits_are_digits(n);
        assert(s[i] == ser[0]);
        assert(is_digit(s[i]));
        assert(s[i] != '-');
        assert forall|k: int| i <= k < i + l implies is_digit(#[trigger] s[k]) by {
            assert(s[k] == ser[k - i]);
            assert(is_digit(ser_digits(n)[k - i]));
        }
        lemma_digits_end_of_digits(s, i, l);
        assert(s.subrange(i, i + l) =~= ser_digits(n));
        lemma_val_of_ser_digits(n);
    } else {
        let m = -n;
        assert(ser == seq!['-'] + ser_digits(m));
        assert(s[i] == ser[0]);
        assert(ser[0] == '-');
        lemma_ser_digits_are_digits(m);
        assert forall|k: int| i + 1 <= k < i + l implies is_digit(#[trigger] s[k]) by {
            assert(s[k] == ser[k - i]);
            assert(ser[k - i] == ser_digits(m)[k - i - 1]);
            assert(is_digit(ser_digits(m)[k - i - 1]));
        }
        lemma_digits_end_of_digits(s, i + 1, l - 1);
        assert(s.subrange(i + 1, i + l) =~= ser_digits(m)) by {
            assert forall|k: int| 0 <= k < l - 1 implies s.subrange(i + 1, i + l)[k]
                == ser_digits(m)[k] by {
                assert(s[i + 1 + k] == ser[1 + k]);
                assert(ser[1 + k] == ser_digits(m)[k]);
            }
        }
        lemma_val_of_ser_digits(m);
    }
}

proof fn lemma_parse_str_body_of_escape(cs: Seq<char>, s: Seq<char>, i: int)
    requires
        0 <= i,
        i + escape_str(cs).len() + 1 <= s.len(),
        s.subrange(i, i + escape_str(cs).len()) == escape_str(cs),
        s[i + escape_str(cs).len()] == '"',
    ensures
        parse_str_body(s, i) == Some((cs, i + escape_str(cs).len() + 1)),
    decreases cs.len(),
{
    let esc = escape_str(cs);
    let l = esc.len() as int;
    assert forall|k: int| 0 <= k < l implies s[i + k] == #[trigger] esc[k] by {
        assert(s.subrange(i, i + l)[k] == s[i + k]);
    }
    if cs.len() == 0 {
        assert(s[i] == '"');
    } else {
        let c0 = cs[0];
        let e0 = esc_char(c0);
        let l0 = e0.len() as int;
        let rest = escape_str(cs.drop_first());
        assert(esc == e0 + rest);
        assert(s.subrange(i + l0, i + l) =~= rest) by {
            assert forall|k: int| 0 <= k < l - l0 implies s.subrange(i + l0, i + l)[k]
                == rest[k] by {
                assert(s[i + l0 + k] == esc[l0 + k]);
                assert(esc[l0 + k] == rest[k]);
            }
        }
        assert(s[i + l0 + rest.len()] == '"');
        lemma_parse_str_body_of_escape(cs.drop_first(), s, i + l0);
        if c0 == '"' || c0 == '\\' {
            assert(s[i] == esc[0]);
            assert(esc[0] == e0[0]);
            assert(s[i] == '\\');
            assert(s[i + 1] == esc[1]);
            assert(esc[1] == e0[1]);
            assert(s[i + 1] == c0);
            assert(seq![s[i + 1]] + cs.drop_first() =~= cs);
        } else {
            assert(s[i] == esc[0]);
            assert(esc[0] == e0[0]);
            assert(s[i] == c0);
            assert(seq![s[i]] + cs.drop_first() =~= cs);
        }
    }
}

/// The first character of a serialized document is one a parser
/// recognizes as starting a value; in particular it is never a comma,
/// a closing bracket, or a closing brace.
proof fn lemma_ser_json_first(v: JsonData)
    ensures
        ser_json(v).len() >= 1,
        ({
            let c = ser_json(v)[0];
            c == 'n' || c == 't' || c == 'f' || c == '"' || c == '-' || is_digit(c) || c == '['
                || c == '{'
        }),
{
    match v {
        JsonData::Int(n) => {
            if n >= 0 {
                lemma_ser_digits_are_digits(n);
            } else {
                lemma_ser_digits_are_digits(-n);
            }
        },
        _ => {},
    }
}

/// Parsing starts over exactly where a serialized document was laid
/// down in a larger text: the parser returns that document and stops
/// right after it. The last premise keeps a following digit from being
/// drawn into a serialized integer.
pub proof fn lemma_parse_of_ser(v: JsonData, s: Seq<char>, i: int)
    requires
        wf_json(v),
        0 <= i,
        i + ser_json(v).len() <= s.len(),
        s.subrange(i, i + ser_json(v).len()) == ser_json(v),
        i + ser_json(v).len() == s.len() || !is_digit(s[i + ser_json(v).len()]),
    ensures
        parse_value(s, i) == Some((v, i + ser_json(v).len())),
    decreases v, 1int,
{
    let ser = ser_json(v);
    let l = ser.len() as int;
    lemma_ser_json_first(v);
    assert forall|k: int| 0 <= k < l implies s[i + k] == #[trigger] ser[k] by {
        assert(s.subrange(i, i + l)[k] == s[i + k]);
    }
    match v {
        JsonData::Null => {
            assert(s[i] == 'n' && s[i + 1] == 'u' && s[i + 2] == 'l' && s[i + 3] == 'l');
        },
        JsonData::Bool(b) => {
            if b {
                assert(s[i] == 't' && s[i + 1] == 'r' && s[i + 2] == 'u' && s[i + 3] == 'e');
            } else {
                assert(s[i] == 'f' && s[i + 1] == 'a' && s[i + 2] == 'l' && s[i + 3] == 's' && s[i
                    + 4] == 'e');
            }
        },
        JsonData::Int(n) => {
            assert(s[i] == ser[0]);
            lemma_parse_int_of_ser(n, s, i);
        },
        JsonData::Str(cs) => {
            let esc = escape_str(cs);
            assert(s[i] == '"');
            assert(s.subrange(i + 1, i + 1 + esc.len()) =~= esc) by {
                assert forall|k: int| 0 <= k < esc.len() implies s.subrange(
                    i + 1,
                    i + 1 + esc.len(),
                )[k] == esc[k] by {
                    assert(s[i + 1 + k] == ser[1 + k]);
                    assert(ser[1 + k] == esc[k]);
                }
            }
            assert(s[i + 1 + esc.len()] == ser[l - 1]);
            assert(ser[l - 1] == '"');
            lemma_parse_str_body_of_escape(cs, s, i + 1);
        },
        JsonData::Arr(es) => {
            assert(s[i] == '[');
            if es.len() == 0 {
                assert(ser_elems(es) =~= Seq::<char>::empty());
                assert(s[i + 1] == ser[1]);
                assert(ser[1] == ']');
                assert(es =~= Seq::<JsonData>::empty());
            } else {
                let inner = ser_elems(es);
                lemma_ser_json_first(es[0]);
                if es.len() == 1 {
                    assert(inner == ser_json(es[0]));
                } else {
                    assert(inner == ser_json(es[0]) + seq![','] + ser_elems(es.drop_first()));
                }
                assert(inner.len() >= 1);
                assert(inner[0] == ser_json(es[0])[0]);
                assert(s[i + 1] == ser[1]);
                assert(ser[1] == inner[0]);
                assert(s[i + 1] != ']');
                assert(s.subrange(i + 1, i + 1 + inner.len()) =~= inner) by {
                    assert forall|k: int| 0 <= k < inner.len() implies s.subrange(
                        i + 1,
                        i + 1 + inner.len(),
                    )[k] == inner[k] by {
                        assert(s[i + 1 + k] == ser[1 + k]);
                        assert(ser[1 + k] == inner[k]);
                    }
                }
                assert(s[i + 1 + inner.len()] == ser[l - 1]);
                assert(ser[l - 1] == ']');
                assert(forall|k: int| 0 <= k < es.len() ==> wf_json(#[trigger] es[k]));
                lemma_parse_elems_of_ser(es, s, i + 1);
            }
        },
        JsonData::Obj(fs) => {
            assert(s[i] == '{');
            if fs.len() == 0 {
                assert(ser_fields(fs) =~= Seq::<char>::empty());
                assert(s[i + 1] == ser[1]);
                assert(ser[1] == '}');
                assert(fs =~= Seq::<(Seq<char>, JsonData)>::empty());
            } else {
                let inner = ser_fields(fs);
                if fs.len() == 1 {
                    assert(inner == ser_field(fs[0]));
                } else {
                    assert(inner == ser_field(fs[0]) + seq![','] + ser_fields(fs.drop_first()));
                }
                assert(inner.len() >= 1);
                assert(inner[0] == ser_field(fs[0])[0]);
                assert(ser_field(fs[0])[0] == '"');
                assert(s[i + 1] == ser[1]);
                assert(ser[1] == inner[0]);
                assert(s[i + 1] == '"');
                assert(s.subrange(i + 1, i + 1 + inner.len()) =~= inner) by {
                    assert forall|k: int| 0 <= k < inner.len() implies s.subrange(
                        i + 1,
                        i + 1 + inner.len(),
                    )[k] == inner[k] by {
                        assert(s[i + 1 + k] == ser[1 + k]);
                        assert(ser[1 + k] == inner[k]);
                    }
                }
                assert(s[i + 1 + inner.len()] == ser[l - 1]);
                assert(ser[l - 1] == '}');
                assert(forall|k: int| 0 <= k < fs.len() ==> wf_json(#[trigger] fs[k].1));
                lemma_parse_fields_of_ser(fs, s, i + 1);
            }
        },
    }
}

proof fn lemma_parse_elems_of_ser(es: Seq<JsonData>, s: Seq<char>, i: int)
    requires
        es.len() >= 1,
        forall|k: int| 0 <= k < es.len() ==> wf_json(#[trigger] es[k]),
        0 <= i,
        i + ser_elems(es).len() + 1 <= s.len(),
        s.subrange(i, i + ser_elems(es).len()) == ser_elems(es),
        s[i + ser_elems(es).len()] == ']',
    ensures
        parse_elems(s, i) == Some((es, i + ser_elems(es).len() + 1)),
    decreases es, 0int,
{
    let inner = ser_elems(es);
    let li = inner.len() as int;
    let e0 = es[0];
    let s0 = ser_json(e0);
    let l0 = s0.len() as int;
    lemma_ser_json_first(e0);
    assert forall|k: int| 0 <= k < li implies s[i + k] == #[trigger] inner[k] by {
        assert(s.subrange(i, i + li)[k] == s[i + k]);
    }
    assert(s.subrange(i, i + l0) =~= s0) by {
        assert forall|k: int| 0 <= k < l0 implies s.subrange(i, i + l0)[k] == s0[k] by {
            assert(s[i + k] == inner[k]);
            assert(inner[k] == s0[k]);
        }
    }
    if es.len() == 1 {
        assert(s[i + l0] == ']');
        lemma_parse_of_ser(e0, s, i);
        assert(seq![e0] =~= es);
    } else {
        assert(inner == s0 + seq![','] + ser_elems(es.drop_first()));
        assert(s[i + l0] == inner[l0]);
        assert(inner[l0] == ',');
        lemma_parse_of_ser(e0, s, i);
        let j = i + l0;
        let rest = ser_elems(es.drop_first());
        assert(s.subrange(j + 1, j + 1 + rest.len()) =~= rest) by {
            assert forall|k: int| 0 <= k < rest.len() implies s.subrange(
                j + 1,
                j + 1 + rest.len(),
            )[k] == rest[k] by {
                assert(s[j + 1 + k] == inner[l0 + 1 + k]);
                assert(inner[l0 + 1 + k] == rest[k]);
            }
        }
        assert(s[j + 1 + rest.len()] == ']');
        lemma_parse_elems_of_ser(es.drop_first(), s, j + 1);
        assert(seq![e0] + es.drop_first() =~= es);
    }
}

proof fn lemma_parse_fields_of_ser(fs: Seq<(Seq<char>, JsonData)>, s: Seq<char>, i: int)
    requires
        fs.len() >= 1,
        forall|k: int| 0 <= k < fs.len() ==> wf_json(#[trigger] fs[k].1),
        0 <= i,
        i + ser_fields(fs).len() + 1 <= s.len(),
        s.subrange(i, i + ser_fields(fs).len()) == ser_fields(fs),
        s[i + ser_fields(fs).len()] == '}',
    ensures
        parse_fields(s, i) == Some((fs, i + ser_fields(fs).len() + 1)),
    decreases fs, 0int,
{
    let inner = ser_fields(fs);
    let li = inner.len() as int;
    let f0 = fs[0];
    let sf = ser_field(f0);
    let lf = sf.len() as int;
    let esc = escape_str(f0.0);
    let sv = ser_json(f0.1);
    lemma_ser_json_first(f0.1);
    assert forall|k: int| 0 <= k < li implies s[i + k] == #[trigger] inner[k] by {
        assert(s.subrange(i, i + li)[k] == s[i + k]);
    }
    assert forall|k: int| 0 <= k < lf implies inner[k] == #[trigger] sf[k] by {}
    assert(s[i] == sf[0]);
    assert(sf[0] == '"');
    // the key, its closing quote, and the colon
    assert(s.subrange(i + 1, i + 1 + esc.len()) =~= esc) by {
        assert forall|k: int| 0 <= k < esc.len() implies s.subrange(i + 1, i + 1 + esc.len())[k]
            == esc[k] by {
            assert(s[i + 1 + k] == inner[1 + k]);
            assert(inner[1 + k] == sf[1 + k]);
            assert(sf[1 + k] == esc[k]);
        }
    }
    let j1 = i + 1 + esc.len() + 1;
    assert(s[i + 1 + esc.len()] == sf[1 + esc.len() as int]);
    assert(sf[1 + esc.len() as int] == '"');
    lemma_parse_str_body_of_escape(f0.0, s, i + 1);
    assert(s[j1] == sf[j1 - i]);
    assert(sf[j1 - i] == ':');
    // the member's value
    assert(s.subrange(j1 + 1, j1 + 1 + sv.len()) =~= sv) by {
        assert forall|k: int| 0 <= k < sv.len() implies s.subrange(j1 + 1, j1 + 1 + sv.len())[k]
            == sv[k] by {
            assert(s[j1 + 1 + k] == inner[j1 + 1 + k - i]);
            assert(inner[j1 + 1 + k - i] == sf[j1 + 1 + k - i]);
            assert(sf[j1 + 1 + k - i] == sv[k]);
        }
    }
    let j2 = j1 + 1 + sv.len() as int;
    assert(j2 == i + lf);
    if fs.len() == 1 {
        assert(s[j2] == '}');
        lemma_parse_of_ser(f0.1, s, j1 + 1);
        assert(seq![(f0.0, f0.1)] =~= fs);
        assert((f0.0, f0.1) == f0);
    } else {
        assert(inner == sf + seq![','] + ser_fields(fs.drop_first()));
        assert(s[j2] == inner[lf]);
        assert(inner[lf] == ',');
        lemma_parse_of_ser(f0.1, s, j1 + 1);
        let rest = ser_fields(fs.drop_first());
        assert(s.subrange(j2 + 1, j2 + 1 + rest.len()) =~= rest) by {
            assert forall|k: int| 0 <= k < rest.len() implies s.subrange(
                j2 + 1,
                j2 + 1 + rest.len(),
            )[k] == rest[k] by {
                assert(s[j2 + 1 + k] == inner[lf + 1 + k]);
                assert(inner[lf + 1 + k] == rest[k]);
            }
        }
        assert(s[j2 + 1 + rest.len()] == '}');
        lemma_parse_fields_of_ser(fs.drop_first(), s, j2 + 1);
        assert(seq![(f0.0, f0.1)] + fs.drop_first() =~= fs);
        assert((f0.0, f0.1) == f0);
    }
}

/// Round trip: parsing the compact text of any well-formed document
/// returns exactly that document.
pub proof fn lemma_parse_json_of_ser(v: JsonData)
    requires
        wf_json(v),
    ensures
        parse_json(ser_json(v)) == Some(v),
{
    let s = ser_json(v);
    assert(s.subrange(0, s.len() as int) =~= s);
    lemma_parse_of_ser(v, s, 0);
}

/// Round trip at the level of run-time documents: serializing any
/// [`JsonValue`] and parsing the text back returns its model unchanged.
pub proof fn lemma_serialize_parse_roundtrip(v: JsonValue)
    ensures
        parse_json(ser_json(v@)) == Some(v@),
{
    lemma_view_wf(v);
    lemma_parse_json_of_ser(v@);
}

/// The value of the first member with the given key, if any.
pub open spec fn lookup_field(fs: Seq<(Seq<char>, JsonData)>, key: Seq<char>) -> Option<JsonData>
    decreases fs.len(),
{
    if fs.len() == 0 {
        None
    } else if fs[0].0 == key {
        Some(fs[0].1)
    } else {
        lookup_field(fs.drop_first(), key)
    }
}

/// Member lookup on a document: `None` unless the document is an object
/// with a member of that name.
pub open spec fn obj_lookup(d: JsonData, key: Seq<char>) -> Option<JsonData> {
    match d {
        JsonData::Obj(fs) => lookup_field(fs, key),
        _ => None,
    }
}

/// A lookup returns the value at the first position that holds the key.
pub proof fn lemma_lookup_at(fs: Seq<(Seq<char>, JsonData)>, i: int, key: Seq<char>)
    requires
        0 <= i < fs.len(),
        fs[i].0 == key,
        forall|j: int| 0 <= j < i ==> (#[trigger] fs[j]).0 != key,
    ensures
        lookup_field(fs, key) == Some(fs[i].1),
    decreases i,
{
    if i > 0 {
        lemma_lookup_at(fs.drop_first(), i - 1, key);
    }
}

/// A lookup for a key that no member holds returns nothing.
pub proof fn lemma_lookup_absent(fs: Seq<(Seq<char>, JsonData)>, key: Seq<char>)
    requires
        forall|j: int| 0 <= j < fs.len() ==> (#[trigger] fs[j]).0 != key,
    ensures
        lookup_field(fs, key) is None,
    decreases fs.len(),
{
    if fs.len() > 0 {
        lemma_lookup_absent(fs.drop_first(), key);
    }
}

/// Character-by-character string comparison.
pub fn str_eq(a: &str, b: &str) -> (r: bool)
    ensures
        r == (a@ == b@),
{
    let na = a.unicode_len();
    let nb = b.unicode_len();
    if na != nb {
        return false;
    }
    let mut i: usize = 0;
    while i < na
        invariant
            0 <= i <= na,
            na == a@.len(),
            na == b@.len(),
            forall|k: int| 0 <= k < i ==> a@[k] == b@[k],
        decreases na - i,
    {
        if a.get_char(i) != b.get_char(i) {
            assert(a@[i as int] != b@[i as int]);
            return false;
        }
        i = i + 1;
    }
    assert(a@ =~= b@);
    true
}

impl JsonValue {
    /// The value of this object's first member with the given name, as
    /// [`obj_lookup`] describes.
    pub fn get<'a>(&'a self, key: &str) -> (r: Option<&'a JsonValue>)
        ensures
            (match r {
                Some(f) => obj_lookup(self@, key@) == Some(f@),
                None => obj_lookup(self@, key@) is None,
            }),
    {
        match self {
            JsonValue::Obj(fs) => {
                proof {
                    assert(field_views_of_seq(fs@).skip(0) =~= field_views_of_seq(fs@));
                }
                Self::get_in(fs, key, 0)
            },
            _ => None,
        }
    }

    fn get_in<'a>(fs: &'a Vec<(String, JsonValue)>, key: &str, k: usize) -> (r: Option<
        &'a JsonValue,
    >)
        requires
            k <= fs@.len(),
        ensures
            (match r {
                Some(f) => lookup_field(field_views_of_seq(fs@).skip(k as int), key@) == Some(f@),
                None => lookup_field(field_views_of_seq(fs@).skip(k as int), key@) is None,
            }),
        decreases fs@.len() - k@,
    {
        let ghost gs = field_views_of_seq(fs@);
        if k == fs.len() {
            assert(gs.skip(k as int) =~= Seq::<(Seq<char>, JsonData)>::empty());
            None
        } else {
            assert(gs.skip(k as int)[0] == (fs@[k as int].0@, view_of(fs@[k as int].1)));
            assert(gs.skip(k as int).drop_first() =~= gs.skip(k + 1));
            if str_eq(fs[k].0.as_str(), key) {
                Some(&fs[k].1)
            } else {
                Self::get_in(fs, key, k + 1)
            }
        }
    }
}

} // verus!

