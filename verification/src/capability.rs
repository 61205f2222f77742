//! Device capability model: the closed set of device kinds, the
//! classifier that infers a kind from a device's module identifier, and
//! the two capability predicates that gate which commands a device
//! accepts.

use vstd::prelude::*;

use crate::json::is_digit;

verus! {

/// The subtype of a bulb, inferred from its module identifier.
#[derive(Clone, Copy, Debug, PartialEq, Eq, Structural)]
pub enum BulbKind {
    DimmableWhite,
    TunableWhite,
    Color,
}

/// The kind of a physical device. Exactly one kind applies to a device,
/// fixed when the device is first classified.
#[derive(Clone, Copy, Debug, PartialEq, Eq, Structural)]
pub enum DeviceKind {
    Plug,
    LightStrip,
    Bulb(BulbKind),
}

impl BulbKind {
    /// Only color bulbs support color commands.
    pub fn is_color(&self) -> (r: bool)
        ensures
            r == (*self == BulbKind::Color),
    {
        matches!(self, BulbKind::Color)
    }
}

/// Whether a device of this kind accepts brightness commands:
/// every kind but a plug does.
pub open spec fn spec_is_dimmable(kind: DeviceKind) -> bool {
    kind != DeviceKind::Plug
}

/// Whether a device of this kind accepts color commands: light strips
/// and color bulbs do, plugs and white bulbs do not.
pub open spec fn spec_is_color(kind: DeviceKind) -> bool {
    kind == DeviceKind::LightStrip || kind == DeviceKind::Bulb(BulbKind::Color)
}

impl DeviceKind {
    pub fn is_dimmable(&self) -> (r: bool)
        ensures
            r == spec_is_dimmable(*self),
    {
        match self {
            DeviceKind::Plug => false,
            DeviceKind::Bulb(_) | DeviceKind::LightStrip => true,
        }
    }

    pub fn is_color(&self) -> (r: bool)
        ensures
            r == spec_is_color(*self),
    {
        match self {
            DeviceKind::Plug => false,
            DeviceKind::LightStrip => true,
            DeviceKind::Bulb(bulb_kind) => bulb_kind.is_color(),
        }
    }

    /// A short human-readable name for the kind.
    pub fn describe(&self) -> (r: String)
        ensures
            *self == DeviceKind::Plug ==> r@ == "Plug"@,
            *self == DeviceKind::LightStrip ==> r@ == "Light Strip"@,
            *self == DeviceKind::Bulb(BulbKind::DimmableWhite) ==> r@ == "Dimmable White Bulb"@,
            *self == DeviceKind::Bulb(BulbKind::TunableWhite) ==> r@ == "Tunable White Bulb"@,
            *self == DeviceKind::Bulb(BulbKind::Color) ==> r@ == "Color Bulb"@,
    {
        match self {
            DeviceKind::Plug => String::from_str("Plug"),
            DeviceKind::LightStrip => String::from_str("Light Strip"),
            DeviceKind::Bulb(BulbKind::DimmableWhite) => String::from_str("Dimmable White Bulb"),
            DeviceKind::Bulb(BulbKind::TunableWhite) => String::from_str("Tunable White Bulb"),
            DeviceKind::Bulb(BulbKind::Color) => String::from_str("Color Bulb"),
        }
    }
}

/// A character the identifier grammar allows inside the feature token:
/// a letter, a digit or an underscore.
pub open spec fn is_word_char(c: char) -> bool {
    is_digit(c) || c == '_' || ('a' as u32 <= c as u32 && c as u32 <= 'z' as u32) || ('A' as u32
        <= c as u32 && c as u32 <= 'Z' as u32)
}

/// A letter the grammar allows in the form-factor suffix.
pub open spec fn is_suffix_char(c: char) -> bool {
    c == 'A' || c == 'B' || c == 'I' || c == 'T'
}

/// A module identifier splits at position `j` when it reads as
/// `ESP`, two digits, an underscore, a non-empty feature token of word
/// characters up to `j`, then an underscore, two digits and a suffix of
/// form-factor letters.
pub open spec fn valid_split(s: Seq<char>, j: int) -> bool {
    &&& 7 <= j
    &&& j + 3 <= s.len()
    &&& s[0] == 'E'
    &&& s[1] == 'S'
    &&& s[2] == 'P'
    &&& is_digit(s[3])
    &&& is_digit(s[4])
    &&& s[5] == '_'
    &&& (forall|k: int| 6 <= k < j ==> is_word_char(#[trigger] s[k]))
    &&& s[j] == '_'
    &&& is_digit(s[j + 1])
    &&& is_digit(s[j + 2])
    &&& (forall|k: int| j + 3 <= k < s.len() ==> is_suffix_char(#[trigger] s[k]))
}

/// Whether a string follows the module identifier grammar.
pub open spec fn is_valid_module_name(s: Seq<char>) -> bool {
    exists|j: int| #[trigger] valid_split(s, j)
}

/// Whether `p` occurs in `s` as a contiguous run.
pub open spec fn contains_seq(s: Seq<char>, p: Seq<char>) -> bool {
    exists|i: int| 0 <= i <= s.len() - p.len() && #[trigger] s.subrange(i, i + p.len() as int) == p
}

/// Whether `s` ends with `p`.
pub open spec fn ends_with(s: Seq<char>, p: Seq<char>) -> bool {
    p.len() <= s.len() && s.subrange(s.len() - p.len(), s.len() as int) == p
}

/// The classification rule: an identifier that follows the grammar is
/// tested for its feature token, in priority order. A color-capable
/// identifier whose form-factor suffix ends in `ABI` names a light
/// strip, not a bulb.
pub open spec fn classify_spec(s: Seq<char>) -> Option<DeviceKind> {
    if !is_valid_module_name(s) {
        None
    } else if contains_seq(s, "SOCKET"@) {
        Some(DeviceKind::Plug)
    } else if contains_seq(s, "TW"@) {
        Some(DeviceKind::Bulb(BulbKind::TunableWhite))
    } else if contains_seq(s, "DW"@) {
        Some(DeviceKind::Bulb(BulbKind::DimmableWhite))
    } else if contains_seq(s, "RGB"@) {
        if ends_with(s, "ABI"@) {
            Some(DeviceKind::LightStrip)
        } else {
            Some(DeviceKind::Bulb(BulbKind::Color))
        }
    } else {
        None
    }
}

fn word_char(c: char) -> (r: bool)
    ensures
        r == is_word_char(c),
{
    let u = c as u32;
    crate::json::is_digit_ascii(c) || c == '_' || ('a' as u32 <= u && u <= 'z' as u32) || ('A'
        as u32 <= u && u <= 'Z' as u32)
}

fn suffix_char(c: char) -> (r: bool)
    ensures
        r == is_suffix_char(c),
{
    c == 'A' || c == 'B' || c == 'I' || c == 'T'
}

/// Whether every character of `s[from..to]` satisfies the word rule.
fn all_word_chars(s: &str, from: usize, to: usize) -> (r: bool)
    requires
        from <= to <= s@.len(),
    ensures
        r == (forall|k: int| from <= k < to ==> is_word_char(#[trigger] s@[k])),
{
    let mut k = from;
    while k < to
        invariant
            from <= k <= to <= s@.len(),
            forall|j: int| from <= j < k ==> is_word_char(#[trigger] s@[j]),
        decreases to - k,
    {
        if !word_char(s.get_char(k)) {
            return false;
        }
        k = k + 1;
    }
    true
}

/// Whether every character of `s[from..]` is a form-factor letter.
fn all_suffix_chars(s: &str, from: usize) -> (r: bool)
    requires
        from <= s@.len(),
    ensures
        r == (forall|k: int| from <= k < s@.len() ==> is_suffix_char(#[trigger] s@[k])),
{
    let n = s.unicode_len();
    let mut k = from;
    while k < n
        invariant
            from <= k <= n,
            n == s@.len(),
            forall|j: int| from <= j < k ==> is_suffix_char(#[trigger] s@[j]),
        decreases n - k,
    {
        if !suffix_char(s.get_char(k)) {
            return false;
        }
        k = k + 1;
    }
    true
}

/// Whether the identifier follows the grammar, as
/// [`is_valid_module_name`] describes.
fn valid_module_name(s: &str) -> (r: bool)
    ensures
        r == is_valid_module_name(s@),
{
    let n = s.unicode_len();
    if n < 10 {
        assert forall|j: int| !valid_split(s@, j) by {}
        return false;
    }
    if s.get_char(0) != 'E' || s.get_char(1) != 'S' || s.get_char(2) != 'P' {
        assert forall|j: int| !valid_split(s@, j) by {}
        return false;
    }
    if !crate::json::is_digit_ascii(s.get_char(3)) || !crate::json::is_digit_ascii(s.get_char(4))
        || s.get_char(5) != '_' {
        assert forall|j: int| !valid_split(s@, j) by {}
        return false;
    }
    let mut j: usize = 7;
    while j <= n - 3
        invariant
            7 <= j <= n,
            n == s@.len(),
            n >= 10,
            s@[0] == 'E' && s@[1] == 'S' && s@[2] == 'P',
            is_digit(s@[3]) && is_digit(s@[4]),
            s@[5] == '_',
            forall|jj: int| 7 <= jj < j ==> !valid_split(s@, jj),
        decreases n - j,
    {
        if s.get_char(j) == '_' && crate::json::is_digit_ascii(s.get_char(j + 1))
            && crate::json::is_digit_ascii(s.get_char(j + 2)) && all_word_chars(s, 6, j)
            && all_suffix_chars(s, j + 3) {
            assert(valid_split(s@, j as int));
            return true;
        }
        j = j + 1;
    }
    assert forall|jj: int| !valid_split(s@, jj) by {
        if 7 <= jj < j {
        } else {
        }
    }
    false
}

/// Whether `p` starts at position `i` of `s`.
fn matches_at(s: &str, p: &str, i: usize) -> (r: bool)
    requires
        i + p@.len() <= s@.len(),
    ensures
        r == (s@.subrange(i as int, i + p@.len()) == p@),
{
    let n = s.unicode_len();
    let m = p.unicode_len();
    let mut k: usize = 0;
    while k < m
        invariant
            0 <= k <= m,
            m == p@.len(),
            n == s@.len(),
            i + m <= n,
            forall|j: int| 0 <= j < k ==> s@[i + j] == #[trigger] p@[j],
        decreases m - k,
    {
        if s.get_char(i + k) != p.get_char(k) {
            assert(s@.subrange(i as int, i + p@.len())[k as int] != p@[k as int]);
            return false;
        }
        k = k + 1;
    }
    assert(s@.subrange(i as int, i + p@.len()) =~= p@);
    true
}

/// Substring search, as [`contains_seq`] describes.
pub fn contains_sub(s: &str, p: &str) -> (r: bool)
    ensures
        r == contains_seq(s@, p@),
{
    let n = s.unicode_len();
    let m = p.unicode_len();
    if m > n {
        return false;
    }
    if m == 0 {
        assert(s@.subrange(0, 0 + p@.len() as int) =~= p@);
        return true;
    }
    let mut i: usize = 0;
    while i <= n - m
        invariant
            0 <= i,
            i <= n - m + 1,
            1 <= m <= n,
            n == s@.len(),
            m == p@.len(),
            forall|ii: int| 0 <= ii < i ==> #[trigger] s@.subrange(ii, ii + p@.len()) != p@,
        decreases n + 1 - i,
    {
        if matches_at(s, p, i) {
            return true;
        }
        i = i + 1;
    }
    false
}

/// Suffix test, as [`ends_with`] describes.
fn ends_with_sub(s: &str, p: &str) -> (r: bool)
    ensures
        r == ends_with(s@, p@),
{
    let n = s.unicode_len();
    let m = p.unicode_len();
    if m > n {
        return false;
    }
    matches_at(s, p, n - m)
}

impl DeviceKind {
    /// Classifies a device's self-reported module identifier, as
    /// [`classify_spec`] describes; an identifier the grammar or the
    /// priority rule does not recognize is returned inside the error.
    pub fn from_module_name(module_name: &str) -> (r: Result<DeviceKind, crate::device::DeviceError>)
        ensures
            (match r {
                Ok(kind) => classify_spec(module_name@) == Some(kind),
                Err(crate::device::DeviceError::UnrecognizedModuleName(raw)) => raw@
                    == module_name@ && classify_spec(module_name@) is None,
                Err(_) => false,
            }),
    {
        if !valid_module_name(module_name) {
            return Err(
                crate::device::DeviceError::UnrecognizedModuleName(module_name.to_owned()),
            );
        }
        if contains_sub(module_name, "SOCKET") {
            Ok(DeviceKind::Plug)
        } else if contains_sub(module_name, "TW") {
            Ok(DeviceKind::Bulb(BulbKind::TunableWhite))
        } else if contains_sub(module_name, "DW") {
            Ok(DeviceKind::Bulb(BulbKind::DimmableWhite))
        } else if contains_sub(module_name, "RGB") {
            if ends_with_sub(module_name, "ABI") {
                Ok(DeviceKind::LightStrip)
            } else {
                Ok(DeviceKind::Bulb(BulbKind::Color))
            }
        } else {
            Err(crate::device::DeviceError::UnrecognizedModuleName(module_name.to_owned()))
        }
    }
}

/// A plug is never dimmable; every bulb and every light strip is.
pub proof fn lemma_dimmable_kinds(kind: DeviceKind)
    ensures
        spec_is_dimmable(DeviceKind::Plug) == false,
        forall|b: BulbKind| spec_is_dimmable(DeviceKind::Bulb(b)),
        spec_is_dimmable(DeviceKind::LightStrip),
{
}

/// Color support is exactly: light strips and color bulbs.
pub proof fn lemma_color_kinds()
    ensures
        spec_is_color(DeviceKind::Bulb(BulbKind::DimmableWhite)) == false,
        spec_is_color(DeviceKind::Bulb(BulbKind::TunableWhite)) == false,
        spec_is_color(DeviceKind::Bulb(BulbKind::Color)),
        spec_is_color(DeviceKind::LightStrip),
        spec_is_color(DeviceKind::Plug) == false,
{
}

} // verus!
