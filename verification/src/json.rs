//! JSON value model and a verified parser for the wire text.
//!
//! Every inbound channel message is a JSON document.  [`Json`] is the
//! executable value model; its mathematical counterpart is [`JsonV`], reached
//! through the `View` impl.  [`parse_json`] turns raw message bytes into a
//! value and is specified exactly by the recursive spec functions alongside
//! it: the spec functions define the accepted grammar and the produced value,
//! and the executable code is proved to return precisely that.
//!
//! Strings are kept as their decoded UTF-8 bytes.  A number token is kept as
//! [`Json::Int`] when it is a plain integer of at most eighteen digits (so it
//! always fits in an `i64`); any other number token (fractional, exponent, or
//! longer) is kept verbatim as [`Json::Num`], since the schema layer treats
//! such fields as opaque decimal text.

use vstd::prelude::*;

verus! {

broadcast use vstd::std_specs::vec::group_vec_axioms, vstd::seq::group_seq_axioms, vstd::string::group_string_axioms;

/// An executable JSON value.
///
/// Object members keep the order in which they appear on the wire; a field
/// lookup takes the first member with the asked-for name.
#[derive(Debug)]
pub enum Json {
    Null,
    Bool(bool),
    /// A plain integer number token of at most eighteen digits.
    Int(i64),
    /// Any other number token, kept verbatim.
    Num(Vec<u8>),
    /// A string, as decoded UTF-8 bytes.
    Str(Vec<u8>),
    Arr(Vec<Json>),
    Obj(Vec<(Vec<u8>, Json)>),
}

/// The mathematical shape of a JSON value.
#[verifier::ext_equal]
pub enum JsonV {
    Null,
    Bool(bool),
    Int(int),
    Num(Seq<u8>),
    Str(Seq<u8>),
    Arr(Seq<JsonV>),
    Obj(Seq<(Seq<u8>, JsonV)>),
}

pub open spec fn view_json(j: Json) -> JsonV
    decreases j, 1int,
{
    match j {
        Json::Null => JsonV::Null,
        Json::Bool(b) => JsonV::Bool(b),
        Json::Int(n) => JsonV::Int(n as int),
        Json::Num(s) => JsonV::Num(s@),
        Json::Str(s) => JsonV::Str(s@),
        Json::Arr(items) => JsonV::Arr(view_items(items@)),
        Json::Obj(members) => JsonV::Obj(view_members(members@)),
    }
}

pub open spec fn view_items(items: Seq<Json>) -> Seq<JsonV>
    decreases items, 0int,
{
    if items.len() == 0 {
        Seq::empty()
    } else {
        seq![view_json(items[0])] + view_items(items.subrange(1, items.len() as int))
    }
}

pub open spec fn view_members(members: Seq<(Vec<u8>, Json)>) -> Seq<(Seq<u8>, JsonV)>
    decreases members, 0int,
{
    if members.len() == 0 {
        Seq::empty()
    } else {
        seq![(members[0].0@, view_json(members[0].1))] + view_members(
            members.subrange(1, members.len() as int),
        )
    }
}

impl View for Json {
    type V = JsonV;

    open spec fn view(&self) -> JsonV {
        view_json(*self)
    }
}

impl DeepView for Json {
    type V = JsonV;

    open spec fn deep_view(&self) -> JsonV {
        view_json(*self)
    }
}

/// The bytes of an ASCII string, character by character.
pub open spec fn ascii_u8(s: Seq<char>) -> Seq<u8> {
    Seq::new(s.len(), |i: int| s[i] as u8)
}

/// The bytes of an ASCII string slice, for handing literal field names to
/// the byte-level readers.
pub fn str_to_bytes(s: &str) -> (r: Vec<u8>)
    requires
        s.is_ascii(),
    ensures
        r@ == ascii_u8(s@),
{
    let r = s.as_bytes_vec();
    proof {
        assert(r@ =~= ascii_u8(s@));
    }
    r
}

// -------------------------------------------------------------------------
// The grammar.  These spec functions define, position by position, which
// byte sequences are accepted and which value each one denotes.  The
// executable parser below is proved to return exactly what they say.
// -------------------------------------------------------------------------

pub open spec fn is_ws(b: u8) -> bool {
    b == ' ' as u8 || b == '\t' as u8 || b == '\n' as u8 || b == '\r' as u8
}

pub open spec fn is_digit(b: u8) -> bool {
    '0' as u8 <= b <= '9' as u8
}

pub open spec fn is_hex(b: u8) -> bool {
    is_digit(b) || 'a' as u8 <= b <= 'f' as u8 || 'A' as u8 <= b <= 'F' as u8
}

pub open spec fn hex_val(b: u8) -> int {
    if is_digit(b) {
        b - '0' as u8
    } else if 'a' as u8 <= b <= 'f' as u8 {
        b - 'a' as u8 + 10
    } else {
        b - 'A' as u8 + 10
    }
}

/// How many whitespace bytes stand at position `i`.
pub open spec fn ws_len(s: Seq<u8>, i: int) -> nat
    decreases s.len() - i,
{
    if 0 <= i < s.len() && is_ws(s[i]) {
        1 + ws_len(s, i + 1)
    } else {
        0
    }
}

/// The first position at or after `i` that does not hold whitespace,
/// stated so that it evidently never passes the end.
pub open spec fn skip_ws(s: Seq<u8>, i: int) -> int {
    if i + ws_len(s, i) <= s.len() {
        i + ws_len(s, i)
    } else {
        s.len() as int
    }
}

/// How many decimal digits stand at position `i`.
pub open spec fn digits_len(s: Seq<u8>, i: int) -> nat
    decreases s.len() - i,
{
    if 0 <= i < s.len() && is_digit(s[i]) {
        1 + digits_len(s, i + 1)
    } else {
        0
    }
}

/// The value of a decimal digit string.
pub open spec fn dec_val(s: Seq<u8>) -> int
    decreases s.len(),
{
    if s.len() == 0 {
        0
    } else {
        10 * dec_val(s.drop_last()) + (s.last() - '0' as u8)
    }
}

pub open spec fn pow10(n: nat) -> int
    decreases n,
{
    if n == 0 {
        1
    } else {
        10 * pow10((n - 1) as nat)
    }
}

pub proof fn lemma_dec_val_bound(s: Seq<u8>)
    requires
        forall|i: int| 0 <= i < s.len() ==> is_digit(#[trigger] s[i]),
    ensures
        0 <= dec_val(s) < pow10(s.len()),
    decreases s.len(),
{
    if s.len() > 0 {
        lemma_dec_val_bound(s.drop_last());
    }
}

/// The UTF-8 encoding of a scalar value.
pub open spec fn utf8_of(cp: int) -> Seq<u8> {
    if cp < 0x80 {
        seq![cp as u8]
    } else if cp < 0x800 {
        seq![(0xC0 + cp / 0x40) as u8, (0x80 + cp % 0x40) as u8]
    } else if cp < 0x10000 {
        seq![(0xE0 + cp / 0x1000) as u8, (0x80 + (cp / 0x40) % 0x40) as u8, (0x80 + cp % 0x40) as u8]
    } else {
        seq![
            (0xF0 + cp / 0x40000) as u8,
            (0x80 + (cp / 0x1000) % 0x40) as u8,
            (0x80 + (cp / 0x40) % 0x40) as u8,
            (0x80 + cp % 0x40) as u8,
        ]
    }
}

/// Four hex digits at position `i`, as a code unit.
pub open spec fn hex4_at(s: Seq<u8>, i: int) -> Option<int> {
    if i + 4 <= s.len() && is_hex(s[i]) && is_hex(s[i + 1]) && is_hex(s[i + 2]) && is_hex(
        s[i + 3],
    ) {
        Some(((hex_val(s[i]) * 16 + hex_val(s[i + 1])) * 16 + hex_val(s[i + 2])) * 16 + hex_val(
            s[i + 3],
        ))
    } else {
        None
    }
}

/// A string escape whose introducing backslash stands at `i - 1`: the bytes
/// it denotes and the position after it.  A lone surrogate half is refused;
/// a high surrogate must be followed by an escaped low surrogate.
pub open spec fn parse_escape(s: Seq<u8>, i: int) -> Option<(Seq<u8>, int)> {
    if i >= s.len() {
        None
    } else {
        let b = s[i];
        if b == '"' as u8 || b == '\\' as u8 || b == '/' as u8 {
            Some((seq![b], i + 1))
        } else if b == 'b' as u8 {
            Some((seq![8u8], i + 1))
        } else if b == 'f' as u8 {
            Some((seq![12u8], i + 1))
        } else if b == 'n' as u8 {
            Some((seq![10u8], i + 1))
        } else if b == 'r' as u8 {
            Some((seq![13u8], i + 1))
        } else if b == 't' as u8 {
            Some((seq![9u8], i + 1))
        } else if b == 'u' as u8 {
            match hex4_at(s, i + 1) {
                None => None,
                Some(cu) => {
                    if 0xD800 <= cu < 0xDC00 {
                        if i + 7 <= s.len() && s[i + 5] == '\\' as u8 && s[i + 6] == 'u' as u8 {
                            match hex4_at(s, i + 7) {
                                None => None,
                                Some(cu2) => {
                                    if 0xDC00 <= cu2 < 0xE000 {
                                        Some(
                                            (
                                                utf8_of(
                                                    0x10000 + (cu - 0xD800) * 0x400 + (cu2
                                                        - 0xDC00),
                                                ),
                                                i + 11,
                                            ),
                                        )
                                    } else {
                                        None
                                    }
                                },
                            }
                        } else {
                            None
                        }
                    } else if 0xDC00 <= cu < 0xE000 {
                        None
                    } else {
                        Some((utf8_of(cu), i + 5))
                    }
                },
            }
        } else {
            None
        }
    }
}

/// The body of a string whose opening quote stands at `i - 1`: the decoded
/// bytes and the position after the closing quote.
pub open spec fn parse_str_body(s: Seq<u8>, i: int) -> Option<(Seq<u8>, int)>
    decreases s.len() - i,
{
    if i < 0 || i >= s.len() {
        None
    } else if s[i] == '"' as u8 {
        Some((Seq::empty(), i + 1))
    } else if s[i] == '\\' as u8 {
        match parse_escape(s, i + 1) {
            None => None,
            Some((bytes, j0)) => {
                // an escape spans at least two bytes; restated for the measure
                let j = if j0 < i + 2 {
                    i + 2
                } else {
                    j0
                };
                match parse_str_body(s, j) {
                    None => None,
                    Some((rest, end)) => Some((bytes + rest, end)),
                }
            },
        }
    } else if s[i] < 0x20 {
        None
    } else {
        match parse_str_body(s, i + 1) {
            None => None,
            Some((rest, end)) => Some((seq![s[i]] + rest, end)),
        }
    }
}

/// A number token starting at `i`.  A plain integer of at most eighteen
/// digits becomes `Int`; every other accepted token is kept verbatim as
/// `Num`.
pub open spec fn parse_number(s: Seq<u8>, i: int) -> Option<(JsonV, int)> {
    let j = if i < s.len() && s[i] == '-' as u8 {
        i + 1
    } else {
        i
    };
    if j < s.len() && is_digit(s[j]) {
        let k = if s[j] == '0' as u8 {
            j + 1
        } else {
            j + digits_len(s, j)
        };
        let has_frac = k < s.len() && s[k] == '.' as u8 && digits_len(s, k + 1) > 0;
        let k2 = if has_frac {
            k + 1 + digits_len(s, k + 1)
        } else {
            k
        };
        if k2 < s.len() && (s[k2] == 'e' as u8 || s[k2] == 'E' as u8) {
            let m = if k2 + 1 < s.len() && (s[k2 + 1] == '+' as u8 || s[k2 + 1] == '-' as u8) {
                k2 + 2
            } else {
                k2 + 1
            };
            if digits_len(s, m) > 0 {
                let k3 = m + digits_len(s, m);
                Some((JsonV::Num(s.subrange(i, k3)), k3))
            } else {
                None
            }
        } else if has_frac {
            Some((JsonV::Num(s.subrange(i, k2)), k2))
        } else if k - j <= 18 {
            let v = dec_val(s.subrange(j, k));
            Some((JsonV::Int(if i < j { -v } else { v }), k))
        } else {
            Some((JsonV::Num(s.subrange(i, k)), k))
        }
    } else {
        None
    }
}

/// A value starting at `i`, which must not hold whitespace: the value and
/// the position after it.
pub open spec fn parse_value(s: Seq<u8>, i: int) -> Option<(JsonV, int)>
    decreases s.len() - i, 0int,
{
    if i < 0 || i >= s.len() {
        None
    } else {
        let b = s[i];
        if b == 'n' as u8 {
            if i + 4 <= s.len() && s[i + 1] == 'u' as u8 && s[i + 2] == 'l' as u8 && s[i + 3]
                == 'l' as u8 {
                Some((JsonV::Null, i + 4))
            } else {
                None
            }
        } else if b == 't' as u8 {
            if i + 4 <= s.len() && s[i + 1] == 'r' as u8 && s[i + 2] == 'u' as u8 && s[i + 3]
                == 'e' as u8 {
                Some((JsonV::Bool(true), i + 4))
            } else {
                None
            }
        } else if b == 'f' as u8 {
            if i + 5 <= s.len() && s[i + 1] == 'a' as u8 && s[i + 2] == 'l' as u8 && s[i + 3]
                == 's' as u8 && s[i + 4] == 'e' as u8 {
                Some((JsonV::Bool(false), i + 5))
            } else {
                None
            }
        } else if b == '"' as u8 {
            match parse_str_body(s, i + 1) {
                None => None,
                Some((content, end)) => Some((JsonV::Str(content), end)),
            }
        } else if b == '-' as u8 || is_digit(b) {
            parse_number(s, i)
        } else if b == '[' as u8 {
            let j = skip_ws(s, i + 1);
            if j < s.len() && s[j] == ']' as u8 {
                Some((JsonV::Arr(Seq::empty()), j + 1))
            } else {
                match parse_items(s, j) {
                    None => None,
                    Some((items, end)) => Some((JsonV::Arr(items), end)),
                }
            }
        } else if b == '{' as u8 {
            let j = skip_ws(s, i + 1);
            if j < s.len() && s[j] == '}' as u8 {
                Some((JsonV::Obj(Seq::empty()), j + 1))
            } else {
                match parse_members(s, j) {
                    None => None,
                    Some((members, end)) => Some((JsonV::Obj(members), end)),
                }
            }
        } else {
            None
        }
    }
}

/// One or more comma-separated array elements starting at `i` (whitespace
/// already skipped), up to and including the closing bracket.
pub open spec fn parse_items(s: Seq<u8>, i: int) -> Option<(Seq<JsonV>, int)>
    decreases s.len() - i, 1int,
{
    match parse_value(s, i) {
        None => None,
        Some((v, end0)) => {
            // a value spans at least one byte; restated for the measure
            let end = if end0 < i + 1 {
                i + 1
            } else {
                end0
            };
            let j = skip_ws(s, end);
            if j < s.len() && s[j] == ',' as u8 {
                match parse_items(s, skip_ws(s, j + 1)) {
                    None => None,
                    Some((rest, end2)) => Some((seq![v] + rest, end2)),
                }
            } else if j < s.len() && s[j] == ']' as u8 {
                Some((seq![v], j + 1))
            } else {
                None
            }
        },
    }
}

/// One or more comma-separated object members starting at `i` (whitespace
/// already skipped), up to and including the closing brace.
pub open spec fn parse_members(s: Seq<u8>, i: int) -> Option<(Seq<(Seq<u8>, JsonV)>, int)>
    decreases s.len() - i, 1int,
{
    if 0 <= i < s.len() && s[i] == '"' as u8 {
        match parse_str_body(s, i + 1) {
            None => None,
            Some((key, kend0)) => {
                // a key spans at least its quotes; restated for the measure
                let kend = if kend0 < i + 2 {
                    i + 2
                } else {
                    kend0
                };
                let j = skip_ws(s, kend);
                if j < s.len() && s[j] == ':' as u8 {
                    match parse_value(s, skip_ws(s, j + 1)) {
                        None => None,
                        Some((v, end0)) => {
                            let end = if end0 < j + 2 {
                                j + 2
                            } else {
                                end0
                            };
                            let j2 = skip_ws(s, end);
                            if j2 < s.len() && s[j2] == ',' as u8 {
                                match parse_members(s, skip_ws(s, j2 + 1)) {
                                    None => None,
                                    Some((rest, end2)) => Some((seq![(key, v)] + rest, end2)),
                                }
                            } else if j2 < s.len() && s[j2] == '}' as u8 {
                                Some((seq![(key, v)], j2 + 1))
                            } else {
                                None
                            }
                        },
                    }
                } else {
                    None
                }
            },
        }
    } else {
        None
    }
}

/// A whole document: one value, surrounded by nothing but whitespace.
pub open spec fn parse_doc(s: Seq<u8>) -> Option<JsonV> {
    match parse_value(s, skip_ws(s, 0)) {
        None => None,
        Some((v, end)) => {
            if skip_ws(s, end) >= s.len() {
                Some(v)
            } else {
                None
            }
        },
    }
}

// -------------------------------------------------------------------------
// The executable parser.  Each function returns exactly what the spec
// function of the same grammar production says.
// -------------------------------------------------------------------------

fn x_is_ws(b: u8) -> (r: bool)
    ensures
        r == is_ws(b),
{
    b == ' ' as u8 || b == '\t' as u8 || b == '\n' as u8 || b == '\r' as u8
}

fn x_is_digit(b: u8) -> (r: bool)
    ensures
        r == is_digit(b),
{
    '0' as u8 <= b && b <= '9' as u8
}

fn x_skip_ws(s: &[u8], i: usize) -> (r: usize)
    requires
        i <= s@.len(),
    ensures
        i <= r <= s@.len(),
        r as int == skip_ws(s@, i as int),
{
    let mut j = i;
    while j < s.len() && x_is_ws(s[j])
        invariant
            i <= j <= s@.len(),
            skip_ws(s@, i as int) == skip_ws(s@, j as int),
        decreases s@.len() - j,
    {
        j = j + 1;
    }
    j
}

pub(crate) fn x_digits_end(s: &[u8], i: usize) -> (r: usize)
    requires
        i <= s@.len(),
    ensures
        i <= r <= s@.len(),
        r as int == i + digits_len(s@, i as int),
{
    let mut j = i;
    while j < s.len() && x_is_digit(s[j])
        invariant
            i <= j <= s@.len(),
            i + digits_len(s@, i as int) == j + digits_len(s@, j as int),
        decreases s@.len() - j,
    {
        j = j + 1;
    }
    j
}

/// Every byte of a digit run is a digit.
pub(crate) proof fn lemma_digits_len_digits(s: Seq<u8>, i: int)
    ensures
        forall|q: int| i <= q < i + digits_len(s, i) ==> is_digit(#[trigger] s[q]),
    decreases s.len() - i,
{
    if 0 <= i < s.len() && is_digit(s[i]) {
        lemma_digits_len_digits(s, i + 1);
    }
}

fn x_hex_digit(b: u8) -> (r: Option<u8>)
    ensures
        match r {
            Some(v) => is_hex(b) && v as int == hex_val(b) && v < 16,
            None => !is_hex(b),
        },
{
    if '0' as u8 <= b && b <= '9' as u8 {
        Some(b - '0' as u8)
    } else if 'a' as u8 <= b && b <= 'f' as u8 {
        Some(b - 'a' as u8 + 10)
    } else if 'A' as u8 <= b && b <= 'F' as u8 {
        Some(b - 'A' as u8 + 10)
    } else {
        None
    }
}

fn x_hex4(s: &[u8], i: usize) -> (r: Option<u32>)
    requires
        i <= s@.len(),
    ensures
        match r {
            Some(v) => hex4_at(s@, i as int) == Some(v as int) && v < 0x10000 && i + 4 <= s@.len(),
            None => hex4_at(s@, i as int) is None,
        },
{
    if s.len() - i >= 4 {
        let h0 = x_hex_digit(s[i]);
        let h1 = x_hex_digit(s[i + 1]);
        let h2 = x_hex_digit(s[i + 2]);
        let h3 = x_hex_digit(s[i + 3]);
        match (h0, h1, h2, h3) {
            (Some(a), Some(b), Some(c), Some(d)) => Some(
                ((a as u32 * 16 + b as u32) * 16 + c as u32) * 16 + d as u32,
            ),
            _ => None,
        }
    } else {
        None
    }
}

fn x_utf8(cp: u32) -> (r: Vec<u8>)
    requires
        cp < 0x110000,
    ensures
        r@ == utf8_of(cp as int),
{
    let r = if cp < 0x80 {
        vec![cp as u8]
    } else if cp < 0x800 {
        vec![(0xC0 + cp / 0x40) as u8, (0x80 + cp % 0x40) as u8]
    } else if cp < 0x10000 {
        vec![
            (0xE0 + cp / 0x1000) as u8,
            (0x80 + (cp / 0x40) % 0x40) as u8,
            (0x80 + cp % 0x40) as u8,
        ]
    } else {
        vec![
            (0xF0 + cp / 0x40000) as u8,
            (0x80 + (cp / 0x1000) % 0x40) as u8,
            (0x80 + (cp / 0x40) % 0x40) as u8,
            (0x80 + cp % 0x40) as u8,
        ]
    };
    proof {
        assert(r@ =~= utf8_of(cp as int));
    }
    r
}

fn x_escape(s: &[u8], i: usize) -> (r: Option<(Vec<u8>, usize)>)
    requires
        i <= s@.len(),
    ensures
        match r {
            Some(p) => parse_escape(s@, i as int) == Some((p.0@, p.1 as int)) && i < p.1
                <= s@.len(),
            None => parse_escape(s@, i as int) is None,
        },
{
    if i >= s.len() {
        return None;
    }
    let b = s[i];
    if b == '"' as u8 || b == '\\' as u8 || b == '/' as u8 {
        Some((vec![b], i + 1))
    } else if b == 'b' as u8 {
        Some((vec![8u8], i + 1))
    } else if b == 'f' as u8 {
        Some((vec![12u8], i + 1))
    } else if b == 'n' as u8 {
        Some((vec![10u8], i + 1))
    } else if b == 'r' as u8 {
        Some((vec![13u8], i + 1))
    } else if b == 't' as u8 {
        Some((vec![9u8], i + 1))
    } else if b == 'u' as u8 {
        match x_hex4(s, i + 1) {
            None => None,
            Some(cu) => {
                if 0xD800 <= cu && cu < 0xDC00 {
                    if s.len() - i >= 7 && s[i + 5] == '\\' as u8 && s[i + 6] == 'u' as u8 {
                        match x_hex4(s, i + 7) {
                            None => None,
                            Some(cu2) => {
                                if 0xDC00 <= cu2 && cu2 < 0xE000 {
                                    let cp = 0x10000 + (cu - 0xD800) * 0x400 + (cu2 - 0xDC00);
                                    Some((x_utf8(cp), i + 11))
                                } else {
                                    None
                                }
                            },
                        }
                    } else {
                        None
                    }
                } else if 0xDC00 <= cu && cu < 0xE000 {
                    None
                } else {
                    Some((x_utf8(cu), i + 5))
                }
            },
        }
    } else {
        None
    }
}

fn x_str_body(s: &[u8], i: usize) -> (r: Option<(Vec<u8>, usize)>)
    requires
        i <= s@.len(),
    ensures
        match r {
            Some(p) => parse_str_body(s@, i as int) == Some((p.0@, p.1 as int)) && i < p.1
                <= s@.len(),
            None => parse_str_body(s@, i as int) is None,
        },
    decreases s@.len() - i,
{
    if i >= s.len() {
        return None;
    }
    let b = s[i];
    if b == '"' as u8 {
        let out: Vec<u8> = Vec::new();
        proof {
            assert(out@ =~= Seq::<u8>::empty());
        }
        Some((out, i + 1))
    } else if b == '\\' as u8 {
        match x_escape(s, i + 1) {
            None => None,
            Some((mut bytes, j0)) => {
                let j = if j0 < i + 2 {
                    i + 2
                } else {
                    j0
                };
                match x_str_body(s, j) {
                    None => None,
                    Some((mut rest, end)) => {
                        bytes.append(&mut rest);
                        Some((bytes, end))
                    },
                }
            },
        }
    } else if b < 0x20 {
        None
    } else {
        match x_str_body(s, i + 1) {
            None => None,
            Some((mut rest, end)) => {
                rest.insert(0, b);
                proof {
                    assert(rest@ =~= seq![b] + rest@.subrange(1, rest@.len() as int));
                }
                Some((rest, end))
            },
        }
    }
}

fn x_number(s: &[u8], i: usize) -> (r: Option<(Json, usize)>)
    requires
        i < s@.len(),
    ensures
        match r {
            Some(p) => parse_number(s@, i as int) == Some((p.0@, p.1 as int)) && i < p.1
                <= s@.len(),
            None => parse_number(s@, i as int) is None,
        },
{
    let neg = s[i] == '-' as u8;
    let j = if neg {
        i + 1
    } else {
        i
    };
    if j < s.len() && '0' as u8 <= s[j] && s[j] <= '9' as u8 {
        let k = if s[j] == '0' as u8 {
            j + 1
        } else {
            x_digits_end(s, j)
        };
        let fdigits = if k < s.len() && s[k] == '.' as u8 {
            x_digits_end(s, k + 1)
        } else {
            k
        };
        let has_frac = k < s.len() && s[k] == '.' as u8 && fdigits > k + 1;
        let k2 = if has_frac {
            fdigits
        } else {
            k
        };
        if k2 < s.len() && (s[k2] == 'e' as u8 || s[k2] == 'E' as u8) {
            let m = if k2 + 1 < s.len() && (s[k2 + 1] == '+' as u8 || s[k2 + 1] == '-' as u8) {
                k2 + 2
            } else {
                k2 + 1
            };
            let edigits = x_digits_end(s, m);
            if edigits > m {
                let k3 = edigits;
                Some((Json::Num(slice_range_to_vec(s, i, k3)), k3))
            } else {
                None
            }
        } else if has_frac {
            Some((Json::Num(slice_range_to_vec(s, i, k2)), k2))
        } else if k - j <= 18 {
            proof {
                lemma_digits_len_digits(s@, j as int);
            }
            let v = x_dec_val(s, j, k);
            let n: i64 = if neg {
                -(v as i64)
            } else {
                v as i64
            };
            Some((Json::Int(n), k))
        } else {
            Some((Json::Num(slice_range_to_vec(s, i, k)), k))
        }
    } else {
        None
    }
}

/// The bytes of `s` between `from` and `to`, as a fresh vector.
pub(crate) fn slice_range_to_vec(s: &[u8], from: usize, to: usize) -> (r: Vec<u8>)
    requires
        from <= to <= s@.len(),
    ensures
        r@ == s@.subrange(from as int, to as int),
{
    let mut out: Vec<u8> = Vec::new();
    let mut j = from;
    while j < to
        invariant
            from <= j <= to <= s@.len(),
            out@ =~= s@.subrange(from as int, j as int),
        decreases to - j,
    {
        out.push(s[j]);
        j = j + 1;
        proof {
            assert(out@ =~= s@.subrange(from as int, j as int));
        }
    }
    out
}

/// The value of the digit run `s[from..to]`, which holds at most eighteen
/// digits.
pub(crate) fn x_dec_val(s: &[u8], from: usize, to: usize) -> (r: u64)
    requires
        from <= to <= s@.len(),
        to - from <= 18,
        forall|q: int| from <= q < to ==> is_digit(#[trigger] s@[q]),
    ensures
        r as int == dec_val(s@.subrange(from as int, to as int)),
        r < 0x0DE0B6B3A7640000,
{
    proof {
        lemma_pow10_concrete();
    }
    let mut acc: u64 = 0;
    let mut j = from;
    while j < to
        invariant
            from <= j <= to <= s@.len(),
            to - from <= 18,
            forall|q: int| from <= q < to ==> is_digit(#[trigger] s@[q]),
            acc as int == dec_val(s@.subrange(from as int, j as int)),
            (acc as int) < pow10((j - from) as nat),
        decreases to - j,
    {
        proof {
            lemma_dec_val_bound(s@.subrange(from as int, j as int));
            lemma_pow10_concrete();
            lemma_pow10_mono((j - from) as nat, 17);
        }
        let d = s[j] - '0' as u8;
        acc = acc * 10 + d as u64;
        j = j + 1;
        proof {
            let pre = s@.subrange(from as int, j as int);
            assert(pre.drop_last() =~= s@.subrange(from as int, j - 1));
            assert(pre.last() == s@[j - 1]);
        }
    }
    proof {
        lemma_dec_val_bound(s@.subrange(from as int, to as int));
        lemma_pow10_concrete();
        lemma_pow10_mono((to - from) as nat, 18);
    }
    acc
}

pub proof fn lemma_pow10_pos(n: nat)
    ensures
        pow10(n) >= 1,
    decreases n,
{
    if n > 0 {
        lemma_pow10_pos((n - 1) as nat);
    }
}

pub proof fn lemma_pow10_mono(a: nat, b: nat)
    requires
        a <= b,
    ensures
        pow10(a) <= pow10(b),
    decreases b,
{
    if a < b && b > 0 {
        lemma_pow10_mono(a, (b - 1) as nat);
        lemma_pow10_pos((b - 1) as nat);
    }
}

proof fn lemma_pow10_concrete()
    ensures
        pow10(17) == 0x016345785D8A0000,
        pow10(18) == 0x0DE0B6B3A7640000,
{
    reveal_with_fuel(pow10, 20);
}

fn x_value(s: &[u8], i: usize) -> (r: Option<(Json, usize)>)
    requires
        i <= s@.len(),
    ensures
        match r {
            Some(p) => parse_value(s@, i as int) == Some((p.0@, p.1 as int)) && i < p.1
                <= s@.len(),
            None => parse_value(s@, i as int) is None,
        },
    decreases s@.len() - i, 0int,
{
    if i >= s.len() {
        return None;
    }
    let b = s[i];
    if b == 'n' as u8 {
        if s.len() - i >= 4 && s[i + 1] == 'u' as u8 && s[i + 2] == 'l' as u8 && s[i + 3]
            == 'l' as u8 {
            Some((Json::Null, i + 4))
        } else {
            None
        }
    } else if b == 't' as u8 {
        if s.len() - i >= 4 && s[i + 1] == 'r' as u8 && s[i + 2] == 'u' as u8 && s[i + 3]
            == 'e' as u8 {
            Some((Json::Bool(true), i + 4))
        } else {
            None
        }
    } else if b == 'f' as u8 {
        if s.len() - i >= 5 && s[i + 1] == 'a' as u8 && s[i + 2] == 'l' as u8 && s[i + 3]
            == 's' as u8 && s[i + 4] == 'e' as u8 {
            Some((Json::Bool(false), i + 5))
        } else {
            None
        }
    } else if b == '"' as u8 {
        match x_str_body(s, i + 1) {
            None => None,
            Some((content, end)) => Some((Json::Str(content), end)),
        }
    } else if b == '-' as u8 || ('0' as u8 <= b && b <= '9' as u8) {
        x_number(s, i)
    } else if b == '[' as u8 {
        let j = x_skip_ws(s, i + 1);
        if j < s.len() && s[j] == ']' as u8 {
            let items: Vec<Json> = Vec::new();
            proof {
                assert(view_items(items@) =~= Seq::<JsonV>::empty());
            }
            Some((Json::Arr(items), j + 1))
        } else {
            match x_items(s, j) {
                None => None,
                Some((items, end)) => Some((Json::Arr(items), end)),
            }
        }
    } else if b == '{' as u8 {
        let j = x_skip_ws(s, i + 1);
        if j < s.len() && s[j] == '}' as u8 {
            let members: Vec<(Vec<u8>, Json)> = Vec::new();
            proof {
                assert(view_members(members@) =~= Seq::<(Seq<u8>, JsonV)>::empty());
            }
            Some((Json::Obj(members), j + 1))
        } else {
            match x_members(s, j) {
                None => None,
                Some((members, end)) => Some((Json::Obj(members), end)),
            }
        }
    } else {
        None
    }
}

fn x_items(s: &[u8], i: usize) -> (r: Option<(Vec<Json>, usize)>)
    requires
        i <= s@.len(),
    ensures
        match r {
            Some(p) => parse_items(s@, i as int) matches Some(q) && q.0 == view_items(p.0@)
                && q.1 == p.1 as int && i < p.1 <= s@.len(),
            None => parse_items(s@, i as int) is None,
        },
    decreases s@.len() - i, 1int,
{
    match x_value(s, i) {
        None => None,
        Some((v, end0)) => {
            let end = if end0 < i + 1 {
                i + 1
            } else {
                end0
            };
            let j = x_skip_ws(s, end);
            if j < s.len() && s[j] == ',' as u8 {
                match x_items(s, x_skip_ws(s, j + 1)) {
                    None => None,
                    Some((mut rest, end2)) => {
                        let ghost tail = rest@;
                        rest.insert(0, v);
                        proof {
                            assert(rest@.subrange(1, rest@.len() as int) =~= tail);
                            assert(view_items(rest@) =~= seq![v@] + view_items(tail));
                        }
                        Some((rest, end2))
                    },
                }
            } else if j < s.len() && s[j] == ']' as u8 {
                let mut items: Vec<Json> = Vec::new();
                items.push(v);
                proof {
                    assert(items@.subrange(1, 1) =~= Seq::<Json>::empty());
                    assert(view_items(items@.subrange(1, 1)) =~= Seq::<JsonV>::empty());
                    assert(view_items(items@) =~= seq![v@]);
                }
                Some((items, j + 1))
            } else {
                None
            }
        },
    }
}

fn x_members(s: &[u8], i: usize) -> (r: Option<(Vec<(Vec<u8>, Json)>, usize)>)
    requires
        i <= s@.len(),
    ensures
        match r {
            Some(p) => parse_members(s@, i as int) matches Some(q) && q.0 == view_members(p.0@)
                && q.1 == p.1 as int && i < p.1 <= s@.len(),
            None => parse_members(s@, i as int) is None,
        },
    decreases s@.len() - i, 1int,
{
    if i < s.len() && s[i] == '"' as u8 {
        match x_str_body(s, i + 1) {
            None => None,
            Some((key, kend0)) => {
                let kend = if kend0 < i + 2 {
                    i + 2
                } else {
                    kend0
                };
                let j = x_skip_ws(s, kend);
                if j < s.len() && s[j] == ':' as u8 {
                    match x_value(s, x_skip_ws(s, j + 1)) {
                        None => None,
                        Some((v, end0)) => {
                            let end = if end0 < j + 2 {
                                j + 2
                            } else {
                                end0
                            };
                            let j2 = x_skip_ws(s, end);
                            if j2 < s.len() && s[j2] == ',' as u8 {
                                match x_members(s, x_skip_ws(s, j2 + 1)) {
                                    None => None,
                                    Some((mut rest, end2)) => {
                                        let ghost tail = rest@;
                                        rest.insert(0, (key, v));
                                        proof {
                                            assert(rest@.subrange(1, rest@.len() as int)
                                                =~= tail);
                                            assert(view_members(rest@) =~= seq![(key@, v@)]
                                                + view_members(tail));
                                        }
                                        Some((rest, end2))
                                    },
                                }
                            } else if j2 < s.len() && s[j2] == '}' as u8 {
                                let mut members: Vec<(Vec<u8>, Json)> = Vec::new();
                                members.push((key, v));
                                proof {
                                    assert(members@.subrange(1, 1) =~= Seq::<
                                        (Vec<u8>, Json),
                                    >::empty());
                                    assert(view_members(members@.subrange(1, 1)) =~= Seq::<
                                        (Seq<u8>, JsonV),
                                    >::empty());
                                    assert(view_members(members@) =~= seq![(key@, v@)]);
                                }
                                Some((members, j2 + 1))
                            } else {
                                None
                            }
                        },
                    }
                } else {
                    None
                }
            },
        }
    } else {
        None
    }
}

// -------------------------------------------------------------------------
// Copying.
// -------------------------------------------------------------------------

/// A fresh copy of a JSON value, used where a decoded record keeps a value
/// verbatim.
pub fn json_copy(v: &Json) -> (r: Json)
    ensures
        r@ == v@,
    decreases *v, 0int, 0int,
{
    match v {
        Json::Null => Json::Null,
        Json::Bool(b) => Json::Bool(*b),
        Json::Int(n) => Json::Int(*n),
        Json::Num(s) => {
            let c = slice_range_to_vec(s.as_slice(), 0, s.len());
            proof {
                assert(c@ =~= s@);
            }
            Json::Num(c)
        },
        Json::Str(s) => {
            let c = slice_range_to_vec(s.as_slice(), 0, s.len());
            proof {
                assert(c@ =~= s@);
            }
            Json::Str(c)
        },
        Json::Arr(items) => {
            let out = copy_items_from(items, 0);
            proof {
                assert(items@.subrange(0, items@.len() as int) =~= items@);
            }
            Json::Arr(out)
        },
        Json::Obj(members) => {
            let out = copy_members_from(members, 0);
            proof {
                assert(members@.subrange(0, members@.len() as int) =~= members@);
            }
            Json::Obj(out)
        },
    }
}

fn copy_items_from(items: &Vec<Json>, i: usize) -> (r: Vec<Json>)
    requires
        i <= items@.len(),
    ensures
        view_items(r@) == view_items(items@.subrange(i as int, items@.len() as int)),
    decreases *items, items@.len() - i, 0int,
{
    if i >= items.len() {
        let out: Vec<Json> = Vec::new();
        proof {
            assert(items@.subrange(items@.len() as int, items@.len() as int) =~= Seq::<
                Json,
            >::empty());
            assert(view_items(out@) =~= view_items(
                items@.subrange(i as int, items@.len() as int),
            ));
        }
        out
    } else {
        let first = json_copy(&items[i]);
        let mut rest = copy_items_from(items, i + 1);
        let ghost tail = rest@;
        rest.insert(0, first);
        proof {
            let suffix = items@.subrange(i as int, items@.len() as int);
            assert(suffix[0] == items@[i as int]);
            assert(suffix.subrange(1, suffix.len() as int) =~= items@.subrange(
                i + 1,
                items@.len() as int,
            ));
            assert(rest@.subrange(1, rest@.len() as int) =~= tail);
            assert(view_items(rest@) =~= view_items(suffix));
        }
        rest
    }
}

fn copy_members_from(members: &Vec<(Vec<u8>, Json)>, i: usize) -> (r: Vec<(Vec<u8>, Json)>)
    requires
        i <= members@.len(),
    ensures
        view_members(r@) == view_members(members@.subrange(i as int, members@.len() as int)),
    decreases *members, members@.len() - i, 0int,
{
    if i >= members.len() {
        let out: Vec<(Vec<u8>, Json)> = Vec::new();
        proof {
            assert(members@.subrange(members@.len() as int, members@.len() as int) =~= Seq::<
                (Vec<u8>, Json),
            >::empty());
            assert(view_members(out@) =~= view_members(
                members@.subrange(i as int, members@.len() as int),
            ));
        }
        out
    } else {
        let key = slice_range_to_vec(members[i].0.as_slice(), 0, members[i].0.len());
        proof {
            assert(key@ =~= members@[i as int].0@);
        }
        let val = json_copy(&members[i].1);
        let mut rest = copy_members_from(members, i + 1);
        let ghost tail = rest@;
        rest.insert(0, (key, val));
        proof {
            let suffix = members@.subrange(i as int, members@.len() as int);
            assert(suffix[0] == members@[i as int]);
            assert(suffix.subrange(1, suffix.len() as int) =~= members@.subrange(
                i + 1,
                members@.len() as int,
            ));
            assert(rest@.subrange(1, rest@.len() as int) =~= tail);
            assert(view_members(rest@) =~= view_members(suffix));
        }
        rest
    }
}

// -------------------------------------------------------------------------
// Readers over parsed values.
// -------------------------------------------------------------------------

/// The value of the first member named `k`.
pub open spec fn obj_get(members: Seq<(Seq<u8>, JsonV)>, k: Seq<u8>) -> Option<JsonV>
    decreases members.len(),
{
    if members.len() == 0 {
        None
    } else if members[0].0 == k {
        Some(members[0].1)
    } else {
        obj_get(members.subrange(1, members.len() as int), k)
    }
}

/// The field `k` of `v`, when `v` is an object that has it.
pub open spec fn get_field(v: JsonV, k: Seq<u8>) -> Option<JsonV> {
    match v {
        JsonV::Obj(members) => obj_get(members, k),
        _ => None,
    }
}

pub open spec fn as_str(v: JsonV) -> Option<Seq<u8>> {
    match v {
        JsonV::Str(s) => Some(s),
        _ => None,
    }
}

pub open spec fn as_int(v: JsonV) -> Option<int> {
    match v {
        JsonV::Int(n) => Some(n),
        _ => None,
    }
}

pub open spec fn as_bool(v: JsonV) -> Option<bool> {
    match v {
        JsonV::Bool(b) => Some(b),
        _ => None,
    }
}

/// Looks the field `key` up in `v`; `None` when `v` is not an object or has
/// no member of that name.
pub fn json_field<'a>(v: &'a Json, key: &str) -> (r: Option<&'a Json>)
    requires
        key.is_ascii(),
    ensures
        match r {
            Some(f) => get_field(v@, ascii_u8(key@)) == Some(f@),
            None => get_field(v@, ascii_u8(key@)) is None,
        },
{
    let kb = str_to_bytes(key);
    match v {
        Json::Obj(members) => {
            let ghost model = view_members(members@);
            proof {
                lemma_view_members(members@);
                assert(v@ == JsonV::Obj(model));
                assert(model.subrange(0, model.len() as int) =~= model);
            }
            let mut idx: usize = 0;
            while idx < members.len()
                invariant
                    idx <= members@.len(),
                    kb@ == ascii_u8(key@),
                    v@ == JsonV::Obj(model),
                    model == view_members(members@),
                    model.len() == members@.len(),
                    forall|q: int|
                        0 <= q < members@.len() ==> model[q] == (
                            members@[q].0@,
                            view_json(members@[q].1),
                        ),
                    obj_get(model, kb@) == obj_get(
                        model.subrange(idx as int, model.len() as int),
                        kb@,
                    ),
                decreases members@.len() - idx,
            {
                let hit = &members[idx].0 == &kb;
                proof {
                    if members@[idx as int].0@ =~= kb@ {
                        assert(hit);
                    }
                    if hit {
                        assert(members@[idx as int].0@ =~= kb@);
                    }
                    let rest = model.subrange(idx as int, model.len() as int);
                    assert(rest[0] == model[idx as int]);
                    assert(rest.subrange(1, rest.len() as int) =~= model.subrange(
                        idx + 1,
                        model.len() as int,
                    ));
                }
                if hit {
                    proof {
                        let rest = model.subrange(idx as int, model.len() as int);
                        assert(obj_get(rest, kb@) == Some(rest[0].1));
                        assert(obj_get(model, kb@) == Some(model[idx as int].1));
                    }
                    return Some(&members[idx].1);
                }
                idx = idx + 1;
            }
            proof {
                assert(model.subrange(model.len() as int, model.len() as int) =~= Seq::<
                    (Seq<u8>, JsonV),
                >::empty());
            }
            None
        },
        _ => None,
    }
}

/// The string content of `v`, when `v` is a string.
pub fn json_str<'a>(v: &'a Json) -> (r: Option<&'a Vec<u8>>)
    ensures
        match r {
            Some(s) => as_str(v@) == Some(s@),
            None => as_str(v@) is None,
        },
{
    match v {
        Json::Str(s) => Some(s),
        _ => None,
    }
}

/// The integer value of `v`, when `v` is a plain integer number.
pub fn json_int(v: &Json) -> (r: Option<i64>)
    ensures
        match r {
            Some(n) => as_int(v@) == Some(n as int),
            None => as_int(v@) is None,
        },
{
    match v {
        Json::Int(n) => Some(*n),
        _ => None,
    }
}

/// The truth value of `v`, when `v` is a boolean.
pub fn json_bool(v: &Json) -> (r: Option<bool>)
    ensures
        match r {
            Some(b) => as_bool(v@) == Some(b),
            None => as_bool(v@) is None,
        },
{
    match v {
        Json::Bool(b) => Some(*b),
        _ => None,
    }
}

/// Parses one JSON document; returns the value exactly when the bytes are a
/// well-formed document per [`parse_doc`].
pub fn parse_json(s: &[u8]) -> (r: Option<Json>)
    ensures
        match r {
            Some(v) => parse_doc(s@) == Some(v@),
            None => parse_doc(s@) is None,
        },
{
    let start = x_skip_ws(s, 0);
    match x_value(s, start) {
        None => None,
        Some((v, end)) => {
            if x_skip_ws(s, end) >= s.len() {
                Some(v)
            } else {
                None
            }
        },
    }
}

/// The element-wise reading of [`view_items`].
pub broadcast proof fn lemma_view_items(items: Seq<Json>)
    ensures
        #[trigger] view_items(items).len() == items.len(),
        forall|i: int| 0 <= i < items.len() ==> view_items(items)[i] == view_json(items[i]),
    decreases items.len(),
{
    if items.len() > 0 {
        lemma_view_items(items.subrange(1, items.len() as int));
    }
}

/// The element-wise reading of [`view_members`].
pub broadcast proof fn lemma_view_members(members: Seq<(Vec<u8>, Json)>)
    ensures
        #[trigger] view_members(members).len() == members.len(),
        forall|i: int|
            0 <= i < members.len() ==> view_members(members)[i] == (
                members[i].0@,
                view_json(members[i].1),
            ),
    decreases members.len(),
{
    if members.len() > 0 {
        lemma_view_members(members.subrange(1, members.len() as int));
    }
}

} // verus!
