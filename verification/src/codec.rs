//! Field codecs: 160-bit addresses and 256-bit hashes carried as hex text,
//! arbitrary-precision unsigned integers carried as decimal strings, and
//! timestamps carried either as an RFC 3339 string or as epoch seconds.
//!
//! Each codec is a pair of functions between a plain value type of the
//! library and the wire shape the feed uses, specified exactly over the JSON
//! value model, with the round-trip laws proved beside them.

use vstd::prelude::*;

use crate::json::{
    ascii_u8, as_str, dec_val, digits_len, get_field, is_digit, is_hex, hex_val, pow10, Json,
    JsonV, json_field, json_str, str_to_bytes, view_json, lemma_dec_val_bound, lemma_pow10_mono,
    lemma_pow10_pos,
};

verus! {

broadcast use vstd::std_specs::vec::group_vec_axioms, vstd::seq::group_seq_axioms, vstd::string::group_string_axioms;

// -------------------------------------------------------------------------
// Hex text.
// -------------------------------------------------------------------------

/// The lowercase hex digit for a nibble.
pub open spec fn hex_digit(n: int) -> u8 {
    if n < 10 {
        ('0' as u8 + n) as u8
    } else {
        ('a' as u8 + (n - 10)) as u8
    }
}

/// The lowercase hex spelling of `b`, two digits per byte.
pub open spec fn hex_text_of(b: Seq<u8>) -> Seq<u8> {
    Seq::new(b.len() * 2, |i: int| if i % 2 == 0 {
        hex_digit((b[i / 2] / 16) as int)
    } else {
        hex_digit((b[i / 2] % 16) as int)
    })
}

/// The bytes spelt by an even-length run of hex digits; `None` on any other
/// input.
pub open spec fn bytes_of_hex(s: Seq<u8>) -> Option<Seq<u8>> {
    if s.len() % 2 == 0 && (forall|i: int| 0 <= i < s.len() ==> is_hex(#[trigger] s[i])) {
        Some(Seq::new(s.len() / 2, |i: int| (hex_val(s[2 * i]) * 16 + hex_val(s[2 * i + 1])) as u8))
    } else {
        None
    }
}

/// `s` with a leading `0x` removed, if it has one.
pub open spec fn strip_0x(s: Seq<u8>) -> Seq<u8> {
    if s.len() >= 2 && s[0] == '0' as u8 && s[1] == 'x' as u8 {
        s.subrange(2, s.len() as int)
    } else {
        s
    }
}

/// Reading a hex digit back gives the nibble it spells.
proof fn lemma_hex_digit_round(n: int)
    requires
        0 <= n < 16,
    ensures
        is_hex(hex_digit(n)),
        hex_val(hex_digit(n)) == n,
{
}

/// Hex encoding decodes to the bytes it came from.
proof fn lemma_hex_round_trip(b: Seq<u8>)
    ensures
        bytes_of_hex(hex_text_of(b)) == Some(b),
{
    let s = hex_text_of(b);
    assert forall|i: int| 0 <= i < s.len() implies is_hex(#[trigger] s[i]) by {
        lemma_hex_digit_round(if i % 2 == 0 {
            b[i / 2] / 16
        } else {
            b[i / 2] % 16
        } as int);
    }
    let out = bytes_of_hex(s)->Some_0;
    assert forall|i: int| 0 <= i < out.len() implies out[i] == b[i] by {
        assert((2 * i) % 2 == 0);
        assert((2 * i + 1) % 2 == 1);
        assert((2 * i) / 2 == i);
        assert((2 * i + 1) / 2 == i);
        lemma_hex_digit_round((b[i] / 16) as int);
        lemma_hex_digit_round((b[i] % 16) as int);
    }
    assert(out =~= b);
}

/// Renders `b` as lowercase hex text.
fn hex_encode(b: &Vec<u8>) -> (r: Vec<u8>)
    ensures
        r@ == hex_text_of(b@),
{
    let mut out: Vec<u8> = Vec::new();
    let mut j: usize = 0;
    while j < b.len()
        invariant
            j <= b@.len(),
            out@.len() == 2 * j,
            forall|q: int| 0 <= q < out@.len() ==> out@[q] == hex_text_of(b@)[q],
        decreases b@.len() - j,
    {
        let by = b[j];
        let hi = by / 16;
        let lo = by % 16;
        let hic = if hi < 10 {
            '0' as u8 + hi
        } else {
            'a' as u8 + (hi - 10)
        };
        let loc = if lo < 10 {
            '0' as u8 + lo
        } else {
            'a' as u8 + (lo - 10)
        };
        out.push(hic);
        out.push(loc);
        j = j + 1;
    }
    proof {
        assert(out@ =~= hex_text_of(b@));
    }
    out
}

/// Reads an even-length run of hex digits back into bytes.
fn hex_decode(s: &[u8]) -> (r: Option<Vec<u8>>)
    ensures
        match r {
            Some(b) => bytes_of_hex(s@) == Some(b@),
            None => bytes_of_hex(s@) is None,
        },
{
    if s.len() % 2 != 0 {
        return None;
    }
    let mut out: Vec<u8> = Vec::new();
    let mut j: usize = 0;
    while j + 1 < s.len()
        invariant
            j % 2 == 0,
            j <= s@.len(),
            s@.len() % 2 == 0,
            out@.len() == j / 2,
            forall|q: int| 0 <= q < j ==> is_hex(#[trigger] s@[q]),
            forall|q: int|
                0 <= q < out@.len() ==> out@[q] == (hex_val(s@[2 * q]) * 16 + hex_val(
                    s@[2 * q + 1],
                )) as u8,
        decreases s@.len() - j,
    {
        let hi = crate::codec::hexv(s[j]);
        let lo = crate::codec::hexv(s[j + 1]);
        match (hi, lo) {
            (Some(h), Some(l)) => {
                out.push(h * 16 + l);
                j = j + 2;
            },
            _ => {
                return None;
            },
        }
    }
    proof {
        assert(bytes_of_hex(s@) matches Some(m) && m =~= out@);
    }
    Some(out)
}

/// The value of one hex digit, `None` for any other byte.
fn hexv(b: u8) -> (r: Option<u8>)
    ensures
        match r {
            Some(v) => is_hex(b) && v as int == hex_val(b) && v < 16,
            None => !is_hex(b),
        },
{
    if '0' as u8 <= b && b <= '9' as u8 {
        Some(b - '0' as u8)
    } else if 'a' as u8 <= b && b <= 'f' as u8 {
        Some(b - 'a' as u8 + 10)
    } else if 'A' as u8 <= b && b <= 'F' as u8 {
        Some(b - 'A' as u8 + 10)
    } else {
        None
    }
}

// -------------------------------------------------------------------------
// Addresses and order hashes.
// -------------------------------------------------------------------------

/// A 160-bit account or contract address.
#[derive(Debug, Clone)]
pub struct Address {
    bytes: Vec<u8>,
}

/// A 256-bit order or transaction hash.
#[derive(Debug, Clone)]
pub struct Hash256 {
    bytes: Vec<u8>,
}

/// The hex text accepted for a fixed-width value: an optional `0x` prefix,
/// then exactly `2 * width` hex digits.
pub open spec fn fixed_hex_of(s: Seq<u8>, width: int) -> Option<Seq<u8>> {
    match bytes_of_hex(strip_0x(s)) {
        Some(b) => if b.len() == width {
            Some(b)
        } else {
            None
        },
        None => None,
    }
}

/// The address wire shape: an object whose `address` field holds the hex
/// text of exactly 20 bytes.
pub open spec fn addr_of_json(v: JsonV) -> Option<Seq<u8>> {
    match get_field(v, ascii_u8("address"@)) {
        Some(f) => match as_str(f) {
            Some(s) => fixed_hex_of(s, 20),
            None => None,
        },
        None => None,
    }
}

/// The bare-string address wire shape: the hex text of exactly 20 bytes.
pub open spec fn addr_bare_of_json(v: JsonV) -> Option<Seq<u8>> {
    match as_str(v) {
        Some(s) => fixed_hex_of(s, 20),
        None => None,
    }
}

/// The canonical address wire shape for bytes `b`.
pub open spec fn addr_json_of(b: Seq<u8>) -> JsonV {
    JsonV::Obj(
        seq![
            (ascii_u8("address"@), JsonV::Str(seq!['0' as u8, 'x' as u8] + hex_text_of(b))),
        ],
    )
}

impl View for Address {
    type V = Seq<u8>;

    closed spec fn view(&self) -> Seq<u8> {
        self.bytes@
    }
}

impl DeepView for Address {
    type V = Seq<u8>;

    open spec fn deep_view(&self) -> Seq<u8> {
        self@
    }
}

impl Address {
    /// A valid address holds exactly 20 bytes.
    pub open spec fn wf(&self) -> bool {
        self@.len() == 20
    }

    /// Wraps exactly 20 bytes.
    pub fn from_bytes(bytes: Vec<u8>) -> (r: Option<Address>)
        ensures
            match r {
                Some(a) => bytes@.len() == 20 && a@ == bytes@ && a.wf(),
                None => bytes@.len() != 20,
            },
    {
        if bytes.len() == 20 {
            Some(Address { bytes })
        } else {
            None
        }
    }

    pub fn bytes(&self) -> (r: &Vec<u8>)
        ensures
            r@ == self@,
    {
        &self.bytes
    }

    /// Reads the nested single-field object shape the feed wraps addresses
    /// in; exactly the inputs [`addr_of_json`] accepts are taken.
    pub fn decode(v: &Json) -> (r: Option<Address>)
        ensures
            match r {
                Some(a) => addr_of_json(v@) == Some(a@) && a.wf(),
                None => addr_of_json(v@) is None,
            },
    {
        proof {
            reveal_strlit("address");
        }
        match json_field(v, "address") {
            Some(f) => match json_str(f) {
                Some(s) => match crate::codec::fixed_hex_decode(s, 20) {
                    Some(bytes) => Some(Address { bytes }),
                    None => None,
                },
                None => None,
            },
            None => None,
        }
    }

    /// Reads an address carried as a bare hex string, as execution
    /// parameters spell it.
    pub fn decode_bare(v: &Json) -> (r: Option<Address>)
        ensures
            match r {
                Some(a) => addr_bare_of_json(v@) == Some(a@) && a.wf(),
                None => addr_bare_of_json(v@) is None,
            },
    {
        match json_str(v) {
            Some(s) => match crate::codec::fixed_hex_decode(s, 20) {
                Some(bytes) => Some(Address { bytes }),
                None => None,
            },
            None => None,
        }
    }

    /// Re-wraps the address into the same single-field object shape.
    pub fn encode(&self) -> (r: Json)
        requires
            self.wf(),
        ensures
            r@ == addr_json_of(self@),
    {
        proof {
            reveal_strlit("address");
        }
        fixed_hex_encode(&self.bytes, "address")
    }
}

impl View for Hash256 {
    type V = Seq<u8>;

    closed spec fn view(&self) -> Seq<u8> {
        self.bytes@
    }
}

/// The hash wire shape: the hex text of exactly 32 bytes, as a bare string.
pub open spec fn hash_of_json(v: JsonV) -> Option<Seq<u8>> {
    match as_str(v) {
        Some(s) => fixed_hex_of(s, 32),
        None => None,
    }
}

/// The canonical hash wire shape for bytes `b`.
pub open spec fn hash_json_of(b: Seq<u8>) -> JsonV {
    JsonV::Str(seq!['0' as u8, 'x' as u8] + hex_text_of(b))
}

impl DeepView for Hash256 {
    type V = Seq<u8>;

    open spec fn deep_view(&self) -> Seq<u8> {
        self@
    }
}

impl Hash256 {
    /// A valid hash holds exactly 32 bytes.
    pub open spec fn wf(&self) -> bool {
        self@.len() == 32
    }

    /// Wraps exactly 32 bytes.
    pub fn from_bytes(bytes: Vec<u8>) -> (r: Option<Hash256>)
        ensures
            match r {
                Some(a) => bytes@.len() == 32 && a@ == bytes@ && a.wf(),
                None => bytes@.len() != 32,
            },
    {
        if bytes.len() == 32 {
            Some(Hash256 { bytes })
        } else {
            None
        }
    }

    pub fn bytes(&self) -> (r: &Vec<u8>)
        ensures
            r@ == self@,
    {
        &self.bytes
    }

    /// Reads a hash carried as a bare hex string.
    pub fn decode(v: &Json) -> (r: Option<Hash256>)
        ensures
            match r {
                Some(a) => hash_of_json(v@) == Some(a@) && a.wf(),
                None => hash_of_json(v@) is None,
            },
    {
        match json_str(v) {
            Some(s) => match crate::codec::fixed_hex_decode(s, 32) {
                Some(bytes) => Some(Hash256 { bytes }),
                None => None,
            },
            None => None,
        }
    }

    /// Renders the hash as `0x`-prefixed lowercase hex.
    pub fn encode(&self) -> (r: Json)
        requires
            self.wf(),
        ensures
            r@ == hash_json_of(self@),
    {
        Json::Str(hex_text_0x(&self.bytes))
    }
}

/// Renders `b` as `0x`-prefixed lowercase hex text.
pub(crate) fn hex_text_0x(b: &Vec<u8>) -> (r: Vec<u8>)
    ensures
        r@ == seq!['0' as u8, 'x' as u8] + hex_text_of(b@),
{
    let mut text: Vec<u8> = Vec::new();
    text.push('0' as u8);
    text.push('x' as u8);
    let mut hex = hex_encode(b);
    text.append(&mut hex);
    proof {
        assert(text@ =~= seq!['0' as u8, 'x' as u8] + hex_text_of(b@));
    }
    text
}

/// Reads hex text of exactly `width` bytes, with or without a `0x` prefix.
fn fixed_hex_decode(s: &Vec<u8>, width: usize) -> (r: Option<Vec<u8>>)
    ensures
        match r {
            Some(b) => fixed_hex_of(s@, width as int) == Some(b@) && b@.len() == width,
            None => fixed_hex_of(s@, width as int) is None,
        },
{
    let body: &[u8] = if s.len() >= 2 && s[0] == '0' as u8 && s[1] == 'x' as u8 {
        let whole = s.as_slice();
        let (_, tail) = slice_split_at(whole, 2)
;
        tail
    } else {
        s.as_slice()
    };
    proof {
        assert(body@ =~= strip_0x(s@));
    }
    match hex_decode(body) {
        Some(b) => {
            if b.len() == width {
                Some(b)
            } else {
                None
            }
        },
        None => None,
    }
}

/// Splits a slice at `mid`.
pub(crate) fn slice_split_at<'a>(s: &'a [u8], mid: usize) -> (r: (&'a [u8], &'a [u8]))
    requires
        mid <= s@.len(),
    ensures
        r.0@ == s@.subrange(0, mid as int),
        r.1@ == s@.subrange(mid as int, s@.len() as int),
{
    s.split_at(mid)
}

/// Wraps the hex text of `b` into an object under the field `name`.
fn fixed_hex_encode(b: &Vec<u8>, name: &str) -> (r: Json)
    requires
        name.is_ascii(),
    ensures
        r@ == JsonV::Obj(
            seq![
                (ascii_u8(name@), JsonV::Str(seq!['0' as u8, 'x' as u8] + hex_text_of(b@))),
            ],
        ),
{
    let mut text: Vec<u8> = Vec::new();
    text.push('0' as u8);
    text.push('x' as u8);
    let mut hex = hex_encode(b);
    text.append(&mut hex);
    proof {
        assert(text@ =~= seq!['0' as u8, 'x' as u8] + hex_text_of(b@));
    }
    let mut members: Vec<(Vec<u8>, Json)> = Vec::new();
    members.push((str_to_bytes(name), Json::Str(text)));
    proof {
        assert(crate::json::view_members(members@.subrange(1, 1)) =~= Seq::<
            (Seq<u8>, JsonV),
        >::empty());
        assert(members@[0].0@ == ascii_u8(name@));
        assert(view_json(members@[0].1) == JsonV::Str(
            seq!['0' as u8, 'x' as u8] + hex_text_of(b@),
        ));
        assert(crate::json::view_members(members@) =~~= seq![
            (ascii_u8(name@), JsonV::Str(seq!['0' as u8, 'x' as u8] + hex_text_of(b@))),
        ]);
    }
    Json::Obj(members)
}

/// Decoding the encoded form of any 20-byte address gives the address back.
pub proof fn lemma_address_round_trip(b: Seq<u8>)
    requires
        b.len() == 20,
    ensures
        addr_of_json(addr_json_of(b)) == Some(b),
{
    reveal_strlit("address");
    let key = ascii_u8("address"@);
    let text = seq!['0' as u8, 'x' as u8] + hex_text_of(b);
    let members = seq![(key, JsonV::Str(text))];
    assert(members.subrange(1, 1) =~= Seq::<(Seq<u8>, JsonV)>::empty());
    assert(get_field(addr_json_of(b), key) == Some(JsonV::Str(text)));
    assert(text[0] == '0' as u8 && text[1] == 'x' as u8);
    assert(strip_0x(text) =~= hex_text_of(b));
    lemma_hex_round_trip(b);
}

// -------------------------------------------------------------------------
// Arbitrary-precision unsigned integers, carried as base-10 digit strings.
// -------------------------------------------------------------------------

/// Digit text in canonical form: nonempty, decimal digits only, and no
/// leading zero except for the value zero itself.
pub open spec fn canonical_digits(s: Seq<u8>) -> bool {
    &&& s.len() > 0
    &&& forall|i: int| 0 <= i < s.len() ==> is_digit(#[trigger] s[i])
    &&& s.len() > 1 ==> s[0] != '0' as u8
}

/// `s` with leading zeros removed, keeping a single zero for the value zero.
pub open spec fn canon_of(s: Seq<u8>) -> Seq<u8>
    decreases s.len(),
{
    if s.len() > 1 && s[0] == '0' as u8 {
        canon_of(s.subrange(1, s.len() as int))
    } else {
        s
    }
}

/// The canonical decimal rendering of a nonnegative integer.
pub open spec fn dec_str_of(n: int) -> Seq<u8>
    decreases n,
{
    if n <= 9 {
        seq![('0' as u8 + n) as u8]
    } else {
        dec_str_of(n / 10) + seq![('0' as u8 + n % 10) as u8]
    }
}

/// The integer wire shape: a nonempty base-10 digit string with no sign and
/// no prefix.  The value is kept in canonical digit form.
pub open spec fn bigint_of_json(v: JsonV) -> Option<Seq<u8>> {
    match as_str(v) {
        Some(s) => {
            if s.len() > 0 && (forall|i: int| 0 <= i < s.len() ==> is_digit(#[trigger] s[i])) {
                Some(canon_of(s))
            } else {
                None
            }
        },
        None => None,
    }
}

/// An unsigned integer of arbitrary width, held as its canonical decimal
/// digit string; its mathematical value is `dec_val` of the view.
#[derive(Debug, Clone)]
pub struct BigUint {
    digits: Vec<u8>,
}

impl View for BigUint {
    type V = Seq<u8>;

    closed spec fn view(&self) -> Seq<u8> {
        self.digits@
    }
}

impl DeepView for BigUint {
    type V = Seq<u8>;

    open spec fn deep_view(&self) -> Seq<u8> {
        self@
    }
}

impl BigUint {
    pub open spec fn wf(&self) -> bool {
        canonical_digits(self@)
    }

    /// The value this integer denotes.
    pub open spec fn value(&self) -> int {
        dec_val(self@)
    }

    /// The value zero, rendered `0`.
    pub fn zero() -> (r: BigUint)
        ensures
            r.wf(),
            r@ == seq!['0' as u8],
            r.value() == 0,
    {
        let mut digits: Vec<u8> = Vec::new();
        digits.push('0' as u8);
        proof {
            assert(digits@ =~= seq!['0' as u8]);
            assert(digits@.drop_last() =~= Seq::<u8>::empty());
            assert(dec_val(Seq::<u8>::empty()) == 0);
            assert(dec_val(digits@) == 0);
        }
        BigUint { digits }
    }

    /// Builds the canonical digit string of `n`.
    pub fn from_u128(n: u128) -> (r: BigUint)
        ensures
            r.wf(),
            r@ == dec_str_of(n as int),
            r.value() == n as int,
    {
        proof {
            lemma_dec_str_of(n as int);
        }
        let digits = dec_string_u128(n);
        BigUint { digits }
    }

    /// The canonical digit bytes.
    pub fn digits(&self) -> (r: &Vec<u8>)
        ensures
            r@ == self@,
    {
        &self.digits
    }

    /// Reads a digit string; exactly the inputs [`bigint_of_json`] accepts
    /// are taken, and leading zeros are normalised away.
    pub fn decode(v: &Json) -> (r: Option<BigUint>)
        ensures
            match r {
                Some(b) => bigint_of_json(v@) == Some(b@) && b.wf(),
                None => bigint_of_json(v@) is None,
            },
    {
        match json_str(v) {
            Some(s) => {
                let n = s.len();
                let mut ok = true;
                let mut j: usize = 0;
                while j < n
                    invariant
                        j <= n == s@.len(),
                        ok == (forall|q: int| 0 <= q < j ==> is_digit(#[trigger] s@[q])),
                    decreases n - j,
                {
                    let b = s[j];
                    if !('0' as u8 <= b && b <= '9' as u8) {
                        ok = false;
                    }
                    j = j + 1;
                }
                if !ok || n == 0 {
                    return None;
                }
                // strip leading zeros, keeping the last digit
                proof {
                    assert(s@.subrange(0, s@.len() as int) =~= s@);
                }
                let mut start: usize = 0;
                while start + 1 < n && s[start] == '0' as u8
                    invariant
                        start < n == s@.len(),
                        canon_of(s@) == canon_of(s@.subrange(start as int, s@.len() as int)),
                    decreases n - start,
                {
                    proof {
                        let cur = s@.subrange(start as int, s@.len() as int);
                        assert(cur.subrange(1, cur.len() as int) =~= s@.subrange(
                            start + 1,
                            s@.len() as int,
                        ));
                    }
                    start = start + 1;
                }
                let digits = crate::json::slice_range_to_vec(s.as_slice(), start, s.len());
                proof {
                    let cur = s@.subrange(start as int, s@.len() as int);
                    assert(canon_of(cur) == cur);
                    assert(canonical_digits(cur));
                }
                Some(BigUint { digits })
            },
            None => None,
        }
    }

    /// Renders the value back as its canonical digit string.
    pub fn encode(&self) -> (r: Json)
        requires
            self.wf(),
        ensures
            r@ == JsonV::Str(self@),
    {
        let digits = self.digits.clone();
        proof {
            assert(digits@ =~= self@);
        }
        Json::Str(digits)
    }
}

/// Canonical digit text is already canonical.
proof fn lemma_canon_of_canonical(s: Seq<u8>)
    requires
        canonical_digits(s),
    ensures
        canon_of(s) == s,
{
}

/// Stripping leading zeros keeps the denoted value.
pub proof fn lemma_canon_of_value(s: Seq<u8>)
    ensures
        dec_val(canon_of(s)) == dec_val(s),
    decreases s.len(),
{
    if s.len() > 1 && s[0] == '0' as u8 {
        let t = s.subrange(1, s.len() as int);
        lemma_canon_of_value(t);
        lemma_drop_leading_zero(s);
    }
}

/// A leading zero does not change the denoted value.
proof fn lemma_drop_leading_zero(s: Seq<u8>)
    requires
        s.len() >= 1,
        s[0] == '0' as u8,
    ensures
        dec_val(s) == dec_val(s.subrange(1, s.len() as int)),
    decreases s.len(),
{
    let t = s.subrange(1, s.len() as int);
    if s.len() == 1 {
        assert(t =~= Seq::<u8>::empty());
        assert(s.drop_last() =~= Seq::<u8>::empty());
    } else {
        assert(s.drop_last()[0] == '0' as u8);
        lemma_drop_leading_zero(s.drop_last());
        assert(s.drop_last().subrange(1, s.drop_last().len() as int) =~= t.drop_last());
        assert(t.last() == s.last());
    }
}

/// The canonical rendering denotes its value, digit by digit.
pub proof fn lemma_dec_str_of(n: int)
    requires
        n >= 0,
    ensures
        canonical_digits(dec_str_of(n)),
        dec_val(dec_str_of(n)) == n,
        n > 0 ==> dec_str_of(n)[0] != '0' as u8,
    decreases n,
{
    if n <= 9 {
        let s = dec_str_of(n);
        assert(s.drop_last() =~= Seq::<u8>::empty());
        assert(dec_val(Seq::<u8>::empty()) == 0);
        assert(is_digit(s[0]));
    } else {
        lemma_dec_str_of(n / 10);
        let s = dec_str_of(n);
        let h = dec_str_of(n / 10);
        assert(s.drop_last() =~= h);
        assert(s.last() == ('0' as u8 + n % 10) as u8);
        assert(dec_val(s) == 10 * dec_val(h) + (n % 10));
        assert(s[0] == h[0]);
        assert forall|i: int| 0 <= i < s.len() implies is_digit(#[trigger] s[i]) by {
            if i < h.len() {
                assert(s[i] == h[i]);
            } else {
                assert(s[i] == s.last());
            }
        }
    }
}

/// Renders `n` as decimal digit text.
fn dec_string_u128(n: u128) -> (r: Vec<u8>)
    ensures
        r@ == dec_str_of(n as int),
    decreases n,
{
    if n <= 9 {
        let mut out: Vec<u8> = Vec::new();
        out.push('0' as u8 + n as u8);
        proof {
            assert(out@ =~= seq![('0' as u8 + n as int) as u8]);
        }
        out
    } else {
        let mut out = dec_string_u128(n / 10);
        out.push('0' as u8 + (n % 10) as u8);
        proof {
            assert(out@ =~= dec_str_of((n / 10) as int) + seq![('0' as u8 + (n as int) % 10) as u8]);
        }
        out
    }
}

/// Decoding the encoded form of any canonical integer gives it back:
/// in particular the rendering of every nonnegative `n` round-trips, with
/// `0` rendered as the single digit `0` and never a leading zero.
pub proof fn lemma_bigint_round_trip(b: Seq<u8>)
    requires
        canonical_digits(b),
    ensures
        bigint_of_json(JsonV::Str(b)) == Some(b),
{
    lemma_canon_of_canonical(b);
}

/// Decoding the encoded form of any 32-byte hash gives the hash back.
pub proof fn lemma_hash_round_trip(b: Seq<u8>)
    requires
        b.len() == 32,
    ensures
        hash_of_json(hash_json_of(b)) == Some(b),
{
    let text = seq!['0' as u8, 'x' as u8] + hex_text_of(b);
    assert(text[0] == '0' as u8 && text[1] == 'x' as u8);
    assert(strip_0x(text) =~= hex_text_of(b));
    lemma_hex_round_trip(b);
}

// -------------------------------------------------------------------------
// Timestamps.
// -------------------------------------------------------------------------

/// An instant, as seconds since the Unix epoch plus a nonnegative
/// subsecond part.
#[derive(PartialEq, Eq, Structural, Clone, Copy, Debug)]
pub struct Timestamp {
    pub secs: i64,
    pub nanos: u32,
}

pub open spec fn is_leap_year(y: int) -> bool {
    y % 4 == 0 && (y % 100 != 0 || y % 400 == 0)
}

pub open spec fn days_in_month(y: int, m: int) -> int {
    if m == 2 {
        if is_leap_year(y) {
            29
        } else {
            28
        }
    } else if m == 4 || m == 6 || m == 9 || m == 11 {
        30
    } else {
        31
    }
}

/// Days between the civil date `y-m-d` and 1970-01-01, for years from 1
/// onward.
pub open spec fn days_from_civil(y: int, m: int, d: int) -> int {
    let yy = if m <= 2 {
        y - 1
    } else {
        y
    };
    let era = yy / 400;
    let yoe = yy % 400;
    let mp = (m + 9) % 12;
    let doy = (153 * mp + 2) / 5 + d - 1;
    let doe = yoe * 365 + yoe / 4 - yoe / 100 + doy;
    era * 146097 + doe - 719468
}

/// The UTC offset written at position `p`, which must end the text:
/// `Z`/`z`, or a signed `hh:mm` pair.
pub open spec fn offset_of(s: Seq<u8>, p: int) -> Option<int> {
    let n = s.len();
    if p + 1 == s.len() && (s[p] == 'Z' as u8 || s[p] == 'z' as u8) {
        Some(0)
    } else if p + 6 == s.len() && (s[p] == '+' as u8 || s[p] == '-' as u8) && is_digit(s[p + 1])
        && is_digit(s[p + 2]) && s[p + 3] == ':' as u8 && is_digit(s[p + 4]) && is_digit(
        s[p + 5],
    ) {
        let oh = dec_val(s.subrange(p + 1, p + 3));
        let om = dec_val(s.subrange(p + 4, p + 6));
        if oh < 24 && om < 60 {
            Some(
                if s[p] == '-' as u8 {
                    -(oh * 3600 + om * 60)
                } else {
                    oh * 3600 + om * 60
                },
            )
        } else {
            None
        }
    } else {
        None
    }
}

/// An RFC 3339 date-time with an explicit offset: `YYYY-MM-DDTHH:MM:SS`,
/// an optional fraction, and the offset.  Years before 1 are refused; a
/// fraction longer than nine digits is truncated to nanoseconds.
pub open spec fn rfc3339_of(s: Seq<u8>) -> Option<Timestamp> {
    if s.len() >= 20 && is_digit(s[0]) && is_digit(s[1]) && is_digit(s[2]) && is_digit(s[3])
        && s[4] == '-' as u8 && is_digit(s[5]) && is_digit(s[6]) && s[7] == '-' as u8 && is_digit(
        s[8],
    ) && is_digit(s[9]) && (s[10] == 'T' as u8 || s[10] == 't' as u8 || s[10] == ' ' as u8)
        && is_digit(s[11]) && is_digit(s[12]) && s[13] == ':' as u8 && is_digit(s[14]) && is_digit(
        s[15],
    ) && s[16] == ':' as u8 && is_digit(s[17]) && is_digit(s[18]) {
        let y = dec_val(s.subrange(0, 4));
        let mo = dec_val(s.subrange(5, 7));
        let d = dec_val(s.subrange(8, 10));
        let h = dec_val(s.subrange(11, 13));
        let mi = dec_val(s.subrange(14, 16));
        let sec = dec_val(s.subrange(17, 19));
        let has_frac = 19 < s.len() && s[19] == '.' as u8;
        let fl = digits_len(s, 20) as int;
        if has_frac && fl == 0 {
            None
        } else {
            let taken = if fl > 9 {
                9
            } else {
                fl
            };
            let nanos = if has_frac {
                dec_val(s.subrange(20, 20 + taken)) * pow10((9 - taken) as nat)
            } else {
                0
            };
            let p = if has_frac {
                20 + fl
            } else {
                19
            };
            match offset_of(s, p) {
                None => None,
                Some(off) => {
                    if 1 <= y <= 9999 && 1 <= mo <= 12 && 1 <= d <= days_in_month(y, mo) && h < 24
                        && mi < 60 && sec < 60 {
                        Some(
                            Timestamp {
                                secs: (days_from_civil(y, mo, d) * 86400 + h * 3600 + mi * 60 + sec
                                    - off) as i64,
                                nanos: nanos as u32,
                            },
                        )
                    } else {
                        None
                    }
                },
            }
        }
    } else {
        None
    }
}

/// The signed value of plain integer text: an optional minus sign and
/// digits, nothing else.
pub open spec fn int_text_val(s: Seq<u8>) -> Option<int> {
    if s.len() > 0 && s[0] == '-' as u8 {
        let t = s.subrange(1, s.len() as int);
        if t.len() > 0 && (forall|i: int| 0 <= i < t.len() ==> is_digit(#[trigger] t[i])) {
            Some(-dec_val(t))
        } else {
            None
        }
    } else if s.len() > 0 && (forall|i: int| 0 <= i < s.len() ==> is_digit(#[trigger] s[i])) {
        Some(dec_val(s))
    } else {
        None
    }
}

/// The timestamp wire shape: an integer number of epoch seconds, a string
/// of epoch seconds, or an RFC 3339 string with explicit offset.
pub open spec fn ts_of_json(v: JsonV) -> Option<Timestamp> {
    match v {
        JsonV::Int(n) => {
            if i64::MIN <= n <= i64::MAX {
                Some(Timestamp { secs: n as i64, nanos: 0 })
            } else {
                None
            }
        },
        JsonV::Str(s) => match int_text_val(s) {
            Some(n) => {
                if i64::MIN <= n <= i64::MAX {
                    Some(Timestamp { secs: n as i64, nanos: 0 })
                } else {
                    None
                }
            },
            None => rfc3339_of(s),
        },
        _ => None,
    }
}

/// The canonical decimal text of a signed integer.
pub open spec fn int_text_of(n: int) -> Seq<u8> {
    if n < 0 {
        seq!['-' as u8] + dec_str_of(-n)
    } else {
        dec_str_of(n)
    }
}

/// The epoch-seconds text a timestamp is always emitted as; the subsecond
/// part is not carried.
pub open spec fn epoch_text_of(t: Timestamp) -> Seq<u8> {
    int_text_of(t.secs as int)
}

/// Renders a signed integer as decimal text.
pub(crate) fn int_text_i64(n: i64) -> (r: Vec<u8>)
    ensures
        r@ == int_text_of(n as int),
{
    let mag: u128 = if n < 0 {
        (-(n as i128)) as u128
    } else {
        n as u128
    };
    proof {
        lemma_dec_str_of(mag as int);
    }
    let mut out = dec_string_u128(mag);
    if n < 0 {
        out.insert(0, '-' as u8);
        proof {
            assert(out@ =~= seq!['-' as u8] + dec_str_of(mag as int));
        }
    }
    out
}

/// Splitting digit text splits its value at the matching power of ten.
proof fn lemma_dec_val_concat(a: Seq<u8>, b: Seq<u8>)
    ensures
        dec_val(a + b) == dec_val(a) * pow10(b.len()) + dec_val(b),
    decreases b.len(),
{
    if b.len() == 0 {
        assert(a + b =~= a);
    } else {
        lemma_dec_val_concat(a, b.drop_last());
        assert((a + b).drop_last() =~= a + b.drop_last());
        assert((a + b).last() == b.last());
        assert(pow10(b.len()) == 10 * pow10((b.len() - 1) as nat));
        assert(dec_val(a) * pow10(b.len()) == 10 * (dec_val(a) * pow10((b.len() - 1) as nat)))
            by (nonlinear_arith)
            requires
                pow10(b.len()) == 10 * pow10((b.len() - 1) as nat),
        ;
    }
}

/// Digit text without a leading zero is at least the power of ten of its
/// width.
proof fn lemma_dec_val_lower(s: Seq<u8>)
    requires
        s.len() >= 1,
        forall|i: int| 0 <= i < s.len() ==> is_digit(#[trigger] s[i]),
        s[0] != '0' as u8,
    ensures
        dec_val(s) >= pow10((s.len() - 1) as nat),
    decreases s.len(),
{
    if s.len() == 1 {
        assert(s.drop_last() =~= Seq::<u8>::empty());
        assert(dec_val(Seq::<u8>::empty()) == 0);
        assert(pow10(0) == 1);
    } else {
        assert(s.drop_last()[0] == s[0]);
        lemma_dec_val_lower(s.drop_last());
        assert(pow10((s.len() - 1) as nat) == 10 * pow10((s.len() - 2) as nat));
        assert(s.drop_last().len() == s.len() - 1);
        assert(dec_val(s) == 10 * dec_val(s.drop_last()) + (s.last() - '0' as u8));
    }
}

/// The value of two digits at `i`.
fn read2(s: &[u8], i: usize) -> (r: u32)
    requires
        i + 2 <= s@.len(),
        is_digit(s@[i as int]),
        is_digit(s@[i + 1]),
    ensures
        r as int == dec_val(s@.subrange(i as int, i + 2)),
        r < 100,
{
    let n = s.len();
    let r = (s[i] - '0' as u8) as u32 * 10 + (s[i + 1] - '0' as u8) as u32;
    proof {
        let two = s@.subrange(i as int, i + 2);
        assert(two.drop_last() =~= s@.subrange(i as int, i + 1));
        assert(two.drop_last().drop_last() =~= Seq::<u8>::empty());
        assert(dec_val(Seq::<u8>::empty()) == 0);
        assert(two.drop_last().last() == s@[i as int]);
        assert(dec_val(two.drop_last()) == s@[i as int] - '0' as u8);
        assert(two.last() == s@[i + 1]);
        assert(dec_val(two) == 10 * dec_val(two.drop_last()) + (s@[i + 1] - '0' as u8));
    }
    r
}

/// The value of four digits at `i`.
fn read4(s: &[u8], i: usize) -> (r: u32)
    requires
        i + 4 <= s@.len(),
        is_digit(s@[i as int]),
        is_digit(s@[i + 1]),
        is_digit(s@[i + 2]),
        is_digit(s@[i + 3]),
    ensures
        r as int == dec_val(s@.subrange(i as int, i + 4)),
        r < 10000,
{
    let n = s.len();
    let hi = read2(s, i);
    let lo = read2(s, i + 2);
    proof {
        let a = s@.subrange(i as int, i + 2);
        let b = s@.subrange(i + 2, i + 4);
        assert(s@.subrange(i as int, i + 4) =~= a + b);
        lemma_dec_val_concat(a, b);
        reveal_with_fuel(pow10, 3);
        assert(pow10(2) == 100);
    }
    hi * 100 + lo
}

/// Ten to a small power.
fn x_pow10(e: usize) -> (r: u32)
    requires
        e <= 9,
    ensures
        r as int == pow10(e as nat),
{
    proof {
        reveal_with_fuel(pow10, 11);
    }
    let mut r: u32 = 1;
    let mut j: usize = 0;
    while j < e
        invariant
            j <= e <= 9,
            r as int == pow10(j as nat),
            r <= 1000000000,
        decreases e - j,
    {
        proof {
            lemma_pow10_mono(j as nat, 8);
            reveal_with_fuel(pow10, 11);
        }
        r = r * 10;
        j = j + 1;
        proof {
            lemma_pow10_mono(j as nat, 9);
            reveal_with_fuel(pow10, 11);
        }
    }
    r
}

/// The value of the digit run `s[from..to]`, up to 38 digits wide.
fn x_dec_val_wide(s: &[u8], from: usize, to: usize) -> (r: u128)
    requires
        from <= to <= s@.len(),
        to - from <= 38,
        forall|q: int| from <= q < to ==> is_digit(#[trigger] s@[q]),
    ensures
        r as int == dec_val(s@.subrange(from as int, to as int)),
{
    proof {
        reveal_with_fuel(pow10, 40);
        assert(pow10(37) == 0x785EE10D5DA46D900F436A000000000);
        assert(pow10(38) == 0x4B3B4CA85A86C47A098A224000000000);
    }
    let mut acc: u128 = 0;
    let mut j = from;
    while j < to
        invariant
            from <= j <= to <= s@.len(),
            to - from <= 38,
            pow10(37) == 0x785EE10D5DA46D900F436A000000000,
            pow10(38) == 0x4B3B4CA85A86C47A098A224000000000,
            forall|q: int| from <= q < to ==> is_digit(#[trigger] s@[q]),
            acc as int == dec_val(s@.subrange(from as int, j as int)),
            (acc as int) < pow10((j - from) as nat),
        decreases to - j,
    {
        proof {
            lemma_pow10_mono((j - from) as nat, 37);
            assert(pow10((j - from + 1) as nat) == 10 * pow10((j - from) as nat));
        }
        let d = s[j] - '0' as u8;
        acc = acc * 10 + d as u128;
        j = j + 1;
        proof {
            let pre = s@.subrange(from as int, j as int);
            assert(pre.drop_last() =~= s@.subrange(from as int, j - 1));
            assert(pre.last() == s@[j - 1]);
        }
    }
    acc
}

fn x_is_leap(y: u32) -> (r: bool)
    ensures
        r == is_leap_year(y as int),
{
    y % 4 == 0 && (y % 100 != 0 || y % 400 == 0)
}

fn x_days_in_month(y: u32, m: u32) -> (r: u32)
    ensures
        r as int == days_in_month(y as int, m as int),
        28 <= r <= 31,
{
    if m == 2 {
        if x_is_leap(y) {
            29
        } else {
            28
        }
    } else if m == 4 || m == 6 || m == 9 || m == 11 {
        30
    } else {
        31
    }
}

fn x_days_from_civil(y: u32, m: u32, d: u32) -> (r: i64)
    requires
        1 <= y <= 9999,
        1 <= m <= 12,
        1 <= d <= 31,
    ensures
        r as int == days_from_civil(y as int, m as int, d as int),
        -719469 <= r <= 2932897,
{
    let yy: u32 = if m <= 2 {
        y - 1
    } else {
        y
    };
    let era: u32 = yy / 400;
    let yoe: u32 = yy % 400;
    let mp: u32 = (m + 9) % 12;
    let doy: u32 = (153 * mp + 2) / 5 + d - 1;
    let doe: u32 = yoe * 365 + yoe / 4 - yoe / 100 + doy;
    era as i64 * 146097 + doe as i64 - 719468
}

/// Reads the offset written at `p`, which must end the text.
fn x_offset(s: &[u8], p: usize) -> (r: Option<i32>)
    requires
        p <= s@.len(),
    ensures
        match r {
            Some(off) => offset_of(s@, p as int) == Some(off as int) && -86400 < off < 86400,
            None => offset_of(s@, p as int) is None,
        },
{
    let n = s.len();
    if p < n && n - p == 1 && (s[p] == 'Z' as u8 || s[p] == 'z' as u8) {
        Some(0)
    } else if p < n && n - p == 6 && (s[p] == '+' as u8 || s[p] == '-' as u8) && x_is_digit_at(s, p + 1)
        && x_is_digit_at(s, p + 2) && s[p + 3] == ':' as u8 && x_is_digit_at(s, p + 4)
        && x_is_digit_at(s, p + 5) {
        let oh = read2(s, p + 1);
        let om = read2(s, p + 4);
        if oh < 24 && om < 60 {
            let mag = (oh * 3600 + om * 60) as i32;
            Some(
                if s[p] == '-' as u8 {
                    -mag
                } else {
                    mag
                },
            )
        } else {
            None
        }
    } else {
        None
    }
}

fn x_is_digit_at(s: &[u8], i: usize) -> (r: bool)
    requires
        i < s@.len(),
    ensures
        r == is_digit(s@[i as int]),
{
    '0' as u8 <= s[i] && s[i] <= '9' as u8
}

/// Reads an RFC 3339 date-time with explicit offset.
fn rfc3339_decode(s: &[u8]) -> (r: Option<Timestamp>)
    ensures
        match r {
            Some(t) => rfc3339_of(s@) == Some(t) && t.nanos < 1000000000,
            None => rfc3339_of(s@) is None,
        },
{
    if !(s.len() >= 20 && x_is_digit_at(s, 0) && x_is_digit_at(s, 1) && x_is_digit_at(s, 2)
        && x_is_digit_at(s, 3) && s[4] == '-' as u8 && x_is_digit_at(s, 5) && x_is_digit_at(s, 6)
        && s[7] == '-' as u8 && x_is_digit_at(s, 8) && x_is_digit_at(s, 9) && (s[10] == 'T' as u8
        || s[10] == 't' as u8 || s[10] == ' ' as u8) && x_is_digit_at(s, 11) && x_is_digit_at(
        s,
        12,
    ) && s[13] == ':' as u8 && x_is_digit_at(s, 14) && x_is_digit_at(s, 15) && s[16] == ':' as u8
        && x_is_digit_at(s, 17) && x_is_digit_at(s, 18)) {
        return None;
    }
    let y = read4(s, 0);
    let mo = read2(s, 5);
    let d = read2(s, 8);
    let h = read2(s, 11);
    let mi = read2(s, 14);
    let sec = read2(s, 17);
    let has_frac = s.len() > 19 && s[19] == '.' as u8;
    let fe = crate::json::x_digits_end(s, 20);
    let fl = fe - 20;
    if has_frac && fl == 0 {
        return None;
    }
    let taken: usize = if fl > 9 {
        9
    } else {
        fl
    };
    let nanos: u32 = if has_frac {
        proof {
            crate::json::lemma_digits_len_digits(s@, 20);
            lemma_dec_val_bound(s@.subrange(20, 20 + taken as int));
            lemma_pow10_pos((9 - taken) as nat);
            let dv = dec_val(s@.subrange(20, 20 + taken as int));
            assert(dv * pow10((9 - taken) as nat) + pow10((9 - taken) as nat) <= pow10(
                taken as nat,
            ) * pow10((9 - taken) as nat)) by (nonlinear_arith)
                requires
                    dv < pow10(taken as nat),
                    pow10((9 - taken) as nat) >= 1,
            ;
            lemma_pow10_split(taken as nat, (9 - taken) as nat);
            reveal_with_fuel(pow10, 11);
        }
        let frac = crate::json::x_dec_val(s, 20, 20 + taken);
        (frac as u32) * x_pow10(9 - taken)
    } else {
        0
    };
    let p: usize = if has_frac {
        fe
    } else {
        19
    };
    match x_offset(s, p) {
        None => None,
        Some(off) => {
            if 1 <= y && y <= 9999 && 1 <= mo && mo <= 12 && 1 <= d && d <= x_days_in_month(y, mo)
                && h < 24 && mi < 60 && sec < 60 {
                let days = x_days_from_civil(y, mo, d);
                let secs: i64 = days * 86400 + h as i64 * 3600 + mi as i64 * 60 + sec as i64
                    - off as i64;
                Some(Timestamp { secs, nanos })
            } else {
                None
            }
        },
    }
}

/// Powers of ten compose additively.
proof fn lemma_pow10_split(a: nat, b: nat)
    ensures
        pow10(a) * pow10(b) == pow10((a + b) as nat),
    decreases b,
{
    if b == 0 {
        assert(pow10(0) == 1);
    } else {
        lemma_pow10_split(a, (b - 1) as nat);
        assert(pow10(b) == 10 * pow10((b - 1) as nat));
        assert(pow10(a) * pow10(b) == pow10(a) * (10 * pow10((b - 1) as nat)));
        assert(pow10(a) * (10 * pow10((b - 1) as nat)) == 10 * (pow10(a) * pow10(
            (b - 1) as nat,
        ))) by (nonlinear_arith);
        assert(pow10((a + b) as nat) == 10 * pow10((a + b - 1) as nat));
    }
}

impl DeepView for Timestamp {
    type V = Timestamp;

    open spec fn deep_view(&self) -> Timestamp {
        *self
    }
}

impl Timestamp {
    /// The subsecond part stays below one second.
    pub open spec fn wf(&self) -> bool {
        self.nanos < 1000000000
    }

    /// Builds an instant from its parts.
    pub fn from_parts(secs: i64, nanos: u32) -> (r: Option<Timestamp>)
        ensures
            match r {
                Some(t) => nanos < 1000000000 && t == (Timestamp { secs, nanos }) && t.wf(),
                None => nanos >= 1000000000,
            },
    {
        if nanos < 1000000000 {
            Some(Timestamp { secs, nanos })
        } else {
            None
        }
    }

    /// Reads a timestamp in any of the accepted wire shapes; exactly the
    /// inputs [`ts_of_json`] accepts are taken.
    pub fn decode(v: &Json) -> (r: Option<Timestamp>)
        ensures
            match r {
                Some(t) => ts_of_json(v@) == Some(t) && t.wf(),
                None => ts_of_json(v@) is None,
            },
    {
        match v {
            Json::Int(n) => Some(Timestamp { secs: *n, nanos: 0 }),
            Json::Str(s) => Timestamp::decode_text(s),
            _ => None,
        }
    }

    /// Reads the two string shapes: epoch seconds, else RFC 3339.
    fn decode_text(s: &Vec<u8>) -> (r: Option<Timestamp>)
        ensures
            match r {
                Some(t) => ts_of_json(JsonV::Str(s@)) == Some(t) && t.wf(),
                None => ts_of_json(JsonV::Str(s@)) is None,
            },
    {
        let n = s.len();
        let neg = n > 0 && s[0] == '-' as u8;
        let d0: usize = if neg {
            1
        } else {
            0
        };
        let mut all_digits = n > d0;
        let mut j = d0;
        while j < n
            invariant
                d0 <= j <= n == s@.len(),
                all_digits == (n > d0 && forall|q: int|
                    d0 <= q < j ==> is_digit(#[trigger] s@[q])),
            decreases n - j,
        {
            if !('0' as u8 <= s[j] && s[j] <= '9' as u8) {
                all_digits = false;
            }
            j = j + 1;
        }
        if !all_digits {
            proof {
                assert(int_text_val(s@) is None) by {
                    if neg {
                        let t = s@.subrange(1, s@.len() as int);
                        if t.len() > 0 && (forall|i: int|
                            0 <= i < t.len() ==> is_digit(#[trigger] t[i])) {
                            assert forall|q: int| 1 <= q < s@.len() implies is_digit(
                                #[trigger] s@[q],
                            ) by {
                                assert(t[q - 1] == s@[q]);
                            }
                            assert(false);
                        }
                    } else {
                        if s@.len() > 0 && (forall|i: int|
                            0 <= i < s@.len() ==> is_digit(#[trigger] s@[i])) {
                            assert(false);
                        }
                    }
                }
            }
            return rfc3339_decode(s.as_slice());
        }
        // digits only: epoch seconds
        let ghost digits = s@.subrange(d0 as int, s@.len() as int);
        proof {
            assert forall|q: int| 0 <= q < digits.len() implies is_digit(#[trigger] digits[q]) by {
                assert(digits[q] == s@[q + d0]);
            }
            if neg {
                assert(int_text_val(s@) == Some(-dec_val(digits)));
            } else {
                assert(digits =~= s@);
                assert(int_text_val(s@) == Some(dec_val(digits)));
            }
        }
        let mut z: usize = d0;
        while z + 1 < n && s[z] == '0' as u8
            invariant
                d0 <= z < n == s@.len(),
                dec_val(s@.subrange(d0 as int, s@.len() as int)) == dec_val(
                    s@.subrange(z as int, s@.len() as int),
                ),
            decreases n - z,
        {
            proof {
                let cur = s@.subrange(z as int, s@.len() as int);
                lemma_drop_leading_zero(cur);
                assert(cur.subrange(1, cur.len() as int) =~= s@.subrange(
                    z + 1,
                    s@.len() as int,
                ));
            }
            z = z + 1;
        }
        let ghost trimmed = s@.subrange(z as int, s@.len() as int);
        proof {
            assert forall|q: int| 0 <= q < trimmed.len() implies is_digit(
                #[trigger] trimmed[q],
            ) by {
                assert(trimmed[q] == s@[q + z]);
            }
        }
        if n - z > 38 {
            proof {
                assert(trimmed[0] != '0' as u8);
                lemma_dec_val_lower(trimmed);
                lemma_pow10_mono(38, (trimmed.len() - 1) as nat);
                reveal_with_fuel(pow10, 40);
                assert(pow10(38) == 0x4B3B4CA85A86C47A098A224000000000);
            }
            return None;
        }
        let mag = x_dec_val_wide(s.as_slice(), z, n);
        if neg {
            if mag <= 0x8000000000000000u128 {
                let secs = (-(mag as i128)) as i64;
                Some(Timestamp { secs, nanos: 0 })
            } else {
                None
            }
        } else {
            if mag <= 0x7FFFFFFFFFFFFFFFu128 {
                Some(Timestamp { secs: mag as i64, nanos: 0 })
            } else {
                None
            }
        }
    }

    /// Renders the instant as its epoch-seconds string; the wire format for
    /// emission is always this simpler shape.
    pub fn encode(&self) -> (r: Json)
        ensures
            r@ == JsonV::Str(epoch_text_of(*self)),
    {
        Json::Str(int_text_i64(self.secs))
    }
}

/// Decoding a date-time string with explicit offset and decoding the
/// equivalent epoch-seconds string or number yield the same instant.
pub proof fn lemma_timestamp_decode_equiv(s: Seq<u8>, t: Timestamp)
    requires
        rfc3339_of(s) == Some(t),
        t.nanos == 0,
    ensures
        ts_of_json(JsonV::Str(s)) == Some(t),
        ts_of_json(JsonV::Str(epoch_text_of(t))) == Some(t),
        ts_of_json(JsonV::Int(t.secs as int)) == Some(t),
{
    // the date-time shape is not plain integer text: position 4 holds `-`
    assert(!is_digit(s[4]));
    assert(int_text_val(s) is None);
    // the epoch rendering reads back as the same number of seconds
    let e = epoch_text_of(t);
    if t.secs < 0 {
        let mag = -(t.secs as int);
        lemma_dec_str_of(mag);
        let body = dec_str_of(mag);
        assert(e[0] == '-' as u8);
        assert(e.subrange(1, e.len() as int) =~= body);
        assert(int_text_val(e) == Some(-dec_val(body)));
    } else {
        lemma_dec_str_of(t.secs as int);
        assert(e[0] != '-' as u8);
        assert(int_text_val(e) == Some(dec_val(e)));
    }
}

} // verus!
