//! The wire-grammar codec: pure translation between message and response
//! values and the ASCII line protocol, specified down to the byte.
//!
//! Commands encode as `PX <x> <y> <rrggbb[aa]>`, `PX <x> <y>`, `SIZE` or
//! `HELP`, each terminated by a single newline. Reply lines are decoded by
//! prefix: `PX ` and `SIZE ` lines are parsed, anything else is preserved
//! verbatim as a fallback.
use vstd::prelude::*;
use vstd::slice::slice_subrange;
use vstd::utf8::encode_utf8;

use crate::{Error, Msg, Pos, Response, Rgba, Size};

verus! {

// ---------------------------------------------------------------------------
// ASCII bytes of the protocol's keywords and separators
// ---------------------------------------------------------------------------

pub const ASCII_SPACE: u8 = 0x20;
pub const ASCII_NEWLINE: u8 = 0x0a;
pub const ASCII_UPPER_P: u8 = 0x50;
pub const ASCII_UPPER_X: u8 = 0x58;
pub const ASCII_UPPER_S: u8 = 0x53;
pub const ASCII_UPPER_I: u8 = 0x49;
pub const ASCII_UPPER_Z: u8 = 0x5a;
pub const ASCII_UPPER_E: u8 = 0x45;
pub const ASCII_UPPER_H: u8 = 0x48;
pub const ASCII_UPPER_L: u8 = 0x4c;

// ---------------------------------------------------------------------------
// Encoding: spec
// ---------------------------------------------------------------------------

/// The byte of the decimal digit for a value below ten.
pub open spec fn dec_digit(d: int) -> u8 {
    (0x30 + d) as u8
}

/// The byte of the lowercase hexadecimal digit for a value below sixteen.
pub open spec fn hex_digit(d: int) -> u8 {
    if d < 10 {
        (0x30 + d) as u8
    } else {
        (0x61 + (d - 10)) as u8
    }
}

/// Two lowercase hexadecimal digits for one byte, high nibble first.
pub open spec fn byte_hex(b: u8) -> Seq<u8> {
    seq![hex_digit(b as int / 16), hex_digit(b as int % 16)]
}

/// The decimal representation of `n`: most significant digit first, no sign,
/// no leading zeros (a single `0` for zero itself).
pub open spec fn u32_dec(n: nat) -> Seq<u8>
    decreases n,
{
    if n < 10 {
        seq![dec_digit(n as int)]
    } else {
        u32_dec(n / 10) + seq![dec_digit((n % 10) as int)]
    }
}

impl Pos {
    /// Wire form of a position: decimal `x`, one space, decimal `y`.
    pub open spec fn spec_bytes(self) -> Seq<u8> {
        u32_dec(self.x as nat) + seq![ASCII_SPACE] + u32_dec(self.y as nat)
    }
}

impl Rgba {
    /// Wire form of a color: two lowercase hex digits per channel, `r`, `g`,
    /// `b` always and `a` only when present, with no separators.
    pub open spec fn spec_bytes(self) -> Seq<u8> {
        byte_hex(self.r) + byte_hex(self.g) + byte_hex(self.b) + (match self.a {
            Some(a) => byte_hex(a),
            None => Seq::<u8>::empty(),
        })
    }
}

impl Msg {
    /// Wire form of a command, with the trailing newline.
    pub open spec fn spec_bytes(self) -> Seq<u8> {
        (match self {
            Msg::SetPx(pos, color) => seq![ASCII_UPPER_P, ASCII_UPPER_X, ASCII_SPACE] + pos.spec_bytes() + seq![ASCII_SPACE]
                + color.spec_bytes(),
            Msg::GetPx(pos) => seq![ASCII_UPPER_P, ASCII_UPPER_X, ASCII_SPACE] + pos.spec_bytes(),
            Msg::GetSize => seq![ASCII_UPPER_S, ASCII_UPPER_I, ASCII_UPPER_Z, ASCII_UPPER_E],
            Msg::Help => seq![ASCII_UPPER_H, ASCII_UPPER_E, ASCII_UPPER_L, ASCII_UPPER_P],
        }) + seq![ASCII_NEWLINE]
    }
}

// ---------------------------------------------------------------------------
// Encoding: exec
// ---------------------------------------------------------------------------

/// Relies on `itoa::Buffer::format`, which writes the decimal digits of the
/// integer: most significant first, no sign, no leading zeros.
#[verifier::external_body]
fn u32_decimal(x: u32) -> (r: Vec<u8>)
    ensures
        r@ == u32_dec(x as nat),
{
    let mut buf = itoa::Buffer::new();
    buf.format(x).as_bytes().to_vec()
}

fn nibble_to_hex(n: u8) -> (r: u8)
    requires
        n < 16,
    ensures
        r == hex_digit(n as int),
{
    if n < 10 {
        0x30 + n
    } else {
        0x61 + (n - 10)
    }
}

/// The two lowercase hexadecimal digits of a byte, high nibble first.
pub fn fast_byte_to_hex(b: u8) -> (r: [u8; 2])
    ensures
        r@ == byte_hex(b),
{
    proof {
        assert(b >> 4 == b / 16) by (bit_vector);
        assert(b & 0x0f == b % 16) by (bit_vector);
    }
    let high_nibble = nibble_to_hex(b >> 4);
    let low_nibble = nibble_to_hex(b & 0x0f);
    let r = [high_nibble, low_nibble];
    proof {
        assert(r@ =~= byte_hex(b));
    }
    r
}

impl Pos {
    /// Append the wire form of this position to `buf`.
    pub fn encode(&self, buf: &mut Vec<u8>)
        ensures
            final(buf)@ == old(buf)@ + self.spec_bytes(),
    {
        let xs = u32_decimal(self.x);
        buf.extend_from_slice(xs.as_slice());
        buf.push(ASCII_SPACE);
        let ys = u32_decimal(self.y);
        buf.extend_from_slice(ys.as_slice());
        proof {
            assert(buf@ =~= old(buf)@ + self.spec_bytes());
        }
    }
}

impl Rgba {
    /// Append the wire form of this color to `buf`.
    pub fn encode(&self, buf: &mut Vec<u8>)
        ensures
            final(buf)@ == old(buf)@ + self.spec_bytes(),
    {
        let r = fast_byte_to_hex(self.r);
        buf.push(r[0]);
        buf.push(r[1]);
        let g = fast_byte_to_hex(self.g);
        buf.push(g[0]);
        buf.push(g[1]);
        let b = fast_byte_to_hex(self.b);
        buf.push(b[0]);
        buf.push(b[1]);
        if let Some(a) = self.a {
            let ah = fast_byte_to_hex(a);
            buf.push(ah[0]);
            buf.push(ah[1]);
        }
        proof {
            assert(buf@ =~= old(buf)@ + self.spec_bytes());
        }
    }
}

impl Msg {
    /// Append the wire form of this command, with its trailing newline, to `buf`.
    pub fn encode(&self, buf: &mut Vec<u8>)
        ensures
            final(buf)@ == old(buf)@ + self.spec_bytes(),
    {
        match self {
            Msg::SetPx(pos, color) => {
                buf.push(ASCII_UPPER_P);
                buf.push(ASCII_UPPER_X);
                buf.push(ASCII_SPACE);
                pos.encode(buf);
                buf.push(ASCII_SPACE);
                color.encode(buf);
            }
            Msg::GetPx(pos) => {
                buf.push(ASCII_UPPER_P);
                buf.push(ASCII_UPPER_X);
                buf.push(ASCII_SPACE);
                pos.encode(buf);
            }
            Msg::GetSize => {
                buf.push(ASCII_UPPER_S);
                buf.push(ASCII_UPPER_I);
                buf.push(ASCII_UPPER_Z);
                buf.push(ASCII_UPPER_E);
            }
            Msg::Help => {
                buf.push(ASCII_UPPER_H);
                buf.push(ASCII_UPPER_E);
                buf.push(ASCII_UPPER_L);
                buf.push(ASCII_UPPER_P);
            }
        }
        buf.push(ASCII_NEWLINE);
        proof {
            assert(buf@ =~= old(buf)@ + self.spec_bytes());
        }
    }
}

// ---------------------------------------------------------------------------
// Decoding: spec
// ---------------------------------------------------------------------------

/// ASCII whitespace: space, tab, newline, form feed, carriage return.
pub open spec fn is_ws(b: u8) -> bool {
    b == 0x20 || b == 0x09 || b == 0x0a || b == 0x0c || b == 0x0d
}

/// An ASCII decimal digit.
pub open spec fn is_dec_digit(b: u8) -> bool {
    0x30 <= b <= 0x39
}

/// An ASCII hexadecimal digit, either case.
pub open spec fn is_hex_digit(b: u8) -> bool {
    is_dec_digit(b) || (0x61 <= b <= 0x66) || (0x41 <= b <= 0x46)
}

/// The value of a hexadecimal digit byte.
pub open spec fn hex_val(b: u8) -> int {
    if is_dec_digit(b) {
        b - 0x30
    } else if 0x61 <= b <= 0x66 {
        b - 0x61 + 10
    } else {
        b - 0x41 + 10
    }
}

/// Index of the first non-whitespace byte of `s` at or after `i`, or the
/// length when only whitespace remains.
pub open spec fn ws_end(s: Seq<u8>, i: int) -> int
    decreases s.len() - i,
{
    if i < 0 || i >= s.len() {
        s.len() as int
    } else if is_ws(s[i]) {
        ws_end(s, i + 1)
    } else {
        i
    }
}

/// Index of the first whitespace byte of `s` at or after `i`, or the length
/// when the token runs to the end.
pub open spec fn tok_end(s: Seq<u8>, i: int) -> int
    decreases s.len() - i,
{
    if i < 0 || i >= s.len() {
        s.len() as int
    } else if !is_ws(s[i]) {
        tok_end(s, i + 1)
    } else {
        i
    }
}

/// Every byte of `t` is a decimal digit.
pub open spec fn all_dec_digits(t: Seq<u8>) -> bool {
    forall|k: int| 0 <= k < t.len() ==> is_dec_digit(#[trigger] t[k])
}

/// The number written by a sequence of decimal digit bytes.
pub open spec fn dec_value(t: Seq<u8>) -> int
    decreases t.len(),
{
    if t.len() == 0 {
        0
    } else {
        dec_value(t.drop_last()) * 10 + t.last() - 0x30
    }
}

/// A token is a decimal `u32`: nonempty, all digits, and within range.
pub open spec fn is_u32_token(t: Seq<u8>) -> bool {
    t.len() > 0 && all_dec_digits(t) && dec_value(t) <= u32::MAX
}

/// Parse of the first two whitespace-separated decimal `u32` tokens of `s`:
/// on success, the index just past the second token and the two values.
/// Fewer than two tokens is `MissingData`; a token that is not a decimal
/// `u32` is `ParseFailure`.
pub open spec fn spec_two_u32(s: Seq<u8>) -> Result<(int, u32, u32), Error> {
    let i0 = ws_end(s, 0);
    if i0 == s.len() {
        Err(Error::MissingData)
    } else {
        let i1 = tok_end(s, i0);
        let t1 = s.subrange(i0, i1);
        if !is_u32_token(t1) {
            Err(Error::ParseFailure)
        } else {
            let i2 = ws_end(s, i1);
            if i2 == s.len() {
                Err(Error::MissingData)
            } else {
                let i3 = tok_end(s, i2);
                let t2 = s.subrange(i2, i3);
                if !is_u32_token(t2) {
                    Err(Error::ParseFailure)
                } else {
                    Ok((i3, dec_value(t1) as u32, dec_value(t2) as u32))
                }
            }
        }
    }
}

/// The byte written by the two hexadecimal digits at `i` and `i + 1`, if
/// both are hexadecimal digits.
pub open spec fn spec_hex_byte(s: Seq<u8>, i: int) -> Result<u8, Error> {
    if is_hex_digit(s[i]) && is_hex_digit(s[i + 1]) {
        Ok((hex_val(s[i]) * 16 + hex_val(s[i + 1])) as u8)
    } else {
        Err(Error::HexParseFailure)
    }
}

/// Parse of a color from the head of `s`: the number of bytes consumed and
/// the color. Fewer than six bytes is `MissingData`; with eight or more
/// bytes an alpha group is read and exactly eight bytes are consumed,
/// whatever follows; otherwise exactly six are consumed and alpha is absent.
pub open spec fn spec_color(s: Seq<u8>) -> Result<(int, Rgba), Error> {
    if s.len() < 6 {
        Err(Error::MissingData)
    } else {
        let r = spec_hex_byte(s, 0);
        let g = spec_hex_byte(s, 2);
        let b = spec_hex_byte(s, 4);
        if r is Err || g is Err || b is Err {
            Err(Error::HexParseFailure)
        } else if s.len() >= 8 {
            match spec_hex_byte(s, 6) {
                Err(e) => Err(e),
                Ok(a) => Ok(
                    (8, Rgba { r: r->Ok_0, g: g->Ok_0, b: b->Ok_0, a: Some(a) }),
                ),
            }
        } else {
            Ok((6, Rgba { r: r->Ok_0, g: g->Ok_0, b: b->Ok_0, a: None }))
        }
    }
}

/// The line starts with `PX` and a space.
pub open spec fn px_prefix(s: Seq<u8>) -> bool {
    s.len() >= 3 && s[0] == ASCII_UPPER_P && s[1] == ASCII_UPPER_X && s[2] == ASCII_SPACE
}

/// The line starts with `SIZE` and a space.
pub open spec fn size_prefix(s: Seq<u8>) -> bool {
    s.len() >= 5 && s[0] == ASCII_UPPER_S && s[1] == ASCII_UPPER_I && s[2] == ASCII_UPPER_Z
        && s[3] == ASCII_UPPER_E && s[4] == ASCII_SPACE
}

/// Parse of a pixel reply from everything after the `PX ` prefix: a
/// position, followed by a color at the first non-whitespace byte after it.
pub open spec fn spec_px_reply(s: Seq<u8>) -> Result<(Pos, Rgba), Error> {
    match spec_two_u32(s) {
        Err(e) => Err(e),
        Ok((k, x, y)) => {
            let after = s.subrange(k, s.len() as int);
            let rest = after.subrange(ws_end(after, 0), after.len() as int);
            match spec_color(rest) {
                Err(e) => Err(e),
                Ok((_, color)) => Ok((Pos { x, y }, color)),
            }
        }
    }
}

/// Parse of a size reply from everything after the `SIZE ` prefix.
pub open spec fn spec_size_reply(s: Seq<u8>) -> Result<Size, Error> {
    match spec_two_u32(s) {
        Err(e) => Err(e),
        Ok((_, x, y)) => Ok(Size { x, y }),
    }
}

/// The decode failure of a reply line with these characters, if it has one.
/// Only recognized prefixes can fail; every other line falls back to the
/// verbatim variant.
pub open spec fn spec_line_err(l: Seq<char>) -> Option<Error> {
    let s = encode_utf8(l);
    if px_prefix(s) {
        match spec_px_reply(s.subrange(3, s.len() as int)) {
            Ok(_) => None,
            Err(e) => Some(e),
        }
    } else if size_prefix(s) {
        match spec_size_reply(s.subrange(5, s.len() as int)) {
            Ok(_) => None,
            Err(e) => Some(e),
        }
    } else {
        None
    }
}

/// `resp` is what decoding a reply line with these characters produces,
/// given that decoding it succeeds.
pub open spec fn decode_matches(l: Seq<char>, resp: Response) -> bool {
    let s = encode_utf8(l);
    if px_prefix(s) {
        spec_px_reply(s.subrange(3, s.len() as int)) matches Ok((p, c)) && resp == Response::Px(
            p,
            c,
        )
    } else if size_prefix(s) {
        spec_size_reply(s.subrange(5, s.len() as int)) matches Ok(sz) && resp == Response::Size(sz)
    } else {
        resp matches Response::Help(h) && h@ == l
    }
}

// ---------------------------------------------------------------------------
// Laws of the codec
// ---------------------------------------------------------------------------

/// A hexadecimal digit byte from the lowercase alphabet.
pub open spec fn is_lower_hex_digit(b: u8) -> bool {
    is_dec_digit(b) || (0x61 <= b <= 0x66)
}

/// The hexadecimal digit of any value below sixteen is a lowercase
/// hexadecimal digit and reads back as that value.
pub proof fn lemma_hex_digit(d: int)
    requires
        0 <= d < 16,
    ensures
        is_lower_hex_digit(hex_digit(d)),
        is_hex_digit(hex_digit(d)),
        hex_val(hex_digit(d)) == d,
{
}

/// The decimal form of any value is nonempty, holds digits only, and has no
/// leading zero unless the value is zero itself.
pub proof fn lemma_dec_shape(n: nat)
    ensures
        u32_dec(n).len() >= 1,
        all_dec_digits(u32_dec(n)),
        n >= 1 ==> u32_dec(n)[0] != dec_digit(0),
        n < 10 ==> u32_dec(n).len() == 1,
        n >= 10 ==> u32_dec(n).len() >= 2,
    decreases n,
{
    if n >= 10 {
        lemma_dec_shape(n / 10);
        let w = u32_dec(n / 10);
        assert forall|k: int| 0 <= k < u32_dec(n).len() implies is_dec_digit(
            #[trigger] u32_dec(n)[k],
        ) by {
            if k < w.len() {
                assert(u32_dec(n)[k] == w[k]);
            } else {
                assert(u32_dec(n)[k] == dec_digit((n % 10) as int));
            }
        }
        assert(u32_dec(n)[0] == w[0]);
    }
}

/// A position encodes to the decimal of `x`, one space, the decimal of `y`,
/// and nothing else: the decimals are digit strings without leading zeros,
/// and the byte between them is the only space — indeed the only whitespace
/// — in the encoding.
pub proof fn lemma_pos_encoding(p: Pos)
    ensures
        p.spec_bytes() == u32_dec(p.x as nat) + seq![ASCII_SPACE] + u32_dec(p.y as nat),
        all_dec_digits(u32_dec(p.x as nat)),
        all_dec_digits(u32_dec(p.y as nat)),
        p.x >= 1 ==> u32_dec(p.x as nat)[0] != dec_digit(0),
        p.y >= 1 ==> u32_dec(p.y as nat)[0] != dec_digit(0),
        forall|k: int|
            0 <= k < p.spec_bytes().len() ==> (is_ws(#[trigger] p.spec_bytes()[k]) <==> k
                == u32_dec(p.x as nat).len()),
{
    lemma_dec_shape(p.x as nat);
    lemma_dec_shape(p.y as nat);
    let xs = u32_dec(p.x as nat);
    let ys = u32_dec(p.y as nat);
    let s = p.spec_bytes();
    assert forall|k: int| 0 <= k < s.len() implies (is_ws(#[trigger] s[k]) <==> k
        == xs.len()) by {
        if k < xs.len() {
            assert(s[k] == xs[k]);
            assert(is_dec_digit(xs[k]));
        } else if k == xs.len() {
            assert(s[k] == ASCII_SPACE);
        } else {
            assert(s[k] == ys[k - xs.len() - 1]);
            assert(is_dec_digit(ys[k - xs.len() - 1]));
        }
    }
}

/// Without alpha a color encodes to exactly six bytes, with alpha to exactly
/// eight, every byte a lowercase hexadecimal digit, the channels in `r`,
/// `g`, `b`, `a` order and the high nibble of each channel first.
pub proof fn lemma_color_encoding(c: Rgba)
    ensures
        c.a is None ==> c.spec_bytes().len() == 6,
        c.a is Some ==> c.spec_bytes().len() == 8,
        forall|k: int|
            0 <= k < c.spec_bytes().len() ==> is_lower_hex_digit(#[trigger] c.spec_bytes()[k]),
        c.spec_bytes().subrange(0, 2) == byte_hex(c.r),
        c.spec_bytes().subrange(2, 4) == byte_hex(c.g),
        c.spec_bytes().subrange(4, 6) == byte_hex(c.b),
        c.a matches Some(a) ==> c.spec_bytes().subrange(6, 8) == byte_hex(a),
{
    let s = c.spec_bytes();
    assert(s.subrange(0, 2) =~= byte_hex(c.r));
    assert(s.subrange(2, 4) =~= byte_hex(c.g));
    assert(s.subrange(4, 6) =~= byte_hex(c.b));
    if c.a is Some {
        assert(s.subrange(6, 8) =~= byte_hex(c.a->0));
    }
    assert forall|k: int| 0 <= k < s.len() implies is_lower_hex_digit(#[trigger] s[k]) by {
        let ch: u8 = if k < 2 {
            c.r
        } else if k < 4 {
            c.g
        } else if k < 6 {
            c.b
        } else {
            c.a->0
        };
        assert(s[k] == byte_hex(ch)[k % 2]);
        lemma_hex_digit(ch as int / 16);
        lemma_hex_digit(ch as int % 16);
    }
}

/// Round trip of the color sub-codec: decoding an encoded color consumes
/// exactly the encoded bytes and reconstructs the color, with and without
/// alpha.
pub proof fn lemma_color_round_trip(c: Rgba)
    ensures
        spec_color(c.spec_bytes()) == Ok::<(int, Rgba), Error>(
            (c.spec_bytes().len() as int, c),
        ),
        c.a is None ==> c.spec_bytes().len() == 6,
        c.a is Some ==> c.spec_bytes().len() == 8,
{
    let s = c.spec_bytes();
    lemma_color_encoding(c);
    assert(s[0] == hex_digit(c.r as int / 16) && s[1] == hex_digit(c.r as int % 16)) by {
        assert(s[0] == s.subrange(0, 2)[0] && s[1] == s.subrange(0, 2)[1]);
    }
    assert(s[2] == hex_digit(c.g as int / 16) && s[3] == hex_digit(c.g as int % 16)) by {
        assert(s[2] == s.subrange(2, 4)[0] && s[3] == s.subrange(2, 4)[1]);
    }
    assert(s[4] == hex_digit(c.b as int / 16) && s[5] == hex_digit(c.b as int % 16)) by {
        assert(s[4] == s.subrange(4, 6)[0] && s[5] == s.subrange(4, 6)[1]);
    }
    lemma_hex_digit(c.r as int / 16);
    lemma_hex_digit(c.r as int % 16);
    lemma_hex_digit(c.g as int / 16);
    lemma_hex_digit(c.g as int % 16);
    lemma_hex_digit(c.b as int / 16);
    lemma_hex_digit(c.b as int % 16);
    assert(spec_hex_byte(s, 0) == Ok::<u8, Error>(c.r));
    assert(spec_hex_byte(s, 2) == Ok::<u8, Error>(c.g));
    assert(spec_hex_byte(s, 4) == Ok::<u8, Error>(c.b));
    match c.a {
        Some(a) => {
            assert(s[6] == hex_digit(a as int / 16) && s[7] == hex_digit(a as int % 16)) by {
                assert(s[6] == s.subrange(6, 8)[0] && s[7] == s.subrange(6, 8)[1]);
            }
            lemma_hex_digit(a as int / 16);
            lemma_hex_digit(a as int % 16);
            assert(spec_hex_byte(s, 6) == Ok::<u8, Error>(a));
        }
        None => {
        }
    }
}

// ---------------------------------------------------------------------------
// Decoding: lemmas about digit strings
// ---------------------------------------------------------------------------

/// A string of decimal digits writes a number that is not negative.
proof fn lemma_dec_value_nonneg(t: Seq<u8>)
    requires
        all_dec_digits(t),
    ensures
        dec_value(t) >= 0,
    decreases t.len(),
{
    if t.len() > 0 {
        let t1 = t.drop_last();
        assert(forall|k: int| 0 <= k < t1.len() ==> is_dec_digit(#[trigger] t1[k]));
        lemma_dec_value_nonneg(t1);
    }
}

/// Reading more digits never shrinks the number already read: the value of
/// a prefix is at most the value of the whole digit string.
proof fn lemma_dec_value_prefix(t: Seq<u8>, m: int)
    requires
        0 <= m <= t.len(),
        all_dec_digits(t),
    ensures
        dec_value(t.subrange(0, m)) <= dec_value(t),
    decreases t.len(),
{
    if m == t.len() {
        assert(t.subrange(0, m) =~= t);
    } else {
        let t1 = t.drop_last();
        assert(forall|k: int| 0 <= k < t1.len() ==> is_dec_digit(#[trigger] t1[k]));
        lemma_dec_value_prefix(t1, m);
        assert(t.subrange(0, m) =~= t1.subrange(0, m));
        lemma_dec_value_nonneg(t1);
    }
}

// ---------------------------------------------------------------------------
// Decoding: exec
// ---------------------------------------------------------------------------

fn is_ws_byte(b: u8) -> (r: bool)
    ensures
        r == is_ws(b),
{
    b == 0x20 || b == 0x09 || b == 0x0a || b == 0x0c || b == 0x0d
}

/// The first non-whitespace position of `s` at or after `i`.
fn skip_ws(s: &[u8], i: usize) -> (j: usize)
    requires
        i <= s@.len(),
    ensures
        j == ws_end(s@, i as int),
        i <= j <= s@.len(),
{
    let mut j = i;
    while j < s.len() && is_ws_byte(s[j])
        invariant
            i <= j <= s@.len(),
            ws_end(s@, i as int) == ws_end(s@, j as int),
        decreases s@.len() - j,
    {
        j = j + 1;
    }
    j
}

/// The first whitespace position of `s` at or after `i`.
fn token_end(s: &[u8], i: usize) -> (j: usize)
    requires
        i <= s@.len(),
    ensures
        j == tok_end(s@, i as int),
        i <= j <= s@.len(),
{
    let mut j = i;
    while j < s.len() && !is_ws_byte(s[j])
        invariant
            i <= j <= s@.len(),
            tok_end(s@, i as int) == tok_end(s@, j as int),
        decreases s@.len() - j,
    {
        j = j + 1;
    }
    j
}

/// Parse the token `s[i..j]` as a decimal `u32`.
fn parse_u32_token(s: &[u8], i: usize, j: usize) -> (r: Result<u32, Error>)
    requires
        i <= j <= s@.len(),
    ensures
        ({
            let t = s@.subrange(i as int, j as int);
            match r {
                Ok(v) => is_u32_token(t) && v == dec_value(t),
                Err(e) => !is_u32_token(t) && e == Error::ParseFailure,
            }
        }),
{
    let ghost t = s@.subrange(i as int, j as int);
    if i == j {
        return Err(Error::ParseFailure);
    }
    let mut acc: u32 = 0;
    let mut k = i;
    while k < j
        invariant
            i <= k <= j <= s@.len(),
            all_dec_digits(s@.subrange(i as int, k as int)),
            acc == dec_value(s@.subrange(i as int, k as int)),
            t == s@.subrange(i as int, j as int),
        decreases j - k,
    {
        let b = s[k];
        if b < 0x30 || b > 0x39 {
            proof {
                assert(t[k - i] == s@[k as int]);
            }
            return Err(Error::ParseFailure);
        }
        let d = (b - 0x30) as u32;
        proof {
            assert(s@.subrange(i as int, k + 1 as int).drop_last() =~= s@.subrange(
                i as int,
                k as int,
            ));
            assert(forall|q: int|
                0 <= q < k + 1 - i ==> is_dec_digit(
                    #[trigger] s@.subrange(i as int, k + 1 as int)[q],
                ));
        }
        let wide = acc as u64 * 10 + d as u64;
        if wide > 0xffff_ffff {
            proof {
                if all_dec_digits(t) {
                    assert(s@.subrange(i as int, k + 1 as int) =~= t.subrange(0, k + 1 - i));
                    lemma_dec_value_prefix(t, k + 1 - i);
                }
            }
            return Err(Error::ParseFailure);
        }
        acc = wide as u32;
        k = k + 1;
    }
    proof {
        assert(t =~= s@.subrange(i as int, k as int));
    }
    Ok(acc)
}

fn hex_digit_val(b: u8) -> (r: Option<u8>)
    ensures
        is_hex_digit(b) ==> r == Some(hex_val(b) as u8),
        !is_hex_digit(b) ==> r is None,
{
    if b >= 0x30 && b <= 0x39 {
        Some(b - 0x30)
    } else if b >= 0x61 && b <= 0x66 {
        Some(b - 0x61 + 10)
    } else if b >= 0x41 && b <= 0x46 {
        Some(b - 0x41 + 10)
    } else {
        None
    }
}

/// The byte written by the two hexadecimal digits at `i` and `i + 1`.
fn hex_byte_at(s: &[u8], i: usize) -> (r: Result<u8, Error>)
    requires
        i + 2 <= s@.len(),
    ensures
        r == spec_hex_byte(s@, i as int),
{
    let hi = hex_digit_val(s[i]);
    let lo = hex_digit_val(s[i + 1]);
    match (hi, lo) {
        (Some(h), Some(l)) => Ok(h * 16 + l),
        _ => Err(Error::HexParseFailure),
    }
}

/// Parse the first two whitespace-separated decimal `u32` tokens of `buf`,
/// returning the remainder that starts right after the second token.
pub fn decode_two_u32(buf: &[u8]) -> (r: Result<(&[u8], [u32; 2]), Error>)
    ensures
        spec_two_u32(buf@) matches Ok((k, x, y)) ==> (r matches Ok((rest, xy)) && rest@
            == buf@.subrange(k, buf@.len() as int) && xy@ == seq![x, y]),
        spec_two_u32(buf@) matches Err(e) ==> (r matches Err(e2) && e2 == e),
{
    let n = buf.len();
    let i0 = skip_ws(buf, 0);
    if i0 == n {
        return Err(Error::MissingData);
    }
    let i1 = token_end(buf, i0);
    let x = match parse_u32_token(buf, i0, i1) {
        Ok(v) => v,
        Err(e) => {
            return Err(e);
        },
    };
    let i2 = skip_ws(buf, i1);
    if i2 == n {
        return Err(Error::MissingData);
    }
    let i3 = token_end(buf, i2);
    let y = match parse_u32_token(buf, i2, i3) {
        Ok(v) => v,
        Err(e) => {
            return Err(e);
        },
    };
    let rest = slice_subrange(buf, i3, n);
    let xy = [x, y];
    proof {
        assert(xy@ =~= seq![x, y]);
    }
    Ok((rest, xy))
}

impl Pos {
    /// Decode a position from the first two decimal tokens of `buf`,
    /// returning the unparsed remainder.
    pub fn decode(buf: &[u8]) -> (r: Result<(&[u8], Pos), Error>)
        ensures
            spec_two_u32(buf@) matches Ok((k, x, y)) ==> (r matches Ok((rest, p)) && rest@
                == buf@.subrange(k, buf@.len() as int) && p == (Pos { x, y })),
            spec_two_u32(buf@) matches Err(e) ==> (r matches Err(e2) && e2 == e),
    {
        match decode_two_u32(buf) {
            Ok((rest, xy)) => Ok((rest, Pos { x: xy[0], y: xy[1] })),
            Err(e) => Err(e),
        }
    }
}

impl Size {
    /// Decode canvas dimensions from the first two decimal tokens of `buf`,
    /// returning the unparsed remainder.
    pub fn decode(buf: &[u8]) -> (r: Result<(&[u8], Size), Error>)
        ensures
            spec_two_u32(buf@) matches Ok((k, x, y)) ==> (r matches Ok((rest, sz)) && rest@
                == buf@.subrange(k, buf@.len() as int) && sz == (Size { x, y })),
            spec_two_u32(buf@) matches Err(e) ==> (r matches Err(e2) && e2 == e),
    {
        match decode_two_u32(buf) {
            Ok((rest, xy)) => Ok((rest, Size { x: xy[0], y: xy[1] })),
            Err(e) => Err(e),
        }
    }
}

impl Rgba {
    /// Decode a color from the head of `buf`: greedily eight hex digits when
    /// at least eight bytes remain, else exactly six, returning the
    /// remainder after the consumed digits.
    pub fn decode(buf: &[u8]) -> (r: Result<(&[u8], Rgba), Error>)
        ensures
            spec_color(buf@) matches Ok((k, c)) ==> (r matches Ok((rest, col)) && rest@
                == buf@.subrange(k, buf@.len() as int) && col == c),
            spec_color(buf@) matches Err(e) ==> (r matches Err(e2) && e2 == e),
    {
        if buf.len() < 6 {
            return Err(Error::MissingData);
        }
        let rv = match hex_byte_at(buf, 0) {
            Ok(v) => v,
            Err(e) => {
                return Err(e);
            },
        };
        let gv = match hex_byte_at(buf, 2) {
            Ok(v) => v,
            Err(e) => {
                return Err(e);
            },
        };
        let bv = match hex_byte_at(buf, 4) {
            Ok(v) => v,
            Err(e) => {
                return Err(e);
            },
        };
        if buf.len() >= 8 {
            let av = match hex_byte_at(buf, 6) {
                Ok(v) => v,
                Err(e) => {
                    return Err(e);
                },
            };
            let rest = slice_subrange(buf, 8, buf.len());
            Ok((rest, Rgba { r: rv, g: gv, b: bv, a: Some(av) }))
        } else {
            let rest = slice_subrange(buf, 6, buf.len());
            Ok((rest, Rgba { r: rv, g: gv, b: bv, a: None }))
        }
    }
}

impl Response {
    /// Decode one reply line. `PX ` and `SIZE ` lines are parsed into pixel
    /// and size replies; any other line is preserved verbatim as the
    /// fallback variant, a path that never fails.
    pub fn decode(line: &str) -> (r: Result<Response, Error>)
        ensures
            match r {
                Ok(resp) => spec_line_err(line@) is None && decode_matches(line@, resp),
                Err(e) => spec_line_err(line@) == Some(e),
            },
    {
        let s = line.as_bytes();
        if s.len() >= 3 && s[0] == ASCII_UPPER_P && s[1] == ASCII_UPPER_X && s[2] == ASCII_SPACE {
            let rest0 = slice_subrange(s, 3, s.len());
            let (rest1, pos) = match Pos::decode(rest0) {
                Ok(v) => v,
                Err(e) => {
                    return Err(e);
                },
            };
            let w = skip_ws(rest1, 0);
            let rest2 = slice_subrange(rest1, w, rest1.len());
            let color = match Rgba::decode(rest2) {
                Ok((_rest3, c)) => c,
                Err(e) => {
                    return Err(e);
                },
            };
            Ok(Response::Px(pos, color))
        } else if s.len() >= 5 && s[0] == ASCII_UPPER_S && s[1] == ASCII_UPPER_I && s[2]
            == ASCII_UPPER_Z && s[3] == ASCII_UPPER_E && s[4] == ASCII_SPACE {
            let rest0 = slice_subrange(s, 5, s.len());
            let sz = match Size::decode(rest0) {
                Ok((_rest, v)) => v,
                Err(e) => {
                    return Err(e);
                },
            };
            Ok(Response::Size(sz))
        } else {
            Ok(Response::Help(line.to_owned()))
        }
    }
}

} // verus!

