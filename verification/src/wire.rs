//! The wire form of the envelope protocol: one envelope per line of
//! self-describing text, a three-letter tag followed by space-separated
//! hex-encoded fields.  Serialization and parsing are verified against a
//! common specification-level grammar; parsing is total and rejects unknown
//! tags and missing fields as malformed.

use vstd::prelude::*;
use vstd::utf8::{
    decode_utf8, encode_utf8, is_leading_byte_width_1, partial_valid_utf8,
    partial_valid_utf8_extend_ascii_block, valid_utf8,
};

use vstd::string::StrSliceExecFns;

use crate::bytes_util::{string_from_utf8, sub_bytes};
use crate::crypto::PublicKey;
use crate::errors::ProtocolError;
use crate::message::{
    EncryptedMessage, EncryptedMessageV, ErrMessage, ErrMessageV, Info, InfoV, Message, MessageV,
    Msg, MsgV, PubKey, PubKeyV, RegisterMessage, RegisterMessageV,
};

verus! {

// ---------------------------------------------------------------------------
// Hex encoding of byte strings, fully verified.
// ---------------------------------------------------------------------------

/// The lowercase hex digit (as an ASCII byte) of a value below 16.
pub open spec fn hex_digit(n: u8) -> u8 {
    if n < 10 {
        (0x30 + n) as u8
    } else {
        (0x57 + n) as u8
    }
}

/// The value of an ASCII byte as a lowercase hex digit, if it is one.
pub open spec fn hex_val(b: u8) -> Option<u8> {
    if 0x30 <= b && b <= 0x39 {
        Some((b - 0x30) as u8)
    } else if 0x61 <= b && b <= 0x66 {
        Some((b - 0x61 + 10) as u8)
    } else {
        None
    }
}

/// The hex encoding of a byte string: two digits per byte, high nibble first.
pub open spec fn hex_bytes(b: Seq<u8>) -> Seq<u8>
    decreases b.len(),
{
    if b.len() == 0 {
        Seq::empty()
    } else {
        seq![hex_digit(b[0] / 16), hex_digit(b[0] % 16)] + hex_bytes(b.drop_first())
    }
}

/// The inverse of [`hex_bytes`]: `None` on odd length or any non-digit.
pub open spec fn unhex_bytes(h: Seq<u8>) -> Option<Seq<u8>>
    decreases h.len(),
{
    if h.len() == 0 {
        Some(Seq::empty())
    } else if h.len() == 1 {
        None
    } else {
        match (hex_val(h[0]), hex_val(h[1])) {
            (Some(hi), Some(lo)) => match unhex_bytes(h.skip(2)) {
                Some(rest) => Some(seq![(hi * 16 + lo) as u8] + rest),
                None => None,
            },
            _ => None,
        }
    }
}

/// Hex digits are ASCII and are not the space separator.
pub proof fn lemma_hex_bytes_ascii(b: Seq<u8>)
    ensures
        hex_bytes(b).len() == 2 * b.len(),
        forall|i: int|
            0 <= i < hex_bytes(b).len() ==> hex_bytes(b)[i] <= 0x7f && hex_bytes(b)[i] != 0x20,
    decreases b.len(),
{
    if b.len() == 0 {
    } else {
        lemma_hex_bytes_ascii(b.drop_first());
    }
}

/// Law: hex decoding inverts hex encoding.
pub proof fn lemma_hex_round_trip(b: Seq<u8>)
    ensures
        unhex_bytes(hex_bytes(b)) == Some(b),
    decreases b.len(),
{
    if b.len() == 0 {
        assert(hex_bytes(b) =~= Seq::<u8>::empty());
    } else {
        let h = hex_bytes(b);
        let pair = seq![hex_digit(b[0] / 16), hex_digit(b[0] % 16)];
        assert(b[0] / 16 < 16 && b[0] % 16 < 16);
        assert(hex_val(hex_digit(b[0] / 16)) == Some(b[0] / 16));
        assert(hex_val(hex_digit(b[0] % 16)) == Some(b[0] % 16));
        assert(h.skip(2) =~= hex_bytes(b.drop_first()));
        lemma_hex_round_trip(b.drop_first());
        assert((b[0] / 16) * 16 + b[0] % 16 == b[0]);
        assert(seq![b[0]] + b.drop_first() =~= b);
    }
}

/// The hex digit of a value below 16, in exec form.
pub fn hex_digit_byte(n: u8) -> (r: u8)
    requires
        n < 16,
    ensures
        r == hex_digit(n),
{
    if n < 10 {
        0x30 + n
    } else {
        0x57 + n
    }
}

/// The hex digit value of an ASCII byte, in exec form.
pub fn hex_val_byte(b: u8) -> (r: Option<u8>)
    ensures
        r == hex_val(b),
        r matches Some(v) ==> v < 16,
{
    if 0x30 <= b && b <= 0x39 {
        Some(b - 0x30)
    } else if 0x61 <= b && b <= 0x66 {
        Some(b - 0x61 + 10)
    } else {
        None
    }
}

proof fn lemma_hex_bytes_push(s: Seq<u8>, x: u8)
    ensures
        hex_bytes(s.push(x)) == hex_bytes(s) + seq![hex_digit(x / 16), hex_digit(x % 16)],
    decreases s.len(),
{
    let pair = seq![hex_digit(x / 16), hex_digit(x % 16)];
    if s.len() == 0 {
        assert(s.push(x)[0] == x);
        assert(s.push(x).drop_first() =~= Seq::<u8>::empty());
        assert(hex_bytes(s.push(x)) == pair + hex_bytes(Seq::<u8>::empty()));
        assert(pair + Seq::<u8>::empty() =~= pair);
        assert(hex_bytes(s) + pair =~= pair);
    } else {
        let hd = seq![hex_digit(s[0] / 16), hex_digit(s[0] % 16)];
        assert(s.push(x)[0] == s[0]);
        assert(s.push(x).drop_first() =~= s.drop_first().push(x));
        lemma_hex_bytes_push(s.drop_first(), x);
        assert(hex_bytes(s.push(x)) == hd + (hex_bytes(s.drop_first()) + pair));
        assert(hex_bytes(s) == hd + hex_bytes(s.drop_first()));
        assert(hd + (hex_bytes(s.drop_first()) + pair) =~= (hd + hex_bytes(s.drop_first()))
            + pair);
    }
}

/// Hex encoding of a byte vector.
pub fn hex_encode(b: &Vec<u8>) -> (r: Vec<u8>)
    ensures
        r@ == hex_bytes(b@),
{
    let mut out: Vec<u8> = Vec::new();
    let mut i: usize = 0;
    proof {
        assert(b@.subrange(0, 0) =~= Seq::<u8>::empty());
    }
    while i < b.len()
        invariant
            i <= b@.len(),
            out@ == hex_bytes(b@.subrange(0, i as int)),
        decreases b@.len() - i,
    {
        let x = b[i];
        assert(x / 16 < 16);
        out.push(hex_digit_byte(x / 16));
        out.push(hex_digit_byte(x % 16));
        proof {
            lemma_hex_bytes_push(b@.subrange(0, i as int), x);
            assert(b@.subrange(0, i as int).push(x) =~= b@.subrange(0, i as int + 1));
        }
        i = i + 1;
    }
    proof {
        assert(b@.subrange(0, b@.len() as int) =~= b@);
    }
    out
}

/// `Some(prefix + rest)` when `rest` is `Some`, else `None`.
pub open spec fn opt_concat(prefix: Seq<u8>, rest: Option<Seq<u8>>) -> Option<Seq<u8>> {
    match rest {
        Some(r) => Some(prefix + r),
        None => None,
    }
}

/// Hex decoding of a byte vector.
pub fn hex_decode(h: &Vec<u8>) -> (r: Option<Vec<u8>>)
    ensures
        match r {
            Some(v) => unhex_bytes(h@) == Some(v@),
            None => unhex_bytes(h@) is None,
        },
{
    let mut out: Vec<u8> = Vec::new();
    let mut i: usize = 0;
    proof {
        assert(h@.skip(0) =~= h@);
        if unhex_bytes(h@) is Some {
            assert(Seq::<u8>::empty() + unhex_bytes(h@)->0 =~= unhex_bytes(h@)->0);
        }
    }
    while i < h.len()
        invariant
            i <= h@.len(),
            unhex_bytes(h@) == opt_concat(out@, unhex_bytes(h@.skip(i as int))),
        decreases h@.len() - i,
    {
        if h.len() - i == 1 {
            return None;
        }
        let hi = hex_val_byte(h[i]);
        let lo = hex_val_byte(h[i + 1]);
        proof {
            assert(h@.skip(i as int)[0] == h@[i as int]);
            assert(h@.skip(i as int)[1] == h@[i as int + 1]);
        }
        match (hi, lo) {
            (Some(a), Some(c)) => {
                let v = a * 16 + c;
                proof {
                    assert(h@.skip(i as int).skip(2) =~= h@.skip(i as int + 2));
                    if unhex_bytes(h@.skip(i as int + 2)) is Some {
                        let rest2 = unhex_bytes(h@.skip(i as int + 2))->0;
                        assert(out@.push(v) + rest2 =~= out@ + (seq![v] + rest2));
                    }
                }
                out.push(v);
                i = i + 2;
            },
            _ => {
                return None;
            },
        }
    }
    proof {
        assert(h@.skip(h@.len() as int) =~= Seq::<u8>::empty());
        assert(out@ + Seq::<u8>::empty() =~= out@);
    }
    Some(out)
}

// ---------------------------------------------------------------------------
// Token boundaries.
// ---------------------------------------------------------------------------

/// The index of the first space at or after `i`, or the length when there is
/// none.
pub open spec fn first_space_from(b: Seq<u8>, i: int) -> int
    decreases b.len() - i,
{
    if i >= b.len() || i < 0 {
        b.len() as int
    } else if b[i] == 0x20 {
        i
    } else {
        first_space_from(b, i + 1)
    }
}

proof fn lemma_first_space_from_is(b: Seq<u8>, from: int, j: int)
    requires
        0 <= from <= j <= b.len(),
        forall|k: int| from <= k < j ==> b[k] != 0x20,
        j == b.len() || b[j] == 0x20,
    ensures
        first_space_from(b, from) == j,
    decreases j - from,
{
    if from < j {
        lemma_first_space_from_is(b, from + 1, j);
    }
}

/// The index of the first space at or after `from`, or the length.
fn find_space(b: &Vec<u8>, from: usize) -> (r: usize)
    requires
        from <= b@.len(),
    ensures
        r == first_space_from(b@, from as int),
        from <= r <= b@.len(),
{
    let mut j = from;
    while j < b.len() && b[j] != 0x20
        invariant
            from <= j <= b@.len(),
            forall|k: int| from <= k < j ==> b@[k] != 0x20,
        decreases b@.len() - j,
    {
        j = j + 1;
    }
    proof {
        lemma_first_space_from_is(b@, from as int, j as int);
    }
    j
}

// ---------------------------------------------------------------------------
// The grammar.
// ---------------------------------------------------------------------------

/// The tag of a registration envelope.
pub open spec fn tag_reg() -> Seq<u8> {
    seq![0x72u8, 0x65u8, 0x67u8]
}

/// The tag of a public-key announcement envelope.
pub open spec fn tag_key() -> Seq<u8> {
    seq![0x6bu8, 0x65u8, 0x79u8]
}

/// The tag of an encrypted payload envelope.
pub open spec fn tag_enc() -> Seq<u8> {
    seq![0x65u8, 0x6eu8, 0x63u8]
}

/// The tag of a plaintext message envelope.
pub open spec fn tag_msg() -> Seq<u8> {
    seq![0x6du8, 0x73u8, 0x67u8]
}

/// The tag of an informational envelope.
pub open spec fn tag_inf() -> Seq<u8> {
    seq![0x69u8, 0x6eu8, 0x66u8]
}

/// The tag of an error envelope.
pub open spec fn tag_err() -> Seq<u8> {
    seq![0x65u8, 0x72u8, 0x72u8]
}

/// The single-space separator.
pub open spec fn sp() -> Seq<u8> {
    seq![0x20u8]
}

/// A text field on the wire: the hex encoding of its UTF-8 bytes.
pub open spec fn hex_text(t: Seq<char>) -> Seq<u8> {
    hex_bytes(encode_utf8(t))
}

/// A hex field read back as text: hex-decode, then require valid UTF-8.
pub open spec fn str_of_hex(h: Seq<u8>) -> Option<Seq<char>> {
    match unhex_bytes(h) {
        Some(bs) => if valid_utf8(bs) {
            Some(decode_utf8(bs))
        } else {
            None
        },
        None => None,
    }
}

/// A hex field read back as a 32-byte public key.
pub open spec fn key_of_hex(h: Seq<u8>) -> Option<Seq<u8>> {
    match unhex_bytes(h) {
        Some(k) => if k.len() == 32 {
            Some(k)
        } else {
            None
        },
        None => None,
    }
}

/// A token is a maximal run of non-space bytes starting at `s`; this lemma
/// pins [`first_space_from`] where the token's content and end are known.
proof fn lemma_token_at(b: Seq<u8>, s: int, tok: Seq<u8>)
    requires
        0 <= s,
        s + tok.len() <= b.len(),
        b.subrange(s, s + tok.len()) == tok,
        forall|i: int| 0 <= i < tok.len() ==> tok[i] != 0x20,
        s + tok.len() == b.len() || b[s + tok.len()] == 0x20,
    ensures
        first_space_from(b, s) == s + tok.len(),
        b.subrange(s, first_space_from(b, s)) == tok,
{
    assert forall|k: int| s <= k < s + tok.len() implies b[k] != 0x20 by {
        assert(b[k] == b.subrange(s, s + tok.len())[k - s]);
    }
    lemma_first_space_from_is(b, s, s + tok.len());
}

/// The wire bytes of an envelope: its tag followed by space-separated
/// hex-encoded fields, in field order.
pub open spec fn spec_ser(m: MsgV) -> Seq<u8> {
    match m {
        MsgV::Register(x) => tag_reg() + sp() + hex_text(x.client_name),
        MsgV::Info(x) => tag_inf() + sp() + hex_text(x.info),
        MsgV::Error(x) => tag_err() + sp() + hex_text(x.error),
        MsgV::PubKey(x) => tag_key() + sp() + hex_text(x.user) + sp() + hex_bytes(x.public_key),
        MsgV::EncryptedMessage(x) => tag_enc() + sp() + hex_text(x.sender_name) + sp() + hex_text(
            x.recv_name,
        ) + sp() + hex_bytes(x.encrypted_msg) + sp() + hex_bytes(x.public_key),
        MsgV::Message(x) => tag_msg() + sp() + hex_text(x.sender_name) + sp() + hex_text(
            x.recv_name,
        ) + sp() + hex_bytes(encode_utf8(x.msg)) + sp() + hex_bytes(x.public_key),
    }
}

/// The wire text of an envelope, as the characters of the line.
pub open spec fn wire_chars(m: MsgV) -> Seq<char> {
    decode_utf8(spec_ser(m))
}

/// What parsing a line's bytes yields: the envelope, or `None` when the line
/// is malformed (unknown tag, wrong number of fields, a field that is not
/// hex, text that is not UTF-8, or a key of the wrong size).
pub open spec fn spec_parse(b: Seq<u8>) -> Option<MsgV> {
    let e0 = first_space_from(b, 0);
    let tag = b.subrange(0, e0);
    if e0 >= b.len() {
        None
    } else {
        let s1 = e0 + 1;
        let e1 = first_space_from(b, s1);
        let t1 = b.subrange(s1, e1);
        if tag == tag_reg() || tag == tag_inf() || tag == tag_err() {
            if e1 != b.len() {
                None
            } else {
                match str_of_hex(t1) {
                    Some(text) => Some(
                        if tag == tag_reg() {
                            MsgV::Register(RegisterMessageV { client_name: text })
                        } else if tag == tag_inf() {
                            MsgV::Info(InfoV { info: text })
                        } else {
                            MsgV::Error(ErrMessageV { error: text })
                        },
                    ),
                    None => None,
                }
            }
        } else if tag == tag_key() {
            if e1 >= b.len() {
                None
            } else {
                let s2 = e1 + 1;
                let e2 = first_space_from(b, s2);
                let t2 = b.subrange(s2, e2);
                if e2 != b.len() {
                    None
                } else {
                    match (str_of_hex(t1), key_of_hex(t2)) {
                        (Some(user), Some(k)) => Some(
                            MsgV::PubKey(PubKeyV { user: user, public_key: k }),
                        ),
                        _ => None,
                    }
                }
            }
        } else if tag == tag_enc() || tag == tag_msg() {
            if e1 >= b.len() {
                None
            } else {
                let s2 = e1 + 1;
                let e2 = first_space_from(b, s2);
                let t2 = b.subrange(s2, e2);
                if e2 >= b.len() {
                    None
                } else {
                    let s3 = e2 + 1;
                    let e3 = first_space_from(b, s3);
                    let t3 = b.subrange(s3, e3);
                    if e3 >= b.len() {
                        None
                    } else {
                        let s4 = e3 + 1;
                        let e4 = first_space_from(b, s4);
                        let t4 = b.subrange(s4, e4);
                        if e4 != b.len() {
                            None
                        } else if tag == tag_enc() {
                            match (str_of_hex(t1), str_of_hex(t2), unhex_bytes(t3), key_of_hex(
                                t4,
                            )) {
                                (Some(sn), Some(rn), Some(ct), Some(k)) => Some(
                                    MsgV::EncryptedMessage(
                                        EncryptedMessageV {
                                            sender_name: sn,
                                            recv_name: rn,
                                            encrypted_msg: ct,
                                            public_key: k,
                                        },
                                    ),
                                ),
                                _ => None,
                            }
                        } else {
                            match (str_of_hex(t1), str_of_hex(t2), str_of_hex(t3), key_of_hex(
                                t4,
                            )) {
                                (Some(sn), Some(rn), Some(tx), Some(k)) => Some(
                                    MsgV::Message(
                                        MessageV {
                                            sender_name: sn,
                                            recv_name: rn,
                                            msg: tx,
                                            public_key: k,
                                        },
                                    ),
                                ),
                                _ => None,
                            }
                        }
                    }
                }
            }
        } else {
            None
        }
    }
}

// ---------------------------------------------------------------------------
// Serialization.
// ---------------------------------------------------------------------------

/// Every byte of a serialized envelope is ASCII.
pub proof fn lemma_ser_ascii(m: MsgV)
    ensures
        forall|i: int| 0 <= i < spec_ser(m).len() ==> spec_ser(m)[i] <= 0x7f,
{
    match m {
        MsgV::Register(x) => {
            lemma_hex_bytes_ascii(encode_utf8(x.client_name));
        },
        MsgV::Info(x) => {
            lemma_hex_bytes_ascii(encode_utf8(x.info));
        },
        MsgV::Error(x) => {
            lemma_hex_bytes_ascii(encode_utf8(x.error));
        },
        MsgV::PubKey(x) => {
            lemma_hex_bytes_ascii(encode_utf8(x.user));
            lemma_hex_bytes_ascii(x.public_key);
        },
        MsgV::EncryptedMessage(x) => {
            lemma_hex_bytes_ascii(encode_utf8(x.sender_name));
            lemma_hex_bytes_ascii(encode_utf8(x.recv_name));
            lemma_hex_bytes_ascii(x.encrypted_msg);
            lemma_hex_bytes_ascii(x.public_key);
        },
        MsgV::Message(x) => {
            lemma_hex_bytes_ascii(encode_utf8(x.sender_name));
            lemma_hex_bytes_ascii(encode_utf8(x.recv_name));
            lemma_hex_bytes_ascii(encode_utf8(x.msg));
            lemma_hex_bytes_ascii(x.public_key);
        },
    }
}

/// A vector of ASCII bytes, turned into the string it spells.
fn ascii_to_string(v: Vec<u8>) -> (r: String)
    requires
        forall|i: int| 0 <= i < v@.len() ==> v@[i] <= 0x7f,
    ensures
        encode_utf8(r@) == v@,
        r@ == decode_utf8(v@),
{
    proof {
        assert(v@.subrange(0, 0) =~= Seq::<u8>::empty());
        assert(valid_utf8(Seq::<u8>::empty()));
        assert(partial_valid_utf8(v@, 0));
        assert(forall|i: int| 0 <= i < v@.len() ==> #[trigger] is_leading_byte_width_1(v@[i]));
        partial_valid_utf8_extend_ascii_block(v@, 0, v@.len() as int);
        assert(v@.subrange(0, v@.len() as int) =~= v@);
        assert(valid_utf8(v@));
    }
    match string_from_utf8(v) {
        Some(s) => s,
        None => vstd::pervasive::unreached(),
    }
}

fn push_tag3(out: &mut Vec<u8>, a: u8, b: u8, c: u8)
    ensures
        final(out)@ == old(out)@ + seq![a, b, c],
{
    out.push(a);
    out.push(b);
    out.push(c);
    proof {
        assert(out@ =~= old(out)@ + seq![a, b, c]);
    }
}

fn push_sp(out: &mut Vec<u8>)
    ensures
        final(out)@ == old(out)@ + sp(),
{
    out.push(0x20);
    proof {
        assert(out@ =~= old(out)@ + sp());
    }
}

fn push_field_text(out: &mut Vec<u8>, s: &String)
    ensures
        final(out)@ == old(out)@ + hex_text(s@),
{
    let bytes = s.as_str().as_bytes_vec();
    let mut hx = hex_encode(&bytes);
    out.append(&mut hx);
}

fn push_field_bytes(out: &mut Vec<u8>, b: &Vec<u8>)
    ensures
        final(out)@ == old(out)@ + hex_bytes(b@),
{
    let mut hx = hex_encode(b);
    out.append(&mut hx);
}

/// The wire line of an envelope: its tag and hex-encoded fields, as text.
pub fn serialize_msg(m: &Msg) -> (r: String)
    ensures
        encode_utf8(r@) == spec_ser(m@),
        r@ == wire_chars(m@),
{
    let mut out: Vec<u8> = Vec::new();
    match m {
        Msg::Register(x) => {
            push_tag3(&mut out, 0x72, 0x65, 0x67);
            push_sp(&mut out);
            push_field_text(&mut out, &x.client_name);
        },
        Msg::Info(x) => {
            push_tag3(&mut out, 0x69, 0x6e, 0x66);
            push_sp(&mut out);
            push_field_text(&mut out, &x.info);
        },
        Msg::Error(x) => {
            push_tag3(&mut out, 0x65, 0x72, 0x72);
            push_sp(&mut out);
            push_field_text(&mut out, &x.error);
        },
        Msg::PubKey(x) => {
            push_tag3(&mut out, 0x6b, 0x65, 0x79);
            push_sp(&mut out);
            push_field_text(&mut out, &x.user);
            push_sp(&mut out);
            push_field_bytes(&mut out, &x.public_key.bytes);
        },
        Msg::EncryptedMessage(x) => {
            push_tag3(&mut out, 0x65, 0x6e, 0x63);
            push_sp(&mut out);
            push_field_text(&mut out, &x.sender_name);
            push_sp(&mut out);
            push_field_text(&mut out, &x.recv_name);
            push_sp(&mut out);
            push_field_bytes(&mut out, &x.encrypted_msg);
            push_sp(&mut out);
            push_field_bytes(&mut out, &x.public_key.bytes);
        },
        Msg::Message(x) => {
            push_tag3(&mut out, 0x6d, 0x73, 0x67);
            push_sp(&mut out);
            push_field_text(&mut out, &x.sender_name);
            push_sp(&mut out);
            push_field_text(&mut out, &x.recv_name);
            push_sp(&mut out);
            push_field_text(&mut out, &x.msg);
            push_sp(&mut out);
            push_field_bytes(&mut out, &x.public_key.bytes);
        },
    }
    proof {
        assert(out@ =~= spec_ser(m@));
        lemma_ser_ascii(m@);
    }
    ascii_to_string(out)
}

// ---------------------------------------------------------------------------
// Parsing.
// ---------------------------------------------------------------------------

fn tag_is(t: &Vec<u8>, a: u8, b: u8, c: u8) -> (r: bool)
    ensures
        r == (t@ == seq![a, b, c]),
{
    if t.len() == 3 && t[0] == a && t[1] == b && t[2] == c {
        proof {
            assert(t@ =~= seq![a, b, c]);
        }
        true
    } else {
        false
    }
}

fn parse_str_field(b: &Vec<u8>, s: usize, e: usize) -> (r: Option<String>)
    requires
        s <= e <= b@.len(),
    ensures
        match r {
            Some(st) => str_of_hex(b@.subrange(s as int, e as int)) == Some(st@),
            None => str_of_hex(b@.subrange(s as int, e as int)) is None,
        },
{
    let tok = sub_bytes(b, s, e);
    match hex_decode(&tok) {
        None => None,
        Some(bs) => string_from_utf8(bs),
    }
}

fn parse_key_field(b: &Vec<u8>, s: usize, e: usize) -> (r: Option<PublicKey>)
    requires
        s <= e <= b@.len(),
    ensures
        match r {
            Some(k) => key_of_hex(b@.subrange(s as int, e as int)) == Some(k@) && k.wf(),
            None => key_of_hex(b@.subrange(s as int, e as int)) is None,
        },
{
    let tok = sub_bytes(b, s, e);
    match hex_decode(&tok) {
        None => None,
        Some(bs) => if bs.len() == 32 {
            Some(PublicKey { bytes: bs })
        } else {
            None
        },
    }
}

fn parse_bytes_field(b: &Vec<u8>, s: usize, e: usize) -> (r: Option<Vec<u8>>)
    requires
        s <= e <= b@.len(),
    ensures
        match r {
            Some(v) => unhex_bytes(b@.subrange(s as int, e as int)) == Some(v@),
            None => unhex_bytes(b@.subrange(s as int, e as int)) is None,
        },
{
    let tok = sub_bytes(b, s, e);
    hex_decode(&tok)
}

/// Parses one line as an envelope; total over all inputs, with
/// `MalformedEnvelope` exactly when the line matches no envelope of the
/// grammar.  Each line is independent: no state is kept across failures.
pub fn parse_line(line: &String) -> (r: Result<Msg, ProtocolError>)
    ensures
        match spec_parse(encode_utf8(line@)) {
            Some(mv) => r matches Ok(m) && m@ == mv && m.wf(),
            None => r matches Err(e) && e == ProtocolError::MalformedEnvelope,
        },
{
    let b = line.as_str().as_bytes_vec();
    let e0 = find_space(&b, 0);
    if e0 >= b.len() {
        return Err(ProtocolError::MalformedEnvelope);
    }
    let tag = sub_bytes(&b, 0, e0);
    let s1 = e0 + 1;
    let e1 = find_space(&b, s1);
    if tag_is(&tag, 0x72, 0x65, 0x67) || tag_is(&tag, 0x69, 0x6e, 0x66) || tag_is(
        &tag,
        0x65,
        0x72,
        0x72,
    ) {
        if e1 != b.len() {
            return Err(ProtocolError::MalformedEnvelope);
        }
        match parse_str_field(&b, s1, e1) {
            None => Err(ProtocolError::MalformedEnvelope),
            Some(text) => if tag_is(&tag, 0x72, 0x65, 0x67) {
                Ok(Msg::Register(RegisterMessage { client_name: text }))
            } else if tag_is(&tag, 0x69, 0x6e, 0x66) {
                Ok(Msg::Info(Info { info: text }))
            } else {
                Ok(Msg::Error(ErrMessage { error: text }))
            },
        }
    } else if tag_is(&tag, 0x6b, 0x65, 0x79) {
        if e1 >= b.len() {
            return Err(ProtocolError::MalformedEnvelope);
        }
        let s2 = e1 + 1;
        let e2 = find_space(&b, s2);
        if e2 != b.len() {
            return Err(ProtocolError::MalformedEnvelope);
        }
        match (parse_str_field(&b, s1, e1), parse_key_field(&b, s2, e2)) {
            (Some(user), Some(k)) => Ok(Msg::PubKey(PubKey { user, public_key: k })),
            _ => Err(ProtocolError::MalformedEnvelope),
        }
    } else if tag_is(&tag, 0x65, 0x6e, 0x63) || tag_is(&tag, 0x6d, 0x73, 0x67) {
        if e1 >= b.len() {
            return Err(ProtocolError::MalformedEnvelope);
        }
        let s2 = e1 + 1;
        let e2 = find_space(&b, s2);
        if e2 >= b.len() {
            return Err(ProtocolError::MalformedEnvelope);
        }
        let s3 = e2 + 1;
        let e3 = find_space(&b, s3);
        if e3 >= b.len() {
            return Err(ProtocolError::MalformedEnvelope);
        }
        let s4 = e3 + 1;
        let e4 = find_space(&b, s4);
        if e4 != b.len() {
            return Err(ProtocolError::MalformedEnvelope);
        }
        if tag_is(&tag, 0x65, 0x6e, 0x63) {
            match (parse_str_field(&b, s1, e1), parse_str_field(&b, s2, e2), parse_bytes_field(
                &b,
                s3,
                e3,
            ), parse_key_field(&b, s4, e4)) {
                (Some(sn), Some(rn), Some(ct), Some(k)) => Ok(
                    Msg::EncryptedMessage(
                        EncryptedMessage {
                            sender_name: sn,
                            recv_name: rn,
                            encrypted_msg: ct,
                            public_key: k,
                        },
                    ),
                ),
                _ => Err(ProtocolError::MalformedEnvelope),
            }
        } else {
            match (parse_str_field(&b, s1, e1), parse_str_field(&b, s2, e2), parse_str_field(
                &b,
                s3,
                e3,
            ), parse_key_field(&b, s4, e4)) {
                (Some(sn), Some(rn), Some(tx), Some(k)) => Ok(
                    Msg::Message(
                        Message { sender_name: sn, recv_name: rn, msg: tx, public_key: k },
                    ),
                ),
                _ => Err(ProtocolError::MalformedEnvelope),
            }
        }
    } else {
        Err(ProtocolError::MalformedEnvelope)
    }
}



// ---------------------------------------------------------------------------
// The round trip of the codec.
// ---------------------------------------------------------------------------

/// The size constraint an envelope must meet to survive the wire: a carried
/// public key holds exactly 32 bytes.
pub open spec fn msg_sizes_ok(m: MsgV) -> bool {
    match m {
        MsgV::PubKey(x) => x.public_key.len() == 32,
        MsgV::EncryptedMessage(x) => x.public_key.len() == 32,
        MsgV::Message(x) => x.public_key.len() == 32,
        _ => true,
    }
}

proof fn lemma_str_of_hex_round_trip(t: Seq<char>)
    ensures
        str_of_hex(hex_text(t)) == Some(t),
{
    vstd::utf8::encode_utf8_valid_utf8(t);
    vstd::utf8::encode_utf8_decode_utf8(t);
    lemma_hex_round_trip(encode_utf8(t));
}

proof fn lemma_key_of_hex_round_trip(k: Seq<u8>)
    requires
        k.len() == 32,
    ensures
        key_of_hex(hex_bytes(k)) == Some(k),
{
    lemma_hex_round_trip(k);
}

proof fn lemma_one_field_tokens(tag: Seq<u8>, p1: Seq<u8>)
    requires
        tag.len() == 3,
        forall|i: int| 0 <= i < tag.len() ==> tag[i] != 0x20,
        forall|i: int| 0 <= i < p1.len() ==> p1[i] != 0x20,
    ensures
        ({
            let b = tag + sp() + p1;
            &&& b.len() == 4 + p1.len()
            &&& first_space_from(b, 0) == 3
            &&& b.subrange(0, 3) == tag
            &&& first_space_from(b, 4) == b.len()
            &&& b.subrange(4, b.len() as int) == p1
        }),
{
    let b = tag + sp() + p1;
    assert(b.subrange(0, 3) =~= tag);
    assert(b[3] == 0x20);
    lemma_token_at(b, 0, tag);
    assert(b.subrange(4, b.len() as int) =~= p1);
    lemma_token_at(b, 4, p1);
}

proof fn lemma_two_field_tokens(tag: Seq<u8>, p1: Seq<u8>, p2: Seq<u8>)
    requires
        tag.len() == 3,
        forall|i: int| 0 <= i < tag.len() ==> tag[i] != 0x20,
        forall|i: int| 0 <= i < p1.len() ==> p1[i] != 0x20,
        forall|i: int| 0 <= i < p2.len() ==> p2[i] != 0x20,
    ensures
        ({
            let b = tag + sp() + p1 + sp() + p2;
            &&& b.len() == 5 + p1.len() + p2.len()
            &&& first_space_from(b, 0) == 3
            &&& b.subrange(0, 3) == tag
            &&& first_space_from(b, 4) == 4 + p1.len()
            &&& b.subrange(4, 4 + p1.len() as int) == p1
            &&& first_space_from(b, 5 + p1.len() as int) == b.len()
            &&& b.subrange(5 + p1.len() as int, b.len() as int) == p2
        }),
{
    let b = tag + sp() + p1 + sp() + p2;
    assert(b.subrange(0, 3) =~= tag);
    assert(b[3] == 0x20);
    lemma_token_at(b, 0, tag);
    assert(b.subrange(4, 4 + p1.len() as int) =~= p1);
    assert(b[4 + p1.len() as int] == 0x20);
    lemma_token_at(b, 4, p1);
    assert(b.subrange(5 + p1.len() as int, b.len() as int) =~= p2);
    lemma_token_at(b, 5 + p1.len() as int, p2);
}

#[verifier::rlimit(60)]
proof fn lemma_four_field_tokens(tag: Seq<u8>, p1: Seq<u8>, p2: Seq<u8>, p3: Seq<u8>, p4: Seq<u8>)
    requires
        tag.len() == 3,
        forall|i: int| 0 <= i < tag.len() ==> tag[i] != 0x20,
        forall|i: int| 0 <= i < p1.len() ==> p1[i] != 0x20,
        forall|i: int| 0 <= i < p2.len() ==> p2[i] != 0x20,
        forall|i: int| 0 <= i < p3.len() ==> p3[i] != 0x20,
        forall|i: int| 0 <= i < p4.len() ==> p4[i] != 0x20,
    ensures
        ({
            let b = tag + sp() + p1 + sp() + p2 + sp() + p3 + sp() + p4;
            let o2 = 5 + p1.len() as int;
            let o3 = 6 + p1.len() as int + p2.len() as int;
            let o4 = 7 + p1.len() as int + p2.len() as int + p3.len() as int;
            &&& b.len() == 7 + p1.len() + p2.len() + p3.len() + p4.len()
            &&& first_space_from(b, 0) == 3
            &&& b.subrange(0, 3) == tag
            &&& first_space_from(b, 4) == 4 + p1.len()
            &&& b.subrange(4, 4 + p1.len() as int) == p1
            &&& first_space_from(b, o2) == o2 + p2.len()
            &&& b.subrange(o2, o2 + p2.len() as int) == p2
            &&& first_space_from(b, o3) == o3 + p3.len()
            &&& b.subrange(o3, o3 + p3.len() as int) == p3
            &&& first_space_from(b, o4) == b.len()
            &&& b.subrange(o4, b.len() as int) == p4
        }),
{
    let b = tag + sp() + p1 + sp() + p2 + sp() + p3 + sp() + p4;
    let o2 = 5 + p1.len() as int;
    let o3 = 6 + p1.len() as int + p2.len() as int;
    let o4 = 7 + p1.len() as int + p2.len() as int + p3.len() as int;
    assert(b.subrange(0, 3) =~= tag);
    assert(b[3] == 0x20);
    lemma_token_at(b, 0, tag);
    assert(b.subrange(4, 4 + p1.len() as int) =~= p1);
    assert(b[4 + p1.len() as int] == 0x20);
    lemma_token_at(b, 4, p1);
    assert(b.subrange(o2, o2 + p2.len() as int) =~= p2);
    assert(b[o2 + p2.len() as int] == 0x20);
    lemma_token_at(b, o2, p2);
    assert(b.subrange(o3, o3 + p3.len() as int) =~= p3);
    assert(b[o3 + p3.len() as int] == 0x20);
    lemma_token_at(b, o3, p3);
    assert(b.subrange(o4, b.len() as int) =~= p4);
    lemma_token_at(b, o4, p4);
}

proof fn lemma_tags_spaceless()
    ensures
        forall|i: int| 0 <= i < 3 ==> #[trigger] tag_reg()[i] != 0x20,
        forall|i: int| 0 <= i < 3 ==> #[trigger] tag_key()[i] != 0x20,
        forall|i: int| 0 <= i < 3 ==> #[trigger] tag_enc()[i] != 0x20,
        forall|i: int| 0 <= i < 3 ==> #[trigger] tag_msg()[i] != 0x20,
        forall|i: int| 0 <= i < 3 ==> #[trigger] tag_inf()[i] != 0x20,
        forall|i: int| 0 <= i < 3 ==> #[trigger] tag_err()[i] != 0x20,
        tag_key() != tag_reg() && tag_key() != tag_inf() && tag_key() != tag_err(),
        tag_enc() != tag_reg() && tag_enc() != tag_inf() && tag_enc() != tag_err() && tag_enc()
            != tag_key(),
        tag_msg() != tag_reg() && tag_msg() != tag_inf() && tag_msg() != tag_err() && tag_msg()
            != tag_key() && tag_msg() != tag_enc(),
{
    assert(tag_reg()[0] == 0x72 && tag_reg()[1] == 0x65 && tag_reg()[2] == 0x67);
    assert(tag_key()[0] == 0x6b && tag_key()[1] == 0x65 && tag_key()[2] == 0x79);
    assert(tag_enc()[0] == 0x65 && tag_enc()[1] == 0x6e && tag_enc()[2] == 0x63);
    assert(tag_msg()[0] == 0x6d && tag_msg()[1] == 0x73 && tag_msg()[2] == 0x67);
    assert(tag_inf()[0] == 0x69 && tag_inf()[1] == 0x6e && tag_inf()[2] == 0x66);
    assert(tag_err()[0] == 0x65 && tag_err()[1] == 0x72 && tag_err()[2] == 0x72);
}

/// Law: parsing inverts serialization — an envelope whose keys have their
/// required size comes back from its own wire line unchanged.
#[verifier::rlimit(60)]
pub proof fn lemma_wire_round_trip(m: MsgV)
    requires
        msg_sizes_ok(m),
    ensures
        spec_parse(spec_ser(m)) == Some(m),
{
    lemma_tags_spaceless();
    match m {
        MsgV::Register(x) => {
            lemma_hex_bytes_ascii(encode_utf8(x.client_name));
            lemma_one_field_tokens(tag_reg(), hex_text(x.client_name));
            lemma_str_of_hex_round_trip(x.client_name);
            assert(RegisterMessageV { client_name: x.client_name } =~= x);
        },
        MsgV::Info(x) => {
            lemma_hex_bytes_ascii(encode_utf8(x.info));
            lemma_one_field_tokens(tag_inf(), hex_text(x.info));
            lemma_str_of_hex_round_trip(x.info);
            assert(InfoV { info: x.info } =~= x);
        },
        MsgV::Error(x) => {
            lemma_hex_bytes_ascii(encode_utf8(x.error));
            lemma_one_field_tokens(tag_err(), hex_text(x.error));
            lemma_str_of_hex_round_trip(x.error);
            assert(ErrMessageV { error: x.error } =~= x);
        },
        MsgV::PubKey(x) => {
            lemma_hex_bytes_ascii(encode_utf8(x.user));
            lemma_hex_bytes_ascii(x.public_key);
            lemma_two_field_tokens(tag_key(), hex_text(x.user), hex_bytes(x.public_key));
            lemma_str_of_hex_round_trip(x.user);
            lemma_key_of_hex_round_trip(x.public_key);
            assert(PubKeyV { user: x.user, public_key: x.public_key } =~= x);
        },
        MsgV::EncryptedMessage(x) => {
            lemma_hex_bytes_ascii(encode_utf8(x.sender_name));
            lemma_hex_bytes_ascii(encode_utf8(x.recv_name));
            lemma_hex_bytes_ascii(x.encrypted_msg);
            lemma_hex_bytes_ascii(x.public_key);
            lemma_four_field_tokens(
                tag_enc(),
                hex_text(x.sender_name),
                hex_text(x.recv_name),
                hex_bytes(x.encrypted_msg),
                hex_bytes(x.public_key),
            );
            lemma_str_of_hex_round_trip(x.sender_name);
            lemma_str_of_hex_round_trip(x.recv_name);
            lemma_hex_round_trip(x.encrypted_msg);
            lemma_key_of_hex_round_trip(x.public_key);
            assert(EncryptedMessageV {
                sender_name: x.sender_name,
                recv_name: x.recv_name,
                encrypted_msg: x.encrypted_msg,
                public_key: x.public_key,
            } =~= x);
        },
        MsgV::Message(x) => {
            lemma_hex_bytes_ascii(encode_utf8(x.sender_name));
            lemma_hex_bytes_ascii(encode_utf8(x.recv_name));
            lemma_hex_bytes_ascii(encode_utf8(x.msg));
            lemma_hex_bytes_ascii(x.public_key);
            lemma_four_field_tokens(
                tag_msg(),
                hex_text(x.sender_name),
                hex_text(x.recv_name),
                hex_text(x.msg),
                hex_bytes(x.public_key),
            );
            lemma_str_of_hex_round_trip(x.sender_name);
            lemma_str_of_hex_round_trip(x.recv_name);
            lemma_str_of_hex_round_trip(x.msg);
            lemma_key_of_hex_round_trip(x.public_key);
            assert(MessageV {
                sender_name: x.sender_name,
                recv_name: x.recv_name,
                msg: x.msg,
                public_key: x.public_key,
            } =~= x);
        },
    }
}


} // verus!
