//! Byte encodings: standard Base64 and UTF-8.
use vstd::prelude::*;
use vstd::utf8::*;
use std::str::Utf8Error;
use base64::Engine;

verus! {

/// `std::str::Utf8Error`, carried through unchanged.
#[verifier::external_type_specification]
#[verifier::external_body]
pub struct ExUtf8Error(Utf8Error);

// ---------------------------------------------------------------------------
// Base64 (RFC 4648, standard alphabet, with padding)
// ---------------------------------------------------------------------------

/// The character of the standard Base64 alphabet with index `v` (`v < 64`).
pub open spec fn b64_symbol(v: nat) -> char {
    if v < 26 {
        (('A' as nat) + v) as char
    } else if v < 52 {
        (('a' as nat) + (v - 26)) as char
    } else if v < 62 {
        (('0' as nat) + (v - 52)) as char
    } else if v == 62 {
        '+'
    } else {
        '/'
    }
}

/// Standard Base64 encoding with `=` padding: each group of three bytes
/// becomes four symbols; a final group of one or two bytes is padded.
pub open spec fn base64_encode(b: Seq<u8>) -> Seq<char>
    decreases b.len(),
{
    if b.len() == 0 {
        seq![]
    } else if b.len() == 1 {
        let n = b[0] as nat;
        seq![b64_symbol(n / 4), b64_symbol((n % 4) * 16), '=', '=']
    } else if b.len() == 2 {
        let n = (b[0] as nat) * 256 + (b[1] as nat);
        seq![b64_symbol(n / 1024), b64_symbol((n / 16) % 64), b64_symbol((n % 16) * 4), '=']
    } else {
        let n = (b[0] as nat) * 65536 + (b[1] as nat) * 256 + (b[2] as nat);
        seq![
            b64_symbol(n / 262144),
            b64_symbol((n / 4096) % 64),
            b64_symbol((n / 64) % 64),
            b64_symbol(n % 64),
        ] + base64_encode(b.subrange(3, b.len() as int))
    }
}

proof fn lemma_symbol_injective(a: nat, b: nat)
    requires
        a < 64,
        b < 64,
        b64_symbol(a) == b64_symbol(b),
    ensures
        a == b,
{
    let ca = b64_symbol(a) as u32;
    let cb = b64_symbol(b) as u32;
    if a < 26 {
        assert(ca == 65 + a);
    } else if a < 52 {
        assert(ca == 97 + (a - 26));
    } else if a < 62 {
        assert(ca == 48 + (a - 52));
    }
    if b < 26 {
        assert(cb == 65 + b);
    } else if b < 52 {
        assert(cb == 97 + (b - 26));
    } else if b < 62 {
        assert(cb == 48 + (b - 52));
    }
}

proof fn lemma_symbol_not_pad(a: nat)
    requires
        a < 64,
    ensures
        b64_symbol(a) != '=',
{
    let c = b64_symbol(a) as u32;
    if a < 26 {
        assert(c == 65 + a);
    } else if a < 52 {
        assert(c == 97 + (a - 26));
    } else if a < 62 {
        assert(c == 48 + (a - 52));
    }
}

proof fn lemma_group_symbols(b: Seq<u8>)
    requires
        b.len() >= 3,
    ensures
        base64_encode(b).len() >= 4,
        base64_encode(b)[2] != '=',
        base64_encode(b)[3] != '=',
{
    let n = (b[0] as nat) * 65536 + (b[1] as nat) * 256 + (b[2] as nat);
    lemma_symbol_not_pad((n / 64) % 64);
    lemma_symbol_not_pad(n % 64);
}

proof fn lemma_three_bytes_from_symbols(na: int, nb: int)
    by (nonlinear_arith)
    requires
        0 <= na < 16777216,
        0 <= nb < 16777216,
        na / 262144 == nb / 262144,
        (na / 4096) % 64 == (nb / 4096) % 64,
        (na / 64) % 64 == (nb / 64) % 64,
        na % 64 == nb % 64,
    ensures
        na == nb,
{
    assert(na == 262144 * (na / 262144) + 4096 * ((na / 4096) % 64) + 64 * ((na / 64) % 64) + na % 64);
    assert(nb == 262144 * (nb / 262144) + 4096 * ((nb / 4096) % 64) + 64 * ((nb / 64) % 64) + nb % 64);
}

proof fn lemma_two_bytes_from_symbols(na: int, nb: int)
    by (nonlinear_arith)
    requires
        0 <= na < 65536,
        0 <= nb < 65536,
        na / 1024 == nb / 1024,
        (na / 16) % 64 == (nb / 16) % 64,
        (na % 16) * 4 == (nb % 16) * 4,
    ensures
        na == nb,
{
    assert(na == 1024 * (na / 1024) + 16 * ((na / 16) % 64) + na % 16);
    assert(nb == 1024 * (nb / 1024) + 16 * ((nb / 16) % 64) + nb % 16);
}

proof fn lemma_one_byte_from_symbols(na: int, nb: int)
    by (nonlinear_arith)
    requires
        0 <= na < 256,
        0 <= nb < 256,
        na / 4 == nb / 4,
        (na % 4) * 16 == (nb % 4) * 16,
    ensures
        na == nb,
{
    assert(na == 4 * (na / 4) + na % 4);
    assert(nb == 4 * (nb / 4) + nb % 4);
}

/// The 24-bit value of the first three bytes.
spec fn group_value(x: Seq<u8>) -> nat {
    (x[0] as nat) * 65536 + (x[1] as nat) * 256 + (x[2] as nat)
}

/// The four symbols of a 24-bit value.
spec fn group_symbols(n: nat) -> Seq<char> {
    seq![b64_symbol(n / 262144), b64_symbol((n / 4096) % 64), b64_symbol((n / 64) % 64), b64_symbol(n % 64)]
}

proof fn lemma_encode_split(x: Seq<u8>)
    requires
        x.len() >= 3,
    ensures
        base64_encode(x) == group_symbols(group_value(x)) + base64_encode(x.subrange(3, x.len() as int)),
{
}

proof fn lemma_group_value_range(x: Seq<u8>)
    requires
        x.len() >= 3,
    ensures
        group_value(x) < 16777216,
{
}

proof fn lemma_quarters(n: int)
    by (nonlinear_arith)
    requires
        0 <= n < 16777216,
    ensures
        n / 262144 < 64,
        (n / 4096) % 64 < 64,
        (n / 64) % 64 < 64,
        n % 64 < 64,
{
}

proof fn lemma_bytes_from_value(a0: int, a1: int, a2: int, b0: int, b1: int, b2: int)
    by (nonlinear_arith)
    requires
        0 <= a0 < 256,
        0 <= a1 < 256,
        0 <= a2 < 256,
        0 <= b0 < 256,
        0 <= b1 < 256,
        0 <= b2 < 256,
        a0 * 65536 + a1 * 256 + a2 == b0 * 65536 + b1 * 256 + b2,
    ensures
        a0 == b0,
        a1 == b1,
        a2 == b2,
{
}

proof fn lemma_group_symbols_injective(na: nat, nb: nat)
    requires
        na < 16777216,
        nb < 16777216,
        group_symbols(na) == group_symbols(nb),
    ensures
        na == nb,
{
    lemma_quarters(na as int);
    lemma_quarters(nb as int);
    assert(group_symbols(na)[0] == group_symbols(nb)[0]);
    assert(group_symbols(na)[1] == group_symbols(nb)[1]);
    assert(group_symbols(na)[2] == group_symbols(nb)[2]);
    assert(group_symbols(na)[3] == group_symbols(nb)[3]);
    lemma_symbol_injective(na / 262144, nb / 262144);
    lemma_symbol_injective((na / 4096) % 64, (nb / 4096) % 64);
    lemma_symbol_injective((na / 64) % 64, (nb / 64) % 64);
    lemma_symbol_injective(na % 64, nb % 64);
    lemma_three_bytes_from_symbols(na as int, nb as int);
}

proof fn lemma_group_prefix(a: Seq<u8>, b: Seq<u8>)
    requires
        a.len() >= 3,
        b.len() >= 3,
        base64_encode(a) == base64_encode(b),
    ensures
        a[0] == b[0],
        a[1] == b[1],
        a[2] == b[2],
        base64_encode(a.subrange(3, a.len() as int)) == base64_encode(b.subrange(3, b.len() as int)),
{
    lemma_encode_split(a);
    lemma_encode_split(b);
    let ga = group_symbols(group_value(a));
    let gb = group_symbols(group_value(b));
    let e = base64_encode(a);
    assert(ga =~= e.subrange(0, 4));
    assert(gb =~= e.subrange(0, 4));
    assert(base64_encode(a.subrange(3, a.len() as int)) =~= e.subrange(4, e.len() as int));
    assert(base64_encode(b.subrange(3, b.len() as int)) =~= e.subrange(4, e.len() as int));
    lemma_group_value_range(a);
    lemma_group_value_range(b);
    lemma_group_symbols_injective(group_value(a), group_value(b));
    lemma_bytes_from_value(a[0] as int, a[1] as int, a[2] as int, b[0] as int, b[1] as int, b[2] as int);
}

/// Where the padding falls: one trailing byte leaves two `=`, two leave one,
/// a full group leaves none in its four symbols.
proof fn lemma_pad_shape(x: Seq<u8>)
    requires
        x.len() > 0,
    ensures
        base64_encode(x).len() >= 4,
        x.len() == 1 ==> base64_encode(x).len() == 4 && base64_encode(x)[2] == '='
            && base64_encode(x)[3] == '=',
        x.len() == 2 ==> base64_encode(x).len() == 4 && base64_encode(x)[2] != '='
            && base64_encode(x)[3] == '=',
        x.len() >= 3 ==> base64_encode(x)[2] != '=' && base64_encode(x)[3] != '=',
{
    if x.len() >= 3 {
        lemma_group_symbols(x);
    } else if x.len() == 2 {
        let n = (x[0] as nat) * 256 + (x[1] as nat);
        assert((n % 16) * 4 < 64);
        lemma_symbol_not_pad((n % 16) * 4);
    }
}

proof fn lemma_single_byte_injective(a: Seq<u8>, b: Seq<u8>)
    requires
        a.len() == 1,
        b.len() == 1,
        base64_encode(a) == base64_encode(b),
    ensures
        a == b,
{
    let ea = base64_encode(a);
    let eb = base64_encode(b);
    let na = a[0] as nat;
    let nb = b[0] as nat;
    assert(ea[0] == eb[0] && ea[1] == eb[1]);
    assert(na / 4 < 64 && nb / 4 < 64);
    lemma_symbol_injective(na / 4, nb / 4);
    lemma_symbol_injective((na % 4) * 16, (nb % 4) * 16);
    lemma_one_byte_from_symbols(na as int, nb as int);
    assert(a =~= b);
}

proof fn lemma_byte_pair_injective(a: Seq<u8>, b: Seq<u8>)
    requires
        a.len() == 2,
        b.len() == 2,
        base64_encode(a) == base64_encode(b),
    ensures
        a == b,
{
    let ea = base64_encode(a);
    let eb = base64_encode(b);
    let na = (a[0] as nat) * 256 + (a[1] as nat);
    let nb = (b[0] as nat) * 256 + (b[1] as nat);
    assert(ea[0] == eb[0] && ea[1] == eb[1] && ea[2] == eb[2]);
    assert(na < 65536 && nb < 65536);
    assert(na / 1024 < 64 && nb / 1024 < 64);
    lemma_symbol_injective(na / 1024, nb / 1024);
    lemma_symbol_injective((na / 16) % 64, (nb / 16) % 64);
    lemma_symbol_injective((na % 16) * 4, (nb % 16) * 4);
    lemma_two_bytes_from_symbols(na as int, nb as int);
    lemma_bytes_two(a[0] as int, a[1] as int, b[0] as int, b[1] as int);
    assert(a =~= b);
}

/// Standard Base64 encoding is injective: text that encodes some bytes
/// encodes no other bytes, so decoding it gives back exactly those bytes.
pub proof fn lemma_base64_injective(a: Seq<u8>, b: Seq<u8>)
    requires
        base64_encode(a) == base64_encode(b),
    ensures
        a == b,
    decreases a.len(),
{
    if a.len() == 0 || b.len() == 0 {
        if a.len() > 0 {
            lemma_pad_shape(a);
        }
        if b.len() > 0 {
            lemma_pad_shape(b);
        }
        assert(a =~= b);
    } else {
        lemma_pad_shape(a);
        lemma_pad_shape(b);
        if a.len() == 1 {
            lemma_single_byte_injective(a, b);
        } else if a.len() == 2 {
            lemma_byte_pair_injective(a, b);
        } else {
            lemma_group_prefix(a, b);
            let ra = a.subrange(3, a.len() as int);
            let rb = b.subrange(3, b.len() as int);
            lemma_base64_injective(ra, rb);
            assert(a =~= seq![a[0], a[1], a[2]] + ra);
            assert(b =~= seq![b[0], b[1], b[2]] + rb);
        }
    }
}

proof fn lemma_bytes_two(a0: int, a1: int, b0: int, b1: int)
    by (nonlinear_arith)
    requires
        0 <= a0 < 256,
        0 <= a1 < 256,
        0 <= b0 < 256,
        0 <= b1 < 256,
        a0 * 256 + a1 == b0 * 256 + b1,
    ensures
        a0 == b0,
        a1 == b1,
{
}

/// Encodes `data` with the `base64` crate's `STANDARD` engine
/// (`Engine::encode`). Claimed: the result is the RFC 4648 standard-alphabet
/// encoding with padding, as that engine's documentation states.
#[verifier::external_body]
pub(crate) fn base64_standard_encode(data: &[u8]) -> (s: String)
    ensures
        s@ == base64_encode(data@),
{
    base64::engine::general_purpose::STANDARD.encode(data)
}

/// What the standard Base64 engine decodes from `text`: the bytes, or the
/// decoder's error message.
pub uninterp spec fn base64_decoded(text: Seq<char>) -> Result<Seq<u8>, Seq<char>>;

/// Decodes standard Base64 with padding (`base64::engine::general_purpose::
/// STANDARD`, `Engine::decode`). Claimed: the result is the named decoding
/// of `text`, with the error turned into its message; since that engine
/// requires canonical padding and no trailing bits, decoded bytes encode back
/// to `text`; and the standard encoding of some bytes decodes to those bytes.
#[verifier::external_body]
pub(crate) fn base64_standard_decode(text: &str) -> (r: Result<Vec<u8>, String>)
    ensures
        match r {
            Ok(v) => base64_decoded(text@) == Ok::<Seq<u8>, Seq<char>>(v@),
            Err(m) => base64_decoded(text@) == Err::<Seq<u8>, Seq<char>>(m@),
        },
        r matches Ok(v) ==> base64_encode(v@) == text@,
        r is Err ==> forall|b: Seq<u8>| #[trigger] base64_encode(b) != text@,
{
    base64::engine::general_purpose::STANDARD.decode(text).map_err(|e| e.to_string())
}

// ---------------------------------------------------------------------------
// UTF-8
// ---------------------------------------------------------------------------

/// What `String::from_utf8_lossy` returns on `bytes`: valid sequences are
/// decoded, invalid ones replaced by U+FFFD.
pub uninterp spec fn utf8_lossy(bytes: Seq<u8>) -> Seq<char>;

/// The message of std's `Utf8Error` for invalid UTF-8 `bytes`: where the
/// invalid sequence starts and how long it is.
pub uninterp spec fn utf8_error_text(bytes: Seq<u8>) -> Seq<char>;

/// Decodes `bytes` as strict UTF-8 (std `str::from_utf8`), keeping the
/// error and its message on failure. Claimed: success exactly on valid
/// UTF-8, giving the decoded characters; the message is the named one.
#[verifier::external_body]
pub(crate) fn utf8_decode(bytes: &[u8]) -> (r: Result<&str, (Utf8Error, String)>)
    ensures
        r is Ok <==> valid_utf8(bytes@),
        r matches Ok(s) ==> s@ == decode_utf8(bytes@),
        r matches Err(e) ==> e.1@ == utf8_error_text(bytes@),
{
    std::str::from_utf8(bytes).map_err(|e| (e, e.to_string()))
}

/// Decodes `bytes` as UTF-8, replacing invalid sequences (std
/// `String::from_utf8_lossy`, made owned). Claimed: the result is the named
/// lossy decoding, and on valid UTF-8 it is the plain decoding.
#[verifier::external_body]
pub(crate) fn utf8_decode_lossy(bytes: &[u8]) -> (s: String)
    ensures
        s@ == utf8_lossy(bytes@),
        valid_utf8(bytes@) ==> s@ == decode_utf8(bytes@),
{
    String::from_utf8_lossy(bytes).into_owned()
}

/// The UTF-8 bytes of `s`, copied into a vector.
pub fn utf8_encode(s: &str) -> (b: Vec<u8>)
    ensures
        b@ == encode_utf8(s@),
{
    let bytes = s.as_bytes();
    let mut b: Vec<u8> = Vec::new();
    let mut i: usize = 0;
    while i < bytes.len()
        invariant
            0 <= i <= bytes@.len(),
            bytes@ == encode_utf8(s@),
            b@ =~= bytes@.subrange(0, i as int),
        decreases bytes@.len() - i,
    {
        b.push(bytes[i]);
        i = i + 1;
    }
    b
}

} // verus!
