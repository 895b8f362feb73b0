//! Decimal and hexadecimal renderings of numbers and bytes.
use vstd::prelude::*;
use vstd::string::*;

verus! {

/// The character of a decimal digit.
pub open spec fn digit_char(d: nat) -> char {
    (48 + d) as char
}

/// The decimal rendering of a natural number, without sign or leading zeros.
pub open spec fn decimal(n: nat) -> Seq<char>
    decreases n,
{
    if n < 10 {
        seq![digit_char(n)]
    } else {
        decimal(n / 10).push(digit_char(n % 10))
    }
}

/// `u64::to_string` from std: renders the number in decimal, as its
/// `Display` documentation describes.
#[verifier::external_body]
pub(crate) fn u64_to_decimal(x: u64) -> (res: String)
    ensures
        res@ == decimal(x as nat),
{
    x.to_string()
}


/// The value of four 64-bit words, least significant first.
pub open spec fn u256_value(words: Seq<u64>) -> nat {
    (words[0] + words[1] * 0x1_0000_0000_0000_0000 + words[2] * 0x1_0000_0000_0000_0000_0000_0000_0000_0000
        + words[3] * 0x1_0000_0000_0000_0000_0000_0000_0000_0000_0000_0000_0000_0000) as nat
}

/// The `Display` rendering of a 256-bit unsigned integer of the `uint` crate
/// (through `router_wasm_bindings::ethabi`): its value in decimal.
#[verifier::external_body]
pub(crate) fn u256_to_decimal(words: [u64; 4]) -> (res: String)
    ensures
        res@ == decimal(u256_value(words@)),
{
    router_wasm_bindings::ethabi::ethereum_types::U256(words).to_string()
}

/// The lower-case hexadecimal digit of a value below 16.
pub open spec fn hex_digit(v: nat) -> char {
    if v < 10 {
        (48 + v) as char
    } else {
        (87 + v) as char
    }
}

/// Two lower-case hexadecimal digits per byte, most significant first.
pub open spec fn hex_lower(bytes: Seq<u8>) -> Seq<char>
    decreases bytes.len(),
{
    if bytes.len() == 0 {
        Seq::empty()
    } else {
        seq![hex_digit((bytes[0] / 16) as nat), hex_digit((bytes[0] % 16) as nat)] + hex_lower(
            bytes.drop_first(),
        )
    }
}

/// `hex::encode`: two lower-case hexadecimal digits per byte.
#[verifier::external_body]
pub(crate) fn hex_encode(bytes: &Vec<u8>) -> (res: String)
    ensures
        res@ == hex_lower(bytes@),
{
    hex::encode(bytes)
}

/// The value of a hexadecimal digit of either case, if the byte is one.
pub open spec fn hex_value(c: u8) -> Option<nat> {
    if 48 <= c <= 57 {
        Some((c - 48) as nat)
    } else if 97 <= c <= 102 {
        Some((c - 87) as nat)
    } else if 65 <= c <= 70 {
        Some((c - 55) as nat)
    } else {
        None
    }
}

/// The bytes that a text of hexadecimal digit pairs spells, if it is one.
pub open spec fn hex_bytes(s: Seq<u8>) -> Option<Seq<u8>>
    decreases s.len(),
{
    if s.len() == 0 {
        Some(Seq::empty())
    } else if s.len() == 1 {
        None
    } else {
        match (hex_value(s[0]), hex_value(s[1]), hex_bytes(s.skip(2))) {
            (Some(h), Some(l), Some(rest)) => Some(seq![(h * 16 + l) as u8] + rest),
            _ => None,
        }
    }
}

/// `hex::decode`: digits of either case, two per byte; it fails on an odd
/// length or on a byte that is no hex digit.
#[verifier::external_body]
pub(crate) fn hex_decode(data: &Vec<u8>) -> (res: Result<Vec<u8>, ()>)
    ensures
        match res {
            Ok(v) => hex_bytes(data@) == Some(v@),
            Err(_) => hex_bytes(data@) is None,
        },
{
    hex::decode(data).map_err(|_| ())
}

/// What `str::replace` gives: every match of `from`, from left to right and
/// without overlap, replaced by `to`.
pub open spec fn replace_all(s: Seq<char>, from: Seq<char>, to: Seq<char>) -> Seq<char>
    decreases s.len(),
{
    if from.len() == 0 || s.len() < from.len() {
        s
    } else if s.take(from.len() as int) == from {
        to + replace_all(s.skip(from.len() as int), from, to)
    } else {
        seq![s[0]] + replace_all(s.drop_first(), from, to)
    }
}

/// `str::replace` from std with a non-empty pattern.
#[verifier::external_body]
pub(crate) fn replace(s: &String, from: &str, to: &str) -> (res: String)
    requires
        from@.len() > 0,
    ensures
        res@ == replace_all(s@, from@, to@),
{
    s.replace(from, to)
}

/// The character of a six-bit value in the standard base64 alphabet.
pub open spec fn base64_char(v: nat) -> char {
    if v < 26 {
        (65 + v) as char
    } else if v < 52 {
        (71 + v) as char
    } else if v < 62 {
        (v - 4) as char
    } else if v == 62 {
        '+'
    } else {
        '/'
    }
}

/// Standard base64 with padding: four characters for each group of three bytes.
pub open spec fn base64_standard(b: Seq<u8>) -> Seq<char>
    decreases b.len(),
{
    if b.len() == 0 {
        Seq::empty()
    } else if b.len() == 1 {
        seq![base64_char((b[0] / 4) as nat), base64_char(((b[0] % 4) * 16) as nat), '=', '=']
    } else if b.len() == 2 {
        seq![
            base64_char((b[0] / 4) as nat),
            base64_char(((b[0] % 4) * 16 + b[1] / 16) as nat),
            base64_char(((b[1] % 16) * 4) as nat),
            '=',
        ]
    } else {
        seq![
            base64_char((b[0] / 4) as nat),
            base64_char(((b[0] % 4) * 16 + b[1] / 16) as nat),
            base64_char(((b[1] % 16) * 4 + b[2] / 64) as nat),
            base64_char((b[2] % 64) as nat),
        ] + base64_standard(b.skip(3))
    }
}

/// The `Display` rendering of `cosmwasm_std::Binary`: the bytes in standard base64 with padding.
#[verifier::external_body]
pub(crate) fn binary_to_string(bytes: &Vec<u8>) -> (res: String)
    ensures
        res@ == base64_standard(bytes@),
{
    cosmwasm_std::Binary::from(bytes.as_slice()).to_string()
}

/// What `base64::decode` gives on a string; it is not written out here.
pub uninterp spec fn base64_decoding(s: Seq<char>) -> Option<Seq<u8>>;

/// `base64::decode` with the standard alphabet. Beyond naming its result, the
/// contract states only that it gives back the bytes of a string that the
/// standard padded encoding made from them; which other strings it accepts,
/// and what it makes of them, is left to the name.
#[verifier::external_body]
pub(crate) fn base64_decode(s: &String) -> (res: Result<Vec<u8>, ()>)
    ensures
        match res {
            Ok(v) => base64_decoding(s@) == Some(v@),
            Err(_) => base64_decoding(s@) is None,
        },
        res is Err ==> forall|b: Seq<u8>| #[trigger] base64_standard(b) != s@,
        res matches Ok(v) ==> forall|b: Seq<u8>| #[trigger] base64_standard(b) == s@ ==> v@ == b,
{
    base64::decode(s).map_err(|_| ())
}

/// The `Debug` rendering of a `bool`.
pub open spec fn bool_text(b: bool) -> Seq<char> {
    if b {
        "true"@
    } else {
        "false"@
    }
}

/// The `Debug` renderings of the items of a list of `bool`s, separated by ", ".
pub open spec fn bools_items_text(bs: Seq<bool>) -> Seq<char>
    decreases bs.len(),
{
    if bs.len() == 0 {
        Seq::empty()
    } else if bs.len() == 1 {
        bool_text(bs[0])
    } else {
        bools_items_text(bs.drop_last()) + ", "@ + bool_text(bs.last())
    }
}

/// The `Debug` rendering of a list of `bool`s, such as `[true, false]`.
pub open spec fn bools_text(bs: Seq<bool>) -> Seq<char> {
    "["@ + bools_items_text(bs) + "]"@
}

/// Appends the `Debug` rendering of `b`.
pub fn push_bool_text(s: &mut String, b: bool)
    ensures
        final(s)@ == old(s)@ + bool_text(b),
{
    if b {
        s.append("true");
    } else {
        s.append("false");
    }
}

/// Appends the `Debug` rendering of a list of `bool`s.
pub fn push_bools_text(s: &mut String, bs: &Vec<bool>)
    ensures
        final(s)@ == old(s)@ + bools_text(bs@),
{
    let ghost start = s@;
    s.append("[");
    let n = bs.len();
    for i in 0..n
        invariant
            n == bs@.len(),
            s@ == start + "["@ + bools_items_text(bs@.take(i as int)),
    {
        assert(bs@.take(i + 1).drop_last() =~= bs@.take(i as int));
        assert(bs@.take(i + 1).last() == bs@[i as int]);
        if i > 0 {
            s.append(", ");
        } else {
            assert(bs@.take(0) =~= Seq::<bool>::empty());
        }
        push_bool_text(s, bs[i]);
        if i == 0 {
            assert(bs@.take(1) =~= seq![bs@[0]]);
        }
        assert(s@ =~= start + "["@ + bools_items_text(bs@.take(i + 1)));
    }
    assert(bs@.take(n as int) =~= bs@);
    s.append("]");
    assert(s@ =~= start + bools_text(bs@));
}

} // verus!
