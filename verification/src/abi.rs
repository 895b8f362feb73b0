//! Ethereum ABI decoding of the values that inbound requests carry.
use vstd::prelude::*;
use router_wasm_bindings::ethabi::{decode, ParamType, Token};

use crate::text::u256_value;
use vstd::utf8::{decode_utf8, valid_utf8};

verus! {

/// The kinds of ABI parameter that inbound payloads are made of.
#[derive(Clone, Copy, Debug, PartialEq, Eq, Structural)]
pub enum AbiParamType {
    Address,
    /// An unsigned integer of the given width in bits.
    Uint(usize),
    Bytes,
    String,
}

/// A decoded ABI value.
#[derive(Clone, Debug, PartialEq, Eq)]
pub enum AbiToken {
    /// The twenty bytes of an address.
    Address(Vec<u8>),
    /// A 256-bit unsigned integer as four 64-bit words, least significant first.
    Uint([u64; 4]),
    Bytes(Vec<u8>),
    String(String),
    /// A kind of value that none of the parameter kinds above decodes to.
    Other,
}

pub enum AbiTokenView {
    Address(Seq<u8>),
    Uint(nat),
    Bytes(Seq<u8>),
    String(Seq<char>),
    Other,
}

impl View for AbiToken {
    type V = AbiTokenView;

    open spec fn view(&self) -> AbiTokenView {
        match self {
            AbiToken::Address(a) => AbiTokenView::Address(a@),
            AbiToken::Uint(w) => AbiTokenView::Uint(u256_value(w@)),
            AbiToken::Bytes(b) => AbiTokenView::Bytes(b@),
            AbiToken::String(t) => AbiTokenView::String(t@),
            AbiToken::Other => AbiTokenView::Other,
        }
    }
}

pub open spec fn tokens_view(tokens: Seq<AbiToken>) -> Seq<AbiTokenView> {
    tokens.map_values(|t: AbiToken| t@)
}

/// A token of the kind that the parameter kind decodes to.
pub open spec fn token_fits(kind: AbiParamType, token: AbiTokenView) -> bool {
    match kind {
        AbiParamType::Address => token matches AbiTokenView::Address(a) && a.len() == 20,
        AbiParamType::Uint(_) => token is Uint,
        AbiParamType::Bytes => token is Bytes,
        AbiParamType::String => token is String,
    }
}

/// One token per parameter, each of its parameter's kind.
pub open spec fn tokens_fit(kinds: Seq<AbiParamType>, tokens: Seq<AbiTokenView>) -> bool {
    &&& tokens.len() == kinds.len()
    &&& forall|i: int| 0 <= i < kinds.len() ==> token_fits(kinds[i], #[trigger] tokens[i])
}

/// What `ethabi::decode` gives for the parameter kinds and the data. The
/// trusted contract below states all of it but the characters that stand in
/// for invalid UTF-8 in a string.
pub uninterp spec fn abi_decoding(kinds: Seq<AbiParamType>, data: Seq<u8>) -> Option<Seq<AbiTokenView>>;

/// The value of bytes read as a big-endian unsigned integer.
pub open spec fn be_value(s: Seq<u8>) -> nat
    decreases s.len(),
{
    if s.len() == 0 {
        0
    } else {
        be_value(s.drop_last()) * 256 + s.last() as nat
    }
}

/// The bytes that the offset word at `at` points to: after the length word
/// at that offset, as many bytes as it counts.
pub open spec fn dynamic_bytes(d: Seq<u8>, at: int) -> Seq<u8> {
    let v = word_low(d, at) as int;
    d.subrange(v + 32, v + 32 + word_low(d, v))
}

/// The decoder reads the parameter whose head word is at `at`: the word lies
/// within the data and, for bytes and strings, it is an offset whose length
/// word and counted bytes lie within the data too.
pub open spec fn param_decodes(kind: AbiParamType, d: Seq<u8>, at: int) -> bool {
    &&& at + 32 <= d.len()
    &&& is_dynamic(kind) ==> {
        let v = word_low(d, at) as int;
        &&& word_is_small(d, at)
        &&& v + 32 <= d.len()
        &&& word_is_small(d, v)
        &&& v + 32 + word_low(d, v) <= d.len()
    }
}

/// The decoder reads every parameter: the `i`-th one has its head word at `32 * i`.
pub open spec fn decodes(kinds: Seq<AbiParamType>, d: Seq<u8>) -> bool {
    forall|i: int| 0 <= i < kinds.len() ==> param_decodes(#[trigger] kinds[i], d, 32 * i)
}

/// The token that the decoder makes of the parameter whose head word is at
/// `at`: an address is the word's last twenty bytes, an integer the word read
/// big-endian, bytes those the word points to, and a string the text of
/// those bytes where they are valid UTF-8.
pub open spec fn token_decoded(kind: AbiParamType, d: Seq<u8>, at: int, t: AbiTokenView) -> bool {
    match kind {
        AbiParamType::Address => t == AbiTokenView::Address(d.subrange(at + 12, at + 32)),
        AbiParamType::Uint(_) => t == AbiTokenView::Uint(be_value(d.subrange(at, at + 32))),
        AbiParamType::Bytes => t == AbiTokenView::Bytes(dynamic_bytes(d, at)),
        AbiParamType::String => t is String && (valid_utf8(dynamic_bytes(d, at)) ==> t == AbiTokenView::String(
            decode_utf8(dynamic_bytes(d, at)),
        )),
    }
}

/// The tokens are those that the decoder makes of the data, one per parameter.
pub open spec fn tokens_decoded(kinds: Seq<AbiParamType>, d: Seq<u8>, tokens: Seq<AbiTokenView>) -> bool {
    &&& tokens.len() == kinds.len()
    &&& forall|i: int| 0 <= i < kinds.len() ==> token_decoded(kinds[i], d, 32 * i, #[trigger] tokens[i])
}

proof fn lemma_decoded_tokens_fit(kinds: Seq<AbiParamType>, d: Seq<u8>, tokens: Seq<AbiTokenView>)
    requires
        decodes(kinds, d),
        tokens_decoded(kinds, d, tokens),
    ensures
        tokens_fit(kinds, tokens),
{
    assert forall|i: int| 0 <= i < kinds.len() implies token_fits(kinds[i], #[trigger] tokens[i]) by {
        assert(param_decodes(kinds[i], d, 32 * i));
        assert(token_decoded(kinds[i], d, 32 * i, tokens[i]));
    }
}

/// `ethabi::decode` (version 17, re-exported by router-wasm-bindings) on
/// addresses, unsigned integers, byte strings and strings. Each parameter's
/// head word is read in turn, 32 bytes apart; an offset or length word must
/// have its first 28 bytes zero and is read from its last four. Decoding
/// succeeds exactly when every word it reads, and every byte string it
/// points to, lies within the data (which rules out empty data for a
/// non-empty parameter list). The tokens are stated as `token_decoded`
/// says; a string is decoded lossily, and what it holds where its bytes are
/// not valid UTF-8 is left to the name. The decoder adds offsets and lengths
/// that it reads from the data; where those sums could pass the end of the
/// data it can overflow a 32-bit `usize`, which `requires` leaves out.
#[verifier::external_body]
pub(crate) fn abi_decode(kinds: &Vec<AbiParamType>, data: &Vec<u8>) -> (res: Result<Vec<AbiToken>, ()>)
    requires
        offsets_fit(kinds@, data@),
    ensures
        res is Ok <==> decodes(kinds@, data@),
        match res {
            Ok(t) => abi_decoding(kinds@, data@) == Some(tokens_view(t@)) && tokens_decoded(
                kinds@,
                data@,
                tokens_view(t@),
            ),
            Err(_) => abi_decoding(kinds@, data@) is None,
        },
{
    let params: Vec<ParamType> = kinds.iter().map(|k| match k {
        AbiParamType::Address => ParamType::Address,
        AbiParamType::Uint(n) => ParamType::Uint(*n),
        AbiParamType::Bytes => ParamType::Bytes,
        AbiParamType::String => ParamType::String,
    }).collect();
    let tokens = decode(&params, data).map_err(|_| ())?;
    Ok(tokens.into_iter().map(|t| match t {
        Token::Address(a) => AbiToken::Address(a.0.to_vec()),
        Token::Uint(u) => AbiToken::Uint(u.0),
        Token::Bytes(b) => AbiToken::Bytes(b),
        Token::String(t) => AbiToken::String(t),
        _ => AbiToken::Other,
    }).collect())
}

/// The first 28 bytes of the word at `at` are zero: the decoder reads such a
/// word as an offset or a length.
pub open spec fn word_is_small(d: Seq<u8>, at: int) -> bool {
    forall|j: int| 0 <= j < 28 ==> #[trigger] d[at + j] == 0
}

/// The value of the last four bytes of the word at `at`, most significant first.
pub open spec fn word_low(d: Seq<u8>, at: int) -> nat {
    (d[at + 28] * 0x100_0000 + d[at + 29] * 0x1_0000 + d[at + 30] * 0x100 + d[at + 31]) as nat
}

/// A parameter kind whose value the decoder finds through an offset.
pub open spec fn is_dynamic(kind: AbiParamType) -> bool {
    kind is Bytes || kind is String
}

/// If the word at `at` is read as an offset, the word it points at, and the
/// bytes that word counts, lie within the data.
pub open spec fn offset_fits(d: Seq<u8>, at: int) -> bool {
    (at + 32 <= d.len() && word_is_small(d, at)) ==> {
        let v = word_low(d, at);
        &&& v + 32 <= d.len()
        &&& word_is_small(d, v as int) ==> v + 32 + word_low(d, v as int) <= d.len()
    }
}

/// Every offset that decoding the parameters reads stays within the data.
/// Where one does not, decoding fails in any case (the decoder finds the
/// data too short) on a 64-bit `usize`.
pub open spec fn offsets_fit(kinds: Seq<AbiParamType>, d: Seq<u8>) -> bool {
    forall|i: int| 0 <= i < kinds.len() && is_dynamic(#[trigger] kinds[i]) ==> offset_fits(d, 32 * i)
}

/// What decoding gives once the offsets are checked: `None` where an offset
/// points past the data, else the decoder's result.
pub open spec fn checked_decoding(kinds: Seq<AbiParamType>, data: Seq<u8>) -> Option<Seq<AbiTokenView>> {
    if offsets_fit(kinds, data) {
        abi_decoding(kinds, data)
    } else {
        None
    }
}

fn word_small(data: &Vec<u8>, at: usize) -> (res: bool)
    requires
        at + 32 <= data.len(),
    ensures
        res == word_is_small(data@, at as int),
{
    for j in 0..28
        invariant
            at + 32 <= data.len(),
            forall|k: int| 0 <= k < j ==> #[trigger] data@[at + k] == 0,
    {
        if data[at + j] != 0 {
            return false;
        }
    }
    true
}

fn word_low_value(data: &Vec<u8>, at: usize) -> (res: u64)
    requires
        at + 32 <= data.len(),
    ensures
        res == word_low(data@, at as int),
{
    (data[at + 28] as u64) * 0x100_0000 + (data[at + 29] as u64) * 0x1_0000 + (data[at + 30] as u64) * 0x100
        + (data[at + 31] as u64)
}

fn offset_fits_at(data: &Vec<u8>, at: usize) -> (res: bool)
    ensures
        res == offset_fits(data@, at as int),
{
    let n = data.len();
    if at > n || n - at < 32 {
        return true;
    }
    if !word_small(data, at) {
        return true;
    }
    let v = word_low_value(data, at);
    if v + 32 > n as u64 {
        return false;
    }
    let vu = v as usize;
    if !word_small(data, vu) {
        return true;
    }
    let len = word_low_value(data, vu);
    v + 32 + len <= n as u64
}

/// Whether every offset that decoding the parameters reads stays within the data.
pub fn abi_offsets_fit(kinds: &Vec<AbiParamType>, data: &Vec<u8>) -> (res: bool)
    ensures
        res == offsets_fit(kinds@, data@),
{
    let n = kinds.len();
    let mut i: usize = 0;
    while i < n
        invariant
            n == kinds@.len(),
            i <= n,
            forall|j: int| 0 <= j < i && is_dynamic(#[trigger] kinds@[j]) ==> offset_fits(data@, 32 * j),
        decreases n - i,
    {
        let k = kinds[i];
        if matches!(k, AbiParamType::Bytes) || matches!(k, AbiParamType::String) {
            if i <= data.len() / 32 {
                if !offset_fits_at(data, 32 * i) {
                    return false;
                }
            } else {
                assert(32 * i + 32 > data@.len());
            }
        }
        i = i + 1;
    }
    true
}

/// Decodes the data after checking its offsets; `Err` where an offset
/// points past the data or the decoder fails.
pub fn abi_decode_checked(kinds: &Vec<AbiParamType>, data: &Vec<u8>) -> (res: Result<Vec<AbiToken>, ()>)
    ensures
        res is Ok <==> offsets_fit(kinds@, data@) && decodes(kinds@, data@),
        match res {
            Ok(t) => checked_decoding(kinds@, data@) == Some(tokens_view(t@)) && tokens_decoded(
                kinds@,
                data@,
                tokens_view(t@),
            ) && tokens_fit(kinds@, tokens_view(t@)),
            Err(_) => checked_decoding(kinds@, data@) is None,
        },
{
    if !abi_offsets_fit(kinds, data) {
        return Err(());
    }
    let res = abi_decode(kinds, data);
    if let Ok(t) = &res {
        proof {
            lemma_decoded_tokens_fit(kinds@, data@, tokens_view(t@));
        }
    }
    res
}

/// `U256::as_u32` of the `uint` crate: the value when it fits in 32 bits;
/// `None` where that method panics.
pub fn u256_as_u32(words: [u64; 4]) -> (res: Option<u32>)
    ensures
        match res {
            Some(v) => v as nat == u256_value(words@),
            None => u256_value(words@) > u32::MAX,
        },
{
    if words[1] != 0 || words[2] != 0 || words[3] != 0 || words[0] > 0xFFFF_FFFF {
        assert(u256_value(words@) > u32::MAX) by (nonlinear_arith)
            requires
                words@[1] != 0 || words@[2] != 0 || words@[3] != 0 || words@[0] > 0xFFFF_FFFF,
                words@.len() == 4,
        {
        }
        None
    } else {
        Some(words[0] as u32)
    }
}

} // verus!
