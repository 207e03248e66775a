//! The ABI parameter layer: which parameter kinds a calldata block is read
//! with, and the values that come out of it.

use ethabi::decode;
use ethabi::ParamType;
use ethabi::Token;
use vstd::prelude::*;

verus! {

/// The parameter kinds that governance calldata is made of.
#[derive(Clone, Copy, Debug, PartialEq, Eq, Structural)]
pub enum ParamKind {
    /// `bytes32`
    FixedBytes32,
    /// `uint256`
    Uint256,
    /// `bytes`
    Bytes,
    /// `address[]`
    AddressArray,
}

/// One decoded parameter, held as plain values.
#[derive(Clone, Debug, PartialEq, Eq)]
pub enum AbiToken {
    /// A fixed-size byte string.
    FixedBytes(Vec<u8>),
    /// A 256-bit unsigned integer as four 64-bit limbs, least significant first.
    Uint([u64; 4]),
    /// A byte string of any length.
    Bytes(Vec<u8>),
    /// An array, element by element: the address an element holds, or `None`
    /// for an element that is no address.
    Array(Vec<Option<[u8; 20]>>),
    /// Any parameter of a kind that governance calldata does not use.
    Other,
}

/// The mathematical value of an [`AbiToken`].
pub enum AbiValue {
    FixedBytes(Seq<u8>),
    Uint([u64; 4]),
    Bytes(Seq<u8>),
    Array(Seq<Option<[u8; 20]>>),
    Other,
}

impl View for AbiToken {
    type V = AbiValue;

    open spec fn view(&self) -> AbiValue {
        match self {
            AbiToken::FixedBytes(b) => AbiValue::FixedBytes(b@),
            AbiToken::Uint(limbs) => AbiValue::Uint(*limbs),
            AbiToken::Bytes(b) => AbiValue::Bytes(b@),
            AbiToken::Array(items) => AbiValue::Array(items@),
            AbiToken::Other => AbiValue::Other,
        }
    }
}

/// The number that four limbs stand for, least significant limb first.
pub open spec fn uint_value(limbs: [u64; 4]) -> nat {
    (limbs[0] + limbs[1] * 0x1_0000_0000_0000_0000 + limbs[2]
        * 0x1_0000_0000_0000_0000_0000_0000_0000_0000 + limbs[3]
        * 0x1_0000_0000_0000_0000_0000_0000_0000_0000_0000_0000_0000_0000) as nat
}

/// A 256-bit number cut down to 64 bits: its remainder modulo 2^64.
pub open spec fn truncated_u64(limbs: [u64; 4]) -> u64 {
    (uint_value(limbs) % 0x1_0000_0000_0000_0000) as u64
}

/// Cuts a 256-bit number down to its low 64 bits. Higher bits are dropped,
/// not reported.
pub fn truncate_uint(limbs: &[u64; 4]) -> (r: u64)
    ensures
        r == truncated_u64(*limbs),
{
    proof {
        let high = limbs[1] + limbs[2] * 0x1_0000_0000_0000_0000 + limbs[3]
            * 0x1_0000_0000_0000_0000_0000_0000_0000_0000;
        assert(uint_value(*limbs) == limbs[0] + high * 0x1_0000_0000_0000_0000) by (nonlinear_arith)
            requires
                high == limbs[1] + limbs[2] * 0x1_0000_0000_0000_0000 + limbs[3]
                    * 0x1_0000_0000_0000_0000_0000_0000_0000_0000,
                uint_value(*limbs) == limbs[0] + limbs[1] * 0x1_0000_0000_0000_0000 + limbs[2]
                    * 0x1_0000_0000_0000_0000_0000_0000_0000_0000 + limbs[3]
                    * 0x1_0000_0000_0000_0000_0000_0000_0000_0000_0000_0000_0000_0000,
        ;
        vstd::arithmetic::div_mod::lemma_mod_multiples_vanish(
            high as int,
            limbs[0] as int,
            0x1_0000_0000_0000_0000,
        );
        vstd::arithmetic::div_mod::lemma_small_mod(limbs[0] as nat, 0x1_0000_0000_0000_0000);
    }
    limbs[0]
}

/// The values of a sequence of tokens.
pub open spec fn token_values(tokens: Seq<AbiToken>) -> Seq<AbiValue> {
    tokens.map_values(|t: AbiToken| t@)
}

/// `ethabi::Error`, the error of the ABI decoder. It is only carried from the
/// decoder to the place where it is mapped; nothing is claimed of it.
#[verifier::external_type_specification]
#[verifier::external_body]
pub struct ExAbiError(ethabi::Error);

/// What `ethabi::decode` makes of `data` when reading it with `schema`, on a
/// target whose `usize` has 64 bits: the decoded parameters, or `None` where
/// it reports an error.
pub uninterp spec fn abi_decoded(schema: Seq<ParamKind>, data: Seq<u8>) -> Option<Seq<AbiValue>>;

/// Calls `ethabi::decode` with the parameter types that `schema` names.
///
/// The contract only names the outcome: the tokens handed back are those that
/// `ethabi::decode` produced for these arguments, each moved into an
/// [`AbiToken`], and an error is returned exactly when it returned one.
/// Nothing here is proved of the layout that the decoder accepts. The decoder
/// reads offsets of up to 32 bits from the calldata and adds to them: it
/// returns for every input where `usize` has 64 bits, which is what this
/// library is built for.
#[verifier::external_body]
pub(crate) fn abi_decode(schema: &Vec<ParamKind>, data: &Vec<u8>) -> (r: Result<Vec<AbiToken>, ethabi::Error>)
    ensures
        r matches Ok(tokens) ==> abi_decoded(schema@, data@) == Some(token_values(tokens@)),
        r is Err ==> abi_decoded(schema@, data@) is None,
{
    let types: Vec<ParamType> = schema.iter().map(|k| match k {
        ParamKind::FixedBytes32 => ParamType::FixedBytes(32),
        ParamKind::Uint256 => ParamType::Uint(256),
        ParamKind::Bytes => ParamType::Bytes,
        ParamKind::AddressArray => ParamType::Array(Box::new(ParamType::Address)),
    }).collect();
    Ok(decode(&types, data)?.into_iter().map(|t| match t {
        Token::FixedBytes(b) => AbiToken::FixedBytes(b),
        Token::Uint(u) => AbiToken::Uint(u.0),
        Token::Bytes(b) => AbiToken::Bytes(b),
        Token::Array(a) => AbiToken::Array(a.into_iter().map(|x| x.into_address().map(Into::into)).collect()),
        _ => AbiToken::Other,
    }).collect())
}

/// Decodes `data` with `schema`; `None` where the layout does not match.
pub fn decode_params(schema: &Vec<ParamKind>, data: &Vec<u8>) -> (r: Option<Vec<AbiToken>>)
    ensures
        r matches Some(tokens) ==> abi_decoded(schema@, data@) == Some(token_values(tokens@)),
        r is None ==> abi_decoded(schema@, data@) is None,
{
    match abi_decode(schema, data) {
        Ok(tokens) => Some(tokens),
        Err(_) => None,
    }
}

} // verus!
