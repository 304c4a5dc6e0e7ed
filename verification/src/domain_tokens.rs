//! The tokens that stand for a domain name: one of the native contract for a
//! second-level name, and one of the wrapper contract for a wrapped name.

use crate::hexcode::{strip_prefix, trim_prefix};
use vstd::prelude::*;

verus! {

/// The address of a contract or an account: twenty bytes.
#[derive(Clone, Copy, Debug, PartialEq, Eq)]
pub struct Address {
    pub bytes: [u8; 20],
}

/// The kind of a token.
#[derive(Clone, Copy, Debug, PartialEq, Eq, Structural)]
pub enum DomainTokenType {
    Native,
    Wrapped,
}

/// A token of a domain: its number in decimal digits, and the contract that
/// keeps it.
#[derive(Clone, Debug, PartialEq, Eq)]
pub struct DomainToken {
    pub id: String,
    pub contract: Address,
    pub _type: DomainTokenType,
}

/// What is known of a domain.
#[derive(Clone, Debug, PartialEq, Eq)]
pub struct DetailedDomain {
    /// The hash of the name, in hexadecimal digits.
    pub id: String,
    pub name: Option<String>,
    /// The hash of the first label of the name.
    pub labelhash: Option<Vec<u8>>,
    /// The address of the owner, in hexadecimal digits.
    pub owner: String,
    /// The address of whoever owns the wrapped name, where it is wrapped.
    pub wrapped_owner: Option<String>,
}

/// The settings of the subgraph that a domain was read from.
#[derive(Clone, Debug, PartialEq, Eq)]
pub struct SubgraphSettings {
    /// The contract that keeps the tokens of second-level names.
    pub native_token_contract: Option<Address>,
}

/// Why the tokens of a domain could not be told.
#[derive(Clone, Copy, Debug, PartialEq, Eq, Structural)]
pub enum TokenError {
    /// The domain has no hash of its first label.
    NoLabelhash,
    /// A hash is no number in hexadecimal digits.
    InvalidTokenId,
    /// The owner is no address.
    InvalidOwner,
}

/// A token as a mathematical value.
pub struct DomainTokenView {
    pub id: Seq<char>,
    pub contract: Seq<u8>,
    pub _type: DomainTokenType,
}

impl View for DomainToken {
    type V = DomainTokenView;

    open spec fn view(&self) -> DomainTokenView {
        DomainTokenView { id: self.id@, contract: self.contract.bytes@, _type: self._type }
    }
}

/// The decimal digits of the number that `num_bigint` reads from text in
/// base sixteen; `None` where it reads no number.
pub uninterp spec fn decimal_of_hex(text: Seq<char>) -> Option<Seq<char>>;

/// The twenty bytes that `ethers_core` reads as an address from text; `None`
/// where it reads none.
pub uninterp spec fn address_of(text: Seq<char>) -> Option<Seq<u8>>;

/// The lower-case hexadecimal digit for a number from 0 to 15.
pub open spec fn hex_digit(value: int) -> char {
    if value < 10 {
        ('0' as u8 + value) as u8 as char
    } else {
        ('a' as u8 + value - 10) as u8 as char
    }
}

/// Bytes in lower-case hexadecimal digits, two digits to a byte, the high
/// half of a byte first.
pub open spec fn hex_text(bytes: Seq<u8>) -> Seq<char> {
    Seq::new(
        2 * bytes.len(),
        |i: int|
            if i % 2 == 0 {
                hex_digit(bytes[i / 2] as int / 16)
            } else {
                hex_digit(bytes[i / 2] as int % 16)
            },
    )
}

/// The number of dots in a name.
pub open spec fn dots(name: Seq<char>) -> nat
    decreases name.len(),
{
    if name.len() == 0 {
        0
    } else {
        dots(name.drop_last()) + if name.last() == '.' {
            1nat
        } else {
            0nat
        }
    }
}

/// A name of two labels, such as `abc.eth`; a domain without a name counts
/// as one.
pub open spec fn second_level(name: Option<String>) -> bool {
    match name {
        Some(name) => dots(name@) == 1,
        None => true,
    }
}

/// The number of a token, in decimal digits, from a hash in hexadecimal
/// digits with or without leading `0x`.
pub open spec fn token_number(hash: Seq<char>) -> Option<Seq<char>> {
    decimal_of_hex(strip_prefix(hash))
}

/// The token of the native contract with a number read from the hash of the
/// first label: `None` for a domain without such a hash, `Some(None)` for a
/// hash that is no number.
pub open spec fn native_token(contract: Address, number: Option<Option<Seq<char>>>) -> Result<
    DomainTokenView,
    TokenError,
> {
    match number {
        None => Err(TokenError::NoLabelhash),
        Some(None) => Err(TokenError::InvalidTokenId),
        Some(Some(id)) => Ok(
            DomainTokenView { id, contract: contract.bytes@, _type: DomainTokenType::Native },
        ),
    }
}

/// The token of the wrapper contract with a number read from the hash of the
/// name and an address read from the owner: `None` for what could not be
/// read.
pub open spec fn wrapped_token(number: Option<Seq<char>>, owner: Option<Seq<u8>>) -> Result<
    DomainTokenView,
    TokenError,
> {
    match number {
        None => Err(TokenError::InvalidTokenId),
        Some(id) => match owner {
            None => Err(TokenError::InvalidOwner),
            Some(contract) => Ok(
                DomainTokenView { id, contract, _type: DomainTokenType::Wrapped },
            ),
        },
    }
}

/// The number read from the hash of the first label of a domain.
pub open spec fn labelhash_number(domain: DetailedDomain) -> Option<Option<Seq<char>>> {
    match domain.labelhash {
        Some(labelhash) => Some(token_number(hex_text(labelhash@))),
        None => None,
    }
}

/// The native token of a domain, in a sequence: none where there is no
/// native contract or the name is not of the second level.
pub open spec fn native_tokens(domain: DetailedDomain, settings: SubgraphSettings) -> Result<
    Seq<DomainTokenView>,
    TokenError,
> {
    match settings.native_token_contract {
        Some(contract) if second_level(domain.name) => match native_token(
            contract,
            labelhash_number(domain),
        ) {
            Ok(token) => Ok(seq![token]),
            Err(error) => Err(error),
        },
        _ => Ok(Seq::empty()),
    }
}

/// The wrapped token of a domain, in a sequence: none where the name is not
/// wrapped.
pub open spec fn wrapped_tokens(domain: DetailedDomain) -> Result<Seq<DomainTokenView>, TokenError> {
    if domain.wrapped_owner is Some {
        match wrapped_token(token_number(domain.id@), address_of(domain.owner@)) {
            Ok(token) => Ok(seq![token]),
            Err(error) => Err(error),
        }
    } else {
        Ok(Seq::empty())
    }
}

/// The tokens of a domain: the native one, then the wrapped one.
pub open spec fn tokens_of(domain: DetailedDomain, settings: SubgraphSettings) -> Result<
    Seq<DomainTokenView>,
    TokenError,
> {
    match native_tokens(domain, settings) {
        Err(error) => Err(error),
        Ok(native) => match wrapped_tokens(domain) {
            Err(error) => Err(error),
            Ok(wrapped) => Ok(native + wrapped),
        },
    }
}

/// The text of an optional text.
pub open spec fn text_of(text: Option<String>) -> Option<Seq<char>> {
    match text {
        Some(text) => Some(text@),
        None => None,
    }
}

/// The text of an optional reading of a text.
pub open spec fn reading_of(reading: Option<Option<String>>) -> Option<Option<Seq<char>>> {
    match reading {
        Some(text) => Some(text_of(text)),
        None => None,
    }
}

/// The bytes of an optional address.
pub open spec fn bytes_of(address: Option<Address>) -> Option<Seq<u8>> {
    match address {
        Some(address) => Some(address.bytes@),
        None => None,
    }
}

/// A token or an error is the one expected.
pub open spec fn token_is(found: Result<DomainToken, TokenError>, expected: Result<
    DomainTokenView,
    TokenError,
>) -> bool {
    match (found, expected) {
        (Ok(token), Ok(view)) => token@ == view,
        (Err(error), Err(other)) => error == other,
        _ => false,
    }
}

/// The views of tokens.
pub open spec fn token_views(tokens: Seq<DomainToken>) -> Seq<DomainTokenView> {
    tokens.map_values(|token: DomainToken| token@)
}

/// Calls `hex::encode`, which writes each byte as two lower-case hexadecimal
/// digits, the high half first.
#[verifier::external_body]
fn encode(bytes: &Vec<u8>) -> (text: String)
    ensures
        text@ == hex_text(bytes@),
{
    hex::encode(bytes)
}

/// Calls `BigInt::from_str_radix` of `num_bigint` with the base sixteen and
/// writes the number out in decimal digits. What it reads depends on the
/// text alone.
#[verifier::external_body]
fn decimal(text: &str) -> (digits: Option<String>)
    ensures
        match digits {
            Some(digits) => decimal_of_hex(text@) == Some(digits@),
            None => decimal_of_hex(text@) is None,
        },
{
    match <bigdecimal::num_bigint::BigInt as bigdecimal::Num>::from_str_radix(text, 16) {
        Ok(number) => Some(number.to_string()),
        Err(_) => None,
    }
}

/// Calls `Address::from_str` of `ethers_core` and hands out the twenty
/// bytes of the address. What it reads depends on the text alone.
#[verifier::external_body]
fn address(text: &str) -> (parsed: Option<Address>)
    ensures
        match parsed {
            Some(address) => address_of(text@) == Some(address.bytes@),
            None => address_of(text@) is None,
        },
{
    match <ethers_core::types::Address as std::str::FromStr>::from_str(text) {
        Ok(address) => Some(Address { bytes: address.0 }),
        Err(_) => None,
    }
}

/// Whether a name has exactly one dot.
fn has_one_dot(name: &str) -> (one: bool)
    ensures
        one == (dots(name@) == 1),
{
    let length = name.unicode_len();
    let mut count: usize = 0;
    let mut i: usize = 0;
    assert(name@.take(0) =~= Seq::<char>::empty());
    while i < length
        invariant
            length == name@.len(),
            i <= length,
            count <= i,
            count == dots(name@.take(i as int)),
        decreases length - i,
    {
        let c = name.get_char(i);
        proof {
            assert(name@.take(i + 1).drop_last() =~= name@.take(i as int));
        }
        if c == '.' {
            count += 1;
        }
        i += 1;
    }
    assert(name@.take(length as int) =~= name@);
    count == 1
}

/// The number of a token, in decimal digits, from a hash in hexadecimal
/// digits with or without leading `0x`.
pub fn token_id(hexed_id: &str) -> (id: Result<String, TokenError>)
    ensures
        match id {
            Ok(digits) => token_number(hexed_id@) == Some(digits@),
            Err(error) => token_number(hexed_id@) is None && error == TokenError::InvalidTokenId,
        },
{
    match decimal(trim_prefix(hexed_id)) {
        Some(digits) => Ok(digits),
        None => Err(TokenError::InvalidTokenId),
    }
}

/// The token of the native contract with the number that was read from the
/// hash of the first label: `None` where the domain has no such hash,
/// `Some(None)` where the hash is no number.
pub fn native_token_with(contract: Address, number: Option<Option<String>>) -> (token: Result<
    DomainToken,
    TokenError,
>)
    ensures
        token_is(token, native_token(contract, reading_of(number))),
{
    match number {
        None => Err(TokenError::NoLabelhash),
        Some(None) => Err(TokenError::InvalidTokenId),
        Some(Some(id)) => Ok(DomainToken { id, contract, _type: DomainTokenType::Native }),
    }
}

/// The token of the wrapper contract with the number that was read from the
/// hash of the name and the address that was read from the owner: `None`
/// for what could not be read.
pub fn wrapped_token_with(number: Option<String>, owner: Option<Address>) -> (token: Result<
    DomainToken,
    TokenError,
>)
    ensures
        token_is(token, wrapped_token(text_of(number), bytes_of(owner))),
{
    match number {
        None => Err(TokenError::InvalidTokenId),
        Some(id) => match owner {
            None => Err(TokenError::InvalidOwner),
            Some(contract) => Ok(DomainToken { id, contract, _type: DomainTokenType::Wrapped }),
        },
    }
}

/// The tokens of a domain: the token of the native contract where there is
/// such a contract and the name is of the second level, then the token of
/// the wrapper contract where the name is wrapped.
pub fn extract_tokens_from_domain(domain: &DetailedDomain, subgraph_settings: &SubgraphSettings)
    -> (tokens: Result<Vec<DomainToken>, TokenError>)
    ensures
        match tokens {
            Ok(tokens) => tokens_of(*domain, *subgraph_settings) == Ok::<
                Seq<DomainTokenView>,
                TokenError,
            >(token_views(tokens@)),
            Err(error) => tokens_of(*domain, *subgraph_settings) == Err::<
                Seq<DomainTokenView>,
                TokenError,
            >(error),
        },
{
    let mut tokens: Vec<DomainToken> = Vec::new();
    if let Some(contract) = subgraph_settings.native_token_contract {
        let is_second_level_domain = match &domain.name {
            Some(name) => has_one_dot(name.as_str()),
            None => true,
        };
        if is_second_level_domain {
            let number = match &domain.labelhash {
                Some(labelhash) => Some(decimal(trim_prefix(encode(labelhash).as_str()))),
                None => None,
            };
            match native_token_with(contract, number) {
                Ok(token) => tokens.push(token),
                Err(error) => {
                    return Err(error);
                },
            }
        }
    }
    let ghost native = token_views(tokens@);
    assert(native_tokens(*domain, *subgraph_settings) == Ok::<Seq<DomainTokenView>, TokenError>(
        native,
    )) by {
        assert(native =~= native_tokens(*domain, *subgraph_settings).unwrap());
    }
    if domain.wrapped_owner.is_some() {
        let number = decimal(trim_prefix(domain.id.as_str()));
        let owner = address(domain.owner.as_str());
        match wrapped_token_with(number, owner) {
            Ok(token) => tokens.push(token),
            Err(error) => {
                return Err(error);
            },
        }
    }
    assert(token_views(tokens@) =~= native + wrapped_tokens(*domain).unwrap());
    Ok(tokens)
}

} // verus!
