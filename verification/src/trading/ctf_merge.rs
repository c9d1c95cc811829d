//! Gasless merging of YES and NO tokens through the relayer of a Safe wallet.
//!
//! Burns equal YES + NO token pairs and credits USDC to the Safe without
//! requiring wallet-funded gas.

use crate::crypto::{
    accepts_secret_key, hex_bytes, hex_chars, hex_decode, hex_encode, is_secret_key, keccak256,
    keccak_digest, public_key, public_point, recoverable_signature, sign_digest,
};
use crate::text::parts::{after_prefix, blank, is_blank, trim_end, trimmed_end, without_prefix};
use crate::text::{
    count_chars, count_text, join2, same_ignoring_ascii_case, text_ignoring_case,
};
use vstd::prelude::*;
use vstd::string::*;
use vstd::utf8::encode_utf8;

pub mod laws;
pub mod relayer;

verus! {

/// USDC.e (Bridged USDC) on Polygon
pub const USDC_ADDRESS: &'static str = "0x2791Bca1f2de4661ED88A30C99A7a9449Aa84174";

/// Polymarket Conditional Tokens Framework contract on Polygon
pub const CTF_ADDRESS: &'static str = "0x4D97DCd97eC945f40cF65F87097ACe5EA0476045";

/// Polymarket negative-risk adapter contract on Polygon
pub const NEG_RISK_ADAPTER_ADDRESS: &'static str = "0xd91E80cF2E7be2e162c6513ceD06f1dD0dA35296";

/// Polygon
pub const CHAIN_ID: u64 = 137;

pub const DEFAULT_RELAYER_BASE_URL: &'static str = "https://relayer-v2.polymarket.com";

pub const ZERO_ADDRESS: &'static str = "0x0000000000000000000000000000000000000000";

/// Merges complete pairs of tokens.
pub trait PairMerger {
    fn preflight_check(&self) -> Result<(), String>;

    fn merge_positions(&self, condition_id: &str, amount: u64, neg_risk: bool) -> Result<
        String,
        String,
    >;
}

/// Which contract merges the tokens of a market.
#[derive(Clone, Copy, Debug, PartialEq, Eq, Structural)]
pub enum MergeVenue {
    Standard,
    NegRisk,
}

impl MergeVenue {
    pub fn from_neg_risk(neg_risk: bool) -> (r: MergeVenue)
        ensures
            r == if neg_risk {
                MergeVenue::NegRisk
            } else {
                MergeVenue::Standard
            },
    {
        if neg_risk {
            MergeVenue::NegRisk
        } else {
            MergeVenue::Standard
        }
    }

    pub open spec fn target_chars(self) -> Seq<char> {
        match self {
            MergeVenue::Standard => CTF_ADDRESS@,
            MergeVenue::NegRisk => NEG_RISK_ADAPTER_ADDRESS@,
        }
    }

    pub fn merge_target(self) -> (r: &'static str)
        ensures
            r@ == self.target_chars(),
    {
        match self {
            MergeVenue::Standard => CTF_ADDRESS,
            MergeVenue::NegRisk => NEG_RISK_ADAPTER_ADDRESS,
        }
    }

    pub fn approval_operator(self) -> (r: &'static str)
        ensures
            r@ == self.target_chars(),
    {
        self.merge_target()
    }

    pub fn label(self) -> (r: &'static str)
        ensures
            r@ == match self {
                MergeVenue::Standard => "standard"@,
                MergeVenue::NegRisk => "neg_risk"@,
            },
    {
        match self {
            MergeVenue::Standard => "standard",
            MergeVenue::NegRisk => "neg_risk",
        }
    }
}

/// So many zero bytes.
pub open spec fn zeros(n: nat) -> Seq<u8> {
    Seq::new(n, |i: int| 0u8)
}

fn zero_bytes(n: usize) -> (r: Vec<u8>)
    ensures
        r@ == zeros(n as nat),
{
    let mut r: Vec<u8> = Vec::new();
    while r.len() < n
        invariant
            r@.len() <= n,
            r@ == zeros(r@.len()),
        decreases n - r@.len(),
    {
        let ghost before = r@;
        r.push(0);
        assert(before.push(0u8) =~= zeros(before.len() + 1));
    }
    r
}

/// The last `n` bytes of a number, the most significant first.
pub open spec fn be_bytes(v: nat, n: nat) -> Seq<u8>
    decreases n,
{
    if n == 0 {
        Seq::empty()
    } else {
        be_bytes(v / 256, (n - 1) as nat).push((v % 256) as u8)
    }
}

fn number_bytes(val: u128, n: usize) -> (r: Vec<u8>)
    ensures
        r@ == be_bytes(val as nat, n as nat),
    decreases n,
{
    if n == 0 {
        Vec::new()
    } else {
        let mut r = number_bytes(val / 256, n - 1);
        r.push((val % 256) as u8);
        r
    }
}

/// A number as a word of thirty-two bytes.
pub open spec fn number_word(v: nat) -> Seq<u8> {
    be_bytes(v, 32)
}

pub fn u256_bytes(val: u128) -> (r: Vec<u8>)
    ensures
        r@ == number_word(val as nat),
        r@.len() == 32,
{
    proof {
        lemma_be_len(val as nat, 32);
    }
    number_bytes(val, 32)
}

proof fn lemma_be_len(v: nat, n: nat)
    ensures
        be_bytes(v, n).len() == n,
    decreases n,
{
    if n > 0 {
        lemma_be_len(v / 256, (n - 1) as nat);
    }
}

/// A word writes the number it was made from.
pub proof fn law_word_writes_number(v: nat)
    requires
        v <= u128::MAX,
    ensures
        number_word(v).len() == 32,
        crate::crypto::big_endian(number_word(v)) == v,
{
    lemma_be_len(v, 32);
    lemma_be_value(v, 32, 32);
    vstd::arithmetic::power2::lemma2_to64();
    vstd::arithmetic::power2::lemma_pow2_adds(64, 64);
    vstd::arithmetic::power2::lemma_pow2_adds(128, 128);
    lemma_pow256(32);
    assert(vstd::arithmetic::power2::pow2(128) * vstd::arithmetic::power2::pow2(128)
        >= vstd::arithmetic::power2::pow2(128)) by (nonlinear_arith)
        requires
            vstd::arithmetic::power2::pow2(128) >= 1,
    ;
    assert(v < vstd::arithmetic::power2::pow2(256));
    assert(v % pow256(32) == v) by {
        vstd::arithmetic::div_mod::lemma_small_mod(v, pow256(32));
    }
}

/// Two hundred fifty-six to the power of `n`.
pub open spec fn pow256(n: nat) -> nat
    decreases n,
{
    if n == 0 {
        1
    } else {
        256 * pow256((n - 1) as nat)
    }
}

proof fn lemma_pow256(n: nat)
    ensures
        pow256(n) == vstd::arithmetic::power2::pow2(8 * n),
        pow256(n) > 0,
    decreases n,
{
    vstd::arithmetic::power2::lemma2_to64();
    if n > 0 {
        lemma_pow256((n - 1) as nat);
        vstd::arithmetic::power2::lemma_pow2_adds(8, (8 * n - 8) as nat);
    }
}

proof fn lemma_be_value(v: nat, n: nat, m: nat)
    requires
        n == m,
    ensures
        crate::crypto::big_endian(be_bytes(v, n)) == v % pow256(m),
    decreases n,
{
    lemma_pow256(n);
    if n > 0 {
        let k = (n - 1) as nat;
        lemma_be_value(v / 256, k, k);
        lemma_pow256(k);
        let b = be_bytes(v, n);
        assert(b.drop_last() =~= be_bytes(v / 256, k));
        vstd::arithmetic::div_mod::lemma_mod_breakdown(v as int, 256, pow256(k) as int);
        assert(256 * ((v / 256) % pow256(k)) + v % 256 == v % (256 * pow256(k)));
    }
}

/// An address of twenty bytes as a word.
pub open spec fn address_word(a: Seq<u8>) -> Seq<u8> {
    zeros(12) + a
}

pub fn left_pad_address(addr: &Vec<u8>) -> (r: Vec<u8>)
    requires
        addr@.len() == 20,
    ensures
        r@ == address_word(addr@),
        r@.len() == 32,
{
    let mut r = zero_bytes(12);
    let mut a = addr.clone();
    assert(a@ =~= addr@);
    r.append(&mut a);
    r
}

/// A text without the mark of hexadecimal.
pub open spec fn bare_hex(s: Seq<char>) -> Seq<char> {
    after_prefix(s, "0x"@)
}

/// An address as it is written, leniently: digits that cannot be read give none, too few are filled
/// with zeros from the left, too many are cut.
pub open spec fn lenient_address(s: Seq<char>) -> Seq<u8> {
    let b = match hex_bytes(bare_hex(s)) {
        Some(b) => b,
        None => Seq::empty(),
    };
    if b.len() <= 20 {
        zeros((20 - b.len()) as nat) + b
    } else {
        b.take(20)
    }
}

pub fn parse_address(hex_addr: &str) -> (r: Vec<u8>)
    ensures
        r@ == lenient_address(hex_addr@),
        r@.len() == 20,
{
    let clean = without_prefix(hex_addr, "0x");
    let mut bytes = match hex_decode(clean.as_str()) {
        Some(bytes) => bytes,
        None => Vec::new(),
    };
    assert(hex_bytes(bare_hex(hex_addr@)) is None ==> bytes@ =~= Seq::<u8>::empty());
    if bytes.len() <= 20 {
        let mut r = zero_bytes(20 - bytes.len());
        r.append(&mut bytes);
        r
    } else {
        bytes.truncate(20);
        assert(bytes@ =~= hex_bytes(bare_hex(hex_addr@))->0.take(20));
        bytes
    }
}

/// What is wrong with an address.
#[derive(Clone, Copy, Debug, PartialEq, Eq, Structural)]
pub enum AddressError {
    InvalidHex,
    WrongLength(usize),
}

impl AddressError {
    pub open spec fn message_chars(self, context: Seq<char>) -> Seq<char> {
        match self {
            AddressError::InvalidHex => context,
            AddressError::WrongLength(n) => context + ": expected 20 bytes, got "@ + count_chars(
                n as nat,
            ),
        }
    }

    pub fn message(self, context: &str) -> (r: String)
        ensures
            r@ == self.message_chars(context@),
    {
        match self {
            AddressError::InvalidHex => context.to_owned(),
            AddressError::WrongLength(n) => {
                let mut r = join2(context, ": expected 20 bytes, got ");
                r.append(count_text(n as u64).as_str());
                r
            },
        }
    }
}

/// The twenty bytes of an address, or what is wrong with it.
pub open spec fn exact_address(s: Seq<char>) -> Result<Seq<u8>, AddressError> {
    match hex_bytes(bare_hex(s)) {
        Some(b) => if b.len() == 20 {
            Ok(b)
        } else {
            Err(AddressError::WrongLength(b.len() as usize))
        },
        None => Err(AddressError::InvalidHex),
    }
}

pub fn parse_exact_address(hex_addr: &str) -> (r: Result<Vec<u8>, AddressError>)
    ensures
        match r {
            Ok(b) => exact_address(hex_addr@) == Ok::<Seq<u8>, AddressError>(b@) && b@.len() == 20,
            Err(e) => exact_address(hex_addr@) == Err::<Seq<u8>, AddressError>(e),
        },
{
    let clean = without_prefix(hex_addr, "0x");
    match hex_decode(clean.as_str()) {
        Some(bytes) => if bytes.len() == 20 {
            Ok(bytes)
        } else {
            Err(AddressError::WrongLength(bytes.len()))
        },
        None => Err(AddressError::InvalidHex),
    }
}

/// An address in lower case, with the mark of hexadecimal.
pub open spec fn normal_address(s: Seq<char>) -> Result<Seq<char>, AddressError> {
    match exact_address(s) {
        Ok(b) => Ok("0x"@ + hex_chars(b)),
        Err(e) => Err(e),
    }
}

pub fn normalize_address_hex(hex_addr: &str) -> (r: Result<String, AddressError>)
    ensures
        match r {
            Ok(s) => normal_address(hex_addr@) == Ok::<Seq<char>, AddressError>(s@),
            Err(e) => normal_address(hex_addr@) == Err::<Seq<char>, AddressError>(e),
        },
{
    match parse_exact_address(hex_addr) {
        Ok(bytes) => {
            let digits = hex_encode(&bytes);
            Ok(join2("0x", digits.as_str()))
        },
        Err(e) => Err(e),
    }
}

/// A normal address names the same bytes, and is its own normal form.
pub proof fn law_normal_address_is_stable(s: Seq<char>)
    requires
        normal_address(s) is Ok,
    ensures
        exact_address(normal_address(s)->Ok_0) == exact_address(s),
        normal_address(normal_address(s)->Ok_0) == normal_address(s),
{
    let b = exact_address(s)->Ok_0;
    let t = "0x"@ + hex_chars(b);
    crate::crypto::law_hex_round_trip(b);
    assert(t.subrange(0, 0 + "0x"@.len() as int) =~= "0x"@);
    assert(crate::text::parts::stands_at(t, "0x"@, 0));
    assert(t.skip("0x"@.len() as int) =~= hex_chars(b));
}

/// What is wrong with a value of thirty-two bytes.
#[derive(Clone, Copy, Debug, PartialEq, Eq, Structural)]
pub enum Bytes32Error {
    InvalidHex,
    TooLong,
}

impl Bytes32Error {
    pub fn message(self) -> (r: &'static str)
        ensures
            r@ == match self {
                Bytes32Error::InvalidHex => "Invalid hex for bytes32"@,
                Bytes32Error::TooLong => "bytes32 value exceeds 32 bytes"@,
            },
    {
        match self {
            Bytes32Error::InvalidHex => "Invalid hex for bytes32",
            Bytes32Error::TooLong => "bytes32 value exceeds 32 bytes",
        }
    }
}

/// At most thirty-two bytes, filled with zeros from the left.
pub open spec fn word_of_hex(s: Seq<char>) -> Result<Seq<u8>, Bytes32Error> {
    match hex_bytes(bare_hex(s)) {
        Some(b) => if b.len() > 32 {
            Err(Bytes32Error::TooLong)
        } else {
            Ok(zeros((32 - b.len()) as nat) + b)
        },
        None => Err(Bytes32Error::InvalidHex),
    }
}

pub fn parse_bytes32(hex_str: &str) -> (r: Result<Vec<u8>, Bytes32Error>)
    ensures
        match r {
            Ok(b) => word_of_hex(hex_str@) == Ok::<Seq<u8>, Bytes32Error>(b@) && b@.len() == 32,
            Err(e) => word_of_hex(hex_str@) == Err::<Seq<u8>, Bytes32Error>(e),
        },
{
    let clean = without_prefix(hex_str, "0x");
    match hex_decode(clean.as_str()) {
        Some(bytes) => {
            if bytes.len() > 32 {
                return Err(Bytes32Error::TooLong);
            }
            let mut bytes = bytes;
            let mut r = zero_bytes(32 - bytes.len());
            r.append(&mut bytes);
            Ok(r)
        },
        None => Err(Bytes32Error::InvalidHex),
    }
}

/// The digest of a text.
pub open spec fn text_digest(s: Seq<char>) -> Seq<u8> {
    keccak256(encode_utf8(s))
}

fn digest_of_text(s: &str) -> (r: Vec<u8>)
    ensures
        r@ == text_digest(s@),
        r@.len() == 32,
{
    let mut bytes: Vec<u8> = Vec::new();
    bytes.extend_from_slice(s.as_bytes());
    assert(bytes@ =~= encode_utf8(s@));
    keccak_digest(&bytes)
}

/// The first four bytes of the digest of a function's signature.
pub open spec fn selector(signature: Seq<char>) -> Seq<u8> {
    text_digest(signature).take(4)
}

fn selector_of(signature: &str) -> (r: Vec<u8>)
    ensures
        r@ == selector(signature@),
        r@.len() == 4,
{
    let mut r = digest_of_text(signature);
    r.truncate(4);
    assert(r@ =~= selector(signature@));
    r
}

/// The call that merges `amount` pairs, in millionths: the pairs of a YES and a NO token.
pub open spec fn merge_call(condition: Seq<u8>, amount: nat) -> Seq<u8> {
    selector("mergePositions(address,bytes32,bytes32,uint256[],uint256)"@) + address_word(
        lenient_address(USDC_ADDRESS@),
    ) + zeros(32) + condition + number_word(160) + number_word(amount * 1_000_000) + number_word(2)
        + number_word(1) + number_word(2)
}

/// ABI-encode mergePositions(address,bytes32,bytes32,uint256[],uint256)
pub fn encode_merge_positions(condition_id: &str, amount: u64) -> (r: Result<
    Vec<u8>,
    Bytes32Error,
>)
    ensures
        match (r, word_of_hex(condition_id@)) {
            (Ok(data), Ok(condition)) => data@ == merge_call(condition, amount as nat),
            (Err(e), Err(fault)) => e == fault,
            _ => false,
        },
{
    let mut data = selector_of("mergePositions(address,bytes32,bytes32,uint256[],uint256)");
    let usdc = parse_address(USDC_ADDRESS);
    let mut condition = match parse_bytes32(condition_id) {
        Ok(condition) => condition,
        Err(e) => return Err(e),
    };
    let units: u128 = amount as u128 * 1_000_000;
    data.append(&mut left_pad_address(&usdc));
    data.append(&mut zero_bytes(32));
    data.append(&mut condition);
    data.append(&mut u256_bytes(160));
    data.append(&mut u256_bytes(units));
    data.append(&mut u256_bytes(2));
    data.append(&mut u256_bytes(1));
    data.append(&mut u256_bytes(2));
    Ok(data)
}

/// The call that lets an operator move all tokens.
pub open spec fn approval_call(operator: Seq<u8>) -> Seq<u8> {
    selector("setApprovalForAll(address,bool)"@) + address_word(operator) + number_word(1)
}

pub fn encode_set_approval_for_all(operator_hex: &str) -> (r: Result<Vec<u8>, AddressError>)
    ensures
        match (r, exact_address(operator_hex@)) {
            (Ok(data), Ok(operator)) => data@ == approval_call(operator),
            (Err(e), Err(fault)) => e == fault,
            _ => false,
        },
{
    let operator = match parse_exact_address(operator_hex) {
        Ok(operator) => operator,
        Err(e) => return Err(e),
    };
    let mut data = selector_of("setApprovalForAll(address,bool)");
    data.append(&mut left_pad_address(&operator));
    data.append(&mut u256_bytes(1));
    Ok(data)
}

/// The address of a secret key: the last twenty bytes of the digest of the public key without its
/// marking byte.
pub open spec fn derived_address(key: Seq<u8>) -> Seq<char> {
    "0x"@ + hex_chars(keccak256(public_point(key).skip(1)).skip(12))
}

pub fn derive_address(key: &Vec<u8>) -> (r: String)
    requires
        is_secret_key(key@),
    ensures
        r@ == derived_address(key@),
{
    let mut point = public_key(key);
    let coordinates = point.split_off(1);
    assert(coordinates@ =~= public_point(key@).skip(1));
    let mut hash = keccak_digest(&coordinates);
    let tail = hash.split_off(12);
    assert(tail@ =~= keccak256(public_point(key@).skip(1)).skip(12));
    let digits = hex_encode(&tail);
    join2("0x", digits.as_str())
}

/// The addresses of the contracts are addresses.
pub proof fn law_contracts_have_addresses()
    ensures
        exact_address(CTF_ADDRESS@) is Ok,
        exact_address(NEG_RISK_ADAPTER_ADDRESS@) is Ok,
        exact_address(USDC_ADDRESS@) is Ok,
        lenient_address(USDC_ADDRESS@) == exact_address(USDC_ADDRESS@)->Ok_0,
{
    reveal_strlit("0x2791Bca1f2de4661ED88A30C99A7a9449Aa84174");
    reveal_strlit("0x4D97DCd97eC945f40cF65F87097ACe5EA0476045");
    reveal_strlit("0xd91E80cF2E7be2e162c6513ceD06f1dD0dA35296");
    lemma_address("0x2791Bca1f2de4661ED88A30C99A7a9449Aa84174"@);
    lemma_address("0x4D97DCd97eC945f40cF65F87097ACe5EA0476045"@);
    lemma_address("0xd91E80cF2E7be2e162c6513ceD06f1dD0dA35296"@);
    let b = exact_address(USDC_ADDRESS@)->Ok_0;
    assert(zeros(0) + b =~= b);
}

/// Forty digits behind the mark of hexadecimal write an address.
proof fn lemma_address(s: Seq<char>)
    requires
        s.len() == 42,
        s[0] == '0' && s[1] == 'x',
        forall|i: int| 2 <= i < 42 ==> crate::crypto::hex_value(#[trigger] s[i]) is Some,
    ensures
        exact_address(s) is Ok,
{
    reveal_strlit("0x");
    assert(s.subrange(0, 0 + "0x"@.len() as int) =~= "0x"@);
    let t = s.skip("0x"@.len() as int);
    assert forall|i: int| 0 <= i < t.len() implies crate::crypto::hex_value(#[trigger] t[i])
        is Some by {
        assert(t[i] == s[i + 2]);
    }
    assert(bare_hex(s) =~= t);
}

/// Which of the addresses is wrong.
#[derive(Clone, Copy, Debug, PartialEq, Eq, Structural)]
pub enum AddressRole {
    Signer,
    Safe,
    RelayerApiKey,
    Target,
    ApprovalOperator,
}

impl AddressRole {
    pub open spec fn context_chars(self) -> Seq<char> {
        match self {
            AddressRole::Signer => "Invalid signer address"@,
            AddressRole::Safe => "Invalid safe address"@,
            AddressRole::RelayerApiKey => "Invalid relayer API key address"@,
            AddressRole::Target => "Invalid target address"@,
            AddressRole::ApprovalOperator => "Invalid approval operator address"@,
        }
    }

    pub fn context(self) -> (r: &'static str)
        ensures
            r@ == self.context_chars(),
    {
        match self {
            AddressRole::Signer => "Invalid signer address",
            AddressRole::Safe => "Invalid safe address",
            AddressRole::RelayerApiKey => "Invalid relayer API key address",
            AddressRole::Target => "Invalid target address",
            AddressRole::ApprovalOperator => "Invalid approval operator address",
        }
    }
}

/// Why a merger cannot be set up, or a transaction not be made.
#[derive(Clone, Debug)]
pub enum MergerError {
    PrivateKeyHex,
    PrivateKey,
    Address(AddressRole, AddressError),
    EmptyApiKey,
    /// The address given, and the one that the key has.
    SignerMismatch(String, String),
    /// The address of the API key, and that of the signer.
    ApiKeyMismatch(String, String),
    EmptyBaseUrl,
    Signing,
    /// A merge of no pairs.
    Nothing,
}

pub enum MergerFault {
    PrivateKeyHex,
    PrivateKey,
    Address(AddressRole, AddressError),
    EmptyApiKey,
    SignerMismatch(Seq<char>, Seq<char>),
    ApiKeyMismatch(Seq<char>, Seq<char>),
    EmptyBaseUrl,
    Signing,
    Nothing,
}

impl View for MergerError {
    type V = MergerFault;

    open spec fn view(&self) -> MergerFault {
        match self {
            MergerError::PrivateKeyHex => MergerFault::PrivateKeyHex,
            MergerError::PrivateKey => MergerFault::PrivateKey,
            MergerError::Address(role, e) => MergerFault::Address(*role, *e),
            MergerError::EmptyApiKey => MergerFault::EmptyApiKey,
            MergerError::SignerMismatch(a, b) => MergerFault::SignerMismatch(a@, b@),
            MergerError::ApiKeyMismatch(a, b) => MergerFault::ApiKeyMismatch(a@, b@),
            MergerError::EmptyBaseUrl => MergerFault::EmptyBaseUrl,
            MergerError::Signing => MergerFault::Signing,
            MergerError::Nothing => MergerFault::Nothing,
        }
    }
}

impl MergerFault {
    pub open spec fn message_chars(self) -> Seq<char> {
        match self {
            MergerFault::PrivateKeyHex => "Invalid private key hex"@,
            MergerFault::PrivateKey => "Invalid private key"@,
            MergerFault::Address(role, e) => e.message_chars(role.context_chars()),
            MergerFault::EmptyApiKey => "Relayer API key cannot be empty"@,
            MergerFault::SignerMismatch(given, derived) => "Provided signer address "@ + given
                + " does not match POLY_PRIVATE_KEY-derived address "@ + derived,
            MergerFault::ApiKeyMismatch(owner, signer) => "RELAYER_API_KEY_ADDRESS "@ + owner
                + " must match the signer address "@ + signer + " for SAFE relayer merge"@,
            MergerFault::EmptyBaseUrl => "Relayer base URL cannot be empty"@,
            MergerFault::Signing => "Failed to sign Safe tx hash"@,
            MergerFault::Nothing => "Cannot merge 0 pairs"@,
        }
    }
}

impl MergerError {
    pub fn message(&self) -> (r: String)
        ensures
            r@ == self@.message_chars(),
    {
        match self {
            MergerError::PrivateKeyHex => "Invalid private key hex".to_owned(),
            MergerError::PrivateKey => "Invalid private key".to_owned(),
            MergerError::Address(role, e) => e.message(role.context()),
            MergerError::EmptyApiKey => "Relayer API key cannot be empty".to_owned(),
            MergerError::SignerMismatch(given, derived) => {
                let mut r = join2("Provided signer address ", given.as_str());
                r.append(" does not match POLY_PRIVATE_KEY-derived address ");
                r.append(derived.as_str());
                r
            },
            MergerError::ApiKeyMismatch(owner, signer) => {
                let mut r = join2("RELAYER_API_KEY_ADDRESS ", owner.as_str());
                r.append(" must match the signer address ");
                r.append(signer.as_str());
                r.append(" for SAFE relayer merge");
                r
            },
            MergerError::EmptyBaseUrl => "Relayer base URL cannot be empty".to_owned(),
            MergerError::Signing => "Failed to sign Safe tx hash".to_owned(),
            MergerError::Nothing => "Cannot merge 0 pairs".to_owned(),
        }
    }
}

/// What a merger is set up from.
pub struct MergerSetup {
    pub private_key: Seq<char>,
    pub signer: Seq<char>,
    pub safe: Seq<char>,
    pub api_key: Seq<char>,
    pub api_key_address: Seq<char>,
    pub base_url: Seq<char>,
}

impl MergerSetup {
    pub open spec fn key(self) -> Option<Seq<u8>> {
        hex_bytes(bare_hex(self.private_key))
    }

    /// The first thing that is wrong, if anything is.
    pub open spec fn fault(self) -> Option<MergerFault> {
        match self.key() {
            None => Some(MergerFault::PrivateKeyHex),
            Some(key) => if !is_secret_key(key) {
                Some(MergerFault::PrivateKey)
            } else {
                match (
                    normal_address(self.signer),
                    normal_address(self.safe),
                    normal_address(self.api_key_address),
                ) {
                    (Err(e), _, _) => Some(MergerFault::Address(AddressRole::Signer, e)),
                    (_, Err(e), _) => Some(MergerFault::Address(AddressRole::Safe, e)),
                    (_, _, Err(e)) => Some(MergerFault::Address(AddressRole::RelayerApiKey, e)),
                    (Ok(signer), Ok(safe), Ok(owner)) => if blank(self.api_key) {
                        Some(MergerFault::EmptyApiKey)
                    } else if !text_ignoring_case(derived_address(key), signer) {
                        Some(MergerFault::SignerMismatch(signer, derived_address(key)))
                    } else if !text_ignoring_case(owner, signer) {
                        Some(MergerFault::ApiKeyMismatch(owner, signer))
                    } else if trimmed_end(self.base_url, '/').len() == 0 {
                        Some(MergerFault::EmptyBaseUrl)
                    } else {
                        None
                    },
                }
            },
        }
    }
}

/// A call of a contract from the Safe.
#[derive(Debug)]
pub struct SafeCall {
    pub to: String,
    pub data: Vec<u8>,
    pub metadata: &'static str,
}

/// What is next in a merge.
#[derive(Debug)]
pub enum MergeStep {
    /// The operator has to be approved first, by this call.
    Approve(SafeCall),
    /// The pairs can be merged.
    Merge,
}

/// Merges pairs through the relayer of a Safe.
#[derive(Debug)]
pub struct CtfMerger {
    signing_key: Vec<u8>,
    signer_address_hex: String,
    safe_address: Vec<u8>,
    safe_address_hex: String,
    relayer_base_url: String,
    relayer_api_key: String,
    relayer_api_key_address: String,
    neg_risk_approval_checked: bool,
}

/// A merger as plain values.
pub struct MergerView {
    pub key: Seq<u8>,
    pub signer: Seq<char>,
    pub safe: Seq<u8>,
    pub safe_hex: Seq<char>,
    pub base_url: Seq<char>,
    pub api_key: Seq<char>,
    pub api_key_address: Seq<char>,
    pub neg_risk_approved: bool,
}

impl View for CtfMerger {
    type V = MergerView;

    closed spec fn view(&self) -> MergerView {
        MergerView {
            key: self.signing_key@,
            signer: self.signer_address_hex@,
            safe: self.safe_address@,
            safe_hex: self.safe_address_hex@,
            base_url: self.relayer_base_url@,
            api_key: self.relayer_api_key@,
            api_key_address: self.relayer_api_key_address@,
            neg_risk_approved: self.neg_risk_approval_checked,
        }
    }
}

/// The domain in which the Safe signs: the chain and the Safe itself.
pub open spec fn safe_domain(safe: Seq<u8>) -> Seq<u8> {
    keccak256(
        text_digest("EIP712Domain(uint256 chainId,address verifyingContract)"@) + number_word(
            CHAIN_ID as nat,
        ) + address_word(safe),
    )
}

/// The digest of a transaction of the Safe: a plain call without value, gas terms or refund.
pub open spec fn safe_tx_struct(to: Seq<u8>, data: Seq<u8>, nonce: nat) -> Seq<u8> {
    keccak256(
        text_digest(
            "SafeTx(address to,uint256 value,bytes data,uint8 operation,uint256 safeTxGas,uint256 baseGas,uint256 gasPrice,address gasToken,address refundReceiver,uint256 nonce)"@,
        ) + address_word(to) + zeros(32) + keccak256(data) + zeros(192) + number_word(nonce),
    )
}

pub open spec fn safe_tx_hash(safe: Seq<u8>, to: Seq<u8>, data: Seq<u8>, nonce: nat) -> Seq<u8> {
    keccak256(seq![0x19u8, 0x01u8] + safe_domain(safe) + safe_tx_struct(to, data, nonce))
}

/// What is signed for a digest: the digest as a signed Ethereum message.
pub open spec fn signed_message(hash: Seq<u8>) -> Seq<u8> {
    keccak256(encode_utf8("\x19Ethereum Signed Message:\n32"@) + hash)
}

/// The signature of a digest: that of the signed message, its mark raised by 31.
pub open spec fn safe_signature(key: Seq<u8>, hash: Seq<u8>) -> Option<Seq<u8>> {
    match recoverable_signature(key, signed_message(hash)) {
        Some((signature, mark)) => Some(signature.push((mark + 31) as u8)),
        None => None,
    }
}

impl CtfMerger {
    /// The key is a secret key, and the Safe has an address.
    pub closed spec fn well_formed(&self) -> bool {
        is_secret_key(self.signing_key@) && self.safe_address@.len() == 20
    }

    pub fn new(
        private_key_hex: &str,
        signer_address_hex: &str,
        safe_address_hex: &str,
        relayer_api_key: &str,
        relayer_api_key_address: &str,
    ) -> (r: Result<CtfMerger, MergerError>)
        requires
            hex_bytes(bare_hex(private_key_hex@)) matches Some(key) ==> key.len() == 32,
        ensures
            ({
                let setup = MergerSetup {
                    private_key: private_key_hex@,
                    signer: signer_address_hex@,
                    safe: safe_address_hex@,
                    api_key: relayer_api_key@,
                    api_key_address: relayer_api_key_address@,
                    base_url: DEFAULT_RELAYER_BASE_URL@,
                };
                match r {
                    Ok(merger) => setup.fault() is None && merger.well_formed() && set_up_from(
                        merger@,
                        setup,
                    ),
                    Err(e) => setup.fault() == Some(e@),
                }
            }),
    {
        CtfMerger::new_with_relayer_url(
            private_key_hex,
            signer_address_hex,
            safe_address_hex,
            relayer_api_key,
            relayer_api_key_address,
            DEFAULT_RELAYER_BASE_URL,
        )
    }

    pub fn new_with_relayer_url(
        private_key_hex: &str,
        signer_address_hex: &str,
        safe_address_hex: &str,
        relayer_api_key: &str,
        relayer_api_key_address: &str,
        relayer_base_url: &str,
    ) -> (r: Result<CtfMerger, MergerError>)
        requires
            hex_bytes(bare_hex(private_key_hex@)) matches Some(key) ==> key.len() == 32,
        ensures
            ({
                let setup = MergerSetup {
                    private_key: private_key_hex@,
                    signer: signer_address_hex@,
                    safe: safe_address_hex@,
                    api_key: relayer_api_key@,
                    api_key_address: relayer_api_key_address@,
                    base_url: relayer_base_url@,
                };
                match r {
                    Ok(merger) => setup.fault() is None && merger.well_formed() && set_up_from(
                        merger@,
                        setup,
                    ),
                    Err(e) => setup.fault() == Some(e@),
                }
            }),
    {
        let clean = without_prefix(private_key_hex, "0x");
        let signing_key = match hex_decode(clean.as_str()) {
            Some(key) => key,
            None => return Err(MergerError::PrivateKeyHex),
        };
        if !accepts_secret_key(&signing_key) {
            return Err(MergerError::PrivateKey);
        }
        let signer_address_hex = match normalize_address_hex(signer_address_hex) {
            Ok(s) => s,
            Err(e) => return Err(MergerError::Address(AddressRole::Signer, e)),
        };
        let safe_address = match parse_exact_address(safe_address_hex) {
            Ok(b) => b,
            Err(e) => return Err(MergerError::Address(AddressRole::Safe, e)),
        };
        let safe_digits = hex_encode(&safe_address);
        let safe_address_hex = join2("0x", safe_digits.as_str());
        let relayer_api_key_address = match normalize_address_hex(relayer_api_key_address) {
            Ok(s) => s,
            Err(e) => return Err(MergerError::Address(AddressRole::RelayerApiKey, e)),
        };
        if is_blank(relayer_api_key) {
            return Err(MergerError::EmptyApiKey);
        }
        let derived = derive_address(&signing_key);
        if !same_ignoring_ascii_case(derived.as_str(), signer_address_hex.as_str()) {
            return Err(MergerError::SignerMismatch(signer_address_hex, derived));
        }
        if !same_ignoring_ascii_case(
            relayer_api_key_address.as_str(),
            signer_address_hex.as_str(),
        ) {
            return Err(MergerError::ApiKeyMismatch(relayer_api_key_address, signer_address_hex));
        }
        let relayer_base_url = trim_end(relayer_base_url, '/');
        if relayer_base_url.as_str().is_empty() {
            return Err(MergerError::EmptyBaseUrl);
        }
        Ok(
            CtfMerger {
                signing_key,
                signer_address_hex,
                safe_address,
                safe_address_hex,
                relayer_base_url,
                relayer_api_key: relayer_api_key.to_owned(),
                relayer_api_key_address,
                neg_risk_approval_checked: false,
            },
        )
    }

    /// What a merge of `amount` pairs begins with: a merge of nothing is refused. Standard merges
    /// need no approval; the negative-risk adapter is approved once.
    pub fn merge_positions(&self, amount: u64, neg_risk: bool) -> (r: Result<
        MergeStep,
        MergerError,
    >)
        ensures
            match r {
                Ok(MergeStep::Approve(call)) => amount > 0 && neg_risk && !self@.neg_risk_approved
                    && call.to@ == CTF_ADDRESS@ && call.metadata@ == "set_approval_for_all"@
                    && call.data@ == approval_call(exact_address(NEG_RISK_ADAPTER_ADDRESS@)->Ok_0),
                Ok(MergeStep::Merge) => amount > 0 && (!neg_risk || self@.neg_risk_approved),
                Err(e) => amount == 0 && e@ == MergerFault::Nothing,
            },
    {
        if amount == 0 {
            return Err(MergerError::Nothing);
        }
        let venue = MergeVenue::from_neg_risk(neg_risk);
        proof {
            law_contracts_have_addresses();
        }
        self.ensure_approval(venue)
    }

    /// Whether the operator of a venue has to be approved first.
    fn ensure_approval(&self, venue: MergeVenue) -> (r: Result<MergeStep, MergerError>)
        ensures
            match r {
                Ok(MergeStep::Approve(call)) => venue == MergeVenue::NegRisk
                    && !self@.neg_risk_approved && call.to@ == CTF_ADDRESS@ && call.metadata@
                    == "set_approval_for_all"@ && exact_address(venue.target_chars()) is Ok
                    && call.data@ == approval_call(exact_address(venue.target_chars())->Ok_0),
                Ok(MergeStep::Merge) => venue == MergeVenue::Standard || self@.neg_risk_approved,
                Err(MergerError::Address(role, e)) => venue == MergeVenue::NegRisk
                    && !self@.neg_risk_approved && role == AddressRole::ApprovalOperator
                    && exact_address(venue.target_chars()) == Err::<Seq<u8>, AddressError>(e),
                Err(_) => false,
            },
    {
        if venue == MergeVenue::Standard {
            return Ok(MergeStep::Merge);
        }
        if self.neg_risk_approval_checked {
            return Ok(MergeStep::Merge);
        }
        match encode_set_approval_for_all(venue.approval_operator()) {
            Ok(data) => Ok(
                MergeStep::Approve(
                    SafeCall {
                        to: CTF_ADDRESS.to_owned(),
                        data,
                        metadata: "set_approval_for_all",
                    },
                ),
            ),
            Err(e) => Err(MergerError::Address(AddressRole::ApprovalOperator, e)),
        }
    }

    /// The approval was confirmed: it is not asked for again.
    pub fn approval_confirmed(&mut self)
        requires
            old(self).well_formed(),
        ensures
            final(self).well_formed(),
            final(self)@ == (MergerView { neg_risk_approved: true, ..old(self)@ }),
    {
        self.neg_risk_approval_checked = true;
    }

    /// The call that merges the pairs.
    pub fn merge_call(&self, condition_id: &str, amount: u64, neg_risk: bool) -> (r: Result<
        SafeCall,
        Bytes32Error,
    >)
        ensures
            match (r, word_of_hex(condition_id@)) {
                (Ok(call), Ok(condition)) => {
                    &&& call.to@ == (if neg_risk {
                        NEG_RISK_ADAPTER_ADDRESS@
                    } else {
                        CTF_ADDRESS@
                    })
                    &&& call.data@ == merge_call(condition, amount as nat)
                    &&& call.metadata@ == "merge_positions"@
                },
                (Err(e), Err(fault)) => e == fault,
                _ => false,
            },
    {
        let venue = MergeVenue::from_neg_risk(neg_risk);
        match encode_merge_positions(condition_id, amount) {
            Ok(data) => Ok(
                SafeCall {
                    to: venue.merge_target().to_owned(),
                    data,
                    metadata: "merge_positions",
                },
            ),
            Err(e) => Err(e),
        }
    }

    /// Compute Safe tx hash for an arbitrary target.
    pub fn compute_safe_tx_hash_for(&self, data: &Vec<u8>, to: &Vec<u8>, nonce: u64) -> (r: Vec<u8>)
        requires
            self.well_formed(),
            to@.len() == 20,
        ensures
            r@ == safe_tx_hash(self@.safe, to@, data@, nonce as nat),
            r@.len() == 32,
    {
        let mut struct_data = digest_of_text(
            "SafeTx(address to,uint256 value,bytes data,uint8 operation,uint256 safeTxGas,uint256 baseGas,uint256 gasPrice,address gasToken,address refundReceiver,uint256 nonce)",
        );
        struct_data.append(&mut left_pad_address(to));
        // value = 0
        struct_data.append(&mut zero_bytes(32));
        struct_data.append(&mut keccak_digest(data));
        // operation, safeTxGas, baseGas, gasPrice, gasToken and refundReceiver = 0
        struct_data.append(&mut zero_bytes(192));
        struct_data.append(&mut u256_bytes(nonce as u128));
        let mut struct_hash = keccak_digest(&struct_data);
        let mut msg: Vec<u8> = Vec::new();
        msg.push(0x19);
        msg.push(0x01);
        assert(msg@ =~= seq![0x19u8, 0x01u8]);
        msg.append(&mut self.compute_safe_domain_separator());
        msg.append(&mut struct_hash);
        keccak_digest(&msg)
    }

    pub fn compute_safe_domain_separator(&self) -> (r: Vec<u8>)
        requires
            self.well_formed(),
        ensures
            r@ == safe_domain(self@.safe),
            r@.len() == 32,
    {
        let mut data = digest_of_text("EIP712Domain(uint256 chainId,address verifyingContract)");
        data.append(&mut u256_bytes(CHAIN_ID as u128));
        data.append(&mut left_pad_address(&self.safe_address));
        keccak_digest(&data)
    }

    /// The relayer expects a signed message over the transaction's digest, marked 31 or 32.
    pub fn sign_hash(&self, hash: &Vec<u8>) -> (r: Result<Vec<u8>, MergerError>)
        requires
            self.well_formed(),
        ensures
            match r {
                Ok(signature) => safe_signature(self@.key, hash@) == Some(signature@),
                Err(e) => safe_signature(self@.key, hash@) is None && e@ == MergerFault::Signing,
            },
    {
        let mut msg: Vec<u8> = Vec::new();
        msg.extend_from_slice("\x19Ethereum Signed Message:\n32".as_bytes());
        assert(msg@ =~= encode_utf8("\x19Ethereum Signed Message:\n32"@));
        let mut tail = hash.clone();
        assert(tail@ =~= hash@);
        msg.append(&mut tail);
        let digest = keccak_digest(&msg);
        match sign_digest(&self.signing_key, &digest) {
            Some((signature, mark)) => {
                let mut signature = signature;
                signature.push(mark + 31);
                Ok(signature)
            },
            None => Err(MergerError::Signing),
        }
    }
}

/// The merger that a setup without fault gives.
pub open spec fn set_up_from(v: MergerView, setup: MergerSetup) -> bool {
    &&& setup.key() == Some(v.key)
    &&& normal_address(setup.signer) == Ok::<Seq<char>, AddressError>(v.signer)
    &&& exact_address(setup.safe) == Ok::<Seq<u8>, AddressError>(v.safe)
    &&& normal_address(setup.safe) == Ok::<Seq<char>, AddressError>(v.safe_hex)
    &&& normal_address(setup.api_key_address) == Ok::<Seq<char>, AddressError>(v.api_key_address)
    &&& v.api_key == setup.api_key
    &&& v.base_url == trimmed_end(setup.base_url, '/')
    &&& !v.neg_risk_approved
}

} // verus!
