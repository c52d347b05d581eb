//! The types of the legacy protocol: opaque token identifiers, hashed
//! account identifiers, and the arguments and results of its operations.

use crate::account::{zero_subaccount, Subaccount};
use crate::digest::{
    be_bytes, crc32, crc32_checksum, from_be_bytes, hex_encode, hex_text, lemma_be_round_trip,
    sha224, sha224_digest, to_be_bytes,
};
use crate::icrc7_types::{copy_bytes, opt_bytes};
use crate::identity::{principal_text, text_principal, Principal};
use vstd::prelude::*;
use vstd::string::StrSliceExecFns;

verus! {

pub type Balance = u128;

pub type ExtTokenIndex = u32;

pub type Extension = String;

pub type AccountIdentifierHex = String;

/// The tag that every token identifier starts with: a line feed and `tid`.
pub open spec fn tds() -> Seq<u8> {
    seq![10u8, 116u8, 105u8, 100u8]
}

/// The tag that is hashed in front of every account: a line feed and
/// `account-id`.
pub open spec fn account_domain() -> Seq<u8> {
    seq![10u8, 97u8, 99u8, 99u8, 111u8, 117u8, 110u8, 116u8, 45u8, 105u8, 100u8]
}

/// The low 32 bits of a token index.
pub open spec fn low_word(index: u128) -> u32 {
    (index & 0xffff_ffff) as u32
}

/// The bytes that a token identifier spells: the tag, the identity of the
/// ledger, and the low 32 bits of the index, most significant byte first.
pub open spec fn token_identifier_bytes(canister: Seq<u8>, index: u128) -> Seq<u8> {
    tds() + canister + be_bytes(low_word(index))
}

/// The identity and the index that the bytes of a token identifier hold.
/// Bytes without the tag, and bytes too short to hold an index, are taken
/// as an identity with the index zero.
pub open spec fn decode_identifier(bytes: Seq<u8>) -> (Seq<u8>, u128) {
    let n = bytes.len() as int;
    if n <= 4 || bytes.subrange(0, 4) != tds() {
        (bytes, 0)
    } else if n <= 8 {
        (bytes, 0)
    } else {
        (
            bytes.subrange(4, n - 4),
            from_be_bytes(bytes[n - 4], bytes[n - 3], bytes[n - 2], bytes[n - 1]) as u128,
        )
    }
}

/// The index that a token identifier names on a ledger; `None` where the
/// text is no identifier or names another ledger.
pub open spec fn token_index_of(text: Seq<char>, canister: Seq<u8>) -> Option<u128> {
    match text_principal(text) {
        None => None,
        Some(bytes) => {
            let (embedded, index) = decode_identifier(bytes);
            if embedded == canister {
                Some(index)
            } else {
                None
            }
        },
    }
}

/// Decoding the bytes of a token identifier gives back the ledger and the
/// low 32 bits of the index.
pub proof fn lemma_decode_encoded(canister: Seq<u8>, index: u128)
    requires
        canister.len() == 10,
    ensures
        decode_identifier(token_identifier_bytes(canister, index)) == (
            canister,
            low_word(index) as u128,
        ),
{
    let bytes = token_identifier_bytes(canister, index);
    let word = low_word(index);
    lemma_be_round_trip(word);
    assert(bytes.len() == 18);
    assert(bytes.subrange(0, 4) =~= tds());
    assert(bytes.subrange(4, 14) =~= canister);
    assert(bytes[14] == be_bytes(word)[0]);
    assert(bytes[15] == be_bytes(word)[1]);
    assert(bytes[16] == be_bytes(word)[2]);
    assert(bytes[17] == be_bytes(word)[3]);
}

/// An opaque textual identifier of a token on a ledger.
#[derive(Debug, PartialEq, Eq)]
pub struct TokenIdentifier(String);

impl View for TokenIdentifier {
    type V = Seq<char>;

    closed spec fn view(&self) -> Seq<char> {
        self.0@
    }
}

impl Clone for TokenIdentifier {
    fn clone(&self) -> (r: TokenIdentifier)
        ensures
            r@ == self@,
    {
        TokenIdentifier(self.0.clone())
    }
}

impl TokenIdentifier {
    /// An identifier with this text.
    pub fn new(text: String) -> (r: TokenIdentifier)
        ensures
            r@ == text@,
    {
        TokenIdentifier(text)
    }

    /// The text of the identifier.
    pub fn to_text(&self) -> (text: String)
        ensures
            text@ == self@,
    {
        self.0.clone()
    }

    /// The identifier of the token with this index on the ledger with this
    /// identity, which has ten bytes. Only the low 32 bits of the index
    /// enter. Read back against the same ledger the identifier gives those
    /// bits; against any other it is refused.
    pub fn parse_token_identifier(canister_id: Principal, index: u128) -> (r: TokenIdentifier)
        requires
            canister_id@.len() == 10,
        ensures
            r@ == principal_text(token_identifier_bytes(canister_id@, index)),
            token_index_of(r@, canister_id@) == Some(low_word(index) as u128),
            index <= u32::MAX ==> token_index_of(r@, canister_id@) == Some(index),
            forall|other: Seq<u8>| other != canister_id@ ==> token_index_of(r@, other) is None,
    {
        let canister = canister_id.as_slice();
        let word = to_be_bytes((index & 0xffff_ffff) as u32);
        let mut bytes: Vec<u8> = Vec::new();
        bytes.push(10u8);
        bytes.push(116u8);
        bytes.push(105u8);
        bytes.push(100u8);
        let mut i: usize = 0;
        while i < 10
            invariant
                i <= 10,
                canister@.len() == 10,
                bytes@ == tds() + canister@.subrange(0, i as int),
            decreases 10 - i,
        {
            bytes.push(canister[i]);
            assert(bytes@ =~= tds() + canister@.subrange(0, i + 1));
            i += 1;
        }
        bytes.push(word[0]);
        bytes.push(word[1]);
        bytes.push(word[2]);
        bytes.push(word[3]);
        assert(bytes@ =~= token_identifier_bytes(canister_id@, index));
        proof {
            lemma_decode_encoded(canister_id@, index);
            assert(index <= u32::MAX ==> low_word(index) as u128 == index) by {
                assert(index <= 0xffff_ffff ==> (index & 0xffff_ffff) == index) by (bit_vector);
            }
        }
        let text = Principal::from_slice(bytes.as_slice()).to_text();
        TokenIdentifier(text)
    }

    /// The identity and the index that the identifier holds; `None` where
    /// its text is not the textual form of any byte string.
    pub fn _parse_token_identifier(&self) -> (r: Option<(Vec<u8>, u128)>)
        ensures
            match r {
                Some((canister, index)) => text_principal(self@) is Some && (canister@, index)
                    == decode_identifier(text_principal(self@)->0),
                None => text_principal(self@) is None,
            },
    {
        let principal = match Principal::from_text(self.0.as_str()) {
            Some(p) => p,
            None => {
                return None;
            },
        };
        let array = principal.as_slice();
        let n = array.len();
        let has_tag = n > 4 && array[0] == 10u8 && array[1] == 116u8 && array[2] == 105u8
            && array[3] == 100u8;
        proof {
            if n > 4 {
                if has_tag {
                    assert(array@.subrange(0, 4) =~= tds());
                } else {
                    assert(array@.subrange(0, 4)[0] == array@[0]);
                    assert(array@.subrange(0, 4)[1] == array@[1]);
                    assert(array@.subrange(0, 4)[2] == array@[2]);
                    assert(array@.subrange(0, 4)[3] == array@[3]);
                }
            }
        }
        if !has_tag || n <= 8 {
            let whole = vstd::slice::slice_to_vec(array);
            return Some((whole, 0));
        }
        let canister = vstd::slice::slice_to_vec(vstd::slice::slice_subrange(array, 4, n - 4));
        let index = (array[n - 4] as u32) << 24 | (array[n - 3] as u32) << 16 | (array[n - 2] as u32)
            << 8 | (array[n - 1] as u32);
        Some((canister, index as u128))
    }

    /// The index of the token that the identifier names, if it names one on
    /// the ledger with this identity.
    pub fn parse_token_index(&self, canister_id: Principal) -> (r: Result<u128, ExtCommonError>)
        ensures
            match token_index_of(self@, canister_id@) {
                Some(index) => r == Ok::<u128, ExtCommonError>(index),
                None => r is Err && r->Err_0@ == ExtCommonErrorView::InvalidToken(self@),
            },
    {
        match self._parse_token_identifier() {
            None => Err(ExtCommonError::InvalidToken(self.clone())),
            Some((canister, index)) => {
                if same_bytes(canister.as_slice(), canister_id.as_slice()) {
                    Ok(index)
                } else {
                    Err(ExtCommonError::InvalidToken(self.clone()))
                }
            },
        }
    }
}

/// Whether two byte strings are the same.
pub fn same_bytes(a: &[u8], b: &[u8]) -> (r: bool)
    ensures
        r == (a@ == b@),
{
    if a.len() != b.len() {
        return false;
    }
    let mut i: usize = 0;
    while i < a.len()
        invariant
            i <= a@.len(),
            a@.len() == b@.len(),
            forall|j: int| 0 <= j < i ==> a@[j] == b@[j],
        decreases a@.len() - i,
    {
        if a[i] != b[i] {
            return false;
        }
        i += 1;
    }
    assert(a@ =~= b@);
    true
}

/// The bytes of the legacy identifier of an account: the checksum of a
/// digest, then the digest, which is taken over the tag, the owner and the
/// sub-identifier.
pub open spec fn account_identifier_bytes(owner: Seq<u8>, subaccount: Seq<u8>) -> Seq<u8> {
    let digest = sha224_digest(account_domain() + owner + subaccount);
    be_bytes(crc32_checksum(digest)) + digest
}

/// The legacy identifier of an account: 32 bytes.
#[derive(Clone, Copy, Debug)]
pub struct AccountIdentifier([u8; 32]);

impl View for AccountIdentifier {
    type V = Seq<u8>;

    closed spec fn view(&self) -> Seq<u8> {
        self.0@
    }
}

impl AccountIdentifier {
    /// The identifier of the account of `principal` under `subaccount`, an
    /// absent sub-identifier counting as 32 zero bytes.
    pub fn from_principal(principal: &Principal, subaccount: &Option<Subaccount>) -> (r:
        AccountIdentifier)
        ensures
            r@ == account_identifier_bytes(
                principal@,
                match *subaccount {
                    Some(s) => s@,
                    None => zero_subaccount(),
                },
            ),
    {
        let subaccount: [u8; 32] = match subaccount {
            Some(s) => *s,
            None => crate::account::default_subaccount(),
        };
        let owner = principal.as_slice();
        let mut data: Vec<u8> = Vec::new();
        data.push(10u8);
        data.push(97u8);
        data.push(99u8);
        data.push(99u8);
        data.push(111u8);
        data.push(117u8);
        data.push(110u8);
        data.push(116u8);
        data.push(45u8);
        data.push(105u8);
        data.push(100u8);
        assert(data@ =~= account_domain());
        let mut i: usize = 0;
        while i < owner.len()
            invariant
                i <= owner@.len(),
                data@ == account_domain() + owner@.subrange(0, i as int),
            decreases owner@.len() - i,
        {
            data.push(owner[i]);
            assert(data@ =~= account_domain() + owner@.subrange(0, i + 1));
            i += 1;
        }
        assert(owner@.subrange(0, owner@.len() as int) =~= owner@);
        let mut j: usize = 0;
        while j < 32
            invariant
                j <= 32,
                data@ == account_domain() + owner@ + subaccount@.subrange(0, j as int),
            decreases 32 - j,
        {
            data.push(subaccount[j]);
            assert(data@ =~= account_domain() + owner@ + subaccount@.subrange(0, j + 1));
            j += 1;
        }
        assert(subaccount@.subrange(0, 32) =~= subaccount@);
        let hash = sha224(data.as_slice());
        let crc32_bytes = to_be_bytes(crc32(hash.as_slice()));
        let mut result = [0u8; 32];
        result[0] = crc32_bytes[0];
        result[1] = crc32_bytes[1];
        result[2] = crc32_bytes[2];
        result[3] = crc32_bytes[3];
        let mut k: usize = 0;
        while k < 28
            invariant
                k <= 28,
                hash@.len() == 28,
                forall|m: int| 0 <= m < 4 ==> result@[m] == crc32_bytes@[m],
                forall|m: int| 0 <= m < k ==> result@[4 + m] == hash@[m],
            decreases 28 - k,
        {
            result[4 + k] = hash[k];
            k += 1;
        }
        assert(result@ =~= crc32_bytes@ + hash@);
        AccountIdentifier(result)
    }

    /// The identifier in hexadecimal notation: 64 lower-case digits.
    pub fn to_hex(&self) -> (text: String)
        ensures
            text@ == hex_text(self@),
    {
        hex_encode(self.0.as_slice())
    }
}

impl Default for AccountIdentifier {
    fn default() -> (r: AccountIdentifier)
        ensures
            r@ == zero_subaccount(),
    {
        let r = AccountIdentifier([0u8; 32]);
        assert(r@ =~= zero_subaccount());
        r
    }
}

/// Whom a legacy call names: an account identifier in hexadecimal, or an
/// identity.
#[derive(Debug)]
pub enum User {
    Address(AccountIdentifierHex),
    Principal(Principal),
}

#[verifier::ext_equal]
pub enum UserView {
    Address(Seq<char>),
    Principal(Principal),
}

impl View for User {
    type V = UserView;

    open spec fn view(&self) -> UserView {
        match *self {
            User::Address(a) => UserView::Address(a@),
            User::Principal(p) => UserView::Principal(p),
        }
    }
}

#[derive(Debug, PartialEq, Eq)]
pub enum ExtCommonError {
    InvalidToken(TokenIdentifier),
    Other(String),
}

#[verifier::ext_equal]
pub enum ExtCommonErrorView {
    InvalidToken(Seq<char>),
    Other(Seq<char>),
}

impl View for ExtCommonError {
    type V = ExtCommonErrorView;

    open spec fn view(&self) -> ExtCommonErrorView {
        match *self {
            ExtCommonError::InvalidToken(t) => ExtCommonErrorView::InvalidToken(t@),
            ExtCommonError::Other(m) => ExtCommonErrorView::Other(m@),
        }
    }
}

#[derive(Debug, PartialEq, Eq)]
pub enum ExtTransferError {
    Unauthorized(AccountIdentifierHex),
    InsufficientBalance,
    Rejected,
    InvalidToken(TokenIdentifier),
    CannotNotify(AccountIdentifierHex),
    Other(String),
}

#[verifier::ext_equal]
pub enum ExtTransferErrorView {
    Unauthorized(Seq<char>),
    InsufficientBalance,
    Rejected,
    InvalidToken(Seq<char>),
    CannotNotify(Seq<char>),
    Other(Seq<char>),
}

impl View for ExtTransferError {
    type V = ExtTransferErrorView;

    open spec fn view(&self) -> ExtTransferErrorView {
        match *self {
            ExtTransferError::Unauthorized(a) => ExtTransferErrorView::Unauthorized(a@),
            ExtTransferError::InsufficientBalance => ExtTransferErrorView::InsufficientBalance,
            ExtTransferError::Rejected => ExtTransferErrorView::Rejected,
            ExtTransferError::InvalidToken(t) => ExtTransferErrorView::InvalidToken(t@),
            ExtTransferError::CannotNotify(a) => ExtTransferErrorView::CannotNotify(a@),
            ExtTransferError::Other(m) => ExtTransferErrorView::Other(m@),
        }
    }
}

#[derive(Debug)]
pub struct ExtTransferArg {
    pub from: User,
    pub to: User,
    pub token: TokenIdentifier,
    pub memo: Vec<u8>,
    pub amount: u128,
    pub notify: bool,
    pub subaccount: Option<Subaccount>,
}

#[verifier::ext_equal]
pub struct ExtTransferArgView {
    pub from: UserView,
    pub to: UserView,
    pub token: Seq<char>,
    pub memo: Seq<u8>,
    pub amount: u128,
    pub notify: bool,
    pub subaccount: Option<Subaccount>,
}

impl View for ExtTransferArg {
    type V = ExtTransferArgView;

    open spec fn view(&self) -> ExtTransferArgView {
        ExtTransferArgView {
            from: self.from@,
            to: self.to@,
            token: self.token@,
            memo: self.memo@,
            amount: self.amount,
            notify: self.notify,
            subaccount: self.subaccount,
        }
    }
}

#[derive(Debug, PartialEq, Eq)]
pub enum ExtTransferResult {
    Success(u128),
    Failure(ExtTransferError),
}

impl View for ExtTransferResult {
    type V = Result<u128, ExtTransferErrorView>;

    open spec fn view(&self) -> Result<u128, ExtTransferErrorView> {
        match *self {
            ExtTransferResult::Success(n) => Ok(n),
            ExtTransferResult::Failure(e) => Err(e@),
        }
    }
}

#[derive(Debug)]
pub struct ExtBalanceArg {
    pub user: User,
    pub token: TokenIdentifier,
}

#[derive(Debug, PartialEq, Eq)]
pub enum ExtBalanceResult {
    Success(Balance),
    Failure(ExtCommonError),
}

impl View for ExtBalanceResult {
    type V = Result<u128, ExtCommonErrorView>;

    open spec fn view(&self) -> Result<u128, ExtCommonErrorView> {
        match *self {
            ExtBalanceResult::Success(n) => Ok(n),
            ExtBalanceResult::Failure(e) => Err(e@),
        }
    }
}

#[derive(Debug)]
pub struct AllowanceArg {
    pub owner: User,
    pub spender: Principal,
    pub token: TokenIdentifier,
}

#[derive(Debug)]
pub struct ExtApproveArg {
    pub subaccount: Option<Subaccount>,
    pub spender: Principal,
    pub allowance: Balance,
    pub token: TokenIdentifier,
}

#[derive(Debug)]
pub struct ExtAllowanceArg {
    pub owner: User,
    pub spender: Principal,
    pub token: TokenIdentifier,
}

#[derive(Debug, PartialEq, Eq)]
pub enum ExtAllowanceResult {
    Success(Balance),
    Failure(ExtCommonError),
}

impl View for ExtAllowanceResult {
    type V = Result<u128, ExtCommonErrorView>;

    open spec fn view(&self) -> Result<u128, ExtCommonErrorView> {
        match *self {
            ExtAllowanceResult::Success(n) => Ok(n),
            ExtAllowanceResult::Failure(e) => Err(e@),
        }
    }
}

#[derive(Debug, PartialEq, Eq)]
pub enum ExtBearerResult {
    Success(AccountIdentifierHex),
    Failure(ExtCommonError),
}

impl View for ExtBearerResult {
    type V = Result<Seq<char>, ExtCommonErrorView>;

    open spec fn view(&self) -> Result<Seq<char>, ExtCommonErrorView> {
        match *self {
            ExtBearerResult::Success(a) => Ok(a@),
            ExtBearerResult::Failure(e) => Err(e@),
        }
    }
}

/// The metadata of a non-fungible token: raw bytes, if any.
#[derive(Debug, PartialEq, Eq)]
pub struct ExtMetadataType {
    pub metadata: Option<Vec<u8>>,
}

impl View for ExtMetadataType {
    type V = Option<Seq<u8>>;

    open spec fn view(&self) -> Option<Seq<u8>> {
        opt_bytes(self.metadata)
    }
}

/// The UTF-8 encoding of a text.
pub open spec fn utf8_encoding(text: Seq<char>) -> Seq<u8> {
    vstd::utf8::encode_utf8(text)
}

impl ExtMetadataType {
    /// Metadata that holds the bytes of a text.
    pub fn new(metadata: String) -> (r: ExtMetadataType)
        ensures
            r@ == Some(utf8_encoding(metadata@)),
    {
        ExtMetadataType { metadata: Some(metadata.as_str().as_bytes_vec()) }
    }
}

impl Default for ExtMetadataType {
    fn default() -> (r: ExtMetadataType)
        ensures
            r@ is None,
    {
        ExtMetadataType { metadata: None }
    }
}

impl Clone for ExtMetadataType {
    fn clone(&self) -> (r: ExtMetadataType)
        ensures
            r@ == self@,
    {
        ExtMetadataType {
            metadata: match &self.metadata {
                Some(m) => Some(copy_bytes(m)),
                None => None,
            },
        }
    }
}

#[derive(Debug, PartialEq, Eq)]
pub struct ExtFungibleMetadataType {
    pub name: String,
    pub symbol: String,
    pub decimals: u8,
    pub metadata: Option<Vec<u8>>,
}

#[verifier::ext_equal]
pub struct ExtFungibleMetadataView {
    pub name: Seq<char>,
    pub symbol: Seq<char>,
    pub decimals: u8,
    pub metadata: Option<Seq<u8>>,
}

impl View for ExtFungibleMetadataType {
    type V = ExtFungibleMetadataView;

    open spec fn view(&self) -> ExtFungibleMetadataView {
        ExtFungibleMetadataView {
            name: self.name@,
            symbol: self.symbol@,
            decimals: self.decimals,
            metadata: opt_bytes(self.metadata),
        }
    }
}

#[derive(Debug, PartialEq, Eq)]
pub enum ExtMetadata {
    Fungible(ExtFungibleMetadataType),
    Nonfungible(ExtMetadataType),
}

#[verifier::ext_equal]
pub enum ExtMetadataView {
    Fungible(ExtFungibleMetadataView),
    Nonfungible(Option<Seq<u8>>),
}

impl View for ExtMetadata {
    type V = ExtMetadataView;

    open spec fn view(&self) -> ExtMetadataView {
        match *self {
            ExtMetadata::Fungible(m) => ExtMetadataView::Fungible(m@),
            ExtMetadata::Nonfungible(m) => ExtMetadataView::Nonfungible(m@),
        }
    }
}

impl Default for ExtMetadata {
    fn default() -> (r: ExtMetadata)
        ensures
            r@ == ExtMetadataView::Nonfungible(None),
    {
        ExtMetadata::Nonfungible(ExtMetadataType::default())
    }
}

#[derive(Debug, PartialEq, Eq)]
pub enum ExtMetadataResult {
    Success(ExtMetadata),
    Failure(ExtCommonError),
}

impl View for ExtMetadataResult {
    type V = Result<ExtMetadataView, ExtCommonErrorView>;

    open spec fn view(&self) -> Result<ExtMetadataView, ExtCommonErrorView> {
        match *self {
            ExtMetadataResult::Success(m) => Ok(m@),
            ExtMetadataResult::Failure(e) => Err(e@),
        }
    }
}

#[derive(Debug)]
pub struct ExtMintArg {
    pub to: User,
    pub metadata: Option<Vec<u8>>,
}

#[verifier::ext_equal]
pub struct ExtMintArgView {
    pub to: UserView,
    pub metadata: Option<Seq<u8>>,
}

impl View for ExtMintArg {
    type V = ExtMintArgView;

    open spec fn view(&self) -> ExtMintArgView {
        ExtMintArgView { to: self.to@, metadata: opt_bytes(self.metadata) }
    }
}

#[derive(Debug, PartialEq, Eq)]
pub enum ExtSupplyResult {
    Success(Balance),
    Failure(ExtCommonError),
}

impl View for ExtSupplyResult {
    type V = Result<u128, ExtCommonErrorView>;

    open spec fn view(&self) -> Result<u128, ExtCommonErrorView> {
        match *self {
            ExtSupplyResult::Success(n) => Ok(n),
            ExtSupplyResult::Failure(e) => Err(e@),
        }
    }
}

} // verus!
