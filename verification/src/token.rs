use vstd::prelude::*;

verus! {

/// An account address on the chain: 32 raw bytes.
#[derive(Clone, Copy, Debug)]
pub struct Address(pub [u8; 32]);

impl PartialEq for Address {
    fn eq(&self, other: &Self) -> (r: bool) {
        let mut i: usize = 0;
        while i < 32
            invariant
                i <= 32,
                forall|j: int| 0 <= j < i ==> self.0@[j] == other.0@[j],
            decreases 32 - i,
        {
            if self.0[i] != other.0[i] {
                return false;
            }
            i = i + 1;
        }
        assert(self.0 =~= other.0);
        true
    }
}

impl Eq for Address {}

impl vstd::std_specs::cmp::PartialEqSpecImpl for Address {
    open spec fn obeys_eq_spec() -> bool {
        true
    }

    open spec fn eq_spec(&self, other: &Address) -> bool {
        *self == *other
    }
}

/// Whether every byte of an address is zero.
pub open spec fn spec_is_zero_address(a: Address) -> bool {
    forall|i: int| 0 <= i < 32 ==> #[trigger] a.0@[i] == 0u8
}

impl Address {
    /// Returns `true` exactly when all 32 bytes are zero.
    pub fn is_zero(&self) -> (r: bool)
        ensures
            r == spec_is_zero_address(*self),
    {
        let mut i: usize = 0;
        while i < 32
            invariant
                i <= 32,
                forall|j: int| 0 <= j < i ==> #[trigger] self.0@[j] == 0u8,
            decreases 32 - i,
        {
            if self.0[i] != 0 {
                return false;
            }
            i = i + 1;
        }
        true
    }
}

/// A token as the casino sees it: the native EGLD coin, or an ESDT token named
/// by its identifier bytes (such as `ROAR-e5185d`).
#[derive(Clone, Debug)]
pub enum TokenId {
    Egld,
    Esdt(Vec<u8>),
}

/// The plain-value form of a token, as contracts speak of it.
pub enum TokenIdView {
    Egld,
    Esdt(Seq<u8>),
}

impl View for TokenId {
    type V = TokenIdView;

    open spec fn view(&self) -> TokenIdView {
        match self {
            TokenId::Egld => TokenIdView::Egld,
            TokenId::Esdt(id) => TokenIdView::Esdt(id@),
        }
    }
}

/// The single payment that came with a call: its token, its token nonce
/// (0 for fungible tokens) and its amount.
#[derive(Clone, Debug)]
pub struct Payment {
    pub token: TokenId,
    pub nonce: u64,
    pub amount: u128,
}

/// An uppercase ASCII letter or an ASCII digit.
pub open spec fn is_upper_alnum(c: u8) -> bool {
    (65 <= c && c <= 90) || (48 <= c && c <= 57)
}

/// A lowercase ASCII letter or an ASCII digit.
pub open spec fn is_lower_alnum(c: u8) -> bool {
    (97 <= c && c <= 122) || (48 <= c && c <= 57)
}

/// The ESDT identifier format: a ticker of 3 to 10 uppercase letters or
/// digits, a dash (byte 45), then 6 lowercase letters or digits.
pub open spec fn spec_valid_esdt_identifier(id: Seq<u8>) -> bool {
    let n = id.len();
    &&& 10 <= n <= 17
    &&& forall|i: int| 0 <= i < n - 7 ==> #[trigger] is_upper_alnum(id[i])
    &&& id[n - 7] == 45u8
    &&& forall|i: int| n - 6 <= i < n ==> #[trigger] is_lower_alnum(id[i])
}

/// Calls `multiversx_sc::chain_core::token_identifier_util::validate_token_identifier`,
/// the chain's reference check of an ESDT identifier (the VM runs the same rule
/// for `TokenIdentifier::is_valid_esdt_identifier`). Claimed: the result is
/// `true` exactly when the bytes have the ESDT identifier format.
#[verifier::external_body]
fn validate_token_identifier(id: &[u8]) -> (r: bool)
    ensures
        r == spec_valid_esdt_identifier(id@),
{
    multiversx_sc::chain_core::token_identifier_util::validate_token_identifier(id)
}

/// Whether `id` is a well-formed ESDT token identifier.
pub fn is_valid_esdt_identifier(id: &Vec<u8>) -> (r: bool)
    ensures
        r == spec_valid_esdt_identifier(id@),
{
    validate_token_identifier(id.as_slice())
}

/// Byte-wise equality of two byte strings.
pub fn bytes_equal(a: &Vec<u8>, b: &Vec<u8>) -> (r: bool)
    ensures
        r == (a@ == b@),
{
    if a.len() != b.len() {
        return false;
    }
    let mut i: usize = 0;
    while i < a.len()
        invariant
            a@.len() == b@.len(),
            i <= a@.len(),
            forall|j: int| 0 <= j < i ==> a@[j] == b@[j],
        decreases a@.len() - i,
    {
        if a[i] != b[i] {
            return false;
        }
        i = i + 1;
    }
    assert(a@ =~= b@);
    true
}

impl TokenId {
    /// Whether this is the native EGLD coin.
    pub fn is_egld(&self) -> (r: bool)
        ensures
            r == (self@ is Egld),
    {
        match self {
            TokenId::Egld => true,
            TokenId::Esdt(_) => false,
        }
    }

    /// Whether this token is the ESDT token with identifier `id`.
    pub fn is_esdt(&self, id: &Vec<u8>) -> (r: bool)
        ensures
            r == (self@ == TokenIdView::Esdt(id@)),
    {
        match self {
            TokenId::Egld => false,
            TokenId::Esdt(own) => bytes_equal(own, id),
        }
    }
}

} // verus!
