//! The registry's value types: identifiers, accounts, call origins, policy
//! enums, record types for collections, classes and tokens, the failure
//! taxonomy and the notification events, together with their mathematical
//! views.

use vstd::prelude::*;

verus! {

/// Metadata is an uninterpreted byte string.
pub type NftMetadata = Vec<u8>;

/// One attribute: a key/value pair of byte strings.
pub struct Attribute {
    pub key: Vec<u8>,
    pub value: Vec<u8>,
}

/// The view of an attribute.
#[verifier::ext_equal]
pub struct AttributeView {
    pub key: Seq<u8>,
    pub value: Seq<u8>,
}

impl View for Attribute {
    type V = AttributeView;

    open spec fn view(&self) -> AttributeView {
        AttributeView { key: self.key@, value: self.value@ }
    }
}

impl DeepView for Attribute {
    type V = AttributeView;

    open spec fn deep_view(&self) -> AttributeView {
        self.view()
    }
}

/// An attribute table: a list of key/value byte strings.
pub type Attributes = Vec<Attribute>;

/// An account. User accounts sign calls and own classes and tokens; every
/// class additionally has one escrow account, derived injectively from the
/// class identifier, that holds the class deposit, all token deposits and
/// all supporter contributions for that class.
#[derive(Clone, Copy, Debug, PartialEq, Eq, Structural)]
pub enum AccountId {
    /// An ordinary account, named by its number.
    User(u64),
    /// The escrow account derived from a class identifier.
    ClassFund(u64),
}

/// The authorization a call carries: signed by a user account, or issued by
/// governance (root).
#[derive(Clone, Copy, Debug, PartialEq, Eq, Structural)]
pub enum Origin {
    /// Governance origin.
    Root,
    /// A call signed by the given user account.
    Signed(u64),
}

/// An asset: one token named by its class and token identifiers.
#[derive(Clone, Copy, Debug, PartialEq, Eq, Structural)]
pub struct Asset {
    pub class_id: u64,
    pub token_id: u64,
}

/// The transfer policy fixed at class creation.
#[derive(Clone, Copy, Debug, PartialEq, Eq, Structural)]
pub enum TokenType {
    /// Tokens of the class may change owner.
    Transferable,
    /// Tokens of the class can never change owner.
    BoundToAddress,
}

impl TokenType {
    /// Whether the policy lets tokens change owner.
    pub fn is_transferable(&self) -> (r: bool)
        ensures
            r == (*self is Transferable),
    {
        match self {
            TokenType::Transferable => true,
            TokenType::BoundToAddress => false,
        }
    }
}

/// The kind of class, recorded at creation and not consulted by the
/// registry's own rules.
#[derive(Clone, Copy, Debug, PartialEq, Eq, Structural)]
pub enum CollectionType {
    Collectable,
    Wearable,
    Executable,
}

/// Every way a registry operation can fail. Each operation reports the first
/// failing check and leaves the state unchanged.
#[derive(Clone, Copy, Debug, PartialEq, Eq, Structural)]
pub enum Error {
    /// The call did not carry the required authorization.
    BadOrigin,
    /// The token record was not found.
    AssetInfoNotFound,
    /// The caller lacks permission for the request.
    NoPermission,
    /// The collection identifier counter would overflow.
    NoAvailableCollectionId,
    /// The class identifier counter would overflow.
    NoAvailableClassId,
    /// The token identifier counter would overflow.
    NoAvailableTokenId,
    /// The named collection was never created.
    CollectionDoesNotExist,
    /// The class record was not found.
    ClassIdNotFound,
    /// The token's class is bound to an address and never transfers.
    NonTransferable,
    /// A mint of zero tokens was requested.
    InvalidQuantity,
    /// The asset is currently listed in an auction.
    AssetAlreadyInAuction,
    /// An owner tried to sign their own asset.
    SignOwnAsset,
    /// The batch exceeds the transfer batch bound.
    ExceedMaximumBatchTransfer,
    /// The quantity exceeds the minting batch bound.
    ExceedMaximumBatchMinting,
    /// A metadata or summed attribute length exceeds the metadata bound.
    ExceedMaximumMetadataLength,
    /// A supporter list that should exist was absent.
    EmptySupporters,
    /// The ledger refused the movement for want of free funds.
    InsufficientBalance,
    /// The class is already locked.
    CollectionAlreadyLocked,
    /// The class is administratively locked.
    CollectionIsLocked,
    /// The class is not locked.
    CollectionIsNotLocked,
    /// The royalty fee exceeds the allowed bound.
    RoyaltyFeeExceedLimit,
    /// The total-collections counter would overflow.
    CounterOverflow,
    /// A balance would exceed the largest representable amount.
    ArithmeticOverflow,
}

/// A notification emitted on the success of an operation, appended to the
/// registry's event log.
#[derive(Clone, Copy, Debug, PartialEq, Eq, Structural)]
pub enum Event {
    /// A group collection was created, with its identifier.
    NewNftCollectionCreated(u64),
    /// A class was created: the owner and the class identifier.
    NewNftClassCreated(u64, u64),
    /// Tokens were minted: the first and last asset, the minter, the class,
    /// the quantity, and the last token identifier.
    NewNftMinted(Asset, Asset, u64, u64, u32, u64),
    /// A token changed owner: the sender, the receiver, the token identifier
    /// and the asset.
    TransferedNft(u64, u64, u64, Asset),
    /// Governance forced an ownership change: the prior owner, the receiver,
    /// the token identifier and the asset.
    ForceTransferredNft(u64, u64, u64, Asset),
    /// The promotion flag was set to the given value.
    PromotionEnabled(bool),
    /// A token was removed.
    BurnedNft(Asset),
    /// A class was locked.
    CollectionLocked(u64),
    /// A class was unlocked.
    CollectionUnlocked(u64),
}

/// A named group collection, immutable once created.
pub struct NftGroupCollectionData {
    pub name: Vec<u8>,
    pub properties: Vec<u8>,
}

/// The view of a group collection: its byte strings as sequences.
#[verifier::ext_equal]
pub struct CollectionView {
    pub name: Seq<u8>,
    pub properties: Seq<u8>,
}

impl View for NftGroupCollectionData {
    type V = CollectionView;

    open spec fn view(&self) -> CollectionView {
        CollectionView { name: self.name@, properties: self.properties@ }
    }
}

impl DeepView for NftGroupCollectionData {
    type V = CollectionView;

    open spec fn deep_view(&self) -> CollectionView {
        self.view()
    }
}

/// One minted token: its owner, its stored metadata and attributes, and the
/// deposit escrowed for it.
pub struct TokenRecord {
    pub owner: u64,
    pub metadata: Vec<u8>,
    pub deposit: u128,
    pub attributes: Attributes,
}

/// The view of a token record.
#[verifier::ext_equal]
pub struct TokenView {
    pub owner: u64,
    pub metadata: Seq<u8>,
    pub deposit: u128,
    pub attributes: Seq<AttributeView>,
}

impl View for TokenRecord {
    type V = TokenView;

    open spec fn view(&self) -> TokenView {
        TokenView {
            owner: self.owner,
            metadata: self.metadata@,
            deposit: self.deposit,
            attributes: self.attributes.deep_view(),
        }
    }
}

impl DeepView for TokenRecord {
    type V = TokenView;

    open spec fn deep_view(&self) -> TokenView {
        self.view()
    }
}

/// One token class: its owner, policy, royalty bound, escrowed deposit,
/// stored data, the collection it belongs to, and its tokens. A token's
/// identifier is its index in `tokens`; a burned token leaves `None` behind
/// so that identifiers are never reused.
pub struct ClassRecord {
    pub owner: u64,
    pub metadata: Vec<u8>,
    pub token_type: TokenType,
    pub collection_type: CollectionType,
    /// Royalty fraction in parts per billion.
    pub royalty_fee: u32,
    pub deposit: u128,
    pub attributes: Attributes,
    pub collection_id: u64,
    pub tokens: Vec<Option<TokenRecord>>,
}

/// The view of a class record.
#[verifier::ext_equal]
pub struct ClassView {
    pub owner: u64,
    pub metadata: Seq<u8>,
    pub token_type: TokenType,
    pub collection_type: CollectionType,
    pub royalty_fee: u32,
    pub deposit: u128,
    pub attributes: Seq<AttributeView>,
    pub collection_id: u64,
    pub tokens: Seq<Option<TokenView>>,
}

impl View for ClassRecord {
    type V = ClassView;

    open spec fn view(&self) -> ClassView {
        ClassView {
            owner: self.owner,
            metadata: self.metadata@,
            token_type: self.token_type,
            collection_type: self.collection_type,
            royalty_fee: self.royalty_fee,
            deposit: self.deposit,
            attributes: self.attributes.deep_view(),
            collection_id: self.collection_id,
            tokens: self.tokens.deep_view(),
        }
    }
}

impl DeepView for ClassRecord {
    type V = ClassView;

    open spec fn deep_view(&self) -> ClassView {
        self.view()
    }
}

/// The deep view of a vector is its elements' deep views, pointwise.
pub proof fn lemma_deep_view_unfold<T: DeepView>(v: Vec<T>)
    ensures
        v.deep_view().len() == v@.len(),
        forall|i: int| 0 <= i < v@.len() ==> #[trigger] v.deep_view()[i] == v@[i].deep_view(),
{
}

/// An exact copy of a byte string.
pub fn clone_bytes(v: &Vec<u8>) -> (r: Vec<u8>)
    ensures
        r@ == v@,
{
    let mut r: Vec<u8> = Vec::new();
    let mut i: usize = 0;
    while i < v.len()
        invariant
            0 <= i <= v@.len(),
            r@ == v@.take(i as int),
        decreases v@.len() - i,
    {
        r.push(v[i]);
        proof {
            assert(v@.take(i + 1) =~= v@.take(i as int).push(v@[i as int]));
        }
        i = i + 1;
    }
    proof {
        assert(v@.take(v@.len() as int) =~= v@);
    }
    r
}

/// An exact copy of an attribute table.
pub fn clone_attributes(a: &Attributes) -> (r: Attributes)
    ensures
        r.deep_view() == a.deep_view(),
{
    let mut r: Attributes = Vec::new();
    let mut i: usize = 0;
    proof {
        assert(r.deep_view() =~= a.deep_view().take(0));
    }
    while i < a.len()
        invariant
            0 <= i <= a@.len(),
            r.deep_view() == a.deep_view().take(i as int),
        decreases a@.len() - i,
    {
        let entry = &a[i];
        let key = clone_bytes(&entry.key);
        let value = clone_bytes(&entry.value);
        let ghost r_seq = r@;
        let ghost r_deep = r.deep_view();
        proof {
            assert(r_deep.len() == i);
            assert(r_deep == Seq::new(r_seq.len(), |k: int| r_seq[k].deep_view()));
            assert(r_seq.len() == i);
        }
        r.push(Attribute { key, value });
        proof {
            let av = a.deep_view();
            assert forall|j: int| 0 <= j < i + 1 implies #[trigger] r.deep_view()[j] == av.take(
                i + 1,
            )[j] by {
                if j < i {
                    assert(r@[j] == r_seq[j]);
                    assert(r_deep[j] == av.take(i as int)[j]);
                    assert(r_deep[j] == r_seq[j].deep_view());
                } else {
                    assert(r@[j].deep_view() =~= av[j]);
                }
            }
            assert(r.deep_view() =~= av.take(i + 1));
        }
        i = i + 1;
    }
    proof {
        assert(a.deep_view().take(a@.len() as int) =~= a.deep_view());
    }
    r
}

} // verus!
