//! Descriptive records: the metadata of a series or an item, and the
//! metadata of the contract as a whole.

use vstd::prelude::*;
use vstd::string::*;

verus! {

/// The text of an optional string.
pub open spec fn opt_text(o: Option<String>) -> Option<Seq<char>> {
    match o {
        Some(s) => Some(s@),
        None => None,
    }
}

/// The bytes of an optional byte vector.
pub open spec fn opt_bytes(o: Option<Vec<u8>>) -> Option<Seq<u8>> {
    match o {
        Some(b) => Some(b@),
        None => None,
    }
}

/// A copy of an optional string.
pub fn clone_opt_text(o: &Option<String>) -> (r: Option<String>)
    ensures
        opt_text(r) == opt_text(*o),
{
    match o {
        Some(s) => Some(s.clone()),
        None => None,
    }
}

/// A copy of a byte vector.
pub fn clone_bytes(b: &Vec<u8>) -> (r: Vec<u8>)
    ensures
        r@ == b@,
{
    let mut r: Vec<u8> = Vec::new();
    let mut i: usize = 0;
    while i < b.len()
        invariant
            i <= b.len(),
            r@ == b@.take(i as int),
        decreases b.len() - i,
    {
        r.push(b[i]);
        assert(b@.take(i + 1) =~= b@.take(i as int).push(b@[i as int]));
        i = i + 1;
    }
    assert(b@.take(b.len() as int) =~= b@);
    r
}

/// A copy of an optional byte vector.
pub fn clone_opt_bytes(o: &Option<Vec<u8>>) -> (r: Option<Vec<u8>>)
    ensures
        opt_bytes(r) == opt_bytes(*o),
{
    match o {
        Some(b) => Some(clone_bytes(b)),
        None => None,
    }
}

/// A copy of a list of strings.
pub fn clone_texts(v: &Vec<String>) -> (r: Vec<String>)
    ensures
        r.deep_view() == v.deep_view(),
{
    let mut r: Vec<String> = Vec::new();
    let mut i: usize = 0;
    while i < v.len()
        invariant
            i <= v.len(),
            r@.len() == i,
            forall|j: int| 0 <= j < i ==> (#[trigger] r@[j])@ == v@[j]@,
        decreases v.len() - i,
    {
        r.push(v[i].clone());
        i = i + 1;
    }
    assert(r.deep_view() =~= v.deep_view());
    r
}

/// The metadata of a series or of an item.
#[derive(Debug, PartialEq, Eq)]
pub struct TokenMetadata {
    /// The name of the series or item.
    pub title: Option<String>,
    /// A free description.
    pub description: Option<String>,
    /// Where the media of the item is found.
    pub media: Option<String>,
    /// The hash of what `media` refers to.
    pub media_hash: Option<Vec<u8>>,
    /// The copies limit of a series.
    pub copies: Option<u64>,
    /// When the item was issued.
    pub issued_at: Option<String>,
    /// When the item expires.
    pub expires_at: Option<String>,
    /// When the item starts to be valid.
    pub starts_at: Option<String>,
    /// When the item was last updated.
    pub updated_at: Option<String>,
    /// Free extension data.
    pub extra: Option<String>,
    /// A reference to more information; in a companion, the event it belongs to.
    pub reference: Option<String>,
    /// The hash of what `reference` refers to.
    pub reference_hash: Option<Vec<u8>>,
}

/// The model of `TokenMetadata`: each text as its characters, each hash as its bytes.
pub struct TokenMetadataView {
    pub title: Option<Seq<char>>,
    pub description: Option<Seq<char>>,
    pub media: Option<Seq<char>>,
    pub media_hash: Option<Seq<u8>>,
    pub copies: Option<u64>,
    pub issued_at: Option<Seq<char>>,
    pub expires_at: Option<Seq<char>>,
    pub starts_at: Option<Seq<char>>,
    pub updated_at: Option<Seq<char>>,
    pub extra: Option<Seq<char>>,
    pub reference: Option<Seq<char>>,
    pub reference_hash: Option<Seq<u8>>,
}

impl View for TokenMetadata {
    type V = TokenMetadataView;

    open spec fn view(&self) -> TokenMetadataView {
        TokenMetadataView {
            title: opt_text(self.title),
            description: opt_text(self.description),
            media: opt_text(self.media),
            media_hash: opt_bytes(self.media_hash),
            copies: self.copies,
            issued_at: opt_text(self.issued_at),
            expires_at: opt_text(self.expires_at),
            starts_at: opt_text(self.starts_at),
            updated_at: opt_text(self.updated_at),
            extra: opt_text(self.extra),
            reference: opt_text(self.reference),
            reference_hash: opt_bytes(self.reference_hash),
        }
    }
}

impl Clone for TokenMetadata {
    fn clone(&self) -> (r: Self)
        ensures
            r@ == self@,
    {
        TokenMetadata {
            title: clone_opt_text(&self.title),
            description: clone_opt_text(&self.description),
            media: clone_opt_text(&self.media),
            media_hash: clone_opt_bytes(&self.media_hash),
            copies: self.copies,
            issued_at: clone_opt_text(&self.issued_at),
            expires_at: clone_opt_text(&self.expires_at),
            starts_at: clone_opt_text(&self.starts_at),
            updated_at: clone_opt_text(&self.updated_at),
            extra: clone_opt_text(&self.extra),
            reference: clone_opt_text(&self.reference),
            reference_hash: clone_opt_bytes(&self.reference_hash),
        }
    }
}

impl TokenMetadata {
    /// Metadata with no field set.
    pub fn empty() -> (m: Self)
        ensures
            m@ == empty_metadata(),
    {
        TokenMetadata {
            title: None,
            description: None,
            media: None,
            media_hash: None,
            copies: None,
            issued_at: None,
            expires_at: None,
            starts_at: None,
            updated_at: None,
            extra: None,
            reference: None,
            reference_hash: None,
        }
    }
}

/// The model of metadata with no field set.
pub open spec fn empty_metadata() -> TokenMetadataView {
    TokenMetadataView {
        title: None,
        description: None,
        media: None,
        media_hash: None,
        copies: None,
        issued_at: None,
        expires_at: None,
        starts_at: None,
        updated_at: None,
        extra: None,
        reference: None,
        reference_hash: None,
    }
}

/// The length of a reference hash, in bytes.
pub const HASH_LEN: usize = 32;

/// The metadata of the contract itself.
#[derive(Debug, PartialEq, Eq)]
pub struct NFTContractMetadata {
    /// The version of the metadata standard.
    pub spec: String,
    /// The name of the collection.
    pub name: String,
    /// Its short symbol.
    pub symbol: String,
    /// An icon, as a data URL.
    pub icon: Option<String>,
    /// The gateway under which `reference` and `media` are found.
    pub base_uri: Option<String>,
    /// A reference to more information.
    pub reference: Option<String>,
    /// The hash of what `reference` refers to.
    pub reference_hash: Option<Vec<u8>>,
}

/// The model of `NFTContractMetadata`.
pub struct NFTContractMetadataView {
    pub spec: Seq<char>,
    pub name: Seq<char>,
    pub symbol: Seq<char>,
    pub icon: Option<Seq<char>>,
    pub base_uri: Option<Seq<char>>,
    pub reference: Option<Seq<char>>,
    pub reference_hash: Option<Seq<u8>>,
}

impl View for NFTContractMetadata {
    type V = NFTContractMetadataView;

    open spec fn view(&self) -> NFTContractMetadataView {
        NFTContractMetadataView {
            spec: self.spec@,
            name: self.name@,
            symbol: self.symbol@,
            icon: opt_text(self.icon),
            base_uri: opt_text(self.base_uri),
            reference: opt_text(self.reference),
            reference_hash: opt_bytes(self.reference_hash),
        }
    }
}

impl Clone for NFTContractMetadata {
    fn clone(&self) -> (r: Self)
        ensures
            r@ == self@,
    {
        NFTContractMetadata {
            spec: self.spec.clone(),
            name: self.name.clone(),
            symbol: self.symbol.clone(),
            icon: clone_opt_text(&self.icon),
            base_uri: clone_opt_text(&self.base_uri),
            reference: clone_opt_text(&self.reference),
            reference_hash: clone_opt_bytes(&self.reference_hash),
        }
    }
}

/// The version of the metadata standard that the contract speaks.
pub open spec fn metadata_spec_text() -> Seq<char> {
    "nft-1.0.0"@
}

/// The contract metadata is well formed: it names the standard's version, it
/// has a reference hash exactly where it has a reference, and the hash has 32 bytes.
pub open spec fn contract_metadata_valid(m: NFTContractMetadataView) -> bool {
    &&& m.spec == metadata_spec_text()
    &&& (m.reference is Some <==> m.reference_hash is Some)
    &&& (m.reference_hash matches Some(h) ==> h.len() == HASH_LEN)
}

/// Reads the constant `NFT_METADATA_SPEC` of
/// `near_contract_standards::non_fungible_token::metadata`. Trusted: its
/// text is `nft-1.0.0`.
#[verifier::external_body]
pub(crate) fn standard_metadata_spec() -> (s: String)
    ensures
        s@ == metadata_spec_text(),
{
    near_contract_standards::non_fungible_token::metadata::NFT_METADATA_SPEC.to_string()
}

impl NFTContractMetadata {
    /// Whether the metadata is well formed.
    pub fn is_valid(&self) -> (ok: bool)
        ensures
            ok == contract_metadata_valid(self@),
    {
        let standard = standard_metadata_spec();
        if self.spec != standard {
            return false;
        }
        match &self.reference_hash {
            Some(h) => self.reference.is_some() && h.len() == HASH_LEN,
            None => self.reference.is_none(),
        }
    }
}

} // verus!
