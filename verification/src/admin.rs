//! Setting the contract up, and what its owner and administrators may change.

use vstd::prelude::*;
use vstd::string::*;
use crate::context::CallContext;
use crate::error::Error;
use crate::machine::{Operation, apply};
use crate::metadata::{
    NFTContractMetadata, NFTContractMetadataView, contract_metadata_valid, metadata_spec_text,
    standard_metadata_spec,
};
use crate::state::{Contract, ContractView, insert_text, is_administrator, lemma_with_text_distinct, with_text};

verus! {

/// The vault fee of a new contract, in basis points.
pub const DEFAULT_VAULT_FEE: u32 = 300;

/// The name and the symbol of the default metadata.
pub const DEFAULT_NAME: &'static str = "Mintick";

/// The icon of the default metadata.
pub const DATA_IMAGE_SVG_NEAR_ICON: &'static str =
    "data:image/svg+xml,%3Csvg xmlns='http://www.w3.org/2000/svg' viewBox='0 0 288 288'%3E%3Cg id='l' data-name='l'%3E%3Cpath d='M187.58,79.81l-30.1,44.69a3.2,3.2,0,0,0,4.75,4.2L191.86,103a1.2,1.2,0,0,1,2,.91v80.46a1.2,1.2,0,0,1-2.12.77L102.18,77.93A15.35,15.35,0,0,0,90.47,72.5H87.34A15.34,15.34,0,0,0,72,87.84V201.16A15.34,15.34,0,0,0,87.34,216.5h0a15.35,15.35,0,0,0,13.08-7.31l30.1-44.69a3.2,3.2,0,0,0-4.75-4.2L96.14,186a1.2,1.2,0,0,1-2-.91V104.61a1.2,1.2,0,0,1,2.12-.77l89.55,107.23a15.35,15.35,0,0,0,11.71,5.43h3.13A15.34,15.34,0,0,0,216,201.16V87.84A15.34,15.34,0,0,0,200.66,72.5h0A15.35,15.35,0,0,0,187.58,79.81Z'/%3E%3C/g%3E%3C/svg%3E";

/// The state of a new contract: no administrator, no series, no exchange
/// rate, and the default vault fee.
pub open spec fn initial_state(owner_id: Seq<char>, vault_id: Seq<char>, metadata: NFTContractMetadataView) -> ContractView {
    ContractView {
        metadata: metadata,
        owner_id: owner_id,
        list_admin: Seq::empty(),
        id_objects: 0,
        id_event: 0,
        series: Seq::empty(),
        vault_id: vault_id,
        vault_fee: DEFAULT_VAULT_FEE,
        tasa: 0,
    }
}

/// The default metadata of the contract.
pub open spec fn default_metadata() -> NFTContractMetadataView {
    NFTContractMetadataView {
        spec: metadata_spec_text(),
        name: DEFAULT_NAME@,
        symbol: DEFAULT_NAME@,
        icon: Some(DATA_IMAGE_SVG_NEAR_ICON@),
        base_uri: None,
        reference: None,
        reference_hash: None,
    }
}

/// The state after `account` was made an administrator.
pub open spec fn after_add_admin(c: ContractView, account: Seq<char>) -> ContractView {
    ContractView { list_admin: with_text(c.list_admin, account), ..c }
}

/// Why the exchange rate cannot be set to `tasa`, if it cannot: the signer
/// is no administrator, or the rate is not positive.
pub open spec fn update_tasa_fault(c: ContractView, signer: Seq<char>, tasa: u64) -> Option<Error> {
    if !is_administrator(c, signer) {
        Some(Error::OnlyAdministrator)
    } else if tasa == 0 {
        Some(Error::RateNotPositive)
    } else {
        None
    }
}

impl Contract {
    fn fresh(owner_id: String, vault_id: String, metadata: NFTContractMetadata) -> (c: Self)
        ensures
            c@ == initial_state(owner_id@, vault_id@, metadata@),
            c.wf(),
    {
        let c = Contract {
            metadata,
            owner_id,
            list_admin: Vec::new(),
            id_objects: 0,
            id_event: 0,
            token_series_by_id: Vec::new(),
            vault_id,
            vault_fee: DEFAULT_VAULT_FEE,
            tasa: 0,
        };
        assert(c@.list_admin =~= Seq::<Seq<char>>::empty());
        assert(c@.series =~= Seq::empty());
        c
    }

    /// A new contract of `owner_id` with the default metadata.
    pub fn new_default_meta(owner_id: String, vault_id: String) -> (c: Self)
        ensures
            c@ == initial_state(owner_id@, vault_id@, default_metadata()),
            c.wf(),
    {
        let metadata = NFTContractMetadata {
            spec: standard_metadata_spec(),
            name: String::from_str(DEFAULT_NAME),
            symbol: String::from_str(DEFAULT_NAME),
            icon: Some(String::from_str(DATA_IMAGE_SVG_NEAR_ICON)),
            base_uri: None,
            reference: None,
            reference_hash: None,
        };
        Contract::fresh(owner_id, vault_id, metadata)
    }

    /// A new contract of `owner_id` with the given metadata, which must be
    /// well formed.
    pub fn new(owner_id: String, vault_id: String, metadata: NFTContractMetadata) -> (r: Result<Self, Error>)
        ensures
            contract_metadata_valid(metadata@) ==> (r matches Ok(c) && c.wf() && c@ == initial_state(
                owner_id@,
                vault_id@,
                metadata@,
            )),
            !contract_metadata_valid(metadata@) ==> (r matches Err(e) && e == Error::InvalidMetadata),
    {
        if !metadata.is_valid() {
            return Err(Error::InvalidMetadata);
        }
        Ok(Contract::fresh(owner_id, vault_id, metadata))
    }

    /// Makes `account_id` an administrator. Only the owner and the
    /// administrators may sign this.
    pub fn add_admin(&mut self, ctx: &CallContext, account_id: String) -> (r: Result<(), Error>)
        requires
            old(self).wf(),
        ensures
            final(self).wf(),
            is_administrator(old(self)@, ctx.signer_id@) ==> r is Ok && final(self)@ == after_add_admin(
                old(self)@,
                account_id@,
            ),
            !is_administrator(old(self)@, ctx.signer_id@) ==> r == Err::<(), Error>(Error::OnlyAdministrator)
                && final(self)@ == old(self)@,
            final(self)@ == apply(
                old(self)@,
                (Operation::AddAdmin { signer: ctx.signer_id@, account: account_id@ }),
            ),
    {
        if !self.is_administrator(&ctx.signer_id) {
            return Err(Error::OnlyAdministrator);
        }
        proof {
            lemma_with_text_distinct(self@.list_admin, account_id@);
        }
        insert_text(&mut self.list_admin, account_id);
        Ok(())
    }

    /// Sets the exchange rate, which must be positive, and returns it. Only
    /// the owner and the administrators may sign this.
    pub fn update_tasa(&mut self, ctx: &CallContext, tasa: u64) -> (r: Result<u64, Error>)
        requires
            old(self).wf(),
        ensures
            final(self).wf(),
            match update_tasa_fault(old(self)@, ctx.signer_id@, tasa) {
                Some(e) => r == Err::<u64, Error>(e) && final(self)@ == old(self)@,
                None => r == Ok::<u64, Error>(tasa) && final(self)@ == (ContractView { tasa: tasa, ..old(self)@ }),
            },
            final(self)@ == apply(old(self)@, (Operation::UpdateTasa { signer: ctx.signer_id@, tasa: tasa })),
    {
        if !self.is_administrator(&ctx.signer_id) {
            return Err(Error::OnlyAdministrator);
        }
        if tasa == 0 {
            return Err(Error::RateNotPositive);
        }
        self.tasa = tasa;
        Ok(tasa)
    }

    /// The exchange rate; zero until one is set.
    pub fn get_tasa(&self) -> (tasa: u64)
        ensures
            tasa == self@.tasa,
    {
        self.tasa
    }

    /// The metadata of the contract.
    pub fn nft_metadata(&self) -> (m: NFTContractMetadata)
        ensures
            m@ == self@.metadata,
    {
        self.metadata.clone()
    }
}

} // verus!
