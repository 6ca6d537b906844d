//! Read-only registry of known program contracts.

use vstd::prelude::*;
use vstd::string::*;
use crate::text::{lower_of, lowercase, seq_ieq, str_eq_ignore_ascii_case};
use crate::types::ChainId;

verus! {

/// A known contract: a name, its on-chain address, and the chain it lives
/// on.
pub struct Contract {
    pub name: String,
    pub address: String,
    pub chain_id: ChainId,
}

impl Clone for Contract {
    fn clone(&self) -> (r: Self)
        ensures
            r == *self,
    {
        Contract {
            name: self.name.clone(),
            address: self.address.clone(),
            chain_id: self.chain_id,
        }
    }
}

/// Error returned by a contract store.
pub struct ContractStoreError {
    pub message: String,
}

/// A contract's address matches the query up to lower-casing.
pub open spec fn address_matches(c: Contract, query: Seq<char>) -> bool {
    lower_of(c.address@) == lower_of(query)
}

/// A contract matches a name query (ASCII-case-insensitively) on a chain.
pub open spec fn name_matches(c: Contract, name: Seq<char>, chain_id: ChainId) -> bool {
    seq_ieq(c.name@, name) && c.chain_id == chain_id
}

/// Capability interface of a contract registry, modelled as an ordered
/// list of contracts searched front to back.
pub trait ContractStore: Sized {
    /// The registered contracts, in registration order.
    spec fn model(&self) -> Seq<Contract>;

    /// The first contract whose lower-cased address equals the lower-cased
    /// query.
    fn get_contract_by_address(&self, address: &str) -> (r: Result<
        Option<Contract>,
        ContractStoreError,
    >)
        ensures
            r matches Ok(Some(c)) ==> exists|i: int|
                0 <= i < self.model().len() && #[trigger] self.model()[i] == c && address_matches(
                    c,
                    address@,
                ) && (forall|j: int| 0 <= j < i ==> !address_matches(#[trigger] self.model()[j], address@)),
            r matches Ok(None) ==> forall|j: int|
                0 <= j < self.model().len() ==> !address_matches(#[trigger] self.model()[j], address@),
    ;

    /// The first contract on `chain_id` whose name equals the query up to
    /// ASCII case.
    fn get_contract_by_name_for_chain_id(&self, name: &str, chain_id: ChainId) -> (r: Result<
        Option<Contract>,
        ContractStoreError,
    >)
        ensures
            r matches Ok(Some(c)) ==> exists|i: int|
                0 <= i < self.model().len() && #[trigger] self.model()[i] == c && name_matches(
                    c,
                    name@,
                    chain_id,
                ) && (forall|j: int|
                    0 <= j < i ==> !name_matches(#[trigger] self.model()[j], name@, chain_id)),
            r matches Ok(None) ==> forall|j: int|
                0 <= j < self.model().len() ==> !name_matches(
                    #[trigger] self.model()[j],
                    name@,
                    chain_id,
                ),
    ;

    /// The addresses of the contracts on `chain_id`, in registration order.
    fn list_contract_addresses_for_chain(&self, chain_id: ChainId) -> (r: Vec<String>)
        ensures
            string_views(r@) == addresses_upto(self.model(), chain_id, self.model().len() as int),
    ;

    /// Every registered contract, in registration order.
    fn list_contracts(&self) -> (r: Vec<Contract>)
        ensures
            r@ == self.model(),
    ;
}

/// The addresses of the contracts on `chain_id` among the first `n`
/// registered, in order.
pub open spec fn addresses_upto(model: Seq<Contract>, chain_id: ChainId, n: int) -> Seq<Seq<char>>
    decreases n,
{
    if n <= 0 {
        Seq::empty()
    } else {
        let rest = addresses_upto(model, chain_id, n - 1);
        if model[n - 1].chain_id == chain_id {
            rest.push(model[n - 1].address@)
        } else {
            rest
        }
    }
}

/// The views of a list of strings.
pub open spec fn string_views(s: Seq<String>) -> Seq<Seq<char>> {
    s.map_values(|x: String| x@)
}

/// A registry backed by a vector.
pub struct InMemoryContractStore {
    contracts: Vec<Contract>,
}

impl InMemoryContractStore {
    pub fn new(contracts: Vec<Contract>) -> (r: Self)
        ensures
            r.model() == contracts@,
    {
        InMemoryContractStore { contracts }
    }
}

impl ContractStore for InMemoryContractStore {
    closed spec fn model(&self) -> Seq<Contract> {
        self.contracts@
    }

    fn get_contract_by_address(&self, address: &str) -> (r: Result<
        Option<Contract>,
        ContractStoreError,
    >)
        ensures
            r is Ok,
    {
        let address_lower = lowercase(address);
        let mut i: usize = 0;
        while i < self.contracts.len()
            invariant
                i <= self.contracts@.len(),
                address_lower@ == lower_of(address@),
                forall|j: int| 0 <= j < i ==> !address_matches(#[trigger] self.contracts@[j], address@),
            decreases self.contracts@.len() - i,
        {
            let candidate = lowercase(self.contracts[i].address.as_str());
            if candidate == address_lower {
                let found = self.contracts[i].clone();
                proof {
                    assert(address_matches(self.contracts@[i as int], address@));
                    assert(self.model()[i as int] == found && address_matches(found, address@));
                }
                return Ok(Some(found));
            }
            i += 1;
        }
        Ok(None)
    }

    fn get_contract_by_name_for_chain_id(&self, name: &str, chain_id: ChainId) -> (r: Result<
        Option<Contract>,
        ContractStoreError,
    >)
        ensures
            r is Ok,
    {
        let mut i: usize = 0;
        while i < self.contracts.len()
            invariant
                i <= self.contracts@.len(),
                forall|j: int|
                    0 <= j < i ==> !name_matches(#[trigger] self.contracts@[j], name@, chain_id),
            decreases self.contracts@.len() - i,
        {
            let c = &self.contracts[i];
            if c.chain_id == chain_id && str_eq_ignore_ascii_case(c.name.as_str(), name) {
                let found = self.contracts[i].clone();
                proof {
                    assert(name_matches(self.contracts@[i as int], name@, chain_id));
                    assert(self.model()[i as int] == found && name_matches(found, name@, chain_id));
                }
                return Ok(Some(found));
            }
            i += 1;
        }
        Ok(None)
    }

    fn list_contract_addresses_for_chain(&self, chain_id: ChainId) -> (r: Vec<String>) {
        let mut out: Vec<String> = Vec::new();
        let mut i: usize = 0;
        while i < self.contracts.len()
            invariant
                i <= self.contracts@.len(),
                string_views(out@) == addresses_upto(self.contracts@, chain_id, i as int),
            decreases self.contracts@.len() - i,
        {
            let ghost pre = out@;
            if self.contracts[i].chain_id == chain_id {
                out.push(self.contracts[i].address.clone());
                proof {
                    assert(string_views(out@) =~= string_views(pre).push(
                        self.contracts@[i as int].address@,
                    ));
                    assert(addresses_upto(self.contracts@, chain_id, i + 1) == addresses_upto(
                        self.contracts@,
                        chain_id,
                        i as int,
                    ).push(self.contracts@[i as int].address@));
                }
            } else {
                proof {
                    assert(addresses_upto(self.contracts@, chain_id, i + 1) == addresses_upto(
                        self.contracts@,
                        chain_id,
                        i as int,
                    ));
                }
            }
            i += 1;
        }
        out
    }

    fn list_contracts(&self) -> (r: Vec<Contract>) {
        let mut out: Vec<Contract> = Vec::new();
        let mut i: usize = 0;
        while i < self.contracts.len()
            invariant
                i <= self.contracts@.len(),
                out@ == self.contracts@.subrange(0, i as int),
            decreases self.contracts@.len() - i,
        {
            out.push(self.contracts[i].clone());
            proof {
                assert(out@ =~= self.contracts@.subrange(0, i + 1));
            }
            i += 1;
        }
        proof {
            assert(out@ =~= self.contracts@);
        }
        out
    }
}

} // verus!
