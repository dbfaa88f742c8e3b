//! One proof request, from the decoded body to the response: its inputs are
//! checked and decoded into a query, the query is sent upstream by the caller,
//! and the upstream reply is shaped into a response.
use vstd::prelude::*;
use vstd::string::StringSliceAdditionalSpecFns;
use vstd::utf8::encode_utf8;
use crate::address::{
    address_digits, address_text_valid, parse_contract_address, ContractAddress,
    DEFAULT_TARGET_CONTRACT,
};
use crate::block::{block_ref_of_text, parse_block_reference, BlockRef};
use crate::error::ProofError;
use crate::hexcode::{hex_decoded, lemma_prefixed_hex_injective, prefixed_hex, to_prefixed_hex};
use crate::slot::{parse_storage_slot, slot_digits, slot_key, slot_text_valid, StorageSlot, SLOT_BYTES};

verus! {

/// The body of a proof request.
#[derive(Clone, Debug)]
pub struct ProofRequest {
    pub block_number: String,
    pub storage_slot: String,
    /// The account whose storage is proven; the default target when absent.
    pub contract_address: Option<String>,
}

/// A decoded request, ready to be sent as `eth_getProof`.
#[derive(Clone, Debug)]
pub struct ProofQuery {
    pub contract: ContractAddress,
    pub slot: StorageSlot,
    pub block: BlockRef,
}

impl ProofQuery {
    pub open spec fn wf(&self) -> bool {
        self.contract.wf() && self.slot.wf()
    }
}

/// The three texts of a request all decode.
pub open spec fn query_texts_valid(contract: Seq<u8>, block: Seq<u8>, slot: Seq<u8>) -> bool {
    address_text_valid(contract) && block_ref_of_text(block) is Some && slot_text_valid(slot)
}

/// `q` is the query that the three texts decode to.
pub open spec fn query_decodes(q: ProofQuery, contract: Seq<u8>, block: Seq<u8>, slot: Seq<u8>) -> bool {
    &&& q.wf()
    &&& q.contract.bytes@ == hex_decoded(address_digits(contract))
    &&& block_ref_of_text(block) == Some(q.block)
    &&& q.slot.bytes@ == slot_key(slot)
}

/// Decodes the contract address, block reference and storage slot of a
/// request. Any text that does not decode makes the request malformed; in
/// particular a storage slot of more than 32 bytes is refused.
pub fn prepare_query(contract: &str, block: &str, slot: &str) -> (r: Result<ProofQuery, ProofError>)
    ensures
        match r {
            Ok(q) => query_texts_valid(contract.spec_bytes(), block.spec_bytes(), slot.spec_bytes())
                && query_decodes(q, contract.spec_bytes(), block.spec_bytes(), slot.spec_bytes()),
            Err(e) => !query_texts_valid(contract.spec_bytes(), block.spec_bytes(), slot.spec_bytes())
                && e == ProofError::MalformedInput,
        },
        slot_digits(slot.spec_bytes()).len() > 2 * SLOT_BYTES ==> r == Err::<ProofQuery, ProofError>(
            ProofError::MalformedInput,
        ),
{
    let contract = match parse_contract_address(contract) {
        Ok(a) => a,
        Err(e) => return Err(e),
    };
    let block = match parse_block_reference(block) {
        Ok(b) => b,
        Err(e) => return Err(e),
    };
    let slot = match parse_storage_slot(slot) {
        Ok(s) => s,
        Err(e) => return Err(e),
    };
    Ok(ProofQuery { contract, slot, block })
}

/// The address text that a request stands for.
pub open spec fn request_contract_text(req: &ProofRequest) -> Seq<u8> {
    match req.contract_address {
        Some(a) => encode_utf8(a@),
        None => DEFAULT_TARGET_CONTRACT.spec_bytes(),
    }
}

impl ProofRequest {
    /// Decodes the request into a query, with the default target contract
    /// where the request names none.
    pub fn to_query(&self) -> (r: Result<ProofQuery, ProofError>)
        ensures
            match r {
                Ok(q) => query_texts_valid(
                    request_contract_text(self),
                    encode_utf8(self.block_number@),
                    encode_utf8(self.storage_slot@),
                ) && query_decodes(
                    q,
                    request_contract_text(self),
                    encode_utf8(self.block_number@),
                    encode_utf8(self.storage_slot@),
                ),
                Err(e) => !query_texts_valid(
                    request_contract_text(self),
                    encode_utf8(self.block_number@),
                    encode_utf8(self.storage_slot@),
                ) && e == ProofError::MalformedInput,
            },
    {
        let contract: &str = match &self.contract_address {
            Some(a) => a.as_str(),
            None => DEFAULT_TARGET_CONTRACT,
        };
        prepare_query(contract, self.block_number.as_str(), self.storage_slot.as_str())
    }
}

/// What the JSON-RPC node answered to one `eth_getProof`.
#[derive(Clone, Debug)]
pub enum UpstreamReply {
    /// The storage proofs, one per requested key, each a list of trie nodes
    /// from the root down, as the node sent them.
    Proof(Vec<Vec<Vec<u8>>>),
    /// The transport could not connect.
    Unreachable,
    /// The node answered with an error object.
    RpcError,
}

/// The answer to a proof request.
#[derive(Clone, Debug)]
pub struct ProofResponse {
    pub success: bool,
    /// The storage proof's trie nodes, each as `0x` and hexadecimal.
    pub merkle_proof: Vec<String>,
    /// Why the request failed, when it did.
    pub error: Option<ProofError>,
}

/// The texts of a response's proof nodes.
pub open spec fn response_proof(r: ProofResponse) -> Seq<Seq<char>> {
    r.merkle_proof@.map_values(|s: String| s@)
}

/// Trie nodes written as hexadecimal texts, in the same order.
pub open spec fn nodes_hex(nodes: Seq<Vec<u8>>) -> Seq<Seq<char>> {
    nodes.map_values(|n: Vec<u8>| prefixed_hex(n@))
}

/// `r` carries the nodes, in order, and no error.
pub open spec fn is_success_with(r: ProofResponse, nodes: Seq<Vec<u8>>) -> bool {
    r.success && r.error is None && response_proof(r) == nodes_hex(nodes)
}

/// `r` reports `e` and carries no proof data.
pub open spec fn is_failure_with(r: ProofResponse, e: ProofError) -> bool {
    !r.success && r.merkle_proof@.len() == 0 && r.error == Some(e)
}

impl ProofResponse {
    /// A successful response that carries the nodes, in the order given.
    pub fn from_nodes(nodes: &Vec<Vec<u8>>) -> (r: ProofResponse)
        ensures
            is_success_with(r, nodes@),
    {
        let mut proof: Vec<String> = Vec::new();
        let mut i: usize = 0;
        while i < nodes.len()
            invariant
                i <= nodes@.len(),
                proof@.len() == i,
                forall|j: int| 0 <= j < i ==> (#[trigger] proof@[j])@ == prefixed_hex(nodes@[j]@),
            decreases nodes@.len() - i,
        {
            let text = to_prefixed_hex(&nodes[i]);
            proof.push(text);
            i = i + 1;
        }
        let r = ProofResponse { success: true, merkle_proof: proof, error: None };
        assert(response_proof(r) =~= nodes_hex(nodes@));
        r
    }

    /// A failed response that reports `e` and carries no proof data.
    pub fn failure(e: ProofError) -> (r: ProofResponse)
        ensures
            is_failure_with(r, e),
    {
        ProofResponse { success: false, merkle_proof: Vec::new(), error: Some(e) }
    }
}

/// Shapes the node's reply into a response. A proof gives a successful
/// response with the first key's nodes exactly as sent; a reply without a
/// storage proof, or an error object, is an upstream error; a failed
/// transport is reported as such. A failure never carries proof data.
pub fn respond_to_reply(reply: &UpstreamReply) -> (r: ProofResponse)
    ensures
        match reply {
            UpstreamReply::Proof(keys) => if keys@.len() > 0 {
                is_success_with(r, keys@[0]@)
            } else {
                is_failure_with(r, ProofError::UpstreamError)
            },
            UpstreamReply::Unreachable => is_failure_with(r, ProofError::EndpointUnreachable),
            UpstreamReply::RpcError => is_failure_with(r, ProofError::UpstreamError),
        },
{
    match reply {
        UpstreamReply::Proof(keys) => {
            if keys.len() > 0 {
                ProofResponse::from_nodes(&keys[0])
            } else {
                ProofResponse::failure(ProofError::UpstreamError)
            }
        },
        UpstreamReply::Unreachable => ProofResponse::failure(ProofError::EndpointUnreachable),
        UpstreamReply::RpcError => ProofResponse::failure(ProofError::UpstreamError),
    }
}

/// A response's proof list gives back the node list it was made from, in
/// order: two node lists that yield the same proof texts hold the same nodes
/// at every position, so nothing was reordered, dropped or merged.
pub proof fn lemma_proof_order_kept(a: Seq<Vec<u8>>, b: Seq<Vec<u8>>)
    requires
        nodes_hex(a) == nodes_hex(b),
    ensures
        a.len() == b.len(),
        forall|i: int| 0 <= i < a.len() ==> (#[trigger] a[i])@ == b[i]@,
{
    assert(nodes_hex(a).len() == a.len() && nodes_hex(b).len() == b.len());
    assert forall|i: int| 0 <= i < a.len() implies (#[trigger] a[i])@ == b[i]@ by {
        assert(nodes_hex(a)[i] == nodes_hex(b)[i]);
        lemma_prefixed_hex_injective(a[i]@, b[i]@);
    }
}

} // verus!
