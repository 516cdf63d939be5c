//! The actions of a transaction whose content this crate can hold, and the
//! text form in which their binary payloads are shown.

use vstd::prelude::*;
use base64::Engine;

verus! {

/// The standard base64 text, with padding, of a byte string.
pub uninterp spec fn base64_text(bytes: Seq<u8>) -> Seq<char>;

/// `Engine::encode` of `base64::engine::general_purpose::STANDARD`: the
/// standard base64 text of the bytes. The text is a function of the bytes
/// alone; nothing else is claimed of it here.
#[verifier::external_body]
pub fn base64(s: &[u8]) -> (text: String)
    ensures
        text@ == base64_text(s@),
{
    base64::engine::general_purpose::STANDARD.encode(s)
}

/// Creates the account that the transaction is addressed to.
#[derive(PartialEq, Eq, Clone, Copy, Debug)]
pub struct CreateAccountAction {}

/// Deploys a contract to the account.
#[derive(PartialEq, Eq, Debug)]
pub struct DeployContractAction {
    /// WebAssembly binary.
    pub code: Vec<u8>,
}

impl DeployContractAction {
    /// The code as base64 text, as it is shown.
    pub fn code_text(&self) -> (text: String)
        ensures
            text@ == base64_text(self.code@),
    {
        base64(self.code.as_slice())
    }
}

/// How a global contract is found once it is deployed.
#[derive(PartialEq, Eq, Clone, Copy, Debug)]
pub enum GlobalContractDeployMode {
    /// Under the hash of its code: the contract can never change.
    CodeHash,
    /// Under the account that owns it: the owner can replace it for all its
    /// users.
    AccountId,
}

/// Deploys a contract that any account can use.
#[derive(PartialEq, Eq, Debug)]
pub struct DeployGlobalContractAction {
    /// WebAssembly binary.
    pub code: Vec<u8>,
    pub deploy_mode: GlobalContractDeployMode,
}

impl DeployGlobalContractAction {
    /// The code as base64 text, as it is shown.
    pub fn code_text(&self) -> (text: String)
        ensures
            text@ == base64_text(self.code@),
    {
        base64(self.code.as_slice())
    }
}

} // verus!
