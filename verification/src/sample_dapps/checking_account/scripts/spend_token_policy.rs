//! The policy of the tokens that the allowances of an account carry: only the
//! owner of the account can mint them.
use crate::bytes::{clone_bytes, to_vec};
use crate::hex::hex_encoding;
use crate::scripts::context::{PubKeyHash, TxContext, TxContextView};
use crate::scripts::{MintingPolicy, ScriptError, ScriptFault, ScriptResult};
use vstd::prelude::*;
use vstd::utf8::encode_utf8;

verus! {

/// The policy of the spend tokens of the account that the token `nft` names
/// and `owner` owns.
#[derive(Debug, PartialEq, Eq)]
pub struct SpendTokenPolicy {
    pub nft: Vec<u8>,
    pub owner: PubKeyHash,
}

/// The bytes that stand for the code of the policy with its parameters: a
/// label, the id of the account's token, and the hash of the owner's key.
pub open spec fn spend_token_code(nft: Seq<u8>, owner: Seq<u8>) -> Seq<u8> {
    encode_utf8("spend-token:"@) + nft + owner
}

impl SpendTokenPolicy {
    /// The bytes that stand for the code of the policy.
    pub fn code(&self) -> (r: Vec<u8>)
        ensures
            r@ == spend_token_code(self.nft@, self.owner@),
    {
        let mut code = to_vec("spend-token:".as_bytes());
        let mut nft = clone_bytes(&self.nft);
        code.append(&mut nft);
        let mut owner = self.owner.bytes();
        code.append(&mut owner);
        code
    }
}

impl SpendTokenPolicy {
    /// Runs the policy.
    pub fn run(&self, ctx: &TxContext) -> (r: ScriptResult<()>)
        ensures
            r is Ok <==> ctx@.signer == self.owner@,
            r matches Err(e) ==> e@ == ScriptFault::FailedToExecute(
                "Only the owner of the account can mint spend tokens"@,
            ),
    {
        if ctx.signer == self.owner {
            Ok(())
        } else {
            Err(
                ScriptError::FailedToExecute(
                    "Only the owner of the account can mint spend tokens".to_owned(),
                ),
            )
        }
    }

    /// The id of the policy: the code in hexadecimal text.
    pub fn hex_id(&self) -> (r: String)
        ensures
            r@ == hex_encoding(spend_token_code(self.nft@, self.owner@)),
            crate::hex::hex_decoding(r@) == Some(spend_token_code(self.nft@, self.owner@)),
    {
        crate::hex::encode(&self.code())
    }
}

impl MintingPolicy<()> for SpendTokenPolicy {
    open spec fn permits(&self, redeemer: (), ctx: TxContextView) -> bool {
        ctx.signer == self.owner@
    }

    fn execute(&self, redeemer: &(), ctx: &TxContext) -> (r: ScriptResult<()>) {
        self.run(ctx)
    }

    open spec fn refuses(&self, redeemer: (), ctx: TxContextView, fault: ScriptFault) -> bool {
        fault == ScriptFault::FailedToExecute("Only the owner of the account can mint spend tokens"@)
    }

    open spec fn policy_id(&self) -> Seq<char> {
        hex_encoding(spend_token_code(self.nft@, self.owner@))
    }

    fn id(&self) -> (r: String) {
        self.hex_id()
    }
}

/// The policy of the spend tokens of the account that the token `nft` names
/// and `owner` owns.
pub fn spend_token_policy(nft: Vec<u8>, owner: PubKeyHash) -> (r: ScriptResult<SpendTokenPolicy>)
    ensures
        r matches Ok(policy) && policy.nft == nft && policy.owner == owner,
{
    Ok(SpendTokenPolicy { nft, owner })
}

} // verus!
