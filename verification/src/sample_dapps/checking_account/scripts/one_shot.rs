//! The policy that mints a token once: only the transaction that spends a
//! given output can mint under it.
use crate::bytes::{bytes_eq, clone_bytes, to_vec};
use crate::hex::hex_encoding;
use crate::output::{Output, OutputIdView};
use crate::scripts::context::{CtxOutputReference, InputView, OutputRef, TxContext, TxContextView};
use crate::scripts::{MintingPolicy, ScriptError, ScriptFault, ScriptResult};
use vstd::bytes::{spec_u64_to_le_bytes, u64_to_le_bytes};
use vstd::prelude::*;
use vstd::utf8::encode_utf8;

verus! {

/// Names the output whose spending permits the minting.
#[derive(Debug, PartialEq, Eq)]
pub struct OutputReference {
    pub transaction_id: Vec<u8>,
    pub output_index: u64,
}

impl View for OutputReference {
    type V = OutputRef;

    open spec fn view(&self) -> OutputRef {
        OutputRef { transaction_id: self.transaction_id@, output_index: self.output_index }
    }
}

impl OutputReference {
    /// The name of `output`.
    pub fn from_output<Datum>(output: &Output<Datum>) -> (r: Self)
        ensures
            r@ == (OutputRef {
                transaction_id: output@.id.tx_hash,
                output_index: output@.id.index,
            }),
    {
        OutputReference {
            transaction_id: to_vec(output.id().tx_hash()),
            output_index: output.id().index(),
        }
    }
}

/// The policy that permits minting to the transaction that spends the output
/// that it names.
#[derive(Debug, PartialEq, Eq)]
pub struct OneShotPolicy {
    pub output_reference: OutputReference,
}

/// Whether one of `inputs` is the output named `reference`.
pub open spec fn spends(inputs: Seq<InputView>, reference: OutputRef) -> bool
    decreases inputs.len(),
{
    if inputs.len() == 0 {
        false
    } else {
        inputs.last().reference == reference || spends(inputs.drop_last(), reference)
    }
}

/// What is spent among the first `n` inputs is spent among all.
pub proof fn lemma_spends_grows(inputs: Seq<InputView>, reference: OutputRef, n: int)
    requires
        0 <= n <= inputs.len(),
        spends(inputs.take(n), reference),
    ensures
        spends(inputs, reference),
    decreases inputs.len() - n,
{
    if n < inputs.len() {
        assert(inputs.take(n + 1).drop_last() =~= inputs.take(n));
        lemma_spends_grows(inputs, reference, n + 1);
    } else {
        assert(inputs.take(n) =~= inputs);
    }
}

/// The bytes that stand for the code of the policy with its parameter: a
/// label, the id of the transaction, and the index in eight bytes.
pub open spec fn one_shot_code(reference: OutputRef) -> Seq<u8> {
    encode_utf8("one-shot:"@) + reference.transaction_id + spec_u64_to_le_bytes(
        reference.output_index,
    )
}

impl OneShotPolicy {
    /// The policy for the output named `output_reference`.
    pub fn new(output_reference: OutputReference) -> (r: Self)
        ensures
            r.output_reference == output_reference,
    {
        OneShotPolicy { output_reference }
    }

    /// The bytes that stand for the code of the policy.
    pub fn code(&self) -> (r: Vec<u8>)
        ensures
            r@ == one_shot_code(self.output_reference@),
    {
        let mut code = to_vec("one-shot:".as_bytes());
        let mut id = clone_bytes(&self.output_reference.transaction_id);
        code.append(&mut id);
        let mut index = u64_to_le_bytes(self.output_reference.output_index);
        code.append(&mut index);
        code
    }
}

impl OneShotPolicy {
    /// Runs the policy.
    pub fn run(&self, ctx: &TxContext) -> (r: ScriptResult<()>)
        ensures
            r is Ok <==> spends(ctx@.inputs, self.output_reference@),
            r matches Err(e) ==> e@ == ScriptFault::FailedToExecute(
                "The output that permits the minting is not spent"@,
            ),
    {
        let ghost all = ctx@.inputs;
        let mut i: usize = 0;
        assert(all.take(0) =~= Seq::<InputView>::empty());
        while i < ctx.inputs.len()
            invariant
                i <= ctx.inputs.len(),
                all == ctx@.inputs,
                !spends(all.take(i as int), self.output_reference@),
            decreases ctx.inputs.len() - i,
        {
            assert(all.take(i + 1).drop_last() =~= all.take(i as int));
            assert(all[i as int] == ctx.inputs[i as int]@);
            if ctx.inputs[i].output_index == self.output_reference.output_index && bytes_eq(
                &ctx.inputs[i].transaction_id,
                &self.output_reference.transaction_id,
            ) {
                proof {
                    lemma_spends_grows(all, self.output_reference@, i + 1);
                }
                return Ok(());
            }
            i += 1;
        }
        assert(all.take(i as int) =~= all);
        Err(
            ScriptError::FailedToExecute(
                "The output that permits the minting is not spent".to_owned(),
            ),
        )
    }

    /// The id of the policy: the code in hexadecimal text.
    pub fn hex_id(&self) -> (r: String)
        ensures
            r@ == hex_encoding(one_shot_code(self.output_reference@)),
            crate::hex::hex_decoding(r@) == Some(one_shot_code(self.output_reference@)),
    {
        crate::hex::encode(&self.code())
    }
}

impl MintingPolicy<()> for OneShotPolicy {
    open spec fn permits(&self, redeemer: (), ctx: TxContextView) -> bool {
        spends(ctx.inputs, self.output_reference@)
    }

    fn execute(&self, redeemer: &(), ctx: &TxContext) -> (r: ScriptResult<()>) {
        self.run(ctx)
    }

    open spec fn refuses(&self, redeemer: (), ctx: TxContextView, fault: ScriptFault) -> bool {
        fault == ScriptFault::FailedToExecute("The output that permits the minting is not spent"@)
    }

    open spec fn policy_id(&self) -> Seq<char> {
        hex_encoding(one_shot_code(self.output_reference@))
    }

    fn id(&self) -> (r: String) {
        self.hex_id()
    }
}

} // verus!
