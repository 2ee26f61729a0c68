//! A minting policy that comes compiled. Its id is the hash of its code. The
//! library reads the code and does not run it: to ask the policy is not
//! supported.
use crate::bytes::opt_bytes;
use crate::hex::hex_decoding;
use crate::scripts::context::{TxContext, TxContextView};
use crate::scripts::raw_script::{PlutusScriptFile, RawPlutusScriptError, RawPlutusScriptResult};
use crate::scripts::{MintingPolicy, ScriptError, ScriptFault, ScriptResult};
use vstd::prelude::*;

verus! {

/// The id of the script of the first generation whose CBOR form is `cbor`, as
/// `cardano_multiplatform_lib` computes it: the hash of the script in
/// hexadecimal text. `None` where the bytes are not the CBOR form of a script.
pub uninterp spec fn plutus_v1_script_id(cbor: Seq<u8>) -> Option<Seq<char>>;

/// The content of the CBOR byte string of definite length at the start of
/// `input`, as `minicbor` decodes it. `None` where there is none.
pub uninterp spec fn cbor_byte_string(input: Seq<u8>) -> Option<Seq<u8>>;

/// Whether `cbor` starts with the head of a CBOR byte string of indefinite
/// length.
pub open spec fn starts_indefinite(cbor: Seq<u8>) -> bool {
    cbor.len() > 0 && cbor[0] == 0x5f
}

/// Has `cardano_multiplatform_lib` read a script of the first generation from
/// its CBOR form (`PlutusV1Script::from_bytes`, then `PlutusScript::from_v1`)
/// and hash it (`PlutusScript::hash`), and writes the hash as hexadecimal text.
/// The contract claims that the outcome is a function of the bytes: the same
/// code always has the same id. The reader allocates as many bytes as the
/// head of a byte string of definite length announces, so such a string must
/// be there in full; the chunks of one of indefinite length it reads as far
/// as they are there.
#[verifier::external_body]
fn v1_script_id(cbor: Vec<u8>) -> (r: Result<String, String>)
    requires
        cbor_byte_string(cbor@) is Some || starts_indefinite(cbor@),
    ensures
        match r {
            Ok(id) => plutus_v1_script_id(cbor@) == Some(id@),
            Err(_) => plutus_v1_script_id(cbor@) is None,
        },
{
    match cardano_multiplatform_lib::plutus::PlutusV1Script::from_bytes(cbor) {
        Ok(v1) => Ok(cardano_multiplatform_lib::plutus::PlutusScript::from_v1(&v1).hash().to_string()),
        Err(e) => Err(e.to_string()),
    }
}

/// Calls `minicbor::Decoder::bytes` on a decoder at the start of `input`. The
/// contract claims that the outcome is a function of the input.
#[verifier::external_body]
fn cbor_bytes(input: &Vec<u8>) -> (r: Result<Vec<u8>, String>)
    ensures
        match r {
            Ok(content) => cbor_byte_string(input@) == Some(content@),
            Err(_) => cbor_byte_string(input@) is None,
        },
{
    match minicbor::Decoder::new(input).bytes() {
        Ok(content) => Ok(content.to_vec()),
        Err(e) => Err(e.to_string()),
    }
}

/// A minting policy that comes compiled.
#[derive(Debug, PartialEq, Eq)]
pub struct RawPolicy {
    script_file: PlutusScriptFile,
    script_id: String,
}

impl RawPolicy {
    /// The text of the code, as the script file holds it.
    pub closed spec fn code(self) -> Seq<char> {
        self.script_file.cborHex@
    }

    /// The id that was computed from the code.
    pub closed spec fn spec_id(self) -> Seq<char> {
        self.script_id@
    }

    /// The id of the script whose code `code` is: the code must be hexadecimal
    /// text of bytes that start with a CBOR byte string, of definite length
    /// and there in full or of indefinite length, and be the CBOR form of a
    /// script.
    pub open spec fn id_of(code: Seq<char>) -> Option<Seq<char>> {
        match hex_decoding(code) {
            None => None,
            Some(cbor) => if cbor_byte_string(cbor) is Some || starts_indefinite(cbor) {
                plutus_v1_script_id(cbor)
            } else {
                None
            },
        }
    }

    /// The policy of the first generation that `script_file` holds.
    pub fn new_v1(script_file: PlutusScriptFile) -> (r: RawPlutusScriptResult<Self>)
        ensures
            match r {
                Ok(policy) => Self::id_of(script_file.cborHex@) == Some(policy.spec_id())
                    && policy.code() == script_file.cborHex@,
                Err(e) => Self::id_of(script_file.cborHex@) is None,
            },
    {
        let script_bytes = match crate::hex::decode(script_file.cborHex.as_str()) {
            Some(bytes) => bytes,
            None => {
                return Err(
                    RawPlutusScriptError::CMLError("the code is not hexadecimal text".to_owned()),
                );
            },
        };
        match cbor_bytes(&script_bytes) {
            Ok(_) => {},
            Err(text) => {
                if !(script_bytes.len() > 0 && script_bytes[0] == 0x5f) {
                    return Err(RawPlutusScriptError::CMLError(text));
                }
            },
        }
        let script_id = match v1_script_id(script_bytes) {
            Ok(id) => id,
            Err(text) => {
                return Err(RawPlutusScriptError::CMLError(text));
            },
        };
        Ok(RawPolicy { script_file, script_id })
    }

    /// The code of the policy as hexadecimal text.
    pub fn script_hex(&self) -> (r: ScriptResult<&str>)
        ensures
            r matches Ok(text) && text@ == self.code(),
    {
        Ok(self.script_file.cborHex.as_str())
    }

    /// Whether the code has the form of a compiled script: hexadecimal text
    /// of a CBOR byte string that holds a CBOR byte string, which holds the
    /// program.
    pub open spec fn well_wrapped(code: Seq<char>) -> bool {
        match hex_decoding(code) {
            None => false,
            Some(cbor) => match cbor_byte_string(cbor) {
                None => false,
                Some(outer) => cbor_byte_string(outer) is Some,
            },
        }
    }

    /// Unwraps the code, and refuses: with `Unsupported` where the code has
    /// the form of a compiled script, since the library runs no compiled code,
    /// and with `FailedToExecute` where it has not.
    pub fn run(&self) -> (r: ScriptResult<()>)
        ensures
            match r {
                Ok(_) => false,
                Err(ScriptError::Unsupported) => Self::well_wrapped(self.code()),
                Err(e) => e is FailedToExecute && !Self::well_wrapped(self.code()),
            },
    {
        let cbor = match crate::hex::decode(self.script_file.cborHex.as_str()) {
            Some(bytes) => bytes,
            None => {
                return Err(
                    ScriptError::FailedToExecute("the code is not hexadecimal text".to_owned()),
                );
            },
        };
        let outer = match cbor_bytes(&cbor) {
            Ok(bytes) => bytes,
            Err(text) => {
                return Err(ScriptError::FailedToExecute(text));
            },
        };
        match cbor_bytes(&outer) {
            Ok(_) => Err(ScriptError::Unsupported),
            Err(text) => Err(ScriptError::FailedToExecute(text)),
        }
    }
}

impl<Redeemer> MintingPolicy<Redeemer> for RawPolicy {
    open spec fn permits(&self, redeemer: Redeemer, ctx: TxContextView) -> bool {
        false
    }

    fn execute(&self, redeemer: &Redeemer, ctx: &TxContext) -> (r: ScriptResult<()>)
        ensures
            match r {
                Ok(_) => false,
                Err(ScriptError::Unsupported) => RawPolicy::well_wrapped(self.code()),
                Err(e) => e is FailedToExecute && !RawPolicy::well_wrapped(self.code()),
            },
    {
        self.run()
    }

    open spec fn refuses(&self, redeemer: Redeemer, ctx: TxContextView, fault: ScriptFault)
        -> bool {
        if RawPolicy::well_wrapped(self.code()) {
            fault == ScriptFault::Unsupported
        } else {
            fault is FailedToExecute
        }
    }

    open spec fn policy_id(&self) -> Seq<char> {
        self.spec_id()
    }

    fn id(&self) -> (r: String) {
        self.script_id.clone()
    }
}

} // verus!
