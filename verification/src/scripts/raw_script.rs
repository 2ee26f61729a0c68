//! Scripts as they come compiled: a description, and the code as hexadecimal
//! text of its CBOR form.
use vstd::prelude::*;

verus! {

/// A compiled script as script files hold it.
#[allow(non_snake_case)]
#[derive(Debug, PartialEq, Eq)]
pub struct PlutusScriptFile {
    /// The generation of the script, such as `PlutusScriptV1`.
    pub script_type: String,
    pub description: String,
    /// The code: hexadecimal text of a CBOR byte string.
    pub cborHex: String,
}

impl Clone for PlutusScriptFile {
    fn clone(&self) -> (r: Self)
        ensures
            r.script_type@ == self.script_type@,
            r.description@ == self.description@,
            r.cborHex@ == self.cborHex@,
    {
        PlutusScriptFile {
            script_type: self.script_type.clone(),
            description: self.description.clone(),
            cborHex: self.cborHex.clone(),
        }
    }
}

/// Why a compiled script could not be taken in.
#[derive(Debug, PartialEq, Eq)]
pub enum RawPlutusScriptError {
    /// The code is not hexadecimal text, or not a script; the text says why.
    CMLError(String),
}

/// What taking in a compiled script returns.
pub type RawPlutusScriptResult<T> = Result<T, RawPlutusScriptError>;

} // verus!
