use naumachia::scripts::raw_policy_script::RawPolicy;
use naumachia::scripts::raw_script::{PlutusScriptFile, RawPlutusScriptError};
use naumachia::scripts::context::{ContextBuilder, PubKeyHash};
use naumachia::scripts::{MintingPolicy, NoPolicy, ScriptError};

fn script_file(cbor_hex: &str) -> PlutusScriptFile {
    PlutusScriptFile {
        script_type: "PlutusScriptV1".to_string(),
        description: "".to_string(),
        cborHex: cbor_hex.to_string(),
    }
}

#[test]
fn raw_policy_id_is_the_hash_of_the_script() {
    let policy = RawPolicy::new_v1(script_file("4e4d01000033222220051200120011")).unwrap();
    assert_eq!(
        MintingPolicy::<()>::id(&policy),
        "67f33146617a5e61936081db3b2117cbf59bd2123748f58ac9678656"
    );
    assert_eq!(policy.script_hex().unwrap(), "4e4d01000033222220051200120011");
}

#[test]
fn raw_policies_with_the_same_code_have_the_same_id() {
    let first = RawPolicy::new_v1(script_file("4e4d01000033222220051200120011")).unwrap();
    let second = RawPolicy::new_v1(script_file("4E4D01000033222220051200120011")).unwrap();
    assert_eq!(
        MintingPolicy::<()>::id(&first),
        MintingPolicy::<()>::id(&second)
    );
}

#[test]
fn raw_policy_needs_hexadecimal_code() {
    assert!(matches!(
        RawPolicy::new_v1(script_file("not hex")),
        Err(RawPlutusScriptError::CMLError(_))
    ));
}

#[test]
fn raw_policy_needs_a_cbor_byte_string() {
    // 0x83: an array of three items, of which none follows
    assert!(matches!(
        RawPolicy::new_v1(script_file("83")),
        Err(RawPlutusScriptError::CMLError(_))
    ));
}

#[test]
fn raw_policy_is_read_and_not_run() {
    let policy = RawPolicy::new_v1(script_file("4e4d01000033222220051200120011")).unwrap();
    let ctx = ContextBuilder::new(PubKeyHash::new(&[1, 2, 3])).build_mint(&[9, 9]);
    assert_eq!(policy.execute(&(), &ctx), Err(ScriptError::Unsupported));
    assert_eq!(policy.run(), Err(ScriptError::Unsupported));
}

#[test]
fn raw_policy_that_is_not_wrapped_twice_fails_to_execute() {
    // a byte string that holds no byte string
    let policy = RawPolicy::new_v1(script_file("4101")).unwrap();
    assert!(matches!(policy.run(), Err(ScriptError::FailedToExecute(_))));
    // a byte string that holds a byte string cut short
    let policy = RawPolicy::new_v1(script_file("4242ff")).unwrap();
    assert!(matches!(policy.run(), Err(ScriptError::FailedToExecute(_))));
    // a byte string that holds the byte string "ff"
    let policy = RawPolicy::new_v1(script_file("4241ff")).unwrap();
    assert_eq!(policy.run(), Err(ScriptError::Unsupported));
}

#[test]
fn raw_policy_refuses_a_byte_string_that_is_not_there_in_full() {
    // the head announces more bytes than any input holds
    assert!(matches!(
        RawPolicy::new_v1(script_file("5bffffffffffffffff")),
        Err(RawPlutusScriptError::CMLError(_))
    ));
    // the head announces two bytes, one follows
    assert!(matches!(
        RawPolicy::new_v1(script_file("4201")),
        Err(RawPlutusScriptError::CMLError(_))
    ));
    // a byte string of indefinite length is read chunk by chunk
    assert!(RawPolicy::new_v1(script_file("5f4101ff")).is_ok());
    // a chunk that announces more bytes than any input holds
    let _ = RawPolicy::new_v1(script_file("5f5bffffffffffffffff01"));
}

#[test]
fn the_policy_that_mints_nothing_supports_no_minting() {
    let ctx = ContextBuilder::new(PubKeyHash::new(&[1, 2, 3])).build_mint(&[9, 9]);
    assert_eq!(
        MintingPolicy::<()>::execute(&NoPolicy, &(), &ctx),
        Err(ScriptError::Unsupported)
    );
    assert_eq!(MintingPolicy::<()>::id(&NoPolicy), "");
}

#[test]
fn raw_policy_in_chunks_has_the_id_of_the_whole() {
    let whole = RawPolicy::new_v1(script_file("4e4d01000033222220051200120011")).unwrap();
    let chunks = RawPolicy::new_v1(script_file("5f474d0100003322224720051200120011ff")).unwrap();
    assert_eq!(
        MintingPolicy::<()>::id(&chunks),
        "67f33146617a5e61936081db3b2117cbf59bd2123748f58ac9678656"
    );
    assert_eq!(MintingPolicy::<()>::id(&chunks), MintingPolicy::<()>::id(&whole));
    assert!(RawPolicy::new_v1(script_file("5f")).is_err());
    assert!(RawPolicy::new_v1(script_file("01")).is_err());
}
