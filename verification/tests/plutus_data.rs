use naumachia::address::{Address, DelegationPart, PaymentPart};
use naumachia::scripts::context::{
    ContextBuilder, CtxDatum, CtxOutputReference, CtxValue, PubKeyHash, ValidRange,
};
use naumachia::scripts::raw_validator_script::plutus_data::{
    constr_index, empty_constr, lower_bound, no_time_bound, wrap_multiple_with_constr,
    wrap_with_constr, BigInt, Constr, PlutusData,
};
use naumachia::scripts::{ScriptError, ToPlutusData};

fn constr(index: u64, fields: Vec<PlutusData>) -> PlutusData {
    PlutusData::Constr(Constr {
        constr: index,
        fields,
    })
}

fn bytes(content: &[u8]) -> PlutusData {
    PlutusData::BoundedBytes(content.to_vec())
}

fn integer(n: i64) -> PlutusData {
    PlutusData::BigInt(BigInt::from(n))
}

fn forever() -> PlutusData {
    constr(
        0,
        vec![
            constr(0, vec![constr(0, vec![]), constr(1, vec![])]),
            constr(0, vec![constr(2, vec![]), constr(1, vec![])]),
        ],
    )
}

#[test]
fn integers_have_a_sign_and_a_magnitude() {
    assert_eq!(BigInt::from(5), BigInt::Int { neg: false, val: 5 });
    assert_eq!(BigInt::from(-5), BigInt::Int { neg: true, val: 5 });
    assert_eq!(BigInt::from(0), BigInt::Int { neg: false, val: 0 });
    assert_eq!(
        BigInt::from(i64::MIN),
        BigInt::Int {
            neg: true,
            val: 1 << 63
        }
    );
    assert_eq!(BigInt::from(-5).to_i64(), Some(-5));
    assert_eq!(BigInt::from(i64::MIN).to_i64(), Some(i64::MIN));
    assert_eq!(BigInt::from(i64::MAX).to_i64(), Some(i64::MAX));
    assert_eq!(
        BigInt::Int {
            neg: false,
            val: 1 << 63
        }
        .to_i64(),
        None
    );
    assert_eq!(BigInt::BigUInt(vec![1]).to_i64(), None);
    assert_eq!(BigInt::BigNInt(vec![1]).to_i64(), None);
}

#[test]
fn terms_convert_to_integers() {
    assert_eq!(PlutusData::from_i64(-7).to_i64(), Ok(-7));
    assert_eq!(
        PlutusData::BigInt(BigInt::BigUInt(vec![1])).to_i64(),
        Err(ScriptError::Unsupported)
    );
    assert!(matches!(
        bytes(&[1]).to_i64(),
        Err(ScriptError::DatumDeserialization(_))
    ));
    assert_eq!(PlutusData::from_u64(7), Ok(integer(7)));
    assert_eq!(PlutusData::from_u64(i64::MAX as u64), Ok(integer(i64::MAX)));
    assert_eq!(
        PlutusData::from_u64(i64::MAX as u64 + 1),
        Err(ScriptError::Unsupported)
    );
}

#[test]
fn constructors_wrap_their_fields() {
    assert_eq!(constr_index(3), 3);
    assert_eq!(wrap_with_constr(1, integer(2)), constr(1, vec![integer(2)]));
    assert_eq!(
        wrap_multiple_with_constr(4, vec![integer(1), bytes(&[2])]),
        constr(4, vec![integer(1), bytes(&[2])])
    );
    assert_eq!(empty_constr(2), constr(2, vec![]));
    assert_eq!(PlutusData::unit(), constr(0, vec![]));
    assert_eq!(().to_plutus_data(), Ok(constr(0, vec![])));
    assert_eq!(PlutusData::from_bytes(vec![1, 2]), bytes(&[1, 2]));
    assert_eq!(PlutusData::from_option(None), constr(1, vec![]));
    assert_eq!(PlutusData::from_option(Some(integer(3))), constr(0, vec![integer(3)]));
}

#[test]
fn equality_of_terms_is_structural() {
    let a = constr(0, vec![integer(1), PlutusData::Array(vec![bytes(&[1]), integer(2)])]);
    let b = constr(0, vec![integer(1), PlutusData::Array(vec![bytes(&[1]), integer(2)])]);
    assert_eq!(a, b);
    assert_eq!(a.clone(), a);
    assert_ne!(a, constr(1, vec![integer(1), PlutusData::Array(vec![bytes(&[1]), integer(2)])]));
    assert_ne!(a, constr(0, vec![integer(1), PlutusData::Array(vec![bytes(&[1])])]));
    assert_ne!(a, constr(0, vec![integer(1), PlutusData::Array(vec![bytes(&[1]), integer(3)])]));
    let m = PlutusData::Mapping(vec![(bytes(&[1]), integer(1)), (bytes(&[2]), integer(2))]);
    assert_eq!(m.clone(), m);
    assert_ne!(
        m,
        PlutusData::Mapping(vec![(bytes(&[2]), integer(2)), (bytes(&[1]), integer(1))])
    );
}

#[test]
fn ranges_encode_as_intervals() {
    assert_eq!(no_time_bound(), forever());
    assert_eq!(
        lower_bound(11, true),
        constr(
            0,
            vec![
                constr(0, vec![constr(1, vec![integer(11)]), constr(1, vec![])]),
                constr(0, vec![constr(2, vec![]), constr(1, vec![])]),
            ],
        )
    );
    assert_eq!(
        lower_bound(-3, false),
        constr(
            0,
            vec![
                constr(0, vec![constr(1, vec![integer(-3)]), constr(0, vec![])]),
                constr(0, vec![constr(2, vec![]), constr(1, vec![])]),
            ],
        )
    );
    let range = |lower, upper| PlutusData::from_valid_range(ValidRange { lower, upper });
    assert_eq!(range(None, None), Ok(forever()));
    assert_eq!(range(Some((11, true)), None), Ok(lower_bound(11, true)));
    assert_eq!(range(None, Some((5, false))), Err(ScriptError::Unsupported));
    assert_eq!(
        range(Some((1, true)), Some((5, false))),
        Err(ScriptError::Unsupported)
    );
}

#[test]
fn addresses_encode_by_their_parts() {
    let address = |payment, delegation| Address {
        network: 0,
        payment,
        delegation,
    };
    assert_eq!(
        PlutusData::from_address(&address(PaymentPart::Key(vec![1, 2]), DelegationPart::Null)),
        Ok(constr(0, vec![constr(0, vec![bytes(&[1, 2])]), constr(1, vec![])]))
    );
    assert_eq!(
        PlutusData::from_address(&address(
            PaymentPart::Script(vec![1, 2]),
            DelegationPart::Key(vec![3])
        )),
        Ok(constr(
            0,
            vec![
                constr(1, vec![bytes(&[1, 2])]),
                constr(0, vec![constr(0, vec![bytes(&[3])])]),
            ]
        ))
    );
    assert_eq!(
        PlutusData::from_address(&address(
            PaymentPart::Key(vec![1]),
            DelegationPart::Script(vec![3])
        )),
        Ok(constr(
            0,
            vec![
                constr(0, vec![bytes(&[1])]),
                constr(0, vec![constr(1, vec![bytes(&[3])])]),
            ]
        ))
    );
    assert_eq!(
        PlutusData::from_address(&address(
            PaymentPart::Key(vec![1]),
            DelegationPart::Pointer {
                slot: 4,
                tx_idx: 5,
                cert_idx: 6
            }
        )),
        Ok(constr(
            0,
            vec![
                constr(0, vec![bytes(&[1])]),
                constr(0, vec![constr(1, vec![integer(4), integer(5), integer(6)])]),
            ]
        ))
    );
    assert_eq!(
        PlutusData::from_address(&address(
            PaymentPart::Key(vec![1]),
            DelegationPart::Pointer {
                slot: u64::MAX,
                tx_idx: 5,
                cert_idx: 6
            }
        )),
        Err(ScriptError::Unsupported)
    );
}

#[test]
fn values_encode_in_the_order_of_their_keys() {
    let mut value = CtxValue::new();
    value.add("ff", "b", 1);
    value.add("0a", "z", 2);
    value.add("0a", "a", 3);
    value.add("", "", 4);
    value.add("0a", "z", 5);
    assert_eq!(value.amount_of("0a", "z"), 7);
    assert_eq!(value.amount_of("0a", "y"), 0);
    assert_eq!(
        PlutusData::from_value(&value),
        Ok(PlutusData::Mapping(vec![
            (bytes(&[]), PlutusData::Mapping(vec![(bytes(&[]), integer(4))])),
            (
                bytes(&[0x0a]),
                PlutusData::Mapping(vec![(bytes(b"a"), integer(3)), (bytes(b"z"), integer(7))])
            ),
            (bytes(&[0xff]), PlutusData::Mapping(vec![(bytes(b"b"), integer(1))])),
        ]))
    );
}

#[test]
fn values_under_two_texts_of_one_policy_keep_the_later() {
    let mut value = CtxValue::new();
    value.add("AB", "x", 1);
    value.add("ab", "y", 2);
    assert_eq!(
        PlutusData::from_value(&value),
        Ok(PlutusData::Mapping(vec![(
            bytes(&[0xab]),
            PlutusData::Mapping(vec![(bytes(b"y"), integer(2))])
        )]))
    );
}

#[test]
fn values_need_hexadecimal_policies_and_signed_amounts() {
    let mut value = CtxValue::new();
    value.add("xyz", "a", 1);
    assert_eq!(
        PlutusData::from_value(&value),
        Err(ScriptError::InvalidPolicyId("xyz".to_string()))
    );
    let mut value = CtxValue::new();
    value.add("0a", "a", u64::MAX);
    assert_eq!(PlutusData::from_value(&value), Err(ScriptError::Unsupported));
    assert!(!value.try_add("0a", "a", 1));
    assert_eq!(value.amount_of("0a", "a"), u64::MAX);
}

#[test]
fn datums_and_references_encode_by_their_kind() {
    assert_eq!(PlutusData::from_datum(CtxDatum::NoDatum), constr(0, vec![]));
    assert_eq!(
        PlutusData::from_datum(CtxDatum::DatumHash(vec![1])),
        constr(1, vec![bytes(&[1])])
    );
    assert_eq!(
        PlutusData::from_datum(CtxDatum::InlineDatum(integer(9))),
        constr(2, vec![integer(9)])
    );
    assert_eq!(
        PlutusData::from_output_reference(CtxOutputReference {
            transaction_id: vec![8, 8],
            output_index: 3
        }),
        Ok(constr(0, vec![constr(0, vec![bytes(&[8, 8])]), integer(3)]))
    );
    assert_eq!(
        PlutusData::from_output_reference(CtxOutputReference {
            transaction_id: vec![8, 8],
            output_index: u64::MAX
        }),
        Err(ScriptError::Unsupported)
    );
    assert_eq!(
        PlutusData::from_pub_key_hash(&PubKeyHash::new(&[5, 6])),
        bytes(&[5, 6])
    );
}

fn lovelace(amount: i64) -> PlutusData {
    PlutusData::Mapping(vec![(
        bytes(&[]),
        PlutusData::Mapping(vec![(bytes(&[]), integer(amount))]),
    )])
}

#[test]
fn contexts_encode_with_their_fields_in_order() {
    let script = Address::from_script_hash(0, vec![7; 28]);
    let wallet = Address::from_key_hash(0, vec![1; 28]);
    let build = || {
        ContextBuilder::new(PubKeyHash::new(&[1; 28]))
            .with_range(Some((11, true)), None)
            .with_input(&[8, 8, 8, 8], 0, &script)
            .with_value("05050505", "something", 1)
            .with_inline_datum(integer(4))
            .finish_input()
            .with_output(&wallet)
            .with_value("", "", 25)
            .with_datum_hash(vec![3, 3])
            .finish_output()
            .add_signatory(PubKeyHash::new(&[2; 28]))
            .add_specific_datum(vec![9], integer(1))
            .add_specific_datum(vec![3, 3], integer(2))
            .add_specific_datum(vec![9], integer(3))
    };
    let script_term = constr(0, vec![constr(1, vec![bytes(&[7; 28])]), constr(1, vec![])]);
    let wallet_term = constr(0, vec![constr(0, vec![bytes(&[1; 28])]), constr(1, vec![])]);
    let tx_info = constr(
        0,
        vec![
            // inputs
            PlutusData::Array(vec![constr(
                0,
                vec![
                    constr(0, vec![constr(0, vec![bytes(&[8, 8, 8, 8])]), integer(0)]),
                    constr(
                        0,
                        vec![
                            script_term,
                            PlutusData::Mapping(vec![(
                                bytes(&[5, 5, 5, 5]),
                                PlutusData::Mapping(vec![(bytes(b"something"), integer(1))]),
                            )]),
                            constr(2, vec![integer(4)]),
                            constr(1, vec![]),
                        ],
                    ),
                ],
            )]),
            // reference inputs
            PlutusData::Array(vec![]),
            // outputs
            PlutusData::Array(vec![constr(
                0,
                vec![
                    wallet_term,
                    lovelace(25),
                    constr(1, vec![bytes(&[3, 3])]),
                    constr(1, vec![]),
                ],
            )]),
            // fee
            lovelace(999),
            // mint
            lovelace(0),
            // certificates
            PlutusData::Array(vec![]),
            // withdrawals
            PlutusData::Mapping(vec![]),
            // valid range
            lower_bound(11, true),
            // signatories: the extra ones, then the signer
            PlutusData::Array(vec![bytes(&[2; 28]), bytes(&[1; 28])]),
            // redeemers
            PlutusData::Mapping(vec![]),
            // datums, by their hashes
            PlutusData::Mapping(vec![(bytes(&[3, 3]), integer(2)), (bytes(&[9]), integer(3))]),
            // id
            constr(0, vec![bytes(&[])]),
        ],
    );
    let spend = build().build_spend(&[8, 8, 8, 8], 0);
    assert_eq!(
        PlutusData::from_tx_context(spend),
        Ok(constr(
            0,
            vec![
                tx_info.clone(),
                constr(
                    1,
                    vec![constr(0, vec![constr(0, vec![bytes(&[8, 8, 8, 8])]), integer(0)])]
                ),
            ]
        ))
    );
    let mint = build().build_mint(&[6, 6]);
    assert_eq!(
        PlutusData::from_tx_context(mint),
        Ok(constr(0, vec![tx_info, constr(0, vec![bytes(&[6, 6])])]))
    );
}

#[test]
fn encoding_the_same_context_twice_gives_the_same_term() {
    let build = || {
        ContextBuilder::new(PubKeyHash::new(&[1; 28]))
            .with_input(&[8], 1, &Address::from_key_hash(0, vec![1; 28]))
            .with_value("0b", "b", 2)
            .with_value("0a", "a", 1)
            .finish_input()
            .build_spend(&[8], 1)
    };
    assert_eq!(build(), build());
    assert_eq!(
        PlutusData::from_tx_context(build()),
        PlutusData::from_tx_context(build())
    );
}

#[test]
fn contexts_with_an_upper_bound_are_not_supported() {
    let ctx = ContextBuilder::new(PubKeyHash::new(&[1]))
        .with_range(None, Some((5, true)))
        .build_mint(&[1]);
    assert_eq!(PlutusData::from_tx_context(ctx), Err(ScriptError::Unsupported));
}

#[test]
fn the_first_fault_of_a_context_counts() {
    // an input with a policy that is no hexadecimal text comes before the range
    let ctx = ContextBuilder::new(PubKeyHash::new(&[1]))
        .with_range(None, Some((5, true)))
        .with_input(&[8], 1, &Address::from_key_hash(0, vec![1]))
        .with_value("zz", "", 1)
        .finish_input()
        .build_mint(&[1]);
    assert_eq!(
        PlutusData::from_tx_context(ctx),
        Err(ScriptError::InvalidPolicyId("zz".to_string()))
    );
}
