use charmix::data::{App, CharmState, Data, NormalizedSpell, SpellInput, SpellOutput, Transaction, TxInput, TxOutput, UtxoRef};

#[test]
fn test_app_creation() {
    let app = App::new("test-token", [0u8; 32]);
    assert_eq!(app.tag, "test-token");
}

#[test]
fn test_charm_state() {
    let state = CharmState::new().with_app("token", Data::U64(1000));

    assert!(state.get("token").is_some());
    assert_eq!(state.get("token").unwrap().as_u64(), Some(1000));
}

#[test]
fn test_spell_verification() {
    let mut spell = NormalizedSpell::new(1);
    spell.ins.push(SpellInput {
        utxo_ref: UtxoRef { txid: [0u8; 32], vout: 0 },
        charms: None,
    });
    spell.outs.push(SpellOutput {
        index: 0,
        charms: None,
    });

    assert!(spell.verify());
}

#[test]
fn spell_without_inputs_or_outputs_is_malformed() {
    let mut spell = NormalizedSpell::new(1);
    assert!(!spell.verify());
    spell.ins.push(SpellInput { utxo_ref: UtxoRef { txid: [0u8; 32], vout: 0 }, charms: None });
    assert!(!spell.verify());
    spell.outs.push(SpellOutput { index: 0, charms: None });
    assert!(spell.verify());
    spell.version = 0;
    assert!(!spell.verify());
}

#[test]
fn transaction_without_spell_has_no_spell_constraint() {
    let mut tx = Transaction::new([7u8; 32]);
    assert!(tx.verify_spell());
    tx.spell = Some(NormalizedSpell::new(1));
    assert!(!tx.verify_spell());
}

#[test]
fn transaction_builds_in_order() {
    let mut tx = Transaction::new([1u8; 32]);
    tx.add_input(TxInput { utxo_ref: UtxoRef { txid: [2u8; 32], vout: 3 }, charm_state: None });
    tx.add_output(TxOutput { index: 5, value: 546, script_pubkey: vec![0x00, 0x14], charm_state: None });
    tx.add_output(TxOutput { index: 6, value: 547, script_pubkey: vec![], charm_state: None });
    assert_eq!(tx.txid, [1u8; 32]);
    assert_eq!(tx.inputs.len(), 1);
    assert_eq!(tx.inputs[0].utxo_ref.vout, 3);
    assert_eq!(tx.outputs.len(), 2);
    assert_eq!(tx.outputs[1].index, 6);
}

#[test]
fn later_value_replaces_earlier_one() {
    let state = CharmState::new()
        .with_app("token:A", Data::U64(1))
        .with_app("nft:B", Data::Bytes(vec![9]))
        .with_app("token:A", Data::U64(2));
    assert_eq!(state.apps.len(), 2);
    assert_eq!(state.get("token:A"), Some(&Data::U64(2)));
    assert_eq!(state.get("nft:B"), Some(&Data::Bytes(vec![9])));
    assert_eq!(state.get("token:C"), None);
}

#[test]
fn state_from_entries_keeps_last_value() {
    let state = CharmState::from_entries(vec![
        ("a".to_string(), Data::U64(1)),
        ("b".to_string(), Data::Empty),
        ("a".to_string(), Data::U64(3)),
    ]);
    assert_eq!(state.apps.len(), 2);
    assert_eq!(state.get("a"), Some(&Data::U64(3)));
    assert_eq!(state.get("b"), Some(&Data::Empty));
}

#[test]
fn data_accessors_pick_their_variant() {
    assert!(Data::Empty.is_empty());
    assert!(!Data::U64(0).is_empty());
    assert_eq!(Data::U64(5).as_u64(), Some(5));
    assert_eq!(Data::I64(5).as_u64(), None);
    assert_eq!(Data::Bytes(vec![1, 2]).as_bytes(), Some(&[1u8, 2u8][..]));
    assert_eq!(Data::String("x".to_string()).as_bytes(), None);
    assert_eq!(Data::String("x".to_string()).as_str(), Some("x"));
    assert_eq!(Data::Bool(true).as_str(), None);
}

#[test]
fn app_with_params_keeps_them() {
    let app = App::with_params("escrow:E", [3u8; 32], Data::Bool(true));
    assert_eq!(app.tag, "escrow:E");
    assert_eq!(app.vk_hash, [3u8; 32]);
    assert_eq!(app.params, Data::Bool(true));
    assert_eq!(App::new("x", [0u8; 32]).params, Data::Empty);
}

#[test]
fn cloned_value_is_equal() {
    let d = Data::List(vec![
        Data::Dict(vec![("k".to_string(), Data::Bytes(vec![1, 2, 3]))]),
        Data::I64(-4),
        Data::String("s".to_string()),
    ]);
    assert_eq!(d.clone(), d);
}

#[test]
fn states_with_the_same_entries_are_equal_in_any_order() {
    let a = CharmState::new()
        .with_app("token:B", Data::U64(1))
        .with_app("nft:A", Data::Empty)
        .with_app("escrow:é", Data::U64(2))
        .with_app("token:AA", Data::U64(3));
    let b = CharmState::new()
        .with_app("token:AA", Data::U64(3))
        .with_app("escrow:é", Data::U64(2))
        .with_app("token:B", Data::U64(1))
        .with_app("nft:A", Data::Empty);
    assert_eq!(a, b);
    let keys: Vec<&str> = a.apps.iter().map(|(k, _)| k.as_str()).collect();
    assert_eq!(keys, vec!["escrow:é", "nft:A", "token:AA", "token:B"]);
    assert!(charmix::data::key_less("token:A", "token:AA"));
    assert!(!charmix::data::key_less("b", "a"));
}
