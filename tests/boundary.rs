use charmix::data::{
    App, CharmState, Data, NormalizedSpell, SpellInput, SpellOutput, Transaction, TxInput, TxOutput,
    UtxoRef,
};
use charmix::mirror::{
    app_from_wasm, app_to_wasm, bytes32_from_hex, charm_state_from_wasm, from_wasm_data, hex_decode,
    hex_encode, to_wasm_data, transaction_from_wasm, transaction_to_wasm, WasmCharmState, WasmData,
    WasmNormalizedSpell, WasmSpellInput, WasmSpellOutput, WasmUtxoRef,
};
use charmix::report::decimal_text;
use charmix::sample::{build_escrow_tx, build_token_tx};
use charmix::{escrow, token};

#[test]
fn hex_text_is_lowercase_two_digits_per_byte() {
    assert_eq!(hex_encode(&[]), "");
    assert_eq!(hex_encode(&[0x00, 0x14, 0xab, 0xff]), "0014abff");
    assert_eq!(hex_decode("0014ABff"), Some(vec![0x00, 0x14, 0xab, 0xff]));
    assert_eq!(hex_decode(""), Some(vec![]));
    assert_eq!(hex_decode("abc"), None);
    assert_eq!(hex_decode("zz"), None);
}

#[test]
fn decimal_text_of_numbers() {
    assert_eq!(decimal_text(0), "0");
    assert_eq!(decimal_text(1000), "1000");
    assert_eq!(decimal_text(u128::MAX), "340282366920938463463374607431768211455");
}

#[test]
fn ids_of_32_bytes_only() {
    let text = "11".repeat(32);
    assert_eq!(bytes32_from_hex(&text), Some([0x11u8; 32]));
    assert_eq!(bytes32_from_hex(&"11".repeat(31)), None);
    assert_eq!(bytes32_from_hex(&"1g".repeat(32)), None);
}

fn every_variant() -> Vec<Data> {
    vec![
        Data::Empty,
        Data::Bool(true),
        Data::U64(u64::MAX),
        Data::I64(-7),
        Data::Bytes(vec![0xde, 0xad, 0x00]),
        Data::String("héllo".to_string()),
        Data::List(vec![Data::U64(1), Data::Bytes(vec![]), Data::List(vec![])]),
        Data::Dict(vec![
            ("a".to_string(), Data::Bytes(vec![1])),
            ("b".to_string(), Data::Dict(vec![("c".to_string(), Data::I64(0))])),
        ]),
    ]
}

#[test]
fn every_variant_survives_the_round_trip() {
    for d in every_variant() {
        let w = to_wasm_data(&d);
        assert_eq!(from_wasm_data(&w), Some(d.clone()));
    }
}

#[test]
fn bytes_cross_as_hex_text() {
    assert_eq!(to_wasm_data(&Data::Bytes(vec![0xde, 0xad])), WasmData::Bytes("dead".to_string()));
    assert_eq!(from_wasm_data(&WasmData::Bytes("DEAD".to_string())), Some(Data::Bytes(vec![0xde, 0xad])));
    assert_eq!(from_wasm_data(&WasmData::List(vec![WasmData::Bytes("x".to_string())])), None);
}

#[test]
fn states_cross_both_ways() {
    let w = WasmCharmState {
        apps: vec![
            ("token:A".to_string(), WasmData::U64(3)),
            ("nft:B".to_string(), WasmData::Bytes("0a".to_string())),
        ],
    };
    let s = charm_state_from_wasm(&w).unwrap();
    assert_eq!(s.get("token:A"), Some(&Data::U64(3)));
    assert_eq!(s.get("nft:B"), Some(&Data::Bytes(vec![10])));
    let bad = WasmCharmState { apps: vec![("x".to_string(), WasmData::Bytes("0".to_string()))] };
    assert!(charm_state_from_wasm(&bad).is_none());
}

#[test]
fn transactions_and_apps_cross_both_ways() {
    let mut tx = Transaction::new([9u8; 32]);
    tx.add_input(TxInput {
        utxo_ref: UtxoRef { txid: [1u8; 32], vout: 2 },
        charm_state: Some(CharmState::new().with_app("token:A", Data::U64(5))),
    });
    tx.add_output(TxOutput { index: 4, value: 546, script_pubkey: vec![0x00, 0x14], charm_state: None });
    let w = transaction_to_wasm(&tx);
    assert_eq!(w.txid, "09".repeat(32));
    assert_eq!(w.outputs[0].script_pubkey, "0014");
    assert_eq!(transaction_from_wasm(&w), Some(tx));

    let app = App::with_params("escrow:E", [0xabu8; 32], Data::Bool(true));
    let wa = app_to_wasm(&app);
    assert_eq!(wa.vk_hash, "ab".repeat(32));
    assert_eq!(app_from_wasm(&wa), Some(app));
    assert_eq!(app_to_wasm(&App::new("t", [0u8; 32])).params, None);
}

#[test]
fn spell_in_boundary_form_is_checked() {
    let mut spell = WasmNormalizedSpell { version: 1, ins: vec![], outs: vec![] };
    assert!(!spell.verify());
    spell.ins.push(WasmSpellInput { utxo_ref: WasmUtxoRef { txid: "00".to_string(), vout: 0 }, charms: None });
    spell.outs.push(WasmSpellOutput { index: 0, charms: None });
    assert!(spell.verify());
    spell.version = 0;
    assert!(!spell.verify());
}

#[test]
fn built_token_transaction_conserves() {
    let (app, tx) = build_token_tx("token:B", [5u8; 32], &vec![600, 400], &vec![1000]);
    assert_eq!(app.tag, "token:B");
    assert_eq!(tx.inputs.len(), 2);
    assert_eq!(tx.inputs[1].utxo_ref.vout, 1);
    assert_eq!(tx.outputs[0].value, 546);
    assert_eq!(tx.outputs[0].script_pubkey, vec![0x00, 0x14]);
    assert!(token::check(&app, &tx, &Data::Empty, &Data::Empty));
    let (app, tx) = build_token_tx("token:B", [5u8; 32], &vec![600], &vec![1000]);
    assert!(token::is_mint(&app, &tx) == false);
    assert!(!token::check(&app, &tx, &Data::Empty, &Data::Empty));
}

#[test]
fn built_escrow_transaction_moves_as_asked() {
    let (app, tx) = build_escrow_tx("escrow:C", None, 0, 100_000);
    assert!(tx.inputs.is_empty());
    assert_eq!(tx.outputs[0].value, 100_000);
    assert!(escrow::check(&app, &tx, &Data::Empty, &Data::Empty));
    let (app, tx) = build_escrow_tx("escrow:C", Some(1), 4, 1);
    assert!(!escrow::check(&app, &tx, &Data::Empty, &Data::Empty));
}

#[test]
fn spell_survives_the_round_trip() {
    let mut tx = Transaction::new([4u8; 32]);
    let mut spell = NormalizedSpell::new(2);
    spell.ins.push(SpellInput {
        utxo_ref: UtxoRef { txid: [6u8; 32], vout: 1 },
        charms: Some(CharmState::new().with_app("nft:N", Data::Bytes(vec![7]))),
    });
    spell.outs.push(SpellOutput { index: 0, charms: None });
    tx.spell = Some(spell);
    let w = transaction_to_wasm(&tx);
    assert!(w.spell.is_some());
    assert_eq!(transaction_from_wasm(&w), Some(tx));
}

#[test]
fn dictionary_keys_out_of_order_are_refused() {
    let w = WasmData::Dict(vec![("b".to_string(), WasmData::Empty), ("a".to_string(), WasmData::Empty)]);
    assert_eq!(from_wasm_data(&w), None);
    let w = WasmData::Dict(vec![("a".to_string(), WasmData::Empty), ("a".to_string(), WasmData::Empty)]);
    assert_eq!(from_wasm_data(&w), None);
    let w = WasmData::Dict(vec![("a".to_string(), WasmData::Empty), ("ab".to_string(), WasmData::Empty)]);
    assert!(from_wasm_data(&w).is_some());
}
