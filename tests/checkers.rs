use charmix::data::{App, CharmState, Data, Transaction, TxInput, TxOutput, UtxoRef};
use charmix::dispatch::{check_spell, check_spell_report, family_of_tag, starts_with};
use charmix::report::{Family, Rejection};
use charmix::{bounty, escrow, nft, token};

fn input_with(tag: &str, value: Data) -> TxInput {
    TxInput {
        utxo_ref: UtxoRef { txid: [0u8; 32], vout: 0 },
        charm_state: Some(CharmState::new().with_app(tag, value)),
    }
}

fn output_with(index: u32, tag: &str, value: Data) -> TxOutput {
    TxOutput {
        index,
        value: 546,
        script_pubkey: vec![],
        charm_state: Some(CharmState::new().with_app(tag, value)),
    }
}

fn create_test_token_tx() -> (App, Transaction, Data, Data) {
    let app = App::new("token:TEST", [0u8; 32]);

    let mut tx = Transaction::new([1u8; 32]);

    tx.inputs.push(TxInput {
        utxo_ref: UtxoRef { txid: [0u8; 32], vout: 0 },
        charm_state: Some(CharmState::new().with_app("token:TEST", Data::U64(1000))),
    });

    tx.outputs.push(TxOutput {
        index: 0,
        value: 546,
        script_pubkey: vec![0x00, 0x14],
        charm_state: Some(CharmState::new().with_app("token:TEST", Data::U64(700))),
    });
    tx.outputs.push(TxOutput {
        index: 1,
        value: 546,
        script_pubkey: vec![0x00, 0x14],
        charm_state: Some(CharmState::new().with_app("token:TEST", Data::U64(300))),
    });

    let x = Data::Bytes(vec![0x30, 0x44]);
    let w = Data::Empty;

    (app, tx, x, w)
}

#[test]
fn test_token_conservation() {
    let app = App::new("test-token", [0u8; 32]);

    let mut tx = Transaction::new([0u8; 32]);

    tx.inputs.push(TxInput {
        utxo_ref: UtxoRef { txid: [0u8; 32], vout: 0 },
        charm_state: Some(CharmState::new().with_app("test-token", Data::U64(1000))),
    });

    tx.outputs.push(TxOutput {
        index: 0,
        value: 546,
        script_pubkey: vec![],
        charm_state: Some(CharmState::new().with_app("test-token", Data::U64(600))),
    });
    tx.outputs.push(TxOutput {
        index: 1,
        value: 546,
        script_pubkey: vec![],
        charm_state: Some(CharmState::new().with_app("test-token", Data::U64(400))),
    });

    let auth = Data::Bytes(vec![1, 2, 3]);

    assert!(token::check(&app, &tx, &auth, &Data::Empty));
}

#[test]
fn test_token_spell() {
    let (app, tx, x, w) = create_test_token_tx();
    assert!(token::check(&app, &tx, &x, &w));
}

#[test]
fn test_token_mint_detection() {
    let app = App::new("token:MINT", [0u8; 32]);
    let mut tx = Transaction::new([2u8; 32]);

    tx.inputs.push(TxInput {
        utxo_ref: UtxoRef { txid: [0u8; 32], vout: 0 },
        charm_state: None,
    });

    tx.outputs.push(TxOutput {
        index: 0,
        value: 546,
        script_pubkey: vec![],
        charm_state: Some(CharmState::new().with_app("token:MINT", Data::U64(1_000_000))),
    });

    assert!(token::is_mint(&app, &tx));
}

#[test]
fn test_escrow_state_transition() {
    let app = App::new("escrow:CONTRACT1", [0u8; 32]);
    let mut tx = Transaction::new([3u8; 32]);

    tx.inputs.push(TxInput {
        utxo_ref: UtxoRef { txid: [0u8; 32], vout: 0 },
        charm_state: Some(CharmState::new().with_app("escrow:CONTRACT1", Data::U64(0))),
    });

    tx.outputs.push(TxOutput {
        index: 0,
        value: 100_000,
        script_pubkey: vec![],
        charm_state: Some(CharmState::new().with_app("escrow:CONTRACT1", Data::U64(1))),
    });

    let x = Data::Empty;
    let w = Data::Empty;

    assert!(escrow::check(&app, &tx, &x, &w));
}

#[test]
fn token_split_is_accepted_and_neither_mint_nor_burn() {
    let (app, tx, x, w) = create_test_token_tx();
    let r = token::token_report(&app, &tx, &x);
    assert!(r.valid);
    assert_eq!(r.family, Some(Family::Token));
    assert_eq!(r.input_sum, Some(1000));
    assert_eq!(r.output_sum, Some(1000));
    assert_eq!(r.is_mint, Some(false));
    assert_eq!(r.is_burn, Some(false));
    assert!(r.errors.is_empty());
    assert!(check_spell(&app, &tx, &x, &w));
    assert!(!token::is_mint(&app, &tx));
    assert!(!token::is_burn(&app, &tx));
}

#[test]
fn unit_change_of_an_output_flips_the_verdict() {
    let (app, tx, x, w) = create_test_token_tx();
    for delta in [1i64, -1] {
        let mut changed = tx.clone();
        let amount = (700i64 + delta) as u64;
        changed.outputs[0].charm_state = Some(CharmState::new().with_app("token:TEST", Data::U64(amount)));
        assert!(!token::check(&app, &changed, &x, &w));
    }
    let mut changed = tx.clone();
    changed.outputs[1].charm_state = Some(CharmState::new().with_app("token:TEST", Data::U64(301)));
    assert!(!token::check(&app, &changed, &x, &w));
}

#[test]
fn mint_without_inputs_fails_conservation() {
    let app = App::new("token:MINT", [0u8; 32]);
    let mut tx = Transaction::new([2u8; 32]);
    tx.inputs.push(TxInput { utxo_ref: UtxoRef { txid: [0u8; 32], vout: 0 }, charm_state: None });
    tx.outputs.push(output_with(0, "token:MINT", Data::U64(1_000_000)));
    let x = Data::Bytes(vec![1]);
    assert!(token::is_mint(&app, &tx));
    assert!(!token::is_burn(&app, &tx));
    assert!(!token::check(&app, &tx, &x, &Data::Empty));
    let r = token::token_report(&app, &tx, &x);
    assert!(!r.valid);
    assert_eq!(r.is_mint, Some(true));
    assert_eq!(r.is_burn, Some(false));
    assert_eq!(r.errors, vec![Rejection::ConservationFailed { input_sum: 0, output_sum: 1_000_000 }]);
    assert_eq!(r.errors[0].message(), "Token conservation failed: input=0 != output=1000000");
}

#[test]
fn burn_is_detected_and_rejected() {
    let app = App::new("token:B", [0u8; 32]);
    let mut tx = Transaction::new([0u8; 32]);
    tx.add_input(input_with("token:B", Data::U64(10)));
    tx.add_output(output_with(0, "token:B", Data::U64(4)));
    assert!(token::is_burn(&app, &tx));
    assert!(!token::is_mint(&app, &tx));
    assert!(!token::check(&app, &tx, &Data::Empty, &Data::Empty));
}

#[test]
fn other_values_and_tags_contribute_nothing() {
    let app = App::new("token:T", [0u8; 32]);
    let mut tx = Transaction::new([0u8; 32]);
    tx.add_input(input_with("token:T", Data::U64(5)));
    tx.add_input(input_with("token:T", Data::I64(7)));
    tx.add_input(input_with("token:OTHER", Data::U64(9)));
    tx.add_output(output_with(0, "token:T", Data::U64(5)));
    tx.add_output(output_with(1, "token:T", Data::String("12".to_string())));
    assert_eq!(token::input_total(&tx, "token:T"), 5);
    assert_eq!(token::output_total(&tx, "token:T"), 5);
    assert!(token::check(&app, &tx, &Data::Empty, &Data::Empty));
}

#[test]
fn empty_byte_authorization_is_rejected() {
    let (app, tx, _, w) = create_test_token_tx();
    assert!(!token::check(&app, &tx, &Data::Bytes(vec![]), &w));
    assert!(token::check(&app, &tx, &Data::Empty, &w));
    assert!(token::check(&app, &tx, &Data::U64(0), &w));
    let r = token::token_report(&app, &tx, &Data::Bytes(vec![]));
    assert_eq!(r.errors, vec![Rejection::EmptyAuthorization]);
    assert_eq!(r.errors[0].message(), "Empty authorization data");
}

#[test]
fn sums_beyond_64_bits_are_rejected() {
    let app = App::new("token:BIG", [0u8; 32]);
    let mut tx = Transaction::new([0u8; 32]);
    tx.add_input(input_with("token:BIG", Data::U64(u64::MAX)));
    tx.add_input(input_with("token:BIG", Data::U64(1)));
    tx.add_output(output_with(0, "token:BIG", Data::U64(u64::MAX)));
    tx.add_output(output_with(1, "token:BIG", Data::U64(1)));
    assert_eq!(token::input_total(&tx, "token:BIG"), u64::MAX as u128 + 1);
    assert!(!token::check(&app, &tx, &Data::Empty, &Data::Empty));
    let r = token::token_report(&app, &tx, &Data::Empty);
    let big = u64::MAX as u128 + 1;
    assert_eq!(r.errors, vec![Rejection::AmountOverflow { input_sum: big, output_sum: big }]);
    assert_eq!(
        r.errors[0].message(),
        "Token amount overflow: input=18446744073709551616 output=18446744073709551616"
    );
}

#[test]
fn sums_at_the_ceiling_are_accepted() {
    let app = App::new("token:MAX", [0u8; 32]);
    let mut tx = Transaction::new([0u8; 32]);
    tx.add_input(input_with("token:MAX", Data::U64(u64::MAX - 1)));
    tx.add_input(input_with("token:MAX", Data::U64(1)));
    tx.add_output(output_with(0, "token:MAX", Data::U64(u64::MAX)));
    assert!(token::check(&app, &tx, &Data::Empty, &Data::Empty));
}

#[test]
fn empty_transaction_conserves_trivially() {
    let app = App::new("token:E", [0u8; 32]);
    let tx = Transaction::new([0u8; 32]);
    assert!(token::check(&app, &tx, &Data::Empty, &Data::Empty));
    assert!(!token::is_mint(&app, &tx));
    assert!(!token::is_burn(&app, &tx));
}

#[test]
fn bollar_follows_token_rules_under_its_label() {
    let app = App::new("bollar:USD", [0u8; 32]);
    let mut tx = Transaction::new([0u8; 32]);
    tx.add_input(input_with("bollar:USD", Data::U64(50)));
    tx.add_output(output_with(0, "bollar:USD", Data::U64(50)));
    let r = check_spell_report(&app, &tx, &Data::Empty, &Data::Empty);
    assert!(r.valid);
    assert_eq!(r.family, Some(Family::Bollar));
    assert_eq!(r.family.unwrap().label(), "bollar");
    assert_eq!(r.input_sum, Some(50));
}

fn nft_tx(tag: &str, inputs: &[&[u8]], outputs: &[&[u8]]) -> Transaction {
    let mut tx = Transaction::new([0u8; 32]);
    for id in inputs {
        tx.add_input(input_with(tag, Data::Bytes(id.to_vec())));
    }
    for (i, id) in outputs.iter().enumerate() {
        tx.add_output(output_with(i as u32, tag, Data::Bytes(id.to_vec())));
    }
    tx
}

#[test]
fn duplicate_nft_is_rejected_and_named() {
    let app = App::new("nft:ART", [0u8; 32]);
    let tx = nft_tx("nft:ART", &[b"a"], &[b"a", b"a"]);
    let x = Data::Bytes(vec![1]);
    assert!(!nft::check(&app, &tx, &x, &Data::Empty));
    let r = nft::nft_report(&app, &tx, &x);
    assert!(!r.valid);
    assert_eq!(r.nft_ids, Some(vec![b"a".to_vec(), b"a".to_vec()]));
    assert_eq!(r.duplicate_nfts, Some(vec![b"a".to_vec()]));
    assert_eq!(r.errors, vec![Rejection::DuplicateNft(b"a".to_vec())]);
    assert_eq!(r.errors[0].message(), "Duplicate NFT in outputs: 61");
}

#[test]
fn every_repeat_is_reported() {
    let app = App::new("nft:ART", [0u8; 32]);
    let tx = nft_tx("nft:ART", &[b"a", b"b"], &[b"a", b"b", b"a", b"a", b"b"]);
    let r = nft::nft_report(&app, &tx, &Data::Empty);
    assert_eq!(r.duplicate_nfts, Some(vec![b"a".to_vec(), b"a".to_vec(), b"b".to_vec()]));
    assert_eq!(r.errors.len(), 3);
}

#[test]
fn transfer_of_distinct_nfts_needs_no_authorization() {
    let app = App::new("nft:ART", [0u8; 32]);
    let tx = nft_tx("nft:ART", &[b"a", b"b"], &[b"b", b"a"]);
    assert!(nft::check(&app, &tx, &Data::Empty, &Data::Empty));
}

#[test]
fn new_nft_needs_an_authorization() {
    let app = App::new("nft:ART", [0u8; 32]);
    let tx = nft_tx("nft:ART", &[b"a"], &[b"a", &[0xab, 0x01]]);
    assert!(!nft::check(&app, &tx, &Data::Empty, &Data::Empty));
    let r = nft::nft_report(&app, &tx, &Data::Empty);
    assert_eq!(r.errors, vec![Rejection::UnauthorizedMint(vec![0xab, 0x01])]);
    assert_eq!(r.errors[0].message(), "NFT mint without authorization: ab01");
    assert!(nft::check(&app, &tx, &Data::Bytes(vec![]), &Data::Empty));
    assert!(nft::check(&app, &tx, &Data::Bool(false), &Data::Empty));
}

fn contract_tx(tag: &str, current: Option<Data>, next: Option<Data>) -> Transaction {
    let mut tx = Transaction::new([3u8; 32]);
    if let Some(d) = current {
        tx.add_input(input_with(tag, d));
    }
    if let Some(d) = next {
        tx.add_output(output_with(0, tag, d));
    }
    tx
}

#[test]
fn escrow_created_to_funded_reports_names() {
    let app = App::new("escrow:E1", [0u8; 32]);
    let tx = contract_tx("escrow:E1", Some(Data::U64(0)), Some(Data::U64(1)));
    let r = check_spell_report(&app, &tx, &Data::Empty, &Data::Empty);
    assert!(r.valid);
    assert_eq!(r.family, Some(Family::Escrow));
    assert_eq!(r.current_state, Some("Created".to_string()));
    assert_eq!(r.next_state, Some("Funded".to_string()));
    assert_eq!(r.state_transition_valid, Some(true));
}

#[test]
fn escrow_funded_to_refunded_is_rejected() {
    let app = App::new("escrow:E1", [0u8; 32]);
    let tx = contract_tx("escrow:E1", Some(Data::U64(1)), Some(Data::U64(4)));
    assert!(!escrow::check(&app, &tx, &Data::Empty, &Data::Empty));
    let r = escrow::escrow_report(&app, &tx);
    assert!(!r.valid);
    assert_eq!(r.state_transition_valid, Some(false));
    assert_eq!(
        r.errors,
        vec![Rejection::InvalidTransition {
            family: Family::Escrow,
            current: "Funded".to_string(),
            next: "Refunded".to_string(),
        }]
    );
    assert_eq!(r.errors[0].message(), "Invalid escrow transition: Funded -> Refunded");
}

const ESCROW_TABLE: [(Option<u64>, u64); 7] =
    [(None, 0), (Some(0), 1), (Some(1), 107), (Some(103), 2), (Some(1), 3), (Some(3), 4), (Some(3), 2)];

#[test]
fn escrow_table_pairs_are_accepted_and_swaps_rejected_unless_listed() {
    let app = App::new("escrow:T", [0u8; 32]);
    let listed = |c: Option<u64>, n: u64| {
        let stage = |v: u64| if v >= 100 { 100 } else { v };
        ESCROW_TABLE.iter().any(|(c2, n2)| c2.map(stage) == c.map(stage) && stage(*n2) == stage(n))
    };
    for (i, (c1, _)) in ESCROW_TABLE.iter().enumerate() {
        for (j, (_, n2)) in ESCROW_TABLE.iter().enumerate() {
            let tx = contract_tx("escrow:T", c1.map(Data::U64), Some(Data::U64(*n2)));
            let ok = escrow::check(&app, &tx, &Data::Empty, &Data::Empty);
            if i == j {
                assert!(ok);
            }
            assert_eq!(ok, listed(*c1, *n2), "pair {:?} -> {}", c1, n2);
        }
    }
}

#[test]
fn escrow_needs_a_next_state_and_leaves_terminal_states_never() {
    let app = App::new("escrow:T", [0u8; 32]);
    for (c, n) in [(Some(0), None), (None, None), (Some(2), Some(1)), (Some(4), Some(0)), (None, Some(1))] {
        let tx = contract_tx("escrow:T", c.map(Data::U64), n.map(Data::U64));
        assert!(!escrow::check(&app, &tx, &Data::Empty, &Data::Empty));
    }
    let tx = contract_tx("escrow:T", Some(Data::U64(2)), Some(Data::U64(1)));
    let r = escrow::escrow_report(&app, &tx);
    assert_eq!(r.current_state, Some("Released".to_string()));
    let tx = contract_tx("escrow:T", Some(Data::U64(0)), None);
    let r = escrow::escrow_report(&app, &tx);
    assert_eq!(r.next_state, Some("None".to_string()));
}

#[test]
fn escrow_uses_the_first_decodable_state() {
    let app = App::new("escrow:F", [0u8; 32]);
    let mut tx = Transaction::new([0u8; 32]);
    tx.add_input(TxInput { utxo_ref: UtxoRef { txid: [0u8; 32], vout: 0 }, charm_state: None });
    tx.add_input(input_with("escrow:F", Data::U64(50)));
    tx.add_input(input_with("escrow:F", Data::Bytes(vec![1])));
    tx.add_input(input_with("escrow:F", Data::U64(1)));
    tx.add_input(input_with("escrow:F", Data::U64(3)));
    tx.add_output(output_with(0, "escrow:F", Data::U64(7)));
    tx.add_output(output_with(1, "escrow:F", Data::U64(142)));
    assert_eq!(escrow::current_state(&tx, "escrow:F"), Some(escrow::EscrowState::Funded));
    assert_eq!(escrow::next_state(&tx, "escrow:F"), Some(escrow::EscrowState::MilestoneCompleted(42)));
    assert!(escrow::check(&app, &tx, &Data::Empty, &Data::Empty));
    let r = escrow::escrow_report(&app, &tx);
    assert_eq!(r.next_state, Some("MilestoneCompleted".to_string()));
}

const BOUNTY_TABLE: [(Option<u64>, u64); 7] =
    [(None, 0), (Some(0), 1), (Some(1), 2), (Some(0), 3), (Some(1), 4), (Some(4), 2), (Some(4), 3)];

#[test]
fn bounty_table_pairs_are_accepted_and_swaps_rejected_unless_listed() {
    let app = App::new("bounty:B", [0u8; 32]);
    for (i, (c1, _)) in BOUNTY_TABLE.iter().enumerate() {
        for (j, (_, n2)) in BOUNTY_TABLE.iter().enumerate() {
            let tx = contract_tx("bounty:B", c1.map(Data::U64), Some(Data::U64(*n2)));
            let ok = bounty::check(&app, &tx, &Data::Empty, &Data::Empty);
            let listed = BOUNTY_TABLE.contains(&(*c1, *n2));
            if i == j {
                assert!(ok);
            }
            assert_eq!(ok, listed, "pair {:?} -> {}", c1, n2);
        }
    }
}

#[test]
fn bounty_report_names_both_states() {
    let app = App::new("bounty:B", [0u8; 32]);
    let tx = contract_tx("bounty:B", Some(Data::U64(4)), Some(Data::U64(0)));
    let r = check_spell_report(&app, &tx, &Data::Empty, &Data::Empty);
    assert!(!r.valid);
    assert_eq!(r.family, Some(Family::Bounty));
    assert_eq!(r.current_state, Some("Disputed".to_string()));
    assert_eq!(r.next_state, Some("Open".to_string()));
    assert_eq!(r.messages(), vec!["Invalid bounty transition: Disputed -> Open".to_string()]);
}

#[test]
fn tags_select_families_by_namespace() {
    assert_eq!(family_of_tag("token:X"), Some(Family::Token));
    assert_eq!(family_of_tag("nft:"), Some(Family::Nft));
    assert_eq!(family_of_tag("escrow:a:b"), Some(Family::Escrow));
    assert_eq!(family_of_tag("bounty:1"), Some(Family::Bounty));
    assert_eq!(family_of_tag("bollar:USD"), Some(Family::Bollar));
    assert_eq!(family_of_tag("token"), None);
    assert_eq!(family_of_tag("Token:X"), None);
    assert_eq!(family_of_tag("test-token"), None);
    assert_eq!(family_of_tag(""), None);
    assert!(starts_with("ab", ""));
    assert!(!starts_with("a", "ab"));
}

#[test]
fn unknown_family_is_reported_with_its_tag() {
    let app = App::new("test-token", [0u8; 32]);
    let tx = Transaction::new([0u8; 32]);
    let r = check_spell_report(&app, &tx, &Data::Empty, &Data::Empty);
    assert!(!r.valid);
    assert_eq!(r.family, None);
    assert_eq!(r.errors, vec![Rejection::UnknownApp("test-token".to_string())]);
    assert_eq!(r.messages(), vec!["Unknown app type: test-token".to_string()]);
}

#[test]
fn report_carries_only_its_family_fields() {
    let (app, tx, x, w) = create_test_token_tx();
    let r = check_spell_report(&app, &tx, &x, &w);
    assert_eq!(r.current_state, None);
    assert_eq!(r.nft_ids, None);
    let app = App::new("other:X", [0u8; 32]);
    let r = check_spell_report(&app, &tx, &x, &w);
    assert_eq!((r.input_sum, r.is_mint, r.current_state.clone(), r.nft_ids.clone()), (None, None, None, None));
}
