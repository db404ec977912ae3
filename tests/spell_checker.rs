use charmix::dispatch::check_spell;

#[test]
fn dummy() {}

#[test]
fn unknown_namespace_is_rejected() {
    let app = charmix::data::App::new("other:X", [0u8; 32]);
    let tx = charmix::data::Transaction::new([0u8; 32]);
    assert!(!check_spell(&app, &tx, &charmix::data::Data::Empty, &charmix::data::Data::Empty));
}

