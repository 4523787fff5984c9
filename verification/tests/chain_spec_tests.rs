use pop_chain_spec::chain_spec::{
    development_config, local_testnet_config, parse_extensions, ChainSpec, ChainType, Extensions,
};
use pop_chain_spec::genesis::testnet_genesis;
use pop_chain_spec::keys::{
    get_account_id_from_seed, get_collator_keys_from_seed, get_from_seed, pop_session_keys,
    AccountId, CollatorKey,
};
use pop_chain_spec::{ChainSpecError, EXISTENTIAL_DEPOSIT, PARA_ID, SAFE_XCM_VERSION};

fn code() -> Option<Vec<u8>> {
    Some(vec![0u8, 1, 2, 3, 4, 5, 6, 7])
}

fn hex(bytes: &[u8]) -> String {
    let mut s = String::from("0x");
    for b in bytes {
        s.push_str(&format!("{:02x}", b));
    }
    s
}

#[test]
fn derive_alice_twice_is_deterministic() {
    let a = get_from_seed("Alice").unwrap();
    let b = get_from_seed("Alice").unwrap();
    assert_eq!(a.0, b.0);
    let acc_a = get_account_id_from_seed("Alice").unwrap();
    let acc_b = get_account_id_from_seed("Alice").unwrap();
    assert_eq!(acc_a.0, acc_b.0);
}

#[test]
fn alice_derives_to_the_well_known_key() {
    // The sr25519 public key of the standard //Alice development account.
    let alice = get_account_id_from_seed("Alice").unwrap();
    assert_eq!(
        hex(&alice.0),
        "0xd43593c715fdd31c61141abd04a99fd6822c8558854ccde39a5684e7a56da27d"
    );
    let bob = get_account_id_from_seed("Bob").unwrap();
    assert_eq!(
        hex(&bob.0),
        "0x8eaf04151687736326c9fea17e25fc5287613693c912909cb226aa4794f26a48"
    );
}

#[test]
fn alice_and_bob_are_distinct() {
    let alice = get_account_id_from_seed("Alice").unwrap();
    let bob = get_account_id_from_seed("Bob").unwrap();
    assert_ne!(alice.0, bob.0);
}

#[test]
fn account_is_public_key_bytes() {
    let key = get_from_seed("Alice").unwrap();
    let account = get_account_id_from_seed("Alice").unwrap();
    assert_eq!(key.0, account.0);
    let collator = get_collator_keys_from_seed("Alice").unwrap();
    assert_eq!(collator.0, key.0);
}

#[test]
fn empty_seed_is_rejected() {
    assert_eq!(get_from_seed(""), Err(ChainSpecError::InvalidSeed));
    assert_eq!(get_account_id_from_seed(""), Err(ChainSpecError::InvalidSeed));
}

#[test]
fn session_keys_hold_the_given_key() {
    let collator = get_collator_keys_from_seed("Bob").unwrap();
    let keys = pop_session_keys(collator);
    assert_eq!(keys.aura, collator);
}

#[test]
fn genesis_builder_mirrors_inputs() {
    let alice = get_account_id_from_seed("Alice").unwrap();
    let bob = get_account_id_from_seed("Bob").unwrap();
    let alice_key = get_collator_keys_from_seed("Alice").unwrap();
    let bob_key = get_collator_keys_from_seed("Bob").unwrap();
    let g = testnet_genesis(vec![(alice, alice_key), (bob, bob_key)], alice, PARA_ID);
    assert_eq!(g.para_id, PARA_ID);
    assert_eq!(g.invulnerables, vec![alice, bob]);
    assert_eq!(g.candidacy_bond, EXISTENTIAL_DEPOSIT * 16);
    assert_eq!(g.candidacy_bond, 16_000_000_000);
    assert_eq!(g.session_keys.len(), 2);
    assert_eq!(g.session_keys[0].account, alice);
    assert_eq!(g.session_keys[0].validator, alice);
    assert_eq!(g.session_keys[0].keys.aura, alice_key);
    assert_eq!(g.session_keys[1].account, bob);
    assert_eq!(g.session_keys[1].validator, bob);
    assert_eq!(g.session_keys[1].keys.aura, bob_key);
    assert_eq!(g.safe_xcm_version, SAFE_XCM_VERSION);
    assert_eq!(g.sudo_key, alice);
}

#[test]
fn genesis_document_exact_bytes() {
    let account = AccountId([0x11; 32]);
    let key = CollatorKey([0x22; 32]);
    let root = AccountId([0x33; 32]);
    let g = testnet_genesis(vec![(account, key)], root, 5);
    let doc = String::from_utf8(g.to_json_bytes()).unwrap();
    let ah = format!("0x{}", "11".repeat(32));
    let kh = format!("0x{}", "22".repeat(32));
    let rh = format!("0x{}", "33".repeat(32));
    let expected = format!(
        "{{\"parachainInfo\":{{\"parachainId\":5}},\"collatorSelection\":{{\"invulnerables\":[\"{}\"],\"candidacyBond\":16000000000}},\"session\":{{\"keys\":[[\"{}\",\"{}\",{{\"aura\":\"{}\"}}]]}},\"polkadotXcm\":{{\"safeXcmVersion\":4}},\"sudo\":{{\"key\":\"{}\"}}}}",
        ah, ah, ah, kh, rh
    );
    assert_eq!(doc, expected);
}

#[test]
fn missing_runtime_code_is_fatal() {
    assert_eq!(development_config(None), Err(ChainSpecError::MissingRuntimeCode));
    assert_eq!(local_testnet_config(None), Err(ChainSpecError::MissingRuntimeCode));
}

#[test]
fn para_id_is_consistent_in_both_presets() {
    for cs in [development_config(code()).unwrap(), local_testnet_config(code()).unwrap()] {
        assert_eq!(cs.genesis.para_id, 9090);
        assert_eq!(cs.extensions.para_id, 9090);
        assert_eq!(cs.extensions.relay_chain, "rococo-local");
    }
}

#[test]
fn both_presets_have_two_collators() {
    for cs in [development_config(code()).unwrap(), local_testnet_config(code()).unwrap()] {
        assert_eq!(cs.genesis.session_keys.len(), 2);
        assert_eq!(cs.genesis.invulnerables.len(), 2);
    }
}

#[test]
fn sudo_key_is_alice_in_both_presets() {
    let alice = get_account_id_from_seed("Alice").unwrap();
    for cs in [development_config(code()).unwrap(), local_testnet_config(code()).unwrap()] {
        assert_eq!(cs.genesis.sudo_key, alice);
        assert_eq!(cs.genesis.invulnerables[0], alice);
    }
}

#[test]
fn development_preset_identity() {
    let cs = development_config(code()).unwrap();
    assert_eq!(cs.name, "Pop Network Development");
    assert_eq!(cs.id, "pop-dev");
    assert_eq!(cs.chain_type, ChainType::Development);
    assert!(cs.properties.is_none());
    assert!(cs.protocol_id.is_none());
    assert_eq!(cs.code, code().unwrap());
}

#[test]
fn local_testnet_preset_properties() {
    let cs = local_testnet_config(code()).unwrap();
    assert_eq!(cs.name, "Pop Network Local Testnet");
    assert_eq!(cs.id, "pop-local");
    assert_eq!(cs.chain_type, ChainType::Local);
    let props = cs.properties.as_ref().unwrap();
    assert_eq!(props.token_symbol, "UNIT");
    assert_eq!(props.token_decimals, 12);
    assert_eq!(props.ss58_format, 42);
    let protocol = cs.protocol_id.as_ref().unwrap();
    assert_eq!(protocol, "pop-local");
    assert!(!protocol.is_empty());
}

#[test]
fn candidacy_bond_is_sixteen_deposits() {
    let cs = development_config(code()).unwrap();
    assert_eq!(cs.genesis.candidacy_bond, EXISTENTIAL_DEPOSIT * 16);
    assert_eq!(cs.genesis.candidacy_bond, 16_000_000_000u128);
}

#[test]
fn serialized_spec_round_trips_through_json() {
    let cs: ChainSpec = local_testnet_config(code()).unwrap();
    let bytes = cs.to_json_bytes();
    let v: serde_json::Value = serde_json::from_slice(&bytes).unwrap();
    let alice = hex(&get_account_id_from_seed("Alice").unwrap().0);
    let bob = hex(&get_account_id_from_seed("Bob").unwrap().0);
    assert_eq!(v["name"], "Pop Network Local Testnet");
    assert_eq!(v["chainType"], "Local");
    assert_eq!(v["para_id"], 9090);
    assert_eq!(v["relay_chain"], "rococo-local");
    assert_eq!(v["properties"]["tokenSymbol"], "UNIT");
    assert_eq!(v["properties"]["tokenDecimals"], 12);
    assert_eq!(v["properties"]["ss58Format"], 42);
    assert_eq!(v["protocolId"], "pop-local");
    let g = &v["genesis"];
    assert_eq!(g["parachainInfo"]["parachainId"], 9090);
    assert_eq!(g["collatorSelection"]["candidacyBond"], 16_000_000_000u64);
    assert_eq!(g["collatorSelection"]["invulnerables"][0], alice);
    assert_eq!(g["collatorSelection"]["invulnerables"][1], bob);
    let keys = g["session"]["keys"].as_array().unwrap();
    assert_eq!(keys.len(), 2);
    assert_eq!(keys[0][0], alice);
    assert_eq!(keys[0][1], alice);
    assert_eq!(keys[0][2]["aura"], alice);
    assert_eq!(keys[1][0], bob);
    assert_eq!(keys[1][2]["aura"], bob);
    assert_eq!(g["polkadotXcm"]["safeXcmVersion"], SAFE_XCM_VERSION);
    assert_eq!(g["sudo"]["key"], alice);
    assert_eq!(v["code"], hex(&code().unwrap()));
}

#[test]
fn development_spec_omits_properties_in_document() {
    let cs = development_config(code()).unwrap();
    let bytes = cs.to_json_bytes();
    let v: serde_json::Value = serde_json::from_slice(&bytes).unwrap();
    assert!(v.get("properties").is_none());
    assert!(v.get("protocolId").is_none());
    assert_eq!(v["chainType"], "Development");
}

#[test]
fn extensions_round_trip() {
    let ext = Extensions { relay_chain: String::from("rococo-local"), para_id: 9090 };
    let bytes = ext.to_json_bytes();
    assert_eq!(bytes, b"{\"relay_chain\":\"rococo-local\",\"para_id\":9090}".to_vec());
    let back = parse_extensions(&bytes).unwrap();
    assert_eq!(back, ext);
    let other = Extensions { relay_chain: String::from("westend local-1!"), para_id: 42 };
    let back2 = parse_extensions(&other.to_json_bytes()).unwrap();
    assert_eq!(back2, other);
}

#[test]
fn extensions_unknown_field_is_rejected() {
    assert!(parse_extensions(b"{\"relay_chain\":\"x\",\"para_id\":1,\"extra\":2}").is_none());
    assert!(parse_extensions(b"{\"relay_chain\":\"x\",\"para_id\":1}").is_some());
    assert!(parse_extensions(b"{\"extra\":2,\"relay_chain\":\"x\",\"para_id\":1}").is_none());
}

#[test]
fn extensions_malformed_documents_are_rejected() {
    assert!(parse_extensions(b"").is_none());
    assert!(parse_extensions(b"{}").is_none());
    assert!(parse_extensions(b"{\"relay_chain\":\"x\"}").is_none());
    assert!(parse_extensions(b"{\"para_id\":1}").is_none());
    assert!(parse_extensions(b"{\"relay_chain\":\"x\",\"para_id\":}").is_none());
    assert!(parse_extensions(b"{\"relay_chain\":\"x\",\"para_id\":01}").is_none());
    assert!(parse_extensions(b"{\"relay_chain\":\"x\",\"para_id\":4294967296}").is_none());
    assert!(parse_extensions(b"{\"relay_chain\":\"x\",\"para_id\":9090} ").is_none());
}

#[test]
fn extensions_escapes_are_outside_the_grammar() {
    // The document grammar has no escape sequences: a backslash or a control
    // character in the relay-chain region is rejected, never misread.
    assert!(parse_extensions(b"{\"relay_chain\":\"a\\b\",\"para_id\":1}").is_none());
    assert!(parse_extensions(b"{\"relay_chain\":\"a\\\"b\",\"para_id\":1}").is_none());
    assert!(parse_extensions(b"{\"relay_chain\":\"a\nb\",\"para_id\":1}").is_none());
    assert!(parse_extensions(b"{\"relay_chain\":\"a\tb\",\"para_id\":1}").is_none());
    assert!(parse_extensions(b"{\"relay_chain\":\"a\x7fb\",\"para_id\":1}").is_some());
}

#[test]
fn extensions_para_id_bounds() {
    let max = parse_extensions(b"{\"relay_chain\":\"r\",\"para_id\":4294967295}").unwrap();
    assert_eq!(max.para_id, u32::MAX);
    let zero = parse_extensions(b"{\"relay_chain\":\"r\",\"para_id\":0}").unwrap();
    assert_eq!(zero.para_id, 0);
}
