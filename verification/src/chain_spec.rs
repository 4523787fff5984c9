use vstd::prelude::*;

use crate::genesis::{
    distinct_accounts, genesis_wf, is_genesis_for, render_genesis, testnet_genesis, GenesisState,
};
use crate::json::{ascii_seq, dec, push_ascii_str, push_dec, push_quoted_hex, quoted_hex};
use crate::keys::{
    get_account_id_from_seed, get_collator_keys_from_seed, sr25519_public_of, AccountId,
    CollatorKey,
};
use crate::{ChainSpecError, PARA_ID};
use vstd::utf8::is_ascii_chars;

verus! {

/// Classification of a network, signalling to downstream tooling how peers
/// are discovered.
#[derive(Clone, Copy, Debug, PartialEq, Eq, Structural)]
pub enum ChainType {
    Development,
    Local,
    Live,
}

/// Human-facing chain properties: token symbol, token decimals and the
/// address-encoding version.
#[derive(Clone, Debug, PartialEq, Eq)]
pub struct ChainProperties {
    pub token_symbol: String,
    pub token_decimals: u32,
    pub ss58_format: u32,
}

/// Side-channel metadata attached to, but logically independent of, genesis
/// state: the relay chain to register against and the parachain id.
#[derive(Clone, Debug, PartialEq, Eq)]
pub struct Extensions {
    /// The relay chain of the parachain.
    pub relay_chain: String,
    /// The id of the parachain.
    pub para_id: u32,
}

/// The full chain specification: network identity, bootstrap metadata, the
/// compiled runtime code and the genesis document. Built once, thereafter
/// immutable.
#[derive(Clone, Debug, PartialEq, Eq)]
pub struct ChainSpec {
    pub name: String,
    pub id: String,
    pub chain_type: ChainType,
    pub genesis: GenesisState,
    pub properties: Option<ChainProperties>,
    pub protocol_id: Option<String>,
    pub code: Vec<u8>,
    pub extensions: Extensions,
}

/// Well-formedness of a built specification: the parachain id recorded in the
/// genesis document and in the extensions always agree, and the genesis
/// document itself is well formed.
pub open spec fn chain_spec_wf(cs: ChainSpec) -> bool {
    &&& cs.genesis.para_id == cs.extensions.para_id
    &&& genesis_wf(cs.genesis)
}

/// Binds a preset's identity, properties, extensions, runtime code and the
/// built genesis document into one specification. Fails exactly when the
/// compiled runtime code is absent, since a specification without executable
/// code cannot initialize a genesis block.
pub fn build_chain_spec(
    name: String,
    id: String,
    chain_type: ChainType,
    invulnerables: Vec<(AccountId, CollatorKey)>,
    root: AccountId,
    para_id: u32,
    relay_chain: String,
    properties: Option<ChainProperties>,
    protocol_id: Option<String>,
    code: Option<Vec<u8>>,
) -> (r: Result<ChainSpec, ChainSpecError>)
    ensures
        r is Ok <==> code is Some,
        r is Err ==> r->Err_0 == ChainSpecError::MissingRuntimeCode,
        r is Ok ==> ({
            let cs = r->Ok_0;
            &&& cs.name@ == name@
            &&& cs.id@ == id@
            &&& cs.chain_type == chain_type
            &&& is_genesis_for(cs.genesis, invulnerables@, root, para_id)
            &&& cs.properties == properties
            &&& cs.protocol_id == protocol_id
            &&& cs.code@ == code->Some_0@
            &&& cs.extensions.relay_chain@ == relay_chain@
            &&& cs.extensions.para_id == para_id
            &&& chain_spec_wf(cs)
        }),
{
    let code_bytes = match code {
        Some(c) => c,
        None => {
            return Err(ChainSpecError::MissingRuntimeCode);
        },
    };
    let genesis = testnet_genesis(invulnerables, root, para_id);
    Ok(
        ChainSpec {
            name,
            id,
            chain_type,
            genesis,
            properties,
            protocol_id,
            code: code_bytes,
            extensions: Extensions { relay_chain, para_id },
        },
    )
}

/// What both presets share: a two-collator set derived from the seeds "Alice"
/// and "Bob", root authority derived from "Alice", and the fixed parachain id
/// recorded consistently in the genesis document and the extensions.
pub open spec fn preset_ok(cs: ChainSpec) -> bool {
    &&& cs.extensions.relay_chain@ == "rococo-local"@
    &&& cs.extensions.para_id == PARA_ID
    &&& cs.genesis.para_id == PARA_ID
    &&& chain_spec_wf(cs)
    &&& cs.genesis.invulnerables@.len() == 2
    &&& cs.genesis.session_keys@.len() == 2
    &&& cs.genesis.invulnerables@[0]@ == sr25519_public_of("Alice"@)->Some_0
    &&& cs.genesis.invulnerables@[1]@ == sr25519_public_of("Bob"@)->Some_0
    &&& cs.genesis.session_keys@[0].keys.aura@ == sr25519_public_of("Alice"@)->Some_0
    &&& cs.genesis.session_keys@[1].keys.aura@ == sr25519_public_of("Bob"@)->Some_0
    &&& cs.genesis.sudo_key@ == sr25519_public_of("Alice"@)->Some_0
    &&& cs.genesis.candidacy_bond == crate::EXISTENTIAL_DEPOSIT * 16
    &&& cs.genesis.safe_xcm_version == crate::SAFE_XCM_VERSION
}

/// The development preset: development chain type, no properties and no
/// protocol id embedded in the final object.
pub open spec fn development_ok(cs: ChainSpec, code: Seq<u8>) -> bool {
    &&& preset_ok(cs)
    &&& cs.name@ == "Pop Network Development"@
    &&& cs.id@ == "pop-dev"@
    &&& cs.chain_type == ChainType::Development
    &&& cs.properties is None
    &&& cs.protocol_id is None
    &&& cs.code@ == code
}

/// The local-testnet preset: local chain type, a protocol id for
/// peer-discovery isolation, and the chain properties attached.
pub open spec fn local_testnet_ok(cs: ChainSpec, code: Seq<u8>) -> bool {
    &&& preset_ok(cs)
    &&& cs.name@ == "Pop Network Local Testnet"@
    &&& cs.id@ == "pop-local"@
    &&& cs.chain_type == ChainType::Local
    &&& cs.properties is Some
    &&& cs.properties->Some_0.token_symbol@ == "UNIT"@
    &&& cs.properties->Some_0.token_decimals == 12
    &&& cs.properties->Some_0.ss58_format == 42
    &&& cs.protocol_id is Some
    &&& cs.protocol_id->Some_0@ == "pop-local"@
    &&& cs.protocol_id->Some_0@.len() > 0
    &&& cs.code@ == code
}

/// Derives the fixed preset collator set and root account: "Alice" and "Bob"
/// as invulnerable collators, with "Alice" as root.
fn preset_accounts() -> (r: Result<(Vec<(AccountId, CollatorKey)>, AccountId), ChainSpecError>)
    ensures
        r is Ok <==> sr25519_public_of("Alice"@) is Some && sr25519_public_of("Bob"@) is Some,
        r is Err ==> r->Err_0 == ChainSpecError::InvalidSeed,
        r is Ok ==> ({
            let (invulnerables, root) = r->Ok_0;
            &&& invulnerables@.len() == 2
            &&& invulnerables@[0].0@ == sr25519_public_of("Alice"@)->Some_0
            &&& invulnerables@[0].1@ == sr25519_public_of("Alice"@)->Some_0
            &&& invulnerables@[1].0@ == sr25519_public_of("Bob"@)->Some_0
            &&& invulnerables@[1].1@ == sr25519_public_of("Bob"@)->Some_0
            &&& root@ == sr25519_public_of("Alice"@)->Some_0
        }),
{
    let alice_account = match get_account_id_from_seed("Alice") {
        Ok(a) => a,
        Err(e) => {
            return Err(e);
        },
    };
    let alice_key = match get_collator_keys_from_seed("Alice") {
        Ok(k) => k,
        Err(e) => {
            return Err(e);
        },
    };
    let bob_account = match get_account_id_from_seed("Bob") {
        Ok(a) => a,
        Err(e) => {
            return Err(e);
        },
    };
    let bob_key = match get_collator_keys_from_seed("Bob") {
        Ok(k) => k,
        Err(e) => {
            return Err(e);
        },
    };
    let mut invulnerables: Vec<(AccountId, CollatorKey)> = Vec::new();
    invulnerables.push((alice_account, alice_key));
    invulnerables.push((bob_account, bob_key));
    Ok((invulnerables, alice_account))
}

/// Builds the development preset from the injected compiled runtime code.
pub fn development_config(code: Option<Vec<u8>>) -> (r: Result<ChainSpec, ChainSpecError>)
    ensures
        code is None ==> r is Err && r->Err_0 == ChainSpecError::MissingRuntimeCode,
        r is Ok <==> code is Some && sr25519_public_of("Alice"@) is Some && sr25519_public_of(
            "Bob"@,
        ) is Some,
        code is Some && r is Err ==> r->Err_0 == ChainSpecError::InvalidSeed,
        r is Ok ==> development_ok(r->Ok_0, code->Some_0@),
{
    if code.is_none() {
        return Err(ChainSpecError::MissingRuntimeCode);
    }
    let (invulnerables, root) = match preset_accounts() {
        Ok(p) => p,
        Err(e) => {
            return Err(e);
        },
    };
    build_chain_spec(
        "Pop Network Development".to_owned(),
        "pop-dev".to_owned(),
        ChainType::Development,
        invulnerables,
        root,
        PARA_ID,
        "rococo-local".to_owned(),
        None,
        None,
        code,
    )
}

/// Builds the local-testnet preset from the injected compiled runtime code,
/// giving the base currency a unit name and decimal places.
pub fn local_testnet_config(code: Option<Vec<u8>>) -> (r: Result<ChainSpec, ChainSpecError>)
    ensures
        code is None ==> r is Err && r->Err_0 == ChainSpecError::MissingRuntimeCode,
        r is Ok <==> code is Some && sr25519_public_of("Alice"@) is Some && sr25519_public_of(
            "Bob"@,
        ) is Some,
        code is Some && r is Err ==> r->Err_0 == ChainSpecError::InvalidSeed,
        r is Ok ==> local_testnet_ok(r->Ok_0, code->Some_0@),
{
    if code.is_none() {
        return Err(ChainSpecError::MissingRuntimeCode);
    }
    let (invulnerables, root) = match preset_accounts() {
        Ok(p) => p,
        Err(e) => {
            return Err(e);
        },
    };
    let properties = ChainProperties {
        token_symbol: "UNIT".to_owned(),
        token_decimals: 12,
        ss58_format: 42,
    };
    let r = build_chain_spec(
        "Pop Network Local Testnet".to_owned(),
        "pop-local".to_owned(),
        ChainType::Local,
        invulnerables,
        root,
        PARA_ID,
        "rococo-local".to_owned(),
        Some(properties),
        Some("pop-local".to_owned()),
        code,
    );
    proof {
        reveal_strlit("pop-local");
    }
    r
}

/// Text admitted by the document grammar: ASCII with no quote, no backslash
/// and no control character, so that its rendering is a well-formed JSON
/// string without any escaping. This is a deliberate narrowing: the canonical
/// document form of this library has no escape sequences, and a string
/// outside this domain is refused by the serializers' preconditions rather
/// than rendered into a document the parser could not read back.
pub open spec fn json_safe(s: Seq<char>) -> bool {
    &&& is_ascii_chars(s)
    &&& forall|i: int|
        0 <= i < s.len() ==> (#[trigger] s[i]) != '"' && s[i] != '\\' && (s[i] as u32) >= 32
}

/// The document form of the extensions: one object with exactly the two
/// fields `relay_chain` and `para_id`.
pub open spec fn render_extensions(relay: Seq<char>, para_id: u32) -> Seq<u8> {
    ascii_seq("{\"relay_chain\":\""@) + ascii_seq(relay) + ascii_seq("\",\"para_id\":"@) + dec(
        para_id as nat,
    ) + seq![125u8]
}

impl Extensions {
    /// Serializes the extensions to their canonical document form. Admitted
    /// only for a relay-chain name inside the document grammar (`json_safe`),
    /// so that serializing and parsing back reproduces the value exactly.
    pub fn to_json_bytes(&self) -> (r: Vec<u8>)
        requires
            json_safe(self.relay_chain@),
        ensures
            r@ == render_extensions(self.relay_chain@, self.para_id),
    {
        proof {
            reveal_strlit("{\"relay_chain\":\"");
            reveal_strlit("\",\"para_id\":");
            assert("{\"relay_chain\":\"".is_ascii());
            assert("\",\"para_id\":".is_ascii());
        }
        let mut out: Vec<u8> = Vec::new();
        push_ascii_str(&mut out, "{\"relay_chain\":\"");
        push_ascii_str(&mut out, self.relay_chain.as_str());
        push_ascii_str(&mut out, "\",\"para_id\":");
        push_dec(&mut out, self.para_id as u128);
        out.push(125);
        proof {
            assert(out@ =~= render_extensions(self.relay_chain@, self.para_id));
        }
        out
    }
}

/// Index-level consequences of a byte sequence being the canonical rendering
/// of some extensions document.
proof fn extensions_render_facts(input: Seq<u8>, relay: Seq<char>, pid: u32)
    requires
        json_safe(relay),
        input == render_extensions(relay, pid),
    ensures
        input.len() == 29 + relay.len() + dec(pid as nat).len(),
        forall|k: int| 0 <= k < 16 ==> input[k] == ascii_seq("{\"relay_chain\":\""@)[k],
        forall|k: int| 0 <= k < relay.len() ==> input[16 + k] == ((#[trigger] relay[k]) as u8),
        forall|k: int|
            16 <= k < 16 + relay.len() ==> #[trigger] input[k] < 128 && input[k] != 34 && input[k]
                != 92 && input[k] >= 32,
        forall|k: int|
            0 <= k < 12 ==> #[trigger] input[16 + relay.len() + k] == ascii_seq(
                "\",\"para_id\":"@,
            )[k],
        input[16 + relay.len() as int] == 34,
        forall|k: int|
            0 <= k < dec(pid as nat).len() ==> #[trigger] input[28 + relay.len() + k] == dec(
                pid as nat,
            )[k],
        forall|k: int|
            28 + relay.len() <= k < 28 + relay.len() + dec(pid as nat).len() ==> crate::json::is_digit(
                #[trigger] input[k],
            ),
        input[input.len() - 1] == 125,
        dec(pid as nat).len() >= 1,
        dec(pid as nat).len() > 1 ==> dec(pid as nat)[0] != 48,
{
    reveal_strlit("{\"relay_chain\":\"");
    reveal_strlit("\",\"para_id\":");
    crate::json::lemma_dec_props(pid as nat);
    crate::json::lemma_val_dec(pid as nat);
    broadcast use vstd::utf8::is_ascii_chars_nat_bound;

    assert(is_ascii_chars(relay));
    assert forall|k: int|
        16 <= k < 16 + relay.len() implies #[trigger] input[k] < 128 && input[k] != 34 && input[k]
        != 92 && input[k] >= 32 by {
        let c = relay[k - 16];
        assert(input[k] == ascii_seq(relay)[k - 16]);
        assert((c as nat) < 128);
        assert((c as u32) >= 32);
        if c as u8 == 34 {
            assert(c as u32 == 34);
            assert('"' as u32 == 34);
            vstd::utf8::char_u32_cast(c, c as u32);
            vstd::utf8::char_u32_cast('"', 34);
            assert(c == '"');
            assert(false);
        }
        if c as u8 == 92 {
            assert(c as u32 == 92);
            assert('\\' as u32 == 92);
            vstd::utf8::char_u32_cast(c, c as u32);
            vstd::utf8::char_u32_cast('\\', 92);
            assert(c == '\\');
            assert(false);
        }
    }
    assert(input[16 + relay.len() as int] == ascii_seq("\",\"para_id\":"@)[0]);
    assert(input[input.len() - 1] == 125);
}

/// With the relay region free of quote bytes and a quote byte at `j`, the
/// position `j` can only be the end of the relay region.
proof fn lemma_relay_end(input: Seq<u8>, relay: Seq<char>, pid: u32, j: int)
    requires
        json_safe(relay),
        input == render_extensions(relay, pid),
        16 <= j < input.len(),
        forall|k: int| 16 <= k < j ==> #[trigger] input[k] != 34,
        input[j] == 34,
    ensures
        j == 16 + relay.len(),
{
    extensions_render_facts(input, relay, pid);
    let end = 16 + relay.len() as int;
    if j < end {
        assert(input[j] != 34);
    } else if j > end {
        assert(input[end] != 34);
        assert(input[end] == 34);
    }
}

/// Parses the canonical document form of the extensions. The schema is
/// strict: exactly the two fields `relay_chain` and `para_id` are accepted,
/// in canonical form; a document with an unrecognized field is never a
/// rendering of any extensions value and is therefore rejected.
#[verifier::rlimit(100)]
pub fn parse_extensions(input: &[u8]) -> (r: Option<Extensions>)
    ensures
        r is Some ==> json_safe(r->Some_0.relay_chain@) && input@ == render_extensions(
            r->Some_0.relay_chain@,
            r->Some_0.para_id,
        ),
        forall|relay: Seq<char>, pid: u32|
            json_safe(relay) && input@ == #[trigger] render_extensions(relay, pid) ==> r
                is Some,
{
    let n = input.len();
    let p = "{\"relay_chain\":\"";
    let q = "\",\"para_id\":";
    proof {
        reveal_strlit("{\"relay_chain\":\"");
        reveal_strlit("\",\"para_id\":");
        assert(p.is_ascii());
        assert(q.is_ascii());
    }
    let pb = p.as_bytes_vec();
    let qb = q.as_bytes_vec();
    proof {
        broadcast use vstd::string::is_ascii_spec_bytes;

        assert(pb@ =~= ascii_seq(p@));
        assert(qb@ =~= ascii_seq(q@));
    }
    if n < 16 {
        proof {
            assert forall|relay: Seq<char>, pid: u32|
                json_safe(relay) && input@ == #[trigger] render_extensions(
                    relay,
                    pid,
                ) implies false by {
                extensions_render_facts(input@, relay, pid);
            }
        }
        return None;
    }
    let mut i: usize = 0;
    while i < 16
        invariant
            i <= 16,
            n == input@.len(),
            n >= 16,
            pb@ == ascii_seq("{\"relay_chain\":\""@),
            pb@.len() == 16,
            forall|k: int| 0 <= k < i ==> input@[k] == pb@[k],
        decreases 16 - i,
    {
        if input[i] != pb[i] {
            proof {
                assert forall|relay: Seq<char>, pid: u32|
                    json_safe(relay) && input@ == #[trigger] render_extensions(
                        relay,
                        pid,
                    ) implies false by {
                    extensions_render_facts(input@, relay, pid);
                    assert(input@[i as int] == ascii_seq("{\"relay_chain\":\""@)[i as int]);
                }
            }
            return None;
        }
        i = i + 1;
    }
    let mut j: usize = 16;
    let mut relay_bytes: Vec<u8> = Vec::new();
    while j < n && input[j] != 34
        invariant
            16 <= j <= n,
            n == input@.len(),
            relay_bytes@.len() == j - 16,
            forall|k: int| 0 <= k < j - 16 ==> relay_bytes@[k] == input@[16 + k],
            forall|k: int| 16 <= k < j ==> #[trigger] input@[k] != 34,
            forall|k: int|
                0 <= k < relay_bytes@.len() ==> #[trigger] relay_bytes@[k] < 128
                    && relay_bytes@[k] != 34 && relay_bytes@[k] != 92 && relay_bytes@[k] >= 32,
        decreases n - j,
    {
        let b = input[j];
        if b >= 128 || b == 92 || b < 32 {
            proof {
                assert forall|relay: Seq<char>, pid: u32|
                    json_safe(relay) && input@ == #[trigger] render_extensions(
                        relay,
                        pid,
                    ) implies false by {
                    extensions_render_facts(input@, relay, pid);
                    let end = 16 + relay.len() as int;
                    if j < end {
                        assert(input@[j as int] < 128 && input@[j as int] != 92 && input@[j as int]
                            >= 32);
                    } else if j > end {
                        assert(input@[end] != 34);
                        assert(input@[end] == 34);
                    } else {
                        assert(input@[j as int] == 34);
                    }
                }
            }
            return None;
        }
        relay_bytes.push(b);
        j = j + 1;
    }
    if j == n {
        proof {
            assert forall|relay: Seq<char>, pid: u32|
                json_safe(relay) && input@ == #[trigger] render_extensions(
                    relay,
                    pid,
                ) implies false by {
                extensions_render_facts(input@, relay, pid);
                assert(input@[16 + relay.len() as int] == 34);
            }
        }
        return None;
    }
    // input[j] == 34: the end of the relay region.
    if n - j < 14 {
        proof {
            assert forall|relay: Seq<char>, pid: u32|
                json_safe(relay) && input@ == #[trigger] render_extensions(
                    relay,
                    pid,
                ) implies false by {
                extensions_render_facts(input@, relay, pid);
                lemma_relay_end(input@, relay, pid, j as int);
            }
        }
        return None;
    }
    let mut k2: usize = 0;
    while k2 < 12
        invariant
            k2 <= 12,
            n == input@.len(),
            16 <= j,
            n - j >= 14,
            input@[j as int] == 34,
            forall|k: int| 16 <= k < j ==> #[trigger] input@[k] != 34,
            qb@ == ascii_seq("\",\"para_id\":"@),
            qb@.len() == 12,
            forall|k: int| 0 <= k < k2 ==> input@[j + k] == qb@[k],
        decreases 12 - k2,
    {
        if input[j + k2] != qb[k2] {
            proof {
                assert forall|relay: Seq<char>, pid: u32|
                    json_safe(relay) && input@ == #[trigger] render_extensions(
                        relay,
                        pid,
                    ) implies false by {
                    extensions_render_facts(input@, relay, pid);
                    lemma_relay_end(input@, relay, pid, j as int);
                    assert(input@[16 + relay.len() + k2] == ascii_seq("\",\"para_id\":"@)[k2 as int]);
                }
            }
            return None;
        }
        k2 = k2 + 1;
    }
    let ds = j + 12;
    let mut d = ds;
    let mut acc: u64 = 0;
    while d < n && 48 <= input[d] && input[d] <= 57
        invariant
            ds <= d <= n,
            ds == j + 12,
            16 <= j,
            n == input@.len(),
            n - j >= 14,
            acc <= 0xFFFF_FFFF,
            acc as int == crate::json::val(input@.subrange(ds as int, d as int)),
            forall|k: int| ds <= k < d ==> crate::json::is_digit(#[trigger] input@[k]),
            input@[j as int] == 34,
            forall|k: int| 16 <= k < j ==> #[trigger] input@[k] != 34,
        decreases n - d,
    {
        let b = input[d];
        let dig: u64 = (b - 48) as u64;
        let newacc: u64 = acc * 10 + dig;
        proof {
            assert(input@.subrange(ds as int, d + 1).drop_last() =~= input@.subrange(
                ds as int,
                d as int,
            ));
            assert(input@.subrange(ds as int, d + 1).last() == input@[d as int]);
        }
        if newacc > 0xFFFF_FFFF {
            proof {
                assert forall|relay: Seq<char>, pid: u32|
                    json_safe(relay) && input@ == #[trigger] render_extensions(
                        relay,
                        pid,
                    ) implies false by {
                    extensions_render_facts(input@, relay, pid);
                    lemma_relay_end(input@, relay, pid, j as int);
                    let dd = dec(pid as nat);
                    let start = 28 + relay.len() as int;
                    assert(start == ds);
                    // The scan cannot have run past the digit region: the byte
                    // after it is a closing brace, not a digit.
                    if d + 1 > start + dd.len() {
                        assert(crate::json::is_digit(input@[start + dd.len()]));
                        assert(input@[start + dd.len()] == 125);
                        assert(false);
                    }
                    assert(input@.subrange(start, start + dd.len()) =~= dd);
                    assert(input@.subrange(ds as int, d + 1) =~= dd.take(d + 1 - start));
                    crate::json::lemma_dec_props(pid as nat);
                    crate::json::lemma_val_prefix(dd, d + 1 - start);
                    crate::json::lemma_val_dec(pid as nat);
                    assert(crate::json::val(input@.subrange(ds as int, d + 1)) <= pid as int);
                }
            }
            return None;
        }
        acc = newacc;
        d = d + 1;
    }
    if d == ds || d == n || (input[ds] == 48 && d - ds > 1) {
        proof {
            assert forall|relay: Seq<char>, pid: u32|
                json_safe(relay) && input@ == #[trigger] render_extensions(
                    relay,
                    pid,
                ) implies false by {
                extensions_render_facts(input@, relay, pid);
                lemma_relay_end(input@, relay, pid, j as int);
                let dd = dec(pid as nat);
                let start = 28 + relay.len() as int;
                assert(start == ds);
                crate::json::lemma_dec_props(pid as nat);
                if d == ds {
                    assert(crate::json::is_digit(input@[start]));
                } else if d == n as int {
                    assert(crate::json::is_digit(input@[n - 1]));
                    assert(input@[n - 1] == 125);
                } else {
                    assert(input@[start] == dd[0]);
                    if d - ds > dd.len() {
                        assert(crate::json::is_digit(input@[start + dd.len()]));
                        assert(input@[start + dd.len()] == 125);
                    } else {
                        assert(dd.len() > 1);
                        assert(dd[0] != 48);
                    }
                }
            }
        }
        return None;
    }
    if input[d] != 125 || d + 1 != n {
        proof {
            assert forall|relay: Seq<char>, pid: u32|
                json_safe(relay) && input@ == #[trigger] render_extensions(
                    relay,
                    pid,
                ) implies false by {
                extensions_render_facts(input@, relay, pid);
                lemma_relay_end(input@, relay, pid, j as int);
                let dd = dec(pid as nat);
                let start = 28 + relay.len() as int;
                assert(start == ds);
                if d > start + dd.len() {
                    assert(crate::json::is_digit(input@[start + dd.len()]));
                    assert(input@[start + dd.len()] == 125);
                } else if d < start + dd.len() {
                    assert(crate::json::is_digit(input@[d as int]));
                } else {
                    assert(d == n - 1);
                    assert(input@[d as int] == 125);
                }
            }
        }
        return None;
    }
    let para_id: u32 = acc as u32;
    let relay_chain = crate::json::string_from_ascii(relay_bytes);
    proof {
        let digits = input@.subrange(ds as int, d as int);
        assert forall|ii: int|
            0 <= ii < relay_chain@.len() implies '\0' <= #[trigger] relay_chain@[ii] <= '\u{7f}'
            && relay_chain@[ii] != '"' && relay_chain@[ii] != '\\' && (relay_chain@[ii] as u32)
            >= 32 by {
            assert(relay_chain@[ii] as u8 == relay_bytes@[ii] && (relay_chain@[ii] as u32) < 128);
            assert(relay_bytes@[ii] < 128 && relay_bytes@[ii] != 34 && relay_bytes@[ii] != 92
                && relay_bytes@[ii] >= 32);
            crate::json::lemma_ascii_char_bounds(relay_chain@[ii]);
            assert((relay_chain@[ii] as u32) == relay_bytes@[ii]);
            if relay_chain@[ii] == '"' {
                assert(relay_chain@[ii] as u8 == 34);
            }
            if relay_chain@[ii] == '\\' {
                assert(relay_chain@[ii] as u8 == 92);
            }
        }
        assert(json_safe(relay_chain@));
        assert(forall|k: int| 0 <= k < digits.len() ==> crate::json::is_digit(#[trigger] digits[k]));
        crate::json::lemma_dec_canonical(digits);
        assert(digits == dec(acc as nat));
        assert(input@ =~= ascii_seq(p@) + ascii_seq(relay_chain@) + ascii_seq(q@) + dec(
            acc as nat,
        ) + seq![125u8]) by {
            assert(relay_chain@.len() == j - 16);
            assert(forall|k: int| 0 <= k < 16 ==> input@[k] == ascii_seq(p@)[k]);
            assert forall|k: int|
                0 <= k < relay_chain@.len() implies ascii_seq(relay_chain@)[k] == input@[16
                + k] by {
                assert(relay_chain@[k] as u8 == relay_bytes@[k]);
            }
            assert(forall|k: int| 0 <= k < 12 ==> input@[j + k] == ascii_seq(q@)[k]);
            assert(forall|k: int| 0 <= k < digits.len() ==> input@[ds + k] == digits[k]);
        }
        assert(input@ == render_extensions(relay_chain@, para_id));
    }
    Some(Extensions { relay_chain, para_id })
}

/// Round trip: the canonical extensions rendering is injective. Together with
/// the contracts of the serializer and the parser this pins the round trip
/// down: a rendered document parses back to exactly the value it was
/// rendered from.
pub proof fn lemma_render_extensions_injective(r1: Seq<char>, p1: u32, r2: Seq<char>, p2: u32)
    requires
        json_safe(r1),
        json_safe(r2),
        render_extensions(r1, p1) == render_extensions(r2, p2),
    ensures
        r1 == r2,
        p1 == p2,
{
    broadcast use vstd::utf8::is_ascii_chars_nat_bound;

    let input = render_extensions(r1, p1);
    extensions_render_facts(input, r1, p1);
    extensions_render_facts(input, r2, p2);
    if r1.len() < r2.len() {
        assert(input[16 + r1.len() as int] == 34);
        assert(input[16 + r1.len() as int] != 34);
    } else if r2.len() < r1.len() {
        assert(input[16 + r2.len() as int] == 34);
        assert(input[16 + r2.len() as int] != 34);
    }
    assert(r1.len() == r2.len());
    assert forall|k: int| 0 <= k < r1.len() implies r1[k] == r2[k] by {
        assert(input[16 + k] == (r1[k] as u8) && input[16 + k] == (r2[k] as u8));
        assert((r1[k] as nat) < 128 && (r2[k] as nat) < 128);
        vstd::utf8::char_u32_cast(r1[k], r1[k] as u32);
        vstd::utf8::char_u32_cast(r2[k], r2[k] as u32);
    }
    assert(r1 =~= r2);
    let d1 = dec(p1 as nat);
    let d2 = dec(p2 as nat);
    assert(d1.len() == d2.len());
    assert forall|k: int| 0 <= k < d1.len() implies d1[k] == d2[k] by {
        assert(input[28 + r1.len() + k] == d1[k]);
        assert(input[28 + r2.len() + k] == d2[k]);
    }
    assert(d1 =~= d2);
    crate::json::lemma_val_dec(p1 as nat);
    crate::json::lemma_val_dec(p2 as nat);
}

/// The display name of a chain-type classification.
pub open spec fn chain_type_name(t: ChainType) -> Seq<char> {
    match t {
        ChainType::Development => "Development"@,
        ChainType::Local => "Local"@,
        ChainType::Live => "Live"@,
    }
}

/// The document form of the chain properties, rendered as a field of the
/// enclosing specification object.
pub open spec fn render_properties(p: ChainProperties) -> Seq<u8> {
    ascii_seq(",\"properties\":{\"tokenSymbol\":\""@) + ascii_seq(p.token_symbol@) + ascii_seq(
        "\",\"tokenDecimals\":"@,
    ) + dec(p.token_decimals as nat) + ascii_seq(",\"ss58Format\":"@) + dec(p.ss58_format as nat)
        + seq![125u8]
}

/// The document form of a full chain specification. The two extension fields
/// stand at the top level of the object; the fields of absent properties or
/// an absent protocol id are omitted, not rendered as null.
pub open spec fn render_chain_spec(cs: ChainSpec) -> Seq<u8> {
    ascii_seq("{\"name\":\""@) + ascii_seq(cs.name@) + ascii_seq("\",\"id\":\""@) + ascii_seq(
        cs.id@,
    ) + ascii_seq("\",\"chainType\":\""@) + ascii_seq(chain_type_name(cs.chain_type)) + seq![34u8]
        + (if cs.properties is Some {
        render_properties(cs.properties->Some_0)
    } else {
        Seq::<u8>::empty()
    }) + (if cs.protocol_id is Some {
        ascii_seq(",\"protocolId\":\""@) + ascii_seq(cs.protocol_id->Some_0@) + seq![34u8]
    } else {
        Seq::<u8>::empty()
    }) + ascii_seq(",\"relay_chain\":\""@) + ascii_seq(cs.extensions.relay_chain@) + ascii_seq(
        "\",\"para_id\":"@,
    ) + dec(cs.extensions.para_id as nat) + ascii_seq(",\"genesis\":"@) + render_genesis(cs.genesis)
        + ascii_seq(",\"code\":"@) + quoted_hex(cs.code@) + seq![125u8]
}

/// Every string of the specification lies inside the document grammar
/// (`json_safe`): ASCII with no quote, backslash or control character. The
/// serializer admits exactly such specifications, so the emitted document is
/// always well-formed JSON; a string outside this domain is refused up
/// front, never rendered unescaped.
pub open spec fn serializable(cs: ChainSpec) -> bool {
    &&& json_safe(cs.name@)
    &&& json_safe(cs.id@)
    &&& cs.properties is Some ==> json_safe(cs.properties->Some_0.token_symbol@)
    &&& cs.protocol_id is Some ==> json_safe(cs.protocol_id->Some_0@)
    &&& json_safe(cs.extensions.relay_chain@)
}

impl ChainSpec {
    /// Serializes the built specification to its canonical document form, for
    /// distribution to other nodes.
    #[verifier::rlimit(100)]
    pub fn to_json_bytes(&self) -> (r: Vec<u8>)
        requires
            serializable(*self),
        ensures
            r@ == render_chain_spec(*self),
    {
        proof {
            reveal_strlit("{\"name\":\"");
            reveal_strlit("\",\"id\":\"");
            reveal_strlit("\",\"chainType\":\"");
            reveal_strlit(",\"protocolId\":\"");
            reveal_strlit(",\"relay_chain\":\"");
            reveal_strlit("\",\"para_id\":");
            reveal_strlit(",\"genesis\":");
            reveal_strlit(",\"code\":");
            assert("{\"name\":\"".is_ascii());
            assert("\",\"id\":\"".is_ascii());
            assert("\",\"chainType\":\"".is_ascii());
            assert(",\"protocolId\":\"".is_ascii());
            assert(",\"relay_chain\":\"".is_ascii());
            assert("\",\"para_id\":".is_ascii());
            assert(",\"genesis\":".is_ascii());
            assert(",\"code\":".is_ascii());
        }
        let mut out: Vec<u8> = Vec::new();
        push_ascii_str(&mut out, "{\"name\":\"");
        push_ascii_str(&mut out, self.name.as_str());
        push_ascii_str(&mut out, "\",\"id\":\"");
        push_ascii_str(&mut out, self.id.as_str());
        push_ascii_str(&mut out, "\",\"chainType\":\"");
        match self.chain_type {
            ChainType::Development => {
                proof {
                    reveal_strlit("Development");
                    assert("Development".is_ascii());
                }
                push_ascii_str(&mut out, "Development");
            },
            ChainType::Local => {
                proof {
                    reveal_strlit("Local");
                    assert("Local".is_ascii());
                }
                push_ascii_str(&mut out, "Local");
            },
            ChainType::Live => {
                proof {
                    reveal_strlit("Live");
                    assert("Live".is_ascii());
                }
                push_ascii_str(&mut out, "Live");
            },
        }
        out.push(34);
        match &self.properties {
            Some(props) => {
                proof {
                    reveal_strlit(",\"properties\":{\"tokenSymbol\":\"");
                    reveal_strlit("\",\"tokenDecimals\":");
                    reveal_strlit(",\"ss58Format\":");
                    assert(",\"properties\":{\"tokenSymbol\":\"".is_ascii());
                    assert("\",\"tokenDecimals\":".is_ascii());
                    assert(",\"ss58Format\":".is_ascii());
                }
                push_ascii_str(&mut out, ",\"properties\":{\"tokenSymbol\":\"");
                push_ascii_str(&mut out, props.token_symbol.as_str());
                push_ascii_str(&mut out, "\",\"tokenDecimals\":");
                push_dec(&mut out, props.token_decimals as u128);
                push_ascii_str(&mut out, ",\"ss58Format\":");
                push_dec(&mut out, props.ss58_format as u128);
                out.push(125);
            },
            None => {},
        }
        match &self.protocol_id {
            Some(pid) => {
                push_ascii_str(&mut out, ",\"protocolId\":\"");
                push_ascii_str(&mut out, pid.as_str());
                out.push(34);
            },
            None => {},
        }
        push_ascii_str(&mut out, ",\"relay_chain\":\"");
        push_ascii_str(&mut out, self.extensions.relay_chain.as_str());
        push_ascii_str(&mut out, "\",\"para_id\":");
        push_dec(&mut out, self.extensions.para_id as u128);
        push_ascii_str(&mut out, ",\"genesis\":");
        let mut genesis_bytes = self.genesis.to_json_bytes();
        out.append(&mut genesis_bytes);
        push_ascii_str(&mut out, ",\"code\":");
        push_quoted_hex(&mut out, self.code.as_slice());
        out.push(125);
        proof {
            assert(out@ =~= render_chain_spec(*self));
        }
        out
    }
}

/// Consistency: in every chain specification either preset builds, the
/// parachain id of the genesis document and of the extensions agree, and both
/// equal the fixed parachain id of this network.
pub proof fn lemma_preset_para_id_consistent(cs: ChainSpec)
    requires
        preset_ok(cs),
    ensures
        cs.genesis.para_id == cs.extensions.para_id,
        cs.extensions.para_id == PARA_ID,
{
}

/// Cardinality: in every preset specification the session-key list and the
/// invulnerable list both hold exactly the two preset collators.
pub proof fn lemma_preset_cardinality(cs: ChainSpec)
    requires
        preset_ok(cs),
    ensures
        cs.genesis.session_keys@.len() == 2,
        cs.genesis.invulnerables@.len() == 2,
{
}

/// Authority: in every preset specification the sudo key equals the account
/// derived from the seed "Alice", which is also the first invulnerable.
pub proof fn lemma_preset_authority(cs: ChainSpec)
    requires
        preset_ok(cs),
    ensures
        cs.genesis.sudo_key@ == sr25519_public_of("Alice"@)->Some_0,
        cs.genesis.sudo_key@ == cs.genesis.invulnerables@[0]@,
{
}

/// Distinctness carries through: whenever the two preset seeds derive to
/// distinct key bytes, every invulnerable account of a preset specification
/// appears exactly once.
pub proof fn lemma_preset_distinct_accounts(cs: ChainSpec)
    requires
        preset_ok(cs),
        sr25519_public_of("Alice"@)->Some_0 != sr25519_public_of("Bob"@)->Some_0,
    ensures
        distinct_accounts(cs.genesis),
{
}

} // verus!
