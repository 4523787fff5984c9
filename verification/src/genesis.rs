use vstd::prelude::*;

use crate::json::{ascii_seq, dec, hex_bytes, push_ascii_str, push_dec, push_quoted_hex, quoted_hex};
use crate::keys::{pop_session_keys, AccountId, CollatorKey, SessionKeys};
use crate::{EXISTENTIAL_DEPOSIT, SAFE_XCM_VERSION};

verus! {

/// One entry of the genesis `session.keys` list: the validator identity is
/// deliberately duplicated as the account identity (no separate
/// controller/stash split in this network model).
#[derive(Clone, Copy, Debug, PartialEq, Eq)]
pub struct SessionKeyEntry {
    pub account: AccountId,
    pub validator: AccountId,
    pub keys: SessionKeys,
}

/// The genesis document: the initial ledger state a node loads before it can
/// begin participating in consensus.
#[derive(Clone, Debug, PartialEq, Eq)]
pub struct GenesisState {
    /// `parachainInfo.parachainId`
    pub para_id: u32,
    /// `collatorSelection.invulnerables`: accounts exempt from candidacy-bond
    /// eviction, in input order (initial slot assignment is order-sensitive).
    pub invulnerables: Vec<AccountId>,
    /// `collatorSelection.candidacyBond`
    pub candidacy_bond: u128,
    /// `session.keys`
    pub session_keys: Vec<SessionKeyEntry>,
    /// `polkadotXcm.safeXcmVersion`
    pub safe_xcm_version: u32,
    /// `sudo.key`: the single root authority.
    pub sudo_key: AccountId,
}

/// What the genesis builder promises: the document that belongs to the given
/// invulnerable list, root account and parachain id.
pub open spec fn is_genesis_for(
    g: GenesisState,
    invulnerables: Seq<(AccountId, CollatorKey)>,
    root: AccountId,
    id: u32,
) -> bool {
    &&& g.para_id == id
    &&& g.candidacy_bond == EXISTENTIAL_DEPOSIT * 16
    &&& g.safe_xcm_version == SAFE_XCM_VERSION
    &&& g.sudo_key == root
    &&& g.invulnerables@.len() == invulnerables.len()
    &&& forall|i: int|
        0 <= i < invulnerables.len() ==> g.invulnerables@[i] == invulnerables[i].0
    &&& g.session_keys@.len() == invulnerables.len()
    &&& forall|i: int|
        0 <= i < invulnerables.len() ==> #[trigger] g.session_keys@[i] == (SessionKeyEntry {
            account: invulnerables[i].0,
            validator: invulnerables[i].0,
            keys: SessionKeys { aura: invulnerables[i].1 },
        })
}

/// Every invulnerable account appears exactly once.
pub open spec fn distinct_accounts(g: GenesisState) -> bool {
    forall|i: int, j: int|
        0 <= i < j < g.invulnerables@.len() ==> g.invulnerables@[i]@ != g.invulnerables@[j]@
}

/// Well-formedness of a genesis document: the session-key list mirrors the
/// invulnerable list entry for entry, with the validator identity equal to the
/// account identity.
pub open spec fn genesis_wf(g: GenesisState) -> bool {
    &&& g.session_keys@.len() == g.invulnerables@.len()
    &&& forall|i: int|
        0 <= i < g.invulnerables@.len() ==> (#[trigger] g.session_keys@[i]).account
            == g.invulnerables@[i] && g.session_keys@[i].validator == g.invulnerables@[i]
}

/// Assembles the full genesis document from the invulnerable collator list,
/// the root account and the parachain id. Total for every input.
pub fn testnet_genesis(
    invulnerables: Vec<(AccountId, CollatorKey)>,
    root: AccountId,
    id: u32,
) -> (r: GenesisState)
    ensures
        is_genesis_for(r, invulnerables@, root, id),
        genesis_wf(r),
{
    let n = invulnerables.len();
    let mut accounts: Vec<AccountId> = Vec::new();
    let mut entries: Vec<SessionKeyEntry> = Vec::new();
    let mut i: usize = 0;
    while i < n
        invariant
            n == invulnerables@.len(),
            i <= n,
            accounts@.len() == i,
            entries@.len() == i,
            forall|k: int| 0 <= k < i ==> accounts@[k] == invulnerables@[k].0,
            forall|k: int|
                0 <= k < i ==> #[trigger] entries@[k] == (SessionKeyEntry {
                    account: invulnerables@[k].0,
                    validator: invulnerables@[k].0,
                    keys: SessionKeys { aura: invulnerables@[k].1 },
                }),
        decreases n - i,
    {
        let (account, key) = invulnerables[i];
        accounts.push(account);
        entries.push(
            SessionKeyEntry { account, validator: account, keys: pop_session_keys(key) },
        );
        i = i + 1;
    }
    GenesisState {
        para_id: id,
        invulnerables: accounts,
        candidacy_bond: EXISTENTIAL_DEPOSIT * 16,
        session_keys: entries,
        safe_xcm_version: SAFE_XCM_VERSION,
        sudo_key: root,
    }
}

/// Document rendering of the invulnerable account list: quoted hexadecimal
/// account identifiers joined by commas.
pub open spec fn render_account_list(accounts: Seq<AccountId>) -> Seq<u8>
    decreases accounts.len(),
{
    if accounts.len() == 0 {
        Seq::<u8>::empty()
    } else if accounts.len() == 1 {
        quoted_hex(accounts[0]@)
    } else {
        render_account_list(accounts.drop_last()) + seq![44u8] + quoted_hex(accounts.last()@)
    }
}

/// Document rendering of one session-key entry: the triple of account,
/// validator and the session-key bundle.
pub open spec fn render_session_entry(e: SessionKeyEntry) -> Seq<u8> {
    seq![91u8] + quoted_hex(e.account@) + seq![44u8] + quoted_hex(e.validator@) + seq![44u8]
        + ascii_seq("{\"aura\":"@) + quoted_hex(e.keys.aura@) + seq![125u8, 93u8]
}

/// Document rendering of the session-key list, entries joined by commas.
pub open spec fn render_entry_list(entries: Seq<SessionKeyEntry>) -> Seq<u8>
    decreases entries.len(),
{
    if entries.len() == 0 {
        Seq::<u8>::empty()
    } else if entries.len() == 1 {
        render_session_entry(entries[0])
    } else {
        render_entry_list(entries.drop_last()) + seq![44u8] + render_session_entry(entries.last())
    }
}

/// The document form of a genesis state: one object with the sections
/// `parachainInfo`, `collatorSelection`, `session`, `polkadotXcm` and `sudo`.
pub open spec fn render_genesis(g: GenesisState) -> Seq<u8> {
    ascii_seq("{\"parachainInfo\":{\"parachainId\":"@) + dec(g.para_id as nat) + ascii_seq(
        "},\"collatorSelection\":{\"invulnerables\":["@,
    ) + render_account_list(g.invulnerables@) + ascii_seq("],\"candidacyBond\":"@) + dec(
        g.candidacy_bond as nat,
    ) + ascii_seq("},\"session\":{\"keys\":["@) + render_entry_list(g.session_keys@) + ascii_seq(
        "]},\"polkadotXcm\":{\"safeXcmVersion\":"@,
    ) + dec(g.safe_xcm_version as nat) + ascii_seq("},\"sudo\":{\"key\":"@) + quoted_hex(
        g.sudo_key@,
    ) + ascii_seq("}}"@)
}

/// Appends the rendering of one session-key entry to `out`.
fn push_session_entry(out: &mut Vec<u8>, e: &SessionKeyEntry)
    ensures
        final(out)@ == old(out)@ + render_session_entry(*e),
{
    proof {
        reveal_strlit("{\"aura\":");
        assert("{\"aura\":".is_ascii());
    }
    out.push(91);
    push_quoted_hex(out, e.account.0.as_slice());
    out.push(44);
    push_quoted_hex(out, e.validator.0.as_slice());
    out.push(44);
    push_ascii_str(out, "{\"aura\":");
    push_quoted_hex(out, e.keys.aura.0.as_slice());
    out.push(125);
    out.push(93);
    proof {
        assert(out@ =~= old(out)@ + render_session_entry(*e));
    }
}

impl GenesisState {
    /// Serializes the genesis document to its canonical byte form.
    pub fn to_json_bytes(&self) -> (r: Vec<u8>)
        ensures
            r@ == render_genesis(*self),
    {
        proof {
            reveal_strlit("{\"parachainInfo\":{\"parachainId\":");
            reveal_strlit("},\"collatorSelection\":{\"invulnerables\":[");
            reveal_strlit("],\"candidacyBond\":");
            reveal_strlit("},\"session\":{\"keys\":[");
            reveal_strlit("]},\"polkadotXcm\":{\"safeXcmVersion\":");
            reveal_strlit("},\"sudo\":{\"key\":");
            reveal_strlit("}}");
            assert("{\"parachainInfo\":{\"parachainId\":".is_ascii());
            assert("},\"collatorSelection\":{\"invulnerables\":[".is_ascii());
            assert("],\"candidacyBond\":".is_ascii());
            assert("},\"session\":{\"keys\":[".is_ascii());
            assert("]},\"polkadotXcm\":{\"safeXcmVersion\":".is_ascii());
            assert("},\"sudo\":{\"key\":".is_ascii());
            assert("}}".is_ascii());
        }
        let mut out: Vec<u8> = Vec::new();
        push_ascii_str(&mut out, "{\"parachainInfo\":{\"parachainId\":");
        push_dec(&mut out, self.para_id as u128);
        push_ascii_str(&mut out, "},\"collatorSelection\":{\"invulnerables\":[");
        let n = self.invulnerables.len();
        let mut i: usize = 0;
        let ghost pre = out@;
        while i < n
            invariant
                n == self.invulnerables@.len(),
                i <= n,
                out@ == pre + render_account_list(self.invulnerables@.take(i as int)),
            decreases n - i,
        {
            if i > 0 {
                out.push(44);
            }
            push_quoted_hex(&mut out, self.invulnerables[i].0.as_slice());
            proof {
                let s = self.invulnerables@;
                assert(s.take(i + 1).drop_last() =~= s.take(i as int));
                assert(s.take(i + 1).last() == s[i as int]);
                assert(out@ =~= pre + render_account_list(s.take(i + 1)));
            }
            i = i + 1;
        }
        proof {
            assert(self.invulnerables@.take(n as int) =~= self.invulnerables@);
        }
        push_ascii_str(&mut out, "],\"candidacyBond\":");
        push_dec(&mut out, self.candidacy_bond);
        push_ascii_str(&mut out, "},\"session\":{\"keys\":[");
        let m = self.session_keys.len();
        let mut j: usize = 0;
        let ghost pre2 = out@;
        while j < m
            invariant
                m == self.session_keys@.len(),
                j <= m,
                out@ == pre2 + render_entry_list(self.session_keys@.take(j as int)),
            decreases m - j,
        {
            if j > 0 {
                out.push(44);
            }
            push_session_entry(&mut out, &self.session_keys[j]);
            proof {
                let s = self.session_keys@;
                assert(s.take(j + 1).drop_last() =~= s.take(j as int));
                assert(s.take(j + 1).last() == s[j as int]);
                assert(out@ =~= pre2 + render_entry_list(s.take(j + 1)));
            }
            j = j + 1;
        }
        proof {
            assert(self.session_keys@.take(m as int) =~= self.session_keys@);
        }
        push_ascii_str(&mut out, "]},\"polkadotXcm\":{\"safeXcmVersion\":");
        push_dec(&mut out, self.safe_xcm_version as u128);
        push_ascii_str(&mut out, "},\"sudo\":{\"key\":");
        push_quoted_hex(&mut out, self.sudo_key.0.as_slice());
        push_ascii_str(&mut out, "}}");
        proof {
            assert(out@ =~= render_genesis(*self));
        }
        out
    }
}

/// Index-level consequences of the genesis rendering for its leading
/// `parachainInfo` section: the parachain-id digits start at a fixed offset
/// and are closed by a brace.
proof fn genesis_render_para_id_facts(g: GenesisState)
    ensures
        render_genesis(g).len() > 32 + dec(g.para_id as nat).len(),
        forall|k: int|
            0 <= k < dec(g.para_id as nat).len() ==> #[trigger] render_genesis(g)[32 + k] == dec(
                g.para_id as nat,
            )[k] && crate::json::is_digit(dec(g.para_id as nat)[k]),
        render_genesis(g)[32 + dec(g.para_id as nat).len() as int] == 125,
{
    reveal_strlit("{\"parachainInfo\":{\"parachainId\":");
    reveal_strlit("},\"collatorSelection\":{\"invulnerables\":[");
    crate::json::lemma_dec_props(g.para_id as nat);
    let s = render_genesis(g);
    let d = dec(g.para_id as nat);
    assert(s[32 + d.len() as int] == ascii_seq("},\"collatorSelection\":{\"invulnerables\":["@)[0]);
}

/// Round trip of the leading section: two genesis documents that render to
/// the same bytes record the same parachain id, so a parsed-back document
/// cannot disagree with the built one on `parachainInfo`.
pub proof fn lemma_genesis_document_para_id(g1: GenesisState, g2: GenesisState)
    requires
        render_genesis(g1) == render_genesis(g2),
    ensures
        g1.para_id == g2.para_id,
{
    genesis_render_para_id_facts(g1);
    genesis_render_para_id_facts(g2);
    crate::json::lemma_dec_props(g1.para_id as nat);
    crate::json::lemma_dec_props(g2.para_id as nat);
    let s = render_genesis(g1);
    let d1 = dec(g1.para_id as nat);
    let d2 = dec(g2.para_id as nat);
    if d1.len() < d2.len() {
        assert(s[32 + d1.len() as int] == 125);
        assert(crate::json::is_digit(d2[d1.len() as int]));
        assert(s[32 + d1.len() as int] == d2[d1.len() as int]);
    } else if d2.len() < d1.len() {
        assert(s[32 + d2.len() as int] == 125);
        assert(crate::json::is_digit(d1[d2.len() as int]));
        assert(s[32 + d2.len() as int] == d1[d2.len() as int]);
    }
    assert(d1.len() == d2.len());
    assert forall|k: int| 0 <= k < d1.len() implies d1[k] == d2[k] by {
        assert(s[32 + k] == d1[k] && s[32 + k] == d2[k]);
    }
    assert(d1 =~= d2);
    crate::json::lemma_val_dec(g1.para_id as nat);
    crate::json::lemma_val_dec(g2.para_id as nat);
}

/// The rendered invulnerable-account list has a length determined by its
/// entry count and holds no bracket byte.
proof fn lemma_account_list_props(accounts: Seq<AccountId>)
    ensures
        accounts.len() == 0 ==> render_account_list(accounts).len() == 0,
        accounts.len() > 0 ==> render_account_list(accounts).len() == 69 * accounts.len() - 1,
        forall|i: int|
            0 <= i < render_account_list(accounts).len() ==> #[trigger] render_account_list(
                accounts,
            )[i] != 93,
    decreases accounts.len(),
{
    if accounts.len() > 0 {
        crate::json::lemma_hex_bytes_len(accounts.last()@);
        crate::json::lemma_quoted_hex_range(accounts.last()@);
        if accounts.len() > 1 {
            lemma_account_list_props(accounts.drop_last());
        }
    }
}

/// Two invulnerable-account lists that render identically hold the same
/// accounts.
proof fn lemma_account_list_injective(a1: Seq<AccountId>, a2: Seq<AccountId>)
    requires
        render_account_list(a1) == render_account_list(a2),
    ensures
        a1.len() == a2.len(),
        forall|i: int| 0 <= i < a1.len() ==> (#[trigger] a1[i])@ == a2[i]@,
    decreases a1.len(),
{
    lemma_account_list_props(a1);
    lemma_account_list_props(a2);
    let al = render_account_list(a1);
    if a1.len() == 0 || a2.len() == 0 {
        assert(a1.len() == a2.len());
    } else {
        assert(69 * a1.len() - 1 == 69 * a2.len() - 1);
        assert(a1.len() == a2.len()) by (nonlinear_arith)
            requires
                69 * a1.len() - 1 == 69 * a2.len() - 1,
        ;
        crate::json::lemma_hex_bytes_len(a1.last()@);
        crate::json::lemma_hex_bytes_len(a2.last()@);
        let start = al.len() - 68;
        assert forall|k: int|
            0 <= k < 64 implies #[trigger] hex_bytes(a1.last()@)[k] == hex_bytes(
            a2.last()@,
        )[k] by {
            assert(al[start + 3 + k] == hex_bytes(a1.last()@)[k]);
            assert(al[start + 3 + k] == hex_bytes(a2.last()@)[k]);
        }
        assert(hex_bytes(a1.last()@) =~= hex_bytes(a2.last()@));
        crate::json::lemma_hex_bytes_injective(a1.last()@, a2.last()@);
        if a1.len() > 1 {
            let p1 = render_account_list(a1.drop_last());
            let p2 = render_account_list(a2.drop_last());
            lemma_account_list_props(a1.drop_last());
            lemma_account_list_props(a2.drop_last());
            assert forall|k: int| 0 <= k < p1.len() implies p1[k] == p2[k] by {
                assert(al[k] == p1[k] && al[k] == p2[k]);
            }
            assert(p1 =~= p2);
            lemma_account_list_injective(a1.drop_last(), a2.drop_last());
        }
        assert forall|i: int| 0 <= i < a1.len() implies (#[trigger] a1[i])@ == a2[i]@ by {
            if i < a1.len() - 1 {
                assert(a1.drop_last()[i] == a1[i] && a2.drop_last()[i] == a2[i]);
            }
        }
    }
}

/// The rendering of a session-key entry has a fixed length, ends in a
/// bracket, and holds no other bracket byte.
proof fn lemma_entry_chars(e: SessionKeyEntry)
    ensures
        render_session_entry(e).len() == 217,
        forall|i: int| 0 <= i < 216 ==> #[trigger] render_session_entry(e)[i] != 93,
        render_session_entry(e)[216] == 93,
{
    reveal_strlit("{\"aura\":");
    crate::json::lemma_hex_bytes_len(e.account@);
    crate::json::lemma_hex_bytes_len(e.validator@);
    crate::json::lemma_hex_bytes_len(e.keys.aura@);
    crate::json::lemma_quoted_hex_range(e.account@);
    crate::json::lemma_quoted_hex_range(e.validator@);
    crate::json::lemma_quoted_hex_range(e.keys.aura@);
    let r = render_session_entry(e);
    assert forall|i: int| 0 <= i < 216 implies #[trigger] r[i] != 93 by {
        if 1 <= i < 69 {
            assert(r[i] == quoted_hex(e.account@)[i - 1]);
        } else if 70 <= i < 138 {
            assert(r[i] == quoted_hex(e.validator@)[i - 70]);
        } else if 139 <= i < 147 {
            assert(r[i] == ascii_seq("{\"aura\":"@)[i - 139]);
        } else if 147 <= i < 215 {
            assert(r[i] == quoted_hex(e.keys.aura@)[i - 147]);
        }
    }
}

/// Two session-key entries that render identically hold the same account,
/// validator and session keys.
proof fn lemma_entry_fields(x: SessionKeyEntry, y: SessionKeyEntry)
    requires
        render_session_entry(x) == render_session_entry(y),
    ensures
        x.account@ == y.account@,
        x.validator@ == y.validator@,
        x.keys.aura@ == y.keys.aura@,
{
    reveal_strlit("{\"aura\":");
    crate::json::lemma_hex_bytes_len(x.account@);
    crate::json::lemma_hex_bytes_len(x.validator@);
    crate::json::lemma_hex_bytes_len(x.keys.aura@);
    crate::json::lemma_hex_bytes_len(y.account@);
    crate::json::lemma_hex_bytes_len(y.validator@);
    crate::json::lemma_hex_bytes_len(y.keys.aura@);
    let rx = render_session_entry(x);
    let ry = render_session_entry(y);
    assert forall|k: int|
        0 <= k < 64 implies #[trigger] hex_bytes(x.account@)[k] == hex_bytes(y.account@)[k] by {
        assert(rx[4 + k] == hex_bytes(x.account@)[k] && ry[4 + k] == hex_bytes(y.account@)[k]);
    }
    assert forall|k: int|
        0 <= k < 64 implies #[trigger] hex_bytes(x.validator@)[k] == hex_bytes(
        y.validator@,
    )[k] by {
        assert(rx[73 + k] == hex_bytes(x.validator@)[k] && ry[73 + k] == hex_bytes(
            y.validator@,
        )[k]);
    }
    assert forall|k: int|
        0 <= k < 64 implies #[trigger] hex_bytes(x.keys.aura@)[k] == hex_bytes(
        y.keys.aura@,
    )[k] by {
        assert(rx[150 + k] == hex_bytes(x.keys.aura@)[k] && ry[150 + k] == hex_bytes(
            y.keys.aura@,
        )[k]);
    }
    assert(hex_bytes(x.account@) =~= hex_bytes(y.account@));
    assert(hex_bytes(x.validator@) =~= hex_bytes(y.validator@));
    assert(hex_bytes(x.keys.aura@) =~= hex_bytes(y.keys.aura@));
    crate::json::lemma_hex_bytes_injective(x.account@, y.account@);
    crate::json::lemma_hex_bytes_injective(x.validator@, y.validator@);
    crate::json::lemma_hex_bytes_injective(x.keys.aura@, y.keys.aura@);
}

/// The rendered session-key list has a length determined by its entry count,
/// and a bracket byte directly followed by a closing brace never occurs
/// inside it.
proof fn lemma_entry_list_props(entries: Seq<SessionKeyEntry>)
    ensures
        entries.len() == 0 ==> render_entry_list(entries).len() == 0,
        entries.len() > 0 ==> render_entry_list(entries).len() == 218 * entries.len() - 1,
        entries.len() > 0 ==> render_entry_list(entries).last() == 93,
        forall|i: int|
            0 <= i < render_entry_list(entries).len() - 1 ==> !(#[trigger] render_entry_list(
                entries,
            )[i] == 93 && render_entry_list(entries)[i + 1] == 125),
    decreases entries.len(),
{
    let el = render_entry_list(entries);
    if entries.len() == 0 {
    } else if entries.len() == 1 {
        lemma_entry_chars(entries[0]);
    } else {
        lemma_entry_list_props(entries.drop_last());
        lemma_entry_chars(entries.last());
        let prev = render_entry_list(entries.drop_last());
        assert forall|i: int| 0 <= i < el.len() - 1 implies !(#[trigger] el[i] == 93 && el[i + 1]
            == 125) by {
            if i + 1 < prev.len() {
                assert(el[i] == prev[i] && el[i + 1] == prev[i + 1]);
            } else if i + 1 == prev.len() {
                assert(el[i + 1] == 44);
            } else if i == prev.len() {
                assert(el[i] == 44);
            } else {
                let off = i - prev.len() - 1;
                assert(el[i] == render_session_entry(entries.last())[off]);
                if off < 216 {
                    assert(el[i] != 93);
                }
            }
        }
    }
}

/// Two session-key lists that render identically hold the same entries.
proof fn lemma_entry_list_injective(e1: Seq<SessionKeyEntry>, e2: Seq<SessionKeyEntry>)
    requires
        render_entry_list(e1) == render_entry_list(e2),
    ensures
        e1.len() == e2.len(),
        forall|i: int|
            0 <= i < e1.len() ==> (#[trigger] e1[i]).account@ == e2[i].account@
                && e1[i].validator@ == e2[i].validator@ && e1[i].keys.aura@ == e2[i].keys.aura@,
    decreases e1.len(),
{
    lemma_entry_list_props(e1);
    lemma_entry_list_props(e2);
    let el = render_entry_list(e1);
    if e1.len() == 0 || e2.len() == 0 {
        assert(e1.len() == e2.len());
    } else {
        assert(218 * e1.len() - 1 == 218 * e2.len() - 1);
        assert(e1.len() == e2.len()) by (nonlinear_arith)
            requires
                218 * e1.len() - 1 == 218 * e2.len() - 1,
        ;
        lemma_entry_chars(e1.last());
        lemma_entry_chars(e2.last());
        if e1.len() == 1 {
            lemma_entry_fields(e1[0], e2[0]);
        } else {
            let p1 = render_entry_list(e1.drop_last());
            let p2 = render_entry_list(e2.drop_last());
            lemma_entry_list_props(e1.drop_last());
            lemma_entry_list_props(e2.drop_last());
            assert(p1.len() == p2.len());
            assert forall|k: int| 0 <= k < p1.len() implies p1[k] == p2[k] by {
                assert(el[k] == p1[k] && el[k] == p2[k]);
            }
            assert(p1 =~= p2);
            lemma_entry_list_injective(e1.drop_last(), e2.drop_last());
            assert forall|k: int|
                0 <= k < 217 implies render_session_entry(e1.last())[k] == render_session_entry(
                e2.last(),
            )[k] by {
                assert(el[p1.len() + 1 + k] == render_session_entry(e1.last())[k]);
                assert(el[p1.len() + 1 + k] == render_session_entry(e2.last())[k]);
            }
            assert(render_session_entry(e1.last()) =~= render_session_entry(e2.last()));
            lemma_entry_fields(e1.last(), e2.last());
            assert forall|i: int|
                0 <= i < e1.len() implies (#[trigger] e1[i]).account@ == e2[i].account@
                && e1[i].validator@ == e2[i].validator@ && e1[i].keys.aura@
                == e2[i].keys.aura@ by {
                if i < e1.len() - 1 {
                    assert(e1.drop_last()[i] == e1[i] && e2.drop_last()[i] == e2[i]);
                }
            }
        }
    }
}

/// Index-level layout of the genesis rendering: where each variable region
/// sits and which delimiter byte closes it.
#[verifier::rlimit(100)]
proof fn genesis_render_layout(g: GenesisState)
    ensures
        ({
            let s = render_genesis(g);
            let dp = dec(g.para_id as nat).len() as int;
            let al = render_account_list(g.invulnerables@).len() as int;
            let db = dec(g.candidacy_bond as nat).len() as int;
            let el = render_entry_list(g.session_keys@).len() as int;
            let dx = dec(g.safe_xcm_version as nat).len() as int;
            &&& s.len() == 232 + dp + al + db + el + dx
            &&& forall|k: int|
                0 <= k < al ==> #[trigger] s[72 + dp + k] == render_account_list(
                    g.invulnerables@,
                )[k]
            &&& s[72 + dp + al] == 93
            &&& forall|k: int|
                0 <= k < db ==> #[trigger] s[90 + dp + al + k] == dec(g.candidacy_bond as nat)[k]
            &&& s[90 + dp + al + db] == 125
            &&& forall|k: int|
                0 <= k < el ==> #[trigger] s[111 + dp + al + db + k] == render_entry_list(
                    g.session_keys@,
                )[k]
            &&& s[111 + dp + al + db + el] == 93
            &&& s[112 + dp + al + db + el] == 125
            &&& forall|k: int|
                0 <= k < dx ==> #[trigger] s[146 + dp + al + db + el + k] == dec(
                    g.safe_xcm_version as nat,
                )[k]
            &&& s[146 + dp + al + db + el + dx] == 125
        }),
{
    reveal_strlit("{\"parachainInfo\":{\"parachainId\":");
    reveal_strlit("},\"collatorSelection\":{\"invulnerables\":[");
    reveal_strlit("],\"candidacyBond\":");
    reveal_strlit("},\"session\":{\"keys\":[");
    reveal_strlit("]},\"polkadotXcm\":{\"safeXcmVersion\":");
    reveal_strlit("},\"sudo\":{\"key\":");
    reveal_strlit("}}");
    crate::json::lemma_hex_bytes_len(g.sudo_key@);
    assert(("{\"parachainInfo\":{\"parachainId\":"@).len() == 32);
    assert(("},\"collatorSelection\":{\"invulnerables\":["@).len() == 40);
    assert(("],\"candidacyBond\":"@).len() == 18);
    assert(("},\"session\":{\"keys\":["@).len() == 21);
    assert(("]},\"polkadotXcm\":{\"safeXcmVersion\":"@).len() == 35);
    assert(("},\"sudo\":{\"key\":"@).len() == 16);
    assert(quoted_hex(g.sudo_key@).len() == 68);
}

/// Round trip of the genesis document: the rendering is injective, so a
/// parsed-back document cannot disagree with the built one on any of its
/// sections.
#[verifier::rlimit(100)]
pub proof fn lemma_genesis_document_injective(g1: GenesisState, g2: GenesisState)
    requires
        render_genesis(g1) == render_genesis(g2),
    ensures
        g1.para_id == g2.para_id,
        g1.candidacy_bond == g2.candidacy_bond,
        g1.safe_xcm_version == g2.safe_xcm_version,
        g1.sudo_key@ == g2.sudo_key@,
        g1.invulnerables@.len() == g2.invulnerables@.len(),
        forall|i: int| 0 <= i < g1.invulnerables@.len() ==> (#[trigger] g1.invulnerables@[i])@
            == g2.invulnerables@[i]@,
        g1.session_keys@.len() == g2.session_keys@.len(),
        forall|i: int|
            0 <= i < g1.session_keys@.len() ==> (#[trigger] g1.session_keys@[i]).account@
                == g2.session_keys@[i].account@ && g1.session_keys@[i].validator@
                == g2.session_keys@[i].validator@ && g1.session_keys@[i].keys.aura@
                == g2.session_keys@[i].keys.aura@,
{
    lemma_genesis_document_para_id(g1, g2);
    lemma_genesis_document_sudo(g1, g2);
    genesis_render_layout(g1);
    genesis_render_layout(g2);
    let s = render_genesis(g1);
    let dp = dec(g1.para_id as nat).len() as int;
    assert(dec(g2.para_id as nat) == dec(g1.para_id as nat));
    let ral1 = render_account_list(g1.invulnerables@);
    let ral2 = render_account_list(g2.invulnerables@);
    lemma_account_list_props(g1.invulnerables@);
    lemma_account_list_props(g2.invulnerables@);
    if ral1.len() < ral2.len() {
        assert(s[72 + dp + ral1.len() as int] == 93);
        assert(s[72 + dp + ral1.len() as int] == ral2[ral1.len() as int]);
    } else if ral2.len() < ral1.len() {
        assert(s[72 + dp + ral2.len() as int] == 93);
        assert(s[72 + dp + ral2.len() as int] == ral1[ral2.len() as int]);
    }
    assert(ral1.len() == ral2.len());
    let al = ral1.len() as int;
    assert forall|k: int| 0 <= k < al implies ral1[k] == ral2[k] by {
        assert(s[72 + dp + k] == ral1[k] && s[72 + dp + k] == ral2[k]);
    }
    assert(ral1 =~= ral2);
    lemma_account_list_injective(g1.invulnerables@, g2.invulnerables@);
    let db1 = dec(g1.candidacy_bond as nat);
    let db2 = dec(g2.candidacy_bond as nat);
    crate::json::lemma_dec_props(g1.candidacy_bond as nat);
    crate::json::lemma_dec_props(g2.candidacy_bond as nat);
    if db1.len() < db2.len() {
        assert(s[90 + dp + al + db1.len() as int] == 125);
        assert(s[90 + dp + al + db1.len() as int] == db2[db1.len() as int]);
        assert(crate::json::is_digit(db2[db1.len() as int]));
    } else if db2.len() < db1.len() {
        assert(s[90 + dp + al + db2.len() as int] == 125);
        assert(s[90 + dp + al + db2.len() as int] == db1[db2.len() as int]);
        assert(crate::json::is_digit(db1[db2.len() as int]));
    }
    assert(db1.len() == db2.len());
    let db = db1.len() as int;
    assert forall|k: int| 0 <= k < db implies db1[k] == db2[k] by {
        assert(s[90 + dp + al + k] == db1[k] && s[90 + dp + al + k] == db2[k]);
    }
    assert(db1 =~= db2);
    crate::json::lemma_val_dec(g1.candidacy_bond as nat);
    crate::json::lemma_val_dec(g2.candidacy_bond as nat);
    let rel1 = render_entry_list(g1.session_keys@);
    let rel2 = render_entry_list(g2.session_keys@);
    lemma_entry_list_props(g1.session_keys@);
    lemma_entry_list_props(g2.session_keys@);
    if rel1.len() < rel2.len() {
        let kk = 111 + dp + al + db + rel1.len() as int;
        assert(s[kk] == 93 && s[kk + 1] == 125);
        let j = rel1.len() as int;
        if j + 1 < rel2.len() {
            assert(s[kk] == rel2[j] && s[kk + 1] == rel2[j + 1]);
        } else {
            assert(s[kk + 1] == rel2[j + 1]);
            assert(rel2[j + 1] == rel2.last());
            assert(rel2.last() == 93);
        }
    } else if rel2.len() < rel1.len() {
        let kk = 111 + dp + al + db + rel2.len() as int;
        assert(s[kk] == 93 && s[kk + 1] == 125);
        let j = rel2.len() as int;
        if j + 1 < rel1.len() {
            assert(s[kk] == rel1[j] && s[kk + 1] == rel1[j + 1]);
        } else {
            assert(s[kk + 1] == rel1[j + 1]);
            assert(rel1[j + 1] == rel1.last());
            assert(rel1.last() == 93);
        }
    }
    assert(rel1.len() == rel2.len());
    let el = rel1.len() as int;
    assert forall|k: int| 0 <= k < el implies rel1[k] == rel2[k] by {
        assert(s[111 + dp + al + db + k] == rel1[k] && s[111 + dp + al + db + k] == rel2[k]);
    }
    assert(rel1 =~= rel2);
    lemma_entry_list_injective(g1.session_keys@, g2.session_keys@);
    let dx1 = dec(g1.safe_xcm_version as nat);
    let dx2 = dec(g2.safe_xcm_version as nat);
    crate::json::lemma_dec_props(g1.safe_xcm_version as nat);
    crate::json::lemma_dec_props(g2.safe_xcm_version as nat);
    if dx1.len() < dx2.len() {
        assert(s[146 + dp + al + db + el + dx1.len() as int] == 125);
        assert(s[146 + dp + al + db + el + dx1.len() as int] == dx2[dx1.len() as int]);
        assert(crate::json::is_digit(dx2[dx1.len() as int]));
    } else if dx2.len() < dx1.len() {
        assert(s[146 + dp + al + db + el + dx2.len() as int] == 125);
        assert(s[146 + dp + al + db + el + dx2.len() as int] == dx1[dx2.len() as int]);
        assert(crate::json::is_digit(dx1[dx2.len() as int]));
    }
    assert(dx1.len() == dx2.len());
    let dx = dx1.len() as int;
    assert forall|k: int| 0 <= k < dx implies dx1[k] == dx2[k] by {
        assert(s[146 + dp + al + db + el + k] == dx1[k] && s[146 + dp + al + db + el + k]
            == dx2[k]);
    }
    assert(dx1 =~= dx2);
    crate::json::lemma_val_dec(g1.safe_xcm_version as nat);
    crate::json::lemma_val_dec(g2.safe_xcm_version as nat);
}

/// Index-level consequences of the genesis rendering for its trailing `sudo`
/// section: the hex digits of the sudo key sit at a fixed offset from the
/// end of the document.
proof fn genesis_render_sudo_facts(g: GenesisState)
    ensures
        render_genesis(g).len() >= 70,
        forall|k: int|
            0 <= k < 64 ==> #[trigger] render_genesis(g)[render_genesis(g).len() - 67 + k]
                == hex_bytes(g.sudo_key@)[k],
{
    reveal_strlit("}}");
    crate::json::lemma_hex_bytes_len(g.sudo_key@);
    let s = render_genesis(g);
    assert(quoted_hex(g.sudo_key@).len() == 68);
    assert forall|k: int|
        0 <= k < 64 implies #[trigger] s[s.len() - 67 + k] == hex_bytes(g.sudo_key@)[k] by {
        assert(quoted_hex(g.sudo_key@)[3 + k] == hex_bytes(g.sudo_key@)[k]);
    }
}

/// Round trip of the trailing section: two genesis documents that render to
/// the same bytes record the same sudo key, so a parsed-back document cannot
/// disagree with the built one on `sudo`.
pub proof fn lemma_genesis_document_sudo(g1: GenesisState, g2: GenesisState)
    requires
        render_genesis(g1) == render_genesis(g2),
    ensures
        g1.sudo_key@ == g2.sudo_key@,
{
    genesis_render_sudo_facts(g1);
    genesis_render_sudo_facts(g2);
    crate::json::lemma_hex_bytes_len(g1.sudo_key@);
    crate::json::lemma_hex_bytes_len(g2.sudo_key@);
    let s = render_genesis(g1);
    assert forall|k: int|
        0 <= k < 64 implies hex_bytes(g1.sudo_key@)[k] == hex_bytes(g2.sudo_key@)[k] by {
        assert(hex_bytes(g1.sudo_key@)[k] == s[s.len() - 67 + k]);
        assert(hex_bytes(g2.sudo_key@)[k] == s[s.len() - 67 + k]);
    }
    assert(hex_bytes(g1.sudo_key@) =~= hex_bytes(g2.sudo_key@));
    crate::json::lemma_hex_bytes_injective(g1.sudo_key@, g2.sudo_key@);
}

/// In a well-formed genesis document built for a distinct invulnerable list,
/// the lengths of the three collator-related lists agree with the input.
pub proof fn lemma_genesis_cardinality(
    g: GenesisState,
    invulnerables: Seq<(AccountId, CollatorKey)>,
    root: AccountId,
    id: u32,
)
    requires
        is_genesis_for(g, invulnerables, root, id),
    ensures
        g.session_keys@.len() == g.invulnerables@.len(),
        g.invulnerables@.len() == invulnerables.len(),
{
}

} // verus!
