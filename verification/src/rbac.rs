//! RBAC tokens: bearer strings mapped to per-category permission levels
//! (0 deny, 1 read, 2 write) with an expiry stamp. The store keeps one
//! record per token string; creating a token that already exists replaces
//! its permissions and expiry, and an expired token grants nothing.

use vstd::prelude::*;
use crate::json::find_object_field;
use crate::text::chars_eq;
use crate::text::chars_vec;
use crate::text::clone_chars;
use crate::text::dec_chars;
use crate::text::parse_u64_range;
use crate::text::push_dec_u64;
use crate::text::push_str_chars;
use crate::json::esc_str;
use crate::json::push_escaped;

verus! {

/// Permission levels asked of a new or updated token; absent categories
/// stay at 0.
pub struct RbacPermissions {
    pub system: u8,
    pub space: u8,
    pub version: u8,
    pub vector: u8,
    pub search: u8,
    pub snapshot: u8,
    pub security: u8,
    pub keyvalue: u8,
}

#[verifier::ext_equal]
pub struct RbacPermissionsView {
    pub system: u8,
    pub space: u8,
    pub version: u8,
    pub vector: u8,
    pub search: u8,
    pub snapshot: u8,
    pub security: u8,
    pub keyvalue: u8,
}

impl View for RbacPermissions {
    type V = RbacPermissionsView;

    open spec fn view(&self) -> RbacPermissionsView {
        RbacPermissionsView {
            system: self.system,
            space: self.space,
            version: self.version,
            vector: self.vector,
            search: self.search,
            snapshot: self.snapshot,
            security: self.security,
            keyvalue: self.keyvalue,
        }
    }
}

/// A field-for-field copy of a permission set.
pub fn copy_perms(p: &RbacPermissions) -> (r: RbacPermissions)
    ensures
        r@ == p@,
{
    RbacPermissions {
        system: p.system,
        space: p.space,
        version: p.version,
        vector: p.vector,
        search: p.search,
        snapshot: p.snapshot,
        security: p.security,
        keyvalue: p.keyvalue,
    }
}

/// What one permission field reads as: its numeric value clamped to 2,
/// the highest level there is; 0 when absent or not a plain number.
pub open spec fn spec_perm_field(v: Seq<char>, key: Seq<char>) -> u8 {
    match crate::json::find_field_spec(v, key) {
        None => 0,
        Some((s, e)) => match crate::json::num_extent(v, s, e) {
            None => 0,
            Some(n) => if n > 2 {
                2
            } else {
                n as u8
            },
        },
    }
}

/// What a permissions payload reads as, category by category.
pub open spec fn spec_parse_perms(v: Seq<char>) -> RbacPermissionsView {
    RbacPermissionsView {
        system: spec_perm_field(v, "system"@),
        space: spec_perm_field(v, "space"@),
        version: spec_perm_field(v, "version"@),
        vector: spec_perm_field(v, "vector"@),
        search: spec_perm_field(v, "search"@),
        snapshot: spec_perm_field(v, "snapshot"@),
        security: spec_perm_field(v, "security"@),
        keyvalue: spec_perm_field(v, "keyvalue"@),
    }
}

/// Every level within the 0-2 range.
pub open spec fn perms_wf(p: RbacPermissionsView) -> bool {
    p.system <= 2 && p.space <= 2 && p.version <= 2 && p.vector <= 2 && p.search <= 2 && p.snapshot
        <= 2 && p.security <= 2 && p.keyvalue <= 2
}

/// Reads one permission field; values above 2 are clamped to 2, the
/// highest level there is.
fn parse_perm(v: &Vec<char>, key: &str) -> (r: u8)
    ensures
        r == spec_perm_field(v@, key@),
        r <= 2,
{
    let kv = chars_vec(key);
    match find_object_field(v, &kv) {
        Some((s, e)) => match parse_u64_range(v, s, e) {
            Some(n) => if n > 2 {
                2
            } else {
                n as u8
            },
            None => 0,
        },
        None => 0,
    }
}

/// Reads a permissions payload such as `{"space":2,"vector":2}`.
pub fn parse_rbac_permissions(v: &Vec<char>) -> (r: RbacPermissions)
    ensures
        r@ == spec_parse_perms(v@),
        perms_wf(r@),
{
    proof {
        assert(spec_parse_perms(v@) =~~= spec_parse_perms(v@));
    }
    RbacPermissions {
        system: parse_perm(v, "system"),
        space: parse_perm(v, "space"),
        version: parse_perm(v, "version"),
        vector: parse_perm(v, "vector"),
        search: parse_perm(v, "search"),
        snapshot: parse_perm(v, "snapshot"),
        security: parse_perm(v, "security"),
        keyvalue: parse_perm(v, "keyvalue"),
    }
}

pub struct TokenRecord {
    pub id: u64,
    pub token: Vec<char>,
    pub expire_time_utc: u64,
    pub perms: RbacPermissions,
}

#[verifier::ext_equal]
pub struct TokenRecordView {
    pub id: u64,
    pub token: Seq<char>,
    pub expire_time_utc: u64,
    pub perms: RbacPermissionsView,
}

impl View for TokenRecord {
    type V = TokenRecordView;

    open spec fn view(&self) -> TokenRecordView {
        TokenRecordView {
            id: self.id,
            token: self.token@,
            expire_time_utc: self.expire_time_utc,
            perms: self.perms@,
        }
    }
}

/// Token strings are unique in the store, and every stored level is
/// within the 0-2 range.
pub open spec fn tokens_wf(toks: Seq<TokenRecordView>) -> bool {
    &&& forall|i: int, j: int|
        0 <= i < j < toks.len() ==> #[trigger] toks[i].token != #[trigger] toks[j].token
    &&& forall|i: int| 0 <= i < toks.len() ==> perms_wf((#[trigger] toks[i]).perms)
}

pub open spec fn has_token(toks: Seq<TokenRecordView>, t: Seq<char>) -> bool {
    exists|i: int| 0 <= i < toks.len() && (#[trigger] toks[i]).token == t
}

pub open spec fn token_idx(toks: Seq<TokenRecordView>, t: Seq<char>) -> int {
    choose|i: int| 0 <= i < toks.len() && (#[trigger] toks[i]).token == t
}

proof fn lemma_token_idx_is(toks: Seq<TokenRecordView>, t: Seq<char>, i: int)
    requires
        tokens_wf(toks),
        0 <= i < toks.len(),
        toks[i].token == t,
    ensures
        has_token(toks, t),
        token_idx(toks, t) == i,
{
    let j = token_idx(toks, t);
    assert(0 <= j < toks.len() && toks[j].token == t);
    if i < j {
        assert(toks[i].token != toks[j].token);
    } else if j < i {
        assert(toks[j].token != toks[i].token);
    }
}

/// Every level denied.
pub open spec fn deny_all() -> RbacPermissionsView {
    RbacPermissionsView {
        system: 0,
        space: 0,
        version: 0,
        vector: 0,
        search: 0,
        snapshot: 0,
        security: 0,
        keyvalue: 0,
    }
}

/// The permissions the store grants a bearer of `t` at time `now`: the
/// stored levels while the token lives, and all-deny for an unknown or
/// expired token.
pub open spec fn spec_perms_of(toks: Seq<TokenRecordView>, t: Seq<char>, now: u64) -> RbacPermissionsView {
    if has_token(toks, t) && now < toks[token_idx(toks, t)].expire_time_utc {
        toks[token_idx(toks, t)].perms
    } else {
        deny_all()
    }
}

/// A level clamped to the 0-2 range.
pub open spec fn clamp_level(x: u8) -> u8 {
    if x > 2 {
        2
    } else {
        x
    }
}

/// Every level clamped to the 0-2 range.
pub open spec fn clamp_perms_spec(p: RbacPermissionsView) -> RbacPermissionsView {
    RbacPermissionsView {
        system: clamp_level(p.system),
        space: clamp_level(p.space),
        version: clamp_level(p.version),
        vector: clamp_level(p.vector),
        search: clamp_level(p.search),
        snapshot: clamp_level(p.snapshot),
        security: clamp_level(p.security),
        keyvalue: clamp_level(p.keyvalue),
    }
}

/// What storing a token does: replace the permissions and expiry of the
/// record with that token string, or append a fresh record. Levels are
/// clamped into range on the way in.
pub open spec fn store_token_spec(
    toks: Seq<TokenRecordView>,
    t: Seq<char>,
    perms: RbacPermissionsView,
    expire_time_utc: u64,
    next_id: u64,
) -> Seq<TokenRecordView> {
    if has_token(toks, t) {
        let i = token_idx(toks, t);
        toks.update(
            i,
            TokenRecordView { perms: clamp_perms_spec(perms), expire_time_utc, ..toks[i] },
        )
    } else {
        toks.push(
            TokenRecordView {
                id: next_id,
                token: t,
                expire_time_utc,
                perms: clamp_perms_spec(perms),
            },
        )
    }
}

/// A field-for-field clamp of a permission set.
fn clamp_perms(p: &RbacPermissions) -> (r: RbacPermissions)
    ensures
        r@ == clamp_perms_spec(p@),
        perms_wf(r@),
{
    RbacPermissions {
        system: if p.system > 2 { 2 } else { p.system },
        space: if p.space > 2 { 2 } else { p.space },
        version: if p.version > 2 { 2 } else { p.version },
        vector: if p.vector > 2 { 2 } else { p.vector },
        search: if p.search > 2 { 2 } else { p.search },
        snapshot: if p.snapshot > 2 { 2 } else { p.snapshot },
        security: if p.security > 2 { 2 } else { p.security },
        keyvalue: if p.keyvalue > 2 { 2 } else { p.keyvalue },
    }
}

/// How the id counter moves when a token is stored: a replacement keeps
/// it, an appended record uses it up.
pub open spec fn next_id_after(toks: Seq<TokenRecordView>, t: Seq<char>, next_id: u64) -> u64 {
    if has_token(toks, t) {
        next_id
    } else if next_id < u64::MAX {
        (next_id + 1) as u64
    } else {
        next_id
    }
}

/// The token store.
pub struct RbacTokenServiceManagerWrapper {
    pub tokens: Vec<TokenRecord>,
    pub next_id: u64,
    pub mint_serial: u64,
}

impl RbacTokenServiceManagerWrapper {
    pub open spec fn view(&self) -> Seq<TokenRecordView> {
        self.tokens@.map_values(|t: TokenRecord| t@)
    }

    pub open spec fn wf(&self) -> bool {
        tokens_wf(self.view())
    }

    pub fn new() -> (r: RbacTokenServiceManagerWrapper)
        ensures
            r.view() =~= Seq::<TokenRecordView>::empty(),
            r.wf(),
    {
        RbacTokenServiceManagerWrapper { tokens: Vec::new(), next_id: 1, mint_serial: 0 }
    }

    /// Mints a fresh opaque bearer string. Cryptographic token signing
    /// belongs to the security backend outside this crate; within the
    /// replicated core only the string's identity matters, since the leader
    /// mints it once and every node stores the same string.
    pub fn generate_jwt_token(&mut self, _expire_days: i32) -> (r: Vec<char>)
        ensures
            final(self).view() == old(self).view(),
            r@ == "token-"@ + dec_chars(old(self).mint_serial as nat),
            final(self).mint_serial == if old(self).mint_serial < u64::MAX {
                (old(self).mint_serial + 1) as u64
            } else {
                0
            },
    {
        let mut out: Vec<char> = Vec::new();
        push_str_chars(&mut out, "token-");
        push_dec_u64(self.mint_serial, &mut out);
        if self.mint_serial < u64::MAX {
            self.mint_serial = self.mint_serial + 1;
        } else {
            self.mint_serial = 0;
        }
        out
    }

    /// Stores a token with these permissions and this expiry, replacing
    /// the permissions and expiry of an existing token of the same string.
    pub fn new_token(&mut self, perms: &RbacPermissions, token: &Vec<char>, expire_time_utc: u64)
        -> (r: Result<(), ()>)
        requires
            old(self).wf(),
        ensures
            final(self).wf(),
            final(self).view() == store_token_spec(
                old(self).view(),
                token@,
                perms@,
                expire_time_utc,
                old(self).next_id,
            ),
            final(self).next_id == next_id_after(old(self).view(), token@, old(self).next_id),
            final(self).mint_serial == old(self).mint_serial,
            r is Ok,
    {
        let stored = clamp_perms(perms);
        let ghost old_toks = self.view();
        let n: usize = self.tokens.len();
        let mut i: usize = 0;
        while i < n
            invariant
                self.wf(),
                old_toks == self.view(),
                old(self).view() == self.view(),
                old(self).next_id == self.next_id,
                old(self).mint_serial == self.mint_serial,
                stored@ == clamp_perms_spec(perms@),
                perms_wf(stored@),
                n == self.tokens@.len(),
                i <= n,
                forall|j: int| 0 <= j < i ==> (#[trigger] old_toks[j]).token != token@,
            decreases n - i,
        {
            if chars_eq(&self.tokens[i].token, token) {
                proof {
                    assert(old_toks[i as int] == self.tokens@[i as int]@);
                    lemma_token_idx_is(old_toks, token@, i as int);
                }
                let mut rec = self.tokens.remove(i);
                rec.perms = copy_perms(&stored);
                rec.expire_time_utc = expire_time_utc;
                self.tokens.insert(i, rec);
                proof {
                    assert(self.view() =~= old_toks.update(
                        i as int,
                        TokenRecordView {
                            perms: clamp_perms_spec(perms@),
                            expire_time_utc,
                            ..old_toks[i as int]
                        },
                    )) by {
                        crate::engine::lemma_remove_insert(old_toks, i as int, self.view()[i as int]);
                    }
                    assert(self.wf()) by {
                        assert(forall|j: int|
                            0 <= j < self.view().len() ==> (#[trigger] self.view()[j]).token
                                == old_toks[j].token);
                        assert(forall|j: int|
                            0 <= j < self.view().len() && j != i ==> (
                            #[trigger] self.view()[j]).perms == old_toks[j].perms);
                    }
                }
                return Ok(());
            }
            i += 1;
        }
        proof {
            if has_token(old_toks, token@) {
                let j = token_idx(old_toks, token@);
                assert(old_toks[j].token != token@);
            }
        }
        let rec = TokenRecord {
            id: self.next_id,
            token: clone_chars(token),
            expire_time_utc,
            perms: stored,
        };
        self.tokens.push(rec);
        if self.next_id < u64::MAX {
            self.next_id = self.next_id + 1;
        }
        proof {
            assert(self.view() =~= old_toks.push(
                TokenRecordView {
                    id: old(self).next_id,
                    token: token@,
                    expire_time_utc,
                    perms: clamp_perms_spec(perms@),
                },
            ));
            assert(self.wf()) by {
                assert(forall|j: int|
                    0 <= j < old_toks.len() ==> (#[trigger] self.view()[j]).token
                        == old_toks[j].token && (#[trigger] self.view()[j]).perms
                        == old_toks[j].perms);
            }
        }
        Ok(())
    }

    /// Updates the permissions and expiry of an existing token; unknown
    /// tokens are stored anew, so updating behaves as storing does.
    pub fn update_token(&mut self, token: &Vec<char>, perms: &RbacPermissions, expire_time_utc: u64)
        -> (r: Result<(), ()>)
        requires
            old(self).wf(),
        ensures
            final(self).wf(),
            final(self).view() == store_token_spec(
                old(self).view(),
                token@,
                perms@,
                expire_time_utc,
                old(self).next_id,
            ),
            r is Ok,
    {
        self.new_token(perms, token, expire_time_utc)
    }

    /// Removes a token; removing an unknown token does nothing.
    pub fn delete_token(&mut self, token: &Vec<char>) -> (r: Result<(), ()>)
        requires
            old(self).wf(),
        ensures
            final(self).wf(),
            final(self).view() == if has_token(old(self).view(), token@) {
                old(self).view().remove(token_idx(old(self).view(), token@))
            } else {
                old(self).view()
            },
            r is Ok,
    {
        let ghost old_toks = self.view();
        let n: usize = self.tokens.len();
        let mut i: usize = 0;
        while i < n
            invariant
                self.wf(),
                old_toks == self.view(),
                old(self).view() == self.view(),
                n == self.tokens@.len(),
                i <= n,
                forall|j: int| 0 <= j < i ==> (#[trigger] old_toks[j]).token != token@,
            decreases n - i,
        {
            if chars_eq(&self.tokens[i].token, token) {
                proof {
                    assert(old_toks[i as int] == self.tokens@[i as int]@);
                    lemma_token_idx_is(old_toks, token@, i as int);
                }
                let _ = self.tokens.remove(i);
                proof {
                    assert(self.view() =~= old_toks.remove(i as int));
                    assert(self.wf()) by {
                        assert(forall|j: int|
                            0 <= j < self.view().len() ==> (#[trigger] self.view()[j]).token
                                == old_toks[if j < i as int {
                                j
                            } else {
                                j + 1
                            }].token);
                    }
                }
                return Ok(());
            }
            i += 1;
        }
        proof {
            if has_token(old_toks, token@) {
                let j = token_idx(old_toks, token@);
                assert(old_toks[j].token != token@);
            }
        }
        Ok(())
    }

    /// The permission levels granted to a bearer of `token` at time
    /// `now_utc`: an expired token grants nothing.
    pub fn get_permissions(&self, token: &Vec<char>, now_utc: u64) -> (r: RbacPermissions)
        requires
            self.wf(),
        ensures
            r@ == spec_perms_of(self.view(), token@, now_utc),
    {
        let ghost toks = self.view();
        let n: usize = self.tokens.len();
        let mut i: usize = 0;
        while i < n
            invariant
                self.wf(),
                toks == self.view(),
                n == self.tokens@.len(),
                i <= n,
                forall|j: int| 0 <= j < i ==> (#[trigger] toks[j]).token != token@,
            decreases n - i,
        {
            if chars_eq(&self.tokens[i].token, token) {
                proof {
                    assert(toks[i as int] == self.tokens@[i as int]@);
                    lemma_token_idx_is(toks, token@, i as int);
                }
                if now_utc < self.tokens[i].expire_time_utc {
                    return copy_perms(&self.tokens[i].perms);
                } else {
                    return RbacPermissions {
                        system: 0,
                        space: 0,
                        version: 0,
                        vector: 0,
                        search: 0,
                        snapshot: 0,
                        security: 0,
                        keyvalue: 0,
                    };
                }
            }
            i += 1;
        }
        proof {
            if has_token(toks, token@) {
                let j = token_idx(toks, token@);
                assert(toks[j].token != token@);
            }
        }
        RbacPermissions {
            system: 0,
            space: 0,
            version: 0,
            vector: 0,
            search: 0,
            snapshot: 0,
            security: 0,
            keyvalue: 0,
        }
    }

    /// The stored tokens as JSON.
    pub fn list_tokens_json(&self) -> (r: Vec<char>)
        ensures
            r@ == json_of_token_list(self.view()),
    {
        let mut out: Vec<char> = Vec::new();
        push_str_chars(&mut out, "{\"tokens\":[");
        let n: usize = self.tokens.len();
        let mut i: usize = 0;
        while i < n
            invariant
                n == self.tokens@.len(),
                i <= n,
                out@ == "{\"tokens\":["@ + json_of_tokens(
                    self.view().subrange(0, i as int),
                ),
            decreases n - i,
        {
            if i > 0 {
                push_str_chars(&mut out, ",");
            }
            let mut piece = print_token(&self.tokens[i]);
            out.append(&mut piece);
            i += 1;
            proof {
                assert(self.view()[i - 1] == self.tokens@[i - 1]@);
                let pre = self.view().subrange(0, i - 1);
                let cur = self.view().subrange(0, i as int);
                assert(cur.drop_last() =~= pre);
                assert(cur.last() == self.view()[i - 1]);
                assert(out@ =~= "{\"tokens\":["@ + json_of_tokens(cur));
            }
        }
        push_str_chars(&mut out, "]}");
        proof {
            assert(self.view().subrange(0, n as int) =~= self.view());
            assert(out@ =~= json_of_token_list(self.view()));
        }
        out
    }
}

pub open spec fn json_of_token(t: TokenRecordView) -> Seq<char> {
    "{\"id\":"@ + dec_chars(t.id as nat) + ",\"token\":\""@ + esc_str(t.token)
        + "\",\"expire_time_utc\":"@ + dec_chars(t.expire_time_utc as nat) + ",\"system\":"@
        + dec_chars(t.perms.system as nat) + ",\"space\":"@ + dec_chars(t.perms.space as nat)
        + ",\"version\":"@ + dec_chars(t.perms.version as nat) + ",\"vector\":"@ + dec_chars(
        t.perms.vector as nat,
    ) + ",\"search\":"@ + dec_chars(t.perms.search as nat) + ",\"snapshot\":"@ + dec_chars(
        t.perms.snapshot as nat,
    ) + ",\"security\":"@ + dec_chars(t.perms.security as nat) + ",\"keyvalue\":"@ + dec_chars(
        t.perms.keyvalue as nat,
    ) + "}"@
}

pub open spec fn json_of_tokens(toks: Seq<TokenRecordView>) -> Seq<char>
    decreases toks.len(),
{
    if toks.len() == 0 {
        Seq::<char>::empty()
    } else if toks.len() == 1 {
        json_of_token(toks[0])
    } else {
        json_of_tokens(toks.drop_last()) + ","@ + json_of_token(toks.last())
    }
}

pub open spec fn json_of_token_list(toks: Seq<TokenRecordView>) -> Seq<char> {
    "{\"tokens\":["@ + json_of_tokens(toks) + "]}"@
}

fn print_token(t: &TokenRecord) -> (r: Vec<char>)
    ensures
        r@ == json_of_token(t@),
{
    let mut out: Vec<char> = Vec::new();
    push_str_chars(&mut out, "{\"id\":");
    push_dec_u64(t.id, &mut out);
    push_str_chars(&mut out, ",\"token\":\"");
    push_escaped(&t.token, &mut out);
    push_str_chars(&mut out, "\",\"expire_time_utc\":");
    push_dec_u64(t.expire_time_utc, &mut out);
    push_str_chars(&mut out, ",\"system\":");
    push_dec_u64(t.perms.system as u64, &mut out);
    push_str_chars(&mut out, ",\"space\":");
    push_dec_u64(t.perms.space as u64, &mut out);
    push_str_chars(&mut out, ",\"version\":");
    push_dec_u64(t.perms.version as u64, &mut out);
    push_str_chars(&mut out, ",\"vector\":");
    push_dec_u64(t.perms.vector as u64, &mut out);
    push_str_chars(&mut out, ",\"search\":");
    push_dec_u64(t.perms.search as u64, &mut out);
    push_str_chars(&mut out, ",\"snapshot\":");
    push_dec_u64(t.perms.snapshot as u64, &mut out);
    push_str_chars(&mut out, ",\"security\":");
    push_dec_u64(t.perms.security as u64, &mut out);
    push_str_chars(&mut out, ",\"keyvalue\":");
    push_dec_u64(t.perms.keyvalue as u64, &mut out);
    push_str_chars(&mut out, "}");
    proof {
        assert(out@ =~= json_of_token(t@));
    }
    out
}

} // verus!
