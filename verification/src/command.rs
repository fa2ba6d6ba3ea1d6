//! The command codec: every mutation travels through the log as a JSON
//! envelope `{"request":{"command":<tag>,...,"value":<payload>}}`. Commands
//! are typed here; encoding prints the canonical envelope text exactly as
//! the spec functions say, and decoding reads an envelope back into a
//! typed command, skipping anything it does not recognize.

use vstd::prelude::*;
use crate::json::esc_str;
use crate::json::find_object_field;
use crate::json::push_escaped;
use crate::json::string_field_content;
use crate::json::subrange_vec;
use crate::rbac::RbacPermissions;
use crate::rbac::RbacPermissionsView;
use crate::rbac::parse_rbac_permissions;
use crate::space::SpaceConfig;
use crate::space::SpaceConfigView;
use crate::space::parse_space_config;
use crate::text::chars_eq;
use crate::text::chars_vec;
use crate::text::dec_chars;
use crate::text::parse_u64_range;
use crate::text::push_chars;
use crate::text::push_dec_u64;
use crate::text::push_str_chars;
use crate::vector::VectorInsert;
use crate::vector::VectorInsertView;
use crate::vector::parse_vectors_payload;
use crate::version::VersionPayload;
use crate::version::VersionPayloadView;
use crate::version::parse_version_payload;

verus! {

/// A typed replicated command.
pub enum Command {
    Space { value: SpaceConfig },
    UpdateSpace { space_name: Vec<char>, value: SpaceConfig },
    DeleteSpace { space_name: Vec<char> },
    CreateVersion { space_name: Vec<char>, value: VersionPayload },
    Vector { space_name: Vec<char>, value: Vec<VectorInsert> },
    VectorWithVersion { space_name: Vec<char>, version_id: u64, value: Vec<VectorInsert> },
    CreateSnapshot,
    SnapshotRestore { file_name: Vec<char> },
    SnapshotDelete { file_name: Vec<char> },
    SnapshotSync { file_name: Vec<char>, leader_id: u64, leader_addr: Vec<char> },
    CreateRbacToken { token: Vec<char>, expire_time_utc: u64, value: RbacPermissions },
    StoragePutKey { space_name: Vec<char>, key: Vec<char>, value: Vec<char> },
    StorageRemoveKey { space_name: Vec<char>, key: Vec<char> },
}

#[verifier::ext_equal]
pub enum CommandView {
    Space { value: SpaceConfigView },
    UpdateSpace { space_name: Seq<char>, value: SpaceConfigView },
    DeleteSpace { space_name: Seq<char> },
    CreateVersion { space_name: Seq<char>, value: VersionPayloadView },
    Vector { space_name: Seq<char>, value: Seq<VectorInsertView> },
    VectorWithVersion { space_name: Seq<char>, version_id: u64, value: Seq<VectorInsertView> },
    CreateSnapshot,
    SnapshotRestore { file_name: Seq<char> },
    SnapshotDelete { file_name: Seq<char> },
    SnapshotSync { file_name: Seq<char>, leader_id: u64, leader_addr: Seq<char> },
    CreateRbacToken { token: Seq<char>, expire_time_utc: u64, value: RbacPermissionsView },
    StoragePutKey { space_name: Seq<char>, key: Seq<char>, value: Seq<char> },
    StorageRemoveKey { space_name: Seq<char>, key: Seq<char> },
}

impl View for Command {
    type V = CommandView;

    open spec fn view(&self) -> CommandView {
        match self {
            Command::Space { value } => CommandView::Space { value: value@ },
            Command::UpdateSpace { space_name, value } => CommandView::UpdateSpace {
                space_name: space_name@,
                value: value@,
            },
            Command::DeleteSpace { space_name } => CommandView::DeleteSpace {
                space_name: space_name@,
            },
            Command::CreateVersion { space_name, value } => CommandView::CreateVersion {
                space_name: space_name@,
                value: value@,
            },
            Command::Vector { space_name, value } => CommandView::Vector {
                space_name: space_name@,
                value: value@.map_values(|x: VectorInsert| x@),
            },
            Command::VectorWithVersion { space_name, version_id, value } => (
            CommandView::VectorWithVersion {
                space_name: space_name@,
                version_id: *version_id,
                value: value@.map_values(|x: VectorInsert| x@),
            }),
            Command::CreateSnapshot => CommandView::CreateSnapshot,
            Command::SnapshotRestore { file_name } => CommandView::SnapshotRestore {
                file_name: file_name@,
            },
            Command::SnapshotDelete { file_name } => CommandView::SnapshotDelete {
                file_name: file_name@,
            },
            Command::SnapshotSync { file_name, leader_id, leader_addr } => (
            CommandView::SnapshotSync {
                file_name: file_name@,
                leader_id: *leader_id,
                leader_addr: leader_addr@,
            }),
            Command::CreateRbacToken { token, expire_time_utc, value } => (
            CommandView::CreateRbacToken {
                token: token@,
                expire_time_utc: *expire_time_utc,
                value: value@,
            }),
            Command::StoragePutKey { space_name, key, value } => CommandView::StoragePutKey {
                space_name: space_name@,
                key: key@,
                value: value@,
            },
            Command::StorageRemoveKey { space_name, key } => CommandView::StorageRemoveKey {
                space_name: space_name@,
                key: key@,
            },
        }
    }
}

// ---------------------------------------------------------------------------
// payload shapes
// ---------------------------------------------------------------------------

pub open spec fn json_of_config(c: SpaceConfigView) -> Seq<char> {
    "{\"name\":\""@ + esc_str(c.name) + "\",\"dimension\":"@ + dec_chars(c.dimension as nat)
        + ",\"metric\":\""@ + esc_str(c.metric) + "\"}"@
}

pub open spec fn json_of_version_payload(p: VersionPayloadView) -> Seq<char> {
    "{\"name\":\""@ + esc_str(p.name) + "\",\"description\":\""@ + esc_str(p.description)
        + "\",\"tag\":\""@ + esc_str(p.tag) + "\",\"is_default\":"@ + (if p.is_default {
        "true"@
    } else {
        "false"@
    }) + "}"@
}

pub open spec fn json_of_insert(v: VectorInsertView) -> Seq<char> {
    "{\"id\":"@ + dec_chars(v.id as nat) + ",\"data\":"@ + crate::report::raw_or_null(v.data)
        + ",\"metadata\":"@ + crate::report::raw_or_null(v.metadata) + "}"@
}

pub open spec fn json_of_inserts(vs: Seq<VectorInsertView>) -> Seq<char>
    decreases vs.len(),
{
    if vs.len() == 0 {
        Seq::<char>::empty()
    } else if vs.len() == 1 {
        json_of_insert(vs[0])
    } else {
        json_of_inserts(vs.drop_last()) + ","@ + json_of_insert(vs.last())
    }
}

pub open spec fn json_of_vectors_payload(vs: Seq<VectorInsertView>) -> Seq<char> {
    "{\"vectors\":["@ + json_of_inserts(vs) + "]}"@
}

pub open spec fn json_of_perms(p: RbacPermissionsView) -> Seq<char> {
    "{\"system\":"@ + dec_chars(p.system as nat) + ",\"space\":"@ + dec_chars(p.space as nat)
        + ",\"version\":"@ + dec_chars(p.version as nat) + ",\"vector\":"@ + dec_chars(
        p.vector as nat,
    ) + ",\"search\":"@ + dec_chars(p.search as nat) + ",\"snapshot\":"@ + dec_chars(
        p.snapshot as nat,
    ) + ",\"security\":"@ + dec_chars(p.security as nat) + ",\"keyvalue\":"@ + dec_chars(
        p.keyvalue as nat,
    ) + "}"@
}

// ---------------------------------------------------------------------------
// the envelope
// ---------------------------------------------------------------------------

/// The canonical envelope text of a command.
pub open spec fn json_of_command(c: CommandView) -> Seq<char> {
    "{\"request\":{\"command\":\""@ + match c {
        CommandView::Space { value } => "space\",\"value\":"@ + json_of_config(value),
        CommandView::UpdateSpace { space_name, value } => "update_space\",\"space_name\":\""@
            + esc_str(space_name) + "\",\"value\":"@ + json_of_config(value),
        CommandView::DeleteSpace { space_name } => "delete_space\",\"space_name\":\""@ + esc_str(
            space_name,
        ) + "\",\"value\":{}"@,
        CommandView::CreateVersion { space_name, value } => "version\",\"space_name\":\""@
            + esc_str(space_name) + "\",\"value\":"@ + json_of_version_payload(value),
        CommandView::Vector { space_name, value } => "vector\",\"space_name\":\""@ + esc_str(
            space_name,
        ) + "\",\"value\":"@ + json_of_vectors_payload(value),
        CommandView::VectorWithVersion { space_name, version_id, value } => (
        "vector_with_version\",\"space_name\":\""@ + esc_str(space_name) + "\",\"version_id\":"@
            + dec_chars(version_id as nat) + ",\"value\":"@ + json_of_vectors_payload(value)),
        CommandView::CreateSnapshot => "create_snapshot\",\"value\":{}"@,
        CommandView::SnapshotRestore { file_name } => "snapshot_restore\",\"file_name\":\""@
            + esc_str(file_name) + "\",\"value\":{}"@,
        CommandView::SnapshotDelete { file_name } => "snapshot_delete\",\"file_name\":\""@
            + esc_str(file_name) + "\""@,
        CommandView::SnapshotSync { file_name, leader_id, leader_addr } => (
        "snapshot_sync\",\"file_name\":\""@ + esc_str(file_name) + "\",\"leader_id\":"@
            + dec_chars(leader_id as nat) + ",\"leader_addr\":\""@ + esc_str(leader_addr)
            + "\",\"value\":\"{}\""@),
        CommandView::CreateRbacToken { token, expire_time_utc, value } => (
        "create_rbac_token\",\"token\":\""@ + esc_str(token) + "\",\"expire_time_utc\":"@
            + dec_chars(expire_time_utc as nat) + ",\"value\":"@ + json_of_perms(value)),
        CommandView::StoragePutKey { space_name, key, value } => (
        "storage_put_key\",\"space_name\":\""@ + esc_str(space_name) + "\",\"key\":\""@ + esc_str(
            key,
        ) + "\",\"value\":\""@ + esc_str(value) + "\""@),
        CommandView::StorageRemoveKey { space_name, key } => (
        "storage_remove_key\",\"space_name\":\""@ + esc_str(space_name) + "\",\"key\":\""@
            + esc_str(key) + "\",\"value\":\"\""@),
    } + "}}"@
}

fn push_config(c: &SpaceConfig, out: &mut Vec<char>)
    ensures
        final(out)@ == old(out)@ + json_of_config(c@),
{
    push_str_chars(out, "{\"name\":\"");
    push_escaped(&c.name, out);
    push_str_chars(out, "\",\"dimension\":");
    push_dec_u64(c.dimension, out);
    push_str_chars(out, ",\"metric\":\"");
    push_escaped(&c.metric, out);
    push_str_chars(out, "\"}");
    proof {
        assert(out@ =~= old(out)@ + json_of_config(c@));
    }
}

fn push_version_payload(p: &VersionPayload, out: &mut Vec<char>)
    ensures
        final(out)@ == old(out)@ + json_of_version_payload(p@),
{
    push_str_chars(out, "{\"name\":\"");
    push_escaped(&p.name, out);
    push_str_chars(out, "\",\"description\":\"");
    push_escaped(&p.description, out);
    push_str_chars(out, "\",\"tag\":\"");
    push_escaped(&p.tag, out);
    push_str_chars(out, "\",\"is_default\":");
    if p.is_default {
        push_str_chars(out, "true");
    } else {
        push_str_chars(out, "false");
    }
    push_str_chars(out, "}");
    proof {
        assert(out@ =~= old(out)@ + json_of_version_payload(p@));
    }
}

#[verifier::rlimit(60)]
fn push_vectors_payload(vs: &Vec<VectorInsert>, out: &mut Vec<char>)
    ensures
        final(out)@ == old(out)@ + json_of_vectors_payload(
            vs@.map_values(|x: VectorInsert| x@),
        ),
{
    let ghost vv = vs@.map_values(|x: VectorInsert| x@);
    push_str_chars(out, "{\"vectors\":[");
    let n: usize = vs.len();
    let mut i: usize = 0;
    while i < n
        invariant
            n == vs@.len(),
            vv == vs@.map_values(|x: VectorInsert| x@),
            i <= n,
            out@ == old(out)@ + "{\"vectors\":["@ + json_of_inserts(vv.subrange(0, i as int)),
        decreases n - i,
    {
        if i > 0 {
            push_str_chars(out, ",");
        }
        push_str_chars(out, "{\"id\":");
        push_dec_u64(vs[i].id, out);
        push_str_chars(out, ",\"data\":");
        if vs[i].data.len() == 0 {
            push_str_chars(out, "null");
        } else {
            push_chars(out, &vs[i].data);
        }
        push_str_chars(out, ",\"metadata\":");
        if vs[i].metadata.len() == 0 {
            push_str_chars(out, "null");
        } else {
            push_chars(out, &vs[i].metadata);
        }
        push_str_chars(out, "}");
        i += 1;
        proof {
            assert(vv[i - 1] == vs@[i - 1]@);
            let pre = vv.subrange(0, i - 1);
            let cur = vv.subrange(0, i as int);
            assert(cur.drop_last() =~= pre);
            assert(cur.last() == vv[i - 1]);
            assert(out@ =~= old(out)@ + "{\"vectors\":["@ + json_of_inserts(cur));
        }
    }
    push_str_chars(out, "]}");
    proof {
        assert(vv.subrange(0, n as int) =~= vv);
        assert(out@ =~= old(out)@ + json_of_vectors_payload(vv));
    }
}

fn push_perms(p: &RbacPermissions, out: &mut Vec<char>)
    ensures
        final(out)@ == old(out)@ + json_of_perms(p@),
{
    push_str_chars(out, "{\"system\":");
    push_dec_u64(p.system as u64, out);
    push_str_chars(out, ",\"space\":");
    push_dec_u64(p.space as u64, out);
    push_str_chars(out, ",\"version\":");
    push_dec_u64(p.version as u64, out);
    push_str_chars(out, ",\"vector\":");
    push_dec_u64(p.vector as u64, out);
    push_str_chars(out, ",\"search\":");
    push_dec_u64(p.search as u64, out);
    push_str_chars(out, ",\"snapshot\":");
    push_dec_u64(p.snapshot as u64, out);
    push_str_chars(out, ",\"security\":");
    push_dec_u64(p.security as u64, out);
    push_str_chars(out, ",\"keyvalue\":");
    push_dec_u64(p.keyvalue as u64, out);
    push_str_chars(out, "}");
    proof {
        assert(out@ =~= old(out)@ + json_of_perms(p@));
    }
}

/// Prints the canonical envelope of a command.
pub fn encode_command(c: &Command) -> (r: Vec<char>)
    ensures
        r@ == json_of_command(c@),
{
    let mut out: Vec<char> = Vec::new();
    push_str_chars(&mut out, "{\"request\":{\"command\":\"");
    match c {
        Command::Space { value } => {
            push_str_chars(&mut out, "space\",\"value\":");
            push_config(value, &mut out);
        },
        Command::UpdateSpace { space_name, value } => {
            push_str_chars(&mut out, "update_space\",\"space_name\":\"");
            push_escaped(space_name, &mut out);
            push_str_chars(&mut out, "\",\"value\":");
            push_config(value, &mut out);
        },
        Command::DeleteSpace { space_name } => {
            push_str_chars(&mut out, "delete_space\",\"space_name\":\"");
            push_escaped(space_name, &mut out);
            push_str_chars(&mut out, "\",\"value\":{}");
        },
        Command::CreateVersion { space_name, value } => {
            push_str_chars(&mut out, "version\",\"space_name\":\"");
            push_escaped(space_name, &mut out);
            push_str_chars(&mut out, "\",\"value\":");
            push_version_payload(value, &mut out);
        },
        Command::Vector { space_name, value } => {
            push_str_chars(&mut out, "vector\",\"space_name\":\"");
            push_escaped(space_name, &mut out);
            push_str_chars(&mut out, "\",\"value\":");
            push_vectors_payload(value, &mut out);
        },
        Command::VectorWithVersion { space_name, version_id, value } => {
            push_str_chars(&mut out, "vector_with_version\",\"space_name\":\"");
            push_escaped(space_name, &mut out);
            push_str_chars(&mut out, "\",\"version_id\":");
            push_dec_u64(*version_id, &mut out);
            push_str_chars(&mut out, ",\"value\":");
            push_vectors_payload(value, &mut out);
        },
        Command::CreateSnapshot => {
            push_str_chars(&mut out, "create_snapshot\",\"value\":{}");
        },
        Command::SnapshotRestore { file_name } => {
            push_str_chars(&mut out, "snapshot_restore\",\"file_name\":\"");
            push_escaped(file_name, &mut out);
            push_str_chars(&mut out, "\",\"value\":{}");
        },
        Command::SnapshotDelete { file_name } => {
            push_str_chars(&mut out, "snapshot_delete\",\"file_name\":\"");
            push_escaped(file_name, &mut out);
            push_str_chars(&mut out, "\"");
        },
        Command::SnapshotSync { file_name, leader_id, leader_addr } => {
            push_str_chars(&mut out, "snapshot_sync\",\"file_name\":\"");
            push_escaped(file_name, &mut out);
            push_str_chars(&mut out, "\",\"leader_id\":");
            push_dec_u64(*leader_id, &mut out);
            push_str_chars(&mut out, ",\"leader_addr\":\"");
            push_escaped(leader_addr, &mut out);
            push_str_chars(&mut out, "\",\"value\":\"{}\"");
        },
        Command::CreateRbacToken { token, expire_time_utc, value } => {
            push_str_chars(&mut out, "create_rbac_token\",\"token\":\"");
            push_escaped(token, &mut out);
            push_str_chars(&mut out, "\",\"expire_time_utc\":");
            push_dec_u64(*expire_time_utc, &mut out);
            push_str_chars(&mut out, ",\"value\":");
            push_perms(value, &mut out);
        },
        Command::StoragePutKey { space_name, key, value } => {
            push_str_chars(&mut out, "storage_put_key\",\"space_name\":\"");
            push_escaped(space_name, &mut out);
            push_str_chars(&mut out, "\",\"key\":\"");
            push_escaped(key, &mut out);
            push_str_chars(&mut out, "\",\"value\":\"");
            push_escaped(value, &mut out);
            push_str_chars(&mut out, "\"");
        },
        Command::StorageRemoveKey { space_name, key } => {
            push_str_chars(&mut out, "storage_remove_key\",\"space_name\":\"");
            push_escaped(space_name, &mut out);
            push_str_chars(&mut out, "\",\"key\":\"");
            push_escaped(key, &mut out);
            push_str_chars(&mut out, "\",\"value\":\"\"");
        },
    }
    push_str_chars(&mut out, "}}");
    proof {
        assert(out@ =~= json_of_command(c@));
    }
    out
}

// ---------------------------------------------------------------------------
// reading an envelope back
// ---------------------------------------------------------------------------

/// The loose numeric reading of a field: a bare number, or a number
/// written as a string.
pub open spec fn spec_u64_loose(v: Seq<char>, key: Seq<char>) -> Option<u64> {
    match crate::json::find_field_spec(v, key) {
        None => None,
        Some((s, e)) => if v[s] == '"' {
            if e - s >= 2 {
                crate::json::num_extent(v, s + 1, e - 1)
            } else {
                None
            }
        } else {
            crate::json::num_extent(v, s, e)
        },
    }
}

/// The raw text of a field value, when the field is there.
pub open spec fn spec_raw_opt(v: Seq<char>, key: Seq<char>) -> Option<Seq<char>> {
    match crate::json::find_field_spec(v, key) {
        None => None,
        Some((s, e)) => Some(v.subrange(s, e)),
    }
}

/// The unescaped content of a string field of `v`, when the field is there
/// and is a string.
fn get_string_field(v: &Vec<char>, key: &str) -> (r: Option<Vec<char>>)
    ensures
        match r {
            Some(c) => crate::json::spec_string_field(v@, key@) == Some(c@),
            None => crate::json::spec_string_field(v@, key@) is None,
        },
{
    let kv = chars_vec(key);
    match find_object_field(v, &kv) {
        Some((s, e)) => string_field_content(v, s, e),
        None => None,
    }
}

/// The numeric value of a field, accepting both a bare number and a number
/// written as a string.
fn get_u64_field(v: &Vec<char>, key: &str) -> (r: Option<u64>)
    ensures
        r == spec_u64_loose(v@, key@),
{
    let kv = chars_vec(key);
    let (s, e) = match find_object_field(v, &kv) {
        Some(p) => p,
        None => {
            return None;
        },
    };
    if v[s] == '"' {
        if e - s >= 2 {
            parse_u64_range(v, s + 1, e - 1)
        } else {
            None
        }
    } else {
        parse_u64_range(v, s, e)
    }
}

/// The raw text of a field value.
fn get_raw_field(v: &Vec<char>, key: &str) -> (r: Option<Vec<char>>)
    ensures
        match r {
            Some(raw) => spec_raw_opt(v@, key@) == Some(raw@),
            None => spec_raw_opt(v@, key@) is None,
        },
{
    let kv = chars_vec(key);
    match find_object_field(v, &kv) {
        Some((s, e)) => Some(subrange_vec(v, s, e)),
        None => None,
    }
}

/// What the request object of an envelope reads as, tag by tag: an
/// unknown tag, or a tag without the fields it requires, reads as nothing.
pub open spec fn spec_decode_req(req: Seq<char>) -> Option<CommandView> {
    match crate::json::spec_string_field(req, "command"@) {
        None => None,
        Some(tag) => if tag == "space"@ {
            match spec_raw_opt(req, "value"@) {
                None => None,
                Some(raw) => match crate::space::spec_parse_space_config(raw) {
                    None => None,
                    Some(cfg) => Some(CommandView::Space { value: cfg }),
                },
            }
        } else if tag == "update_space"@ {
            match crate::json::spec_string_field(req, "space_name"@) {
                None => None,
                Some(space_name) => match spec_raw_opt(req, "value"@) {
                    None => None,
                    Some(raw) => match crate::space::spec_parse_space_config(raw) {
                        None => None,
                        Some(cfg) => Some(CommandView::UpdateSpace { space_name, value: cfg }),
                    },
                },
            }
        } else if tag == "delete_space"@ {
            match crate::json::spec_string_field(req, "space_name"@) {
                None => None,
                Some(space_name) => Some(CommandView::DeleteSpace { space_name }),
            }
        } else if tag == "version"@ {
            match crate::json::spec_string_field(req, "space_name"@) {
                None => None,
                Some(space_name) => match spec_raw_opt(req, "value"@) {
                    None => None,
                    Some(raw) => match crate::version::spec_parse_version_payload(raw) {
                        None => None,
                        Some(vp) => Some(CommandView::CreateVersion { space_name, value: vp }),
                    },
                },
            }
        } else if tag == "vector"@ {
            match crate::json::spec_string_field(req, "space_name"@) {
                None => None,
                Some(space_name) => match spec_raw_opt(req, "value"@) {
                    None => None,
                    Some(raw) => match crate::vector::spec_parse_vectors(raw) {
                        None => None,
                        Some(vs) => Some(CommandView::Vector { space_name, value: vs }),
                    },
                },
            }
        } else if tag == "vector_with_version"@ {
            match crate::json::spec_string_field(req, "space_name"@) {
                None => None,
                Some(space_name) => {
                    let version_id = match spec_u64_loose(req, "version_id"@) {
                        Some(n) => n,
                        None => 0,
                    };
                    match spec_raw_opt(req, "value"@) {
                        None => None,
                        Some(raw) => match crate::vector::spec_parse_vectors(raw) {
                            None => None,
                            Some(vs) => Some(
                                CommandView::VectorWithVersion { space_name, version_id, value: vs },
                            ),
                        },
                    }
                },
            }
        } else if tag == "create_snapshot"@ {
            Some(CommandView::CreateSnapshot)
        } else if tag == "snapshot_restore"@ {
            match crate::json::spec_string_field(req, "file_name"@) {
                None => None,
                Some(file_name) => Some(CommandView::SnapshotRestore { file_name }),
            }
        } else if tag == "snapshot_delete"@ {
            match crate::json::spec_string_field(req, "file_name"@) {
                None => None,
                Some(file_name) => Some(CommandView::SnapshotDelete { file_name }),
            }
        } else if tag == "snapshot_sync"@ {
            match crate::json::spec_string_field(req, "file_name"@) {
                None => None,
                Some(file_name) => Some(
                    CommandView::SnapshotSync {
                        file_name,
                        leader_id: match spec_u64_loose(req, "leader_id"@) {
                            Some(n) => n,
                            None => 0,
                        },
                        leader_addr: match crate::json::spec_string_field(req, "leader_addr"@) {
                            Some(a) => a,
                            None => Seq::<char>::empty(),
                        },
                    },
                ),
            }
        } else if tag == "create_rbac_token"@ {
            match crate::json::spec_string_field(req, "token"@) {
                None => None,
                Some(token) => match spec_raw_opt(req, "value"@) {
                    None => None,
                    Some(raw) => Some(
                        CommandView::CreateRbacToken {
                            token,
                            expire_time_utc: match spec_u64_loose(req, "expire_time_utc"@) {
                                Some(n) => n,
                                None => 0,
                            },
                            value: crate::rbac::spec_parse_perms(raw),
                        },
                    ),
                },
            }
        } else if tag == "storage_put_key"@ {
            match crate::json::spec_string_field(req, "space_name"@) {
                None => None,
                Some(space_name) => match crate::json::spec_string_field(req, "key"@) {
                    None => None,
                    Some(key) => match crate::json::spec_string_field(req, "value"@) {
                        None => None,
                        Some(value) => Some(
                            CommandView::StoragePutKey { space_name, key, value },
                        ),
                    },
                },
            }
        } else if tag == "storage_remove_key"@ {
            match crate::json::spec_string_field(req, "space_name"@) {
                None => None,
                Some(space_name) => match crate::json::spec_string_field(req, "key"@) {
                    None => None,
                    Some(key) => Some(CommandView::StorageRemoveKey { space_name, key }),
                },
            }
        } else {
            None
        },
    }
}

/// What an envelope reads as: the typed command of its request object.
pub open spec fn spec_decode(v: Seq<char>) -> Option<CommandView> {
    match crate::json::find_field_spec(v, "request"@) {
        None => None,
        Some((s, e)) => if 0 <= s < e <= v.len() {
            spec_decode_req(v.subrange(s, e))
        } else {
            None
        },
    }
}

/// Reads an envelope into a typed command. Envelopes with an unknown
/// command tag, or without the fields their tag requires, give `None`; the
/// apply loop skips them, which keeps old logs readable.
#[verifier::rlimit(60)]
pub fn decode_command(v: &Vec<char>) -> (r: Option<Command>)
    ensures
        match r {
            Some(c) => spec_decode(v@) == Some(c@),
            None => spec_decode(v@) is None,
        },
{
    let req_key = chars_vec("request");
    let req = match find_object_field(v, &req_key) {
        Some((s, e)) => subrange_vec(v, s, e),
        None => {
            return None;
        },
    };
    let tag = match get_string_field(&req, "command") {
        Some(t) => t,
        None => {
            return None;
        },
    };
    if chars_eq(&tag, &chars_vec("space")) {
        let raw = get_raw_field(&req, "value")?;
        let cfg = parse_space_config(&raw)?;
        Some(Command::Space { value: cfg })
    } else if chars_eq(&tag, &chars_vec("update_space")) {
        let space_name = get_string_field(&req, "space_name")?;
        let raw = get_raw_field(&req, "value")?;
        let cfg = parse_space_config(&raw)?;
        Some(Command::UpdateSpace { space_name, value: cfg })
    } else if chars_eq(&tag, &chars_vec("delete_space")) {
        let space_name = get_string_field(&req, "space_name")?;
        Some(Command::DeleteSpace { space_name })
    } else if chars_eq(&tag, &chars_vec("version")) {
        let space_name = get_string_field(&req, "space_name")?;
        let raw = get_raw_field(&req, "value")?;
        let vp = parse_version_payload(&raw)?;
        Some(Command::CreateVersion { space_name, value: vp })
    } else if chars_eq(&tag, &chars_vec("vector")) {
        let space_name = get_string_field(&req, "space_name")?;
        let raw = get_raw_field(&req, "value")?;
        let vs = parse_vectors_payload(&raw)?;
        Some(Command::Vector { space_name, value: vs })
    } else if chars_eq(&tag, &chars_vec("vector_with_version")) {
        let space_name = get_string_field(&req, "space_name")?;
        let version_id = match get_u64_field(&req, "version_id") {
            Some(n) => n,
            None => 0,
        };
        let raw = get_raw_field(&req, "value")?;
        let vs = parse_vectors_payload(&raw)?;
        Some(Command::VectorWithVersion { space_name, version_id, value: vs })
    } else if chars_eq(&tag, &chars_vec("create_snapshot")) {
        Some(Command::CreateSnapshot)
    } else if chars_eq(&tag, &chars_vec("snapshot_restore")) {
        let file_name = get_string_field(&req, "file_name")?;
        Some(Command::SnapshotRestore { file_name })
    } else if chars_eq(&tag, &chars_vec("snapshot_delete")) {
        let file_name = get_string_field(&req, "file_name")?;
        Some(Command::SnapshotDelete { file_name })
    } else if chars_eq(&tag, &chars_vec("snapshot_sync")) {
        let file_name = get_string_field(&req, "file_name")?;
        let leader_id = match get_u64_field(&req, "leader_id") {
            Some(n) => n,
            None => 0,
        };
        let leader_addr = match get_string_field(&req, "leader_addr") {
            Some(a) => a,
            None => Vec::new(),
        };
        Some(Command::SnapshotSync { file_name, leader_id, leader_addr })
    } else if chars_eq(&tag, &chars_vec("create_rbac_token")) {
        let token = get_string_field(&req, "token")?;
        let expire_time_utc = match get_u64_field(&req, "expire_time_utc") {
            Some(n) => n,
            None => 0,
        };
        let raw = get_raw_field(&req, "value")?;
        let perms = parse_rbac_permissions(&raw);
        Some(Command::CreateRbacToken { token, expire_time_utc, value: perms })
    } else if chars_eq(&tag, &chars_vec("storage_put_key")) {
        let space_name = get_string_field(&req, "space_name")?;
        let key = get_string_field(&req, "key")?;
        let value = get_string_field(&req, "value")?;
        Some(Command::StoragePutKey { space_name, key, value })
    } else if chars_eq(&tag, &chars_vec("storage_remove_key")) {
        let space_name = get_string_field(&req, "space_name")?;
        let key = get_string_field(&req, "key")?;
        Some(Command::StorageRemoveKey { space_name, key })
    } else {
        None
    }
}

} // verus!
