use asimplevectors::bo::ATinyVectorsBO;
use asimplevectors::command::Command;
use asimplevectors::command::decode_command;
use asimplevectors::command::encode_command;
use asimplevectors::dispatch::ApplyCtx;
use asimplevectors::dispatch::ATinyVectorsRaftCommand;
use asimplevectors::space::SpaceConfig;
use asimplevectors::text::chars_vec;
use asimplevectors::text::string_from_chars;
use asimplevectors::version::VersionPayload;

fn ctx() -> ApplyCtx {
    ApplyCtx {
        instance_id: 1,
        http_addr: chars_vec("127.0.0.1:21001"),
        stamp: chars_vec("202401020000"),
    }
}

fn space_cmd(name: &str, dimension: u64) -> Command {
    Command::Space {
        value: SpaceConfig {
            name: chars_vec(name),
            dimension,
            metric: chars_vec("l2"),
        },
    }
}

fn version_cmd(space: &str, name: &str, is_default: bool) -> Command {
    Command::CreateVersion {
        space_name: chars_vec(space),
        value: VersionPayload {
            name: chars_vec(name),
            description: chars_vec(""),
            tag: chars_vec(""),
            is_default,
        },
    }
}

fn export(bo: &ATinyVectorsBO) -> String {
    let mut out = bo.get_space_lists().unwrap();
    out.push_str(&bo.get_version_lists("s1").unwrap_or_default());
    out.push_str(&bo.get_vectors_by_version_id(1).unwrap_or_default());
    out
}

// applying the same committed prefix to two fresh replicas leaves their
// exports equal
#[test]
fn apply_is_deterministic_across_replicas() {
    let log = vec![
        space_cmd("s1", 4),
        version_cmd("s1", "v1", true),
        decode_command(&chars_vec(
            r#"{"request":{"command":"vector","space_name":"s1","value":{"vectors":[{"id":7,"data":[1,0,0,0]}]}}}"#,
        ))
        .unwrap(),
        decode_command(&chars_vec(
            r#"{"request":{"command":"storage_put_key","space_name":"s1","key":"k","value":"v"}}"#,
        ))
        .unwrap(),
    ];
    let dispatcher = ATinyVectorsRaftCommand::new();

    let mut a = ATinyVectorsBO::new();
    let mut b = ATinyVectorsBO::new();
    for cmd in &log {
        dispatcher.process_command(&mut a, &ctx(), cmd);
        dispatcher.process_command(&mut b, &ctx(), cmd);
    }
    assert_eq!(export(&a), export(&b));
}

// after delete_space is applied, the default-version lookup answers 0
#[test]
fn cache_reset_after_delete_space() {
    let dispatcher = ATinyVectorsRaftCommand::new();
    let mut bo = ATinyVectorsBO::new();
    dispatcher.process_command(&mut bo, &ctx(), &space_cmd("s1", 4));
    let name = chars_vec("s1");
    assert_eq!(bo.id_cache.get_default_version_id(&bo.engine, &name), 1);
    dispatcher.process_command(
        &mut bo,
        &ctx(),
        &Command::DeleteSpace { space_name: chars_vec("s1") },
    );
    assert_eq!(bo.id_cache.get_default_version_id(&bo.engine, &name), 0);
}

// create a snapshot, wipe everything, restore: the engine content returns
#[test]
fn snapshot_round_trip() {
    let dispatcher = ATinyVectorsRaftCommand::new();
    let mut bo = ATinyVectorsBO::new();
    dispatcher.process_command(&mut bo, &ctx(), &space_cmd("s1", 4));
    dispatcher.process_command(
        &mut bo,
        &ctx(),
        &decode_command(&chars_vec(
            r#"{"request":{"command":"vector","space_name":"s1","value":{"vectors":[{"id":7,"data":[1,0,0,0]}]}}}"#,
        ))
        .unwrap(),
    );
    let before = export(&bo);

    dispatcher.process_command(&mut bo, &ctx(), &Command::CreateSnapshot);
    let listing = string_from_chars(&bo.snapshot.list_snapshots_json());
    assert_eq!(listing, "{\"snapshots\":[{\"file_name\":\"snapshot-202401020000.zip\"}]}");

    // wipe the engine, keep the archive
    dispatcher.process_command(
        &mut bo,
        &ctx(),
        &Command::DeleteSpace { space_name: chars_vec("s1") },
    );
    assert_ne!(export(&bo), before);

    dispatcher.process_command(
        &mut bo,
        &ctx(),
        &Command::SnapshotRestore { file_name: chars_vec("snapshot-202401020000.zip") },
    );
    assert_eq!(export(&bo), before);

    // delete the archive; restoring again is a no-op
    dispatcher.process_command(
        &mut bo,
        &ctx(),
        &Command::SnapshotDelete { file_name: chars_vec("snapshot-202401020000.zip") },
    );
    assert_eq!(
        string_from_chars(&bo.snapshot.list_snapshots_json()),
        "{\"snapshots\":[]}"
    );
}

// the sync command: the leader restores locally and plans nothing; a
// follower plans the fetch from the leader's address
#[test]
fn snapshot_sync_two_nodes() {
    let dispatcher = ATinyVectorsRaftCommand::new();

    // node A, instance 1, holds the uploaded archive
    let mut a = ATinyVectorsBO::new();
    dispatcher.process_command(&mut a, &ctx(), &space_cmd("s1", 4));
    let content = asimplevectors::snapshot::clone_engine(&a.engine);
    let mut fresh_a = ATinyVectorsBO::new();
    fresh_a
        .snapshot
        .store_named(&chars_vec("snapshot-202401020000.zip"), content);
    let mut a = fresh_a;

    // node B, instance 2, has no archive yet
    let mut b = ATinyVectorsBO::new();

    let sync = Command::SnapshotSync {
        file_name: chars_vec("snapshot-202401020000.zip"),
        leader_id: 1,
        leader_addr: chars_vec("http://127.0.0.1:21001"),
    };

    let act_a = dispatcher.process_command(&mut a, &ctx(), &sync);
    assert!(act_a.is_none());
    assert!(a.get_space_by_name("s1").is_ok());

    let ctx_b = ApplyCtx { instance_id: 2, ..ctx() };
    let act_b = dispatcher.process_command(&mut b, &ctx_b, &sync).unwrap();
    // the twelve-digit name is not of the legacy sync form, so the URL
    // carries the unknown-date marker, as the legacy flow did
    assert_eq!(
        string_from_chars(&act_b.download_url),
        "http://127.0.0.1:21001/snapshot/unknown_date/download"
    );
    // node B lacked the archive, so its restore was a no-op
    assert!(b.get_space_by_name("s1").is_err());

    // once the fetch lands the archive locally, the next sync restores it
    let content_b = asimplevectors::snapshot::clone_engine(&a.engine);
    b.snapshot.store_named(&chars_vec("snapshot-202401020000.zip"), content_b);
    dispatcher.process_command(&mut b, &ctx_b, &sync);
    assert_eq!(a.get_space_by_name("s1").unwrap(), b.get_space_by_name("s1").unwrap());
}

// an eight-digit legacy name resolves to its date in the download address
#[test]
fn sync_url_uses_legacy_date() {
    let dispatcher = ATinyVectorsRaftCommand::new();
    let mut b = ATinyVectorsBO::new();
    let ctx_b = ApplyCtx { instance_id: 2, ..ctx() };
    let sync = Command::SnapshotSync {
        file_name: chars_vec("snapshot-20240102.zip"),
        leader_id: 1,
        leader_addr: chars_vec("http://127.0.0.1:21001"),
    };
    let act = dispatcher.process_command(&mut b, &ctx_b, &sync).unwrap();
    assert_eq!(
        string_from_chars(&act.download_url),
        "http://127.0.0.1:21001/snapshot/20240102/download"
    );
}

// unknown command tags are skipped
#[test]
fn unknown_commands_are_skipped() {
    let dispatcher = ATinyVectorsRaftCommand::new();
    let mut bo = ATinyVectorsBO::new();
    let act = dispatcher.process_envelope(
        &mut bo,
        &ctx(),
        &chars_vec(r#"{"request":{"command":"resize_cluster","value":{}}}"#),
    );
    assert!(act.is_none());
    assert_eq!(bo.get_space_lists().unwrap(), "{\"values\":[]}");
}

// the kv commands drive the per-space store
#[test]
fn kv_put_get_remove() {
    let dispatcher = ATinyVectorsRaftCommand::new();
    let mut bo = ATinyVectorsBO::new();
    dispatcher.process_command(
        &mut bo,
        &ctx(),
        &Command::StoragePutKey {
            space_name: chars_vec("s1"),
            key: chars_vec("greeting"),
            value: chars_vec("hello"),
        },
    );
    let got = bo.kv.get_key(&chars_vec("s1"), &chars_vec("greeting")).unwrap();
    assert_eq!(string_from_chars(&got), "hello");

    let listed = string_from_chars(&bo.kv.list_keys_json(&chars_vec("s1"), 0, 100));
    assert_eq!(listed, "{\"keys\":[\"greeting\"],\"total_count\":1}");

    dispatcher.process_command(
        &mut bo,
        &ctx(),
        &Command::StorageRemoveKey { space_name: chars_vec("s1"), key: chars_vec("greeting") },
    );
    assert!(bo.kv.get_key(&chars_vec("s1"), &chars_vec("greeting")).is_none());
    // removing under an unknown space does nothing
    dispatcher.process_command(
        &mut bo,
        &ctx(),
        &Command::StorageRemoveKey { space_name: chars_vec("ghost"), key: chars_vec("k") },
    );
    assert_eq!(
        string_from_chars(&bo.kv.list_keys_json(&chars_vec("ghost"), 0, 100)),
        "{\"keys\":[],\"total_count\":0}"
    );
}

// every command survives the trip through its envelope
#[test]
fn codec_round_trip() {
    let commands = vec![
        space_cmd("s1", 4),
        Command::UpdateSpace {
            space_name: chars_vec("s1"),
            value: SpaceConfig {
                name: chars_vec("s1"),
                dimension: 8,
                metric: chars_vec("cosine"),
            },
        },
        Command::DeleteSpace { space_name: chars_vec("s1") },
        version_cmd("s1", "v \"quoted\"", false),
        Command::SnapshotRestore { file_name: chars_vec("snapshot-20240102.zip") },
        Command::SnapshotDelete { file_name: chars_vec("snapshot-20240102.zip") },
        Command::SnapshotSync {
            file_name: chars_vec("snapshot-202401020000.zip"),
            leader_id: 3,
            leader_addr: chars_vec("http://10.0.0.2:21001"),
        },
        Command::StoragePutKey {
            space_name: chars_vec("s1"),
            key: chars_vec("a\\b"),
            value: chars_vec("line\nbreak"),
        },
        Command::StorageRemoveKey { space_name: chars_vec("s1"), key: chars_vec("k") },
        Command::CreateRbacToken {
            token: chars_vec("token-9"),
            expire_time_utc: 4102444800,
            value: asimplevectors::rbac::parse_rbac_permissions(&chars_vec(r#"{"space":2}"#)),
        },
        decode_command(&chars_vec(
            r#"{"request":{"command":"vector","space_name":"s1","value":{"vectors":[{"id":7,"data":[1,0,0,0]}]}}}"#,
        ))
        .unwrap(),
    ];
    for cmd in &commands {
        let encoded = encode_command(cmd);
        let decoded = decode_command(&encoded).expect("canonical envelope must decode");
        let re_encoded = encode_command(&decoded);
        assert_eq!(string_from_chars(&encoded), string_from_chars(&re_encoded));
    }
}

// one envelope, written out in full
#[test]
fn envelope_text_is_canonical() {
    let encoded = encode_command(&Command::DeleteSpace { space_name: chars_vec("s1") });
    assert_eq!(
        string_from_chars(&encoded),
        r#"{"request":{"command":"delete_space","space_name":"s1","value":{}}}"#
    );
}

// the rbac command stores the leader-minted token, with its leader-fixed
// expiry, on every node
#[test]
fn rbac_token_replication() {
    let dispatcher = ATinyVectorsRaftCommand::new();
    let mut bo = ATinyVectorsBO::new();
    let minted = bo.rbac_token.generate_jwt_token(0);
    assert_eq!(string_from_chars(&minted), "token-0");
    let env = chars_vec(
        r#"{"request":{"command":"create_rbac_token","token":"token-0","expire_time_utc":5000,"value":{"space":2,"vector":2}}}"#,
    );
    dispatcher.process_envelope(&mut bo, &ctx(), &env);
    let perms = bo.rbac_token.get_permissions(&chars_vec("token-0"), 1000);
    assert_eq!(perms.space, 2);
    assert_eq!(perms.vector, 2);
    assert_eq!(perms.snapshot, 0);
    // once the expiry stamp passes, the same token grants nothing
    let expired = bo.rbac_token.get_permissions(&chars_vec("token-0"), 5000);
    assert_eq!(expired.space, 0);
    let listing = string_from_chars(&bo.rbac_token.list_tokens_json());
    assert!(listing.contains("\"token\":\"token-0\""));
    assert!(listing.contains("\"expire_time_utc\":5000"));
}

// a version can be deleted unless it is the default
#[test]
fn delete_version_keeps_default() {
    let mut bo = ATinyVectorsBO::new();
    bo.create_space(r#"{"name":"s1","dimension":4,"metric":"l2"}"#).unwrap();
    bo.create_version("s1", r#"{"name":"v2","is_default":false}"#).unwrap();
    assert!(bo.get_version_by_id("s1", 2).is_ok());
    bo.delete_version("s1", 2).unwrap();
    assert!(bo.get_version_by_id("s1", 2).is_err());
    // the default version refuses deletion, under either address
    assert_eq!(
        bo.delete_version("s1", 1).err().unwrap(),
        "the default version cannot be deleted"
    );
    assert_eq!(
        bo.delete_version("s1", 0).err().unwrap(),
        "the default version cannot be deleted"
    );
    assert!(bo.get_default_version("s1").is_ok());
    assert_eq!(bo.delete_version("ghost", 2).err().unwrap(), "no such space");
}
