use asimplevectors::bo::ATinyVectorsBO;
use asimplevectors::config::Config;
use asimplevectors::config::parse_bool_or;
use asimplevectors::config::parse_i64_or;
use asimplevectors::config::parse_u64_or;
use asimplevectors::config::raft_timing_valid;
use asimplevectors::dispatch::ATinyVectorsRaftCommand;
use asimplevectors::dispatch::ApplyCtx;
use asimplevectors::handlers::extract_token;
use asimplevectors::handlers::permission_allows;
use asimplevectors::handlers::restore_upload_decision;
use asimplevectors::handlers::space_post;
use asimplevectors::handlers::space_post_checked;
use asimplevectors::raftnode::Node;
use asimplevectors::raftnode::RaftNodeModel;
use asimplevectors::raftnode::WriteDecision;
use asimplevectors::space::SpaceConfig;
use asimplevectors::text::chars_vec;
use asimplevectors::text::string_from_chars;

fn cfg(name: &str) -> SpaceConfig {
    SpaceConfig { name: chars_vec(name), dimension: 4, metric: chars_vec("l2") }
}

// heartbeat at or above the election timeout, or at 300 and beyond, is
// refused at startup
#[test]
fn invalid_raft_timing() {
    assert!(!raft_timing_valid(500, 400));
    assert!(!raft_timing_valid(400, 400));
    assert!(!raft_timing_valid(300, 400));
    assert!(raft_timing_valid(250, 299));
    assert!(raft_timing_valid(299, 300));
}

// cluster mode rejects writes until the explicit initialization call
#[test]
fn cluster_bootstrap_gate() {
    let mut node = RaftNodeModel::new(1, false);
    let env = chars_vec("{}");
    assert!(matches!(node.client_write(&env), WriteDecision::NotInitialized));
    node.initialize();
    assert!(matches!(node.client_write(&env), WriteDecision::Accepted { index: 0 }));
    assert!(matches!(node.client_write(&env), WriteDecision::Accepted { index: 1 }));
}

// a standalone node initializes itself at boot
#[test]
fn standalone_accepts_at_once() {
    let mut node = RaftNodeModel::new(1, true);
    let env = chars_vec("{}");
    assert!(matches!(node.client_write(&env), WriteDecision::Accepted { index: 0 }));
    assert!(node.ensure_linearizable());
}

// a write to a follower answers with the leader's address
#[test]
fn leader_redirect() {
    let mut follower = RaftNodeModel::new(2, true);
    follower.is_leader = false;
    follower.leader_hint = Some(Node {
        rpc_addr: chars_vec("127.0.0.1:22001"),
        api_addr: chars_vec("127.0.0.1:21001"),
    });
    let env = chars_vec("{}");
    match follower.client_write(&env) {
        WriteDecision::ForwardToLeader { leader_api_addr } => {
            assert_eq!(string_from_chars(&leader_api_addr), "127.0.0.1:21001");
        },
        _ => panic!("a follower must forward to its leader"),
    }
    assert!(!follower.ensure_linearizable());
}

// the apply loop pairing walks the log once, in order
#[test]
fn apply_loop_walks_log() {
    let mut node = RaftNodeModel::new(1, true);
    let dispatcher = ATinyVectorsRaftCommand::new();
    let mut bo = ATinyVectorsBO::new();
    let ctx = ApplyCtx {
        instance_id: 1,
        http_addr: chars_vec("127.0.0.1:21001"),
        stamp: chars_vec("202401020000"),
    };
    let env = chars_vec(r#"{"request":{"command":"space","value":{"name":"s1","dimension":4,"metric":"l2"}}}"#);
    node.client_write(&env);
    while let Some(entry) = node.next_to_apply() {
        let entry = entry.clone();
        dispatcher.process_envelope(&mut bo, &ctx, &entry);
        node.mark_applied();
    }
    assert!(bo.get_space_by_name("s1").is_ok());
}

// the configuration defaults, and the override parsers on the values the
// operator hands in
#[test]
fn config_defaults_and_overrides() {
    let c = Config::new();
    assert_eq!(c.cache_capacity, 100);
    assert_eq!(string_from_chars(&c.db_name), ":memory:");
    assert_eq!(c.default_m, 16);
    assert_eq!(c.ef_construction, 100);
    assert_eq!(c.max_datasize, 1_000_000);
    assert_eq!(string_from_chars(&c.data_path), "data/");
    assert_eq!(c.token_expire_days, 30);
    assert_eq!(c.enable_security, 0);
    assert_eq!(c.raft_heartbeat_interval, 250);
    assert_eq!(c.raft_election_timeout, 299);
    let d = Config::get_config();
    assert_eq!(d.instance_id, 1);

    assert_eq!(parse_i64_or("200", 100), 200);
    assert_eq!(parse_i64_or("32", 16), 32);
    assert_eq!(parse_i64_or("2000000", 1_000_000), 2_000_000);
    assert_eq!(parse_i64_or("60", 30), 60);
    assert_eq!(parse_i64_or("not-a-number", 100), 100);
    assert_eq!(parse_u64_or("299", 250), 299);
    assert_eq!(parse_u64_or("", 250), 250);
    assert_eq!(parse_bool_or("true", false), true);
    assert_eq!(parse_bool_or("false", true), false);
    assert_eq!(parse_bool_or("yes", false), false);
}

// every name outside the letter-digit-underscore-hyphen alphabet is
// refused before anything reaches the log
#[test]
fn name_validation_gate() {
    let mut bo = ATinyVectorsBO::new();
    for bad in ["", "has space", "semi;colon", "uni\u{e9}", "slash/", "dot.", "a\"b"] {
        let d = space_post_checked(&mut bo, true, &cfg(bad));
        assert_eq!(d.status, 400, "name {:?} must be refused", bad);
        assert!(d.log_entry.is_none());
    }
    let d = space_post_checked(&mut bo, true, &cfg("Good_name-1"));
    assert_eq!(d.status, 200);
    assert!(d.log_entry.is_some());
}

// two consecutive creations of one name: one success, then a conflict
#[test]
fn dedup_on_recreate() {
    let mut bo = ATinyVectorsBO::new();
    let dispatcher = ATinyVectorsRaftCommand::new();
    let ctx = ApplyCtx {
        instance_id: 1,
        http_addr: chars_vec("127.0.0.1:21001"),
        stamp: chars_vec("202401020000"),
    };

    let first = space_post_checked(&mut bo, true, &cfg("s1"));
    assert_eq!(first.status, 200);
    let env = first.log_entry.unwrap();
    dispatcher.process_envelope(&mut bo, &ctx, &env);

    let second = space_post_checked(&mut bo, true, &cfg("s1"));
    assert_eq!(second.status, 409);
    assert!(second.log_entry.is_none());
}

// the security gate: no token forbids, the minted token with write level
// on spaces passes while it lives, and stops once expired
#[test]
fn rbac_gate() {
    let mut bo = ATinyVectorsBO::new();
    let enable_security: i64 = 1;
    let now: u64 = 1000;

    // without a token the space write is forbidden
    let token = extract_token(None);
    let level = bo.rbac_token.get_permissions(&token, now).space;
    let allowed = permission_allows(enable_security, level, true);
    let d = space_post(&mut bo, allowed, &chars_vec(r#"{"name":"s1","dimension":4,"metric":"l2"}"#));
    assert_eq!(d.status, 403);

    // the leader mints a token with an expiry, the command stores it, and
    // the bearer passes
    let minted = bo.rbac_token.generate_jwt_token(0);
    let perms = asimplevectors::rbac::parse_rbac_permissions(&chars_vec(r#"{"space":2,"vector":2}"#));
    bo.rbac_token.new_token(&perms, &minted, now + 3600).unwrap();

    let header = format!("Bearer {}", string_from_chars(&minted));
    let token = extract_token(Some(header.as_str()));
    let level = bo.rbac_token.get_permissions(&token, now).space;
    let allowed = permission_allows(enable_security, level, true);
    let d = space_post(&mut bo, allowed, &chars_vec(r#"{"name":"s1","dimension":4,"metric":"l2"}"#));
    assert_eq!(d.status, 200);

    // read access needs only level 1, which level 2 covers
    assert!(permission_allows(enable_security, level, false));
    // and with security off, everything passes
    assert!(permission_allows(0, 0, true));

    // at and after the expiry stamp the token grants nothing
    assert_eq!(bo.rbac_token.get_permissions(&token, now + 3600).space, 0);
    assert_eq!(bo.rbac_token.get_permissions(&token, now + 7200).space, 0);
}

// a body without a readable name is refused before the log sees anything
#[test]
fn space_post_refuses_unreadable_body() {
    let mut bo = ATinyVectorsBO::new();
    for bad in [r#"{"dimension":4}"#, r#"{"name":7}"#, "not json at all", ""] {
        let d = space_post(&mut bo, true, &chars_vec(bad));
        assert_eq!(d.status, 400, "body {:?} must be refused", bad);
        assert!(d.log_entry.is_none());
    }
}

// the empty-key rule of the key store's write endpoints
#[test]
fn kv_write_decisions() {
    let space = chars_vec("s1");
    let ok = asimplevectors::handlers::put_key_decision(
        true,
        &space,
        &chars_vec("greeting"),
        &chars_vec("hello"),
    );
    assert_eq!(ok.status, 200);
    assert!(ok.log_entry.is_some());
    let empty = asimplevectors::handlers::put_key_decision(
        true,
        &space,
        &chars_vec(""),
        &chars_vec("hello"),
    );
    assert_eq!(empty.status, 400);
    assert!(empty.log_entry.is_none());
    let rm = asimplevectors::handlers::remove_key_decision(true, &space, &chars_vec("greeting"));
    assert_eq!(rm.status, 200);
    let rm_empty = asimplevectors::handlers::remove_key_decision(true, &space, &chars_vec(""));
    assert_eq!(rm_empty.status, 400);
    let forbidden = asimplevectors::handlers::put_key_decision(
        false,
        &space,
        &chars_vec("k"),
        &chars_vec("v"),
    );
    assert_eq!(forbidden.status, 403);
}

// the upload flow refuses every name but the twelve-digit form
#[test]
fn upload_name_rule() {
    let addr = chars_vec("127.0.0.1:21001");
    let ok = restore_upload_decision(true, &chars_vec("snapshot-202401020000.zip"), 1, &addr);
    assert_eq!(ok.status, 200);
    assert!(ok.log_entry.is_some());
    for bad in ["snapshot-20240102.zip", "snapshot-2024010200001.zip", "backup.zip", ""] {
        let d = restore_upload_decision(true, &chars_vec(bad), 1, &addr);
        assert_eq!(d.status, 400, "name {:?} must be refused", bad);
    }
    let forbidden = restore_upload_decision(false, &chars_vec("snapshot-202401020000.zip"), 1, &addr);
    assert_eq!(forbidden.status, 403);
}

// the result size a search body asks for: top_k wins over k, and 10 is
// the default
#[test]
fn top_k_extraction() {
    assert_eq!(asimplevectors::handlers::body_top_k(&chars_vec(r#"{"top_k":3,"k":7}"#)), 3);
    assert_eq!(asimplevectors::handlers::body_top_k(&chars_vec(r#"{"k":7}"#)), 7);
    assert_eq!(asimplevectors::handlers::body_top_k(&chars_vec(r#"{"vector":[1,2]}"#)), 10);
}
