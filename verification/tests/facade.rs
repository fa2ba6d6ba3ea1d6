use asimplevectors::bo::ATinyVectorsBO;
use asimplevectors::text::chars_vec;

#[test]
fn test_atinyvectors_bo() {
    let mut bo = ATinyVectorsBO::new();

    let create_space_json = r#"
    {
        "name": "spacename",
        "dimension": 128,
        "metric": "cosine",
        "hnsw_config": {
            "ef_construct": 123
        },
        "quantization_config": {
            "scalar": {
                "type": "int8",
                "quantile": 0.99,
                "always_ram": true
            }
        },
        "dense": {
            "dimension": 1536,
            "metric": "Cosine",
            "hnsw_config": {
                "m": 32,
                "ef_construct": 123
            },
            "quantization_config": {
                "scalar": {
                    "type": "int8",
                    "quantile": 0.8
                }
            }
        },
        "sparse": {
            "metric": "Cosine"
        },
        "indexes": {
            "index1": {
                "dimension": 4,
                "metric": "Cosine",
                "hnsw_config": {
                    "m": 20
                },
                "quantization_config": {
                    "scalar": {
                        "type": "int8",
                        "quantile": 0.6
                    }
                }
            },
            "index2": {
                "dimension": 4,
                "metric": "Cosine",
                "hnsw_config": {
                    "m": 20
                },
                "quantization_config": {
                    "scalar": {
                        "type": "int8",
                        "quantile": 0.6
                    }
                }
            }
        }
    }"#;

    let create_space_result = bo.create_space(create_space_json);
    assert!(
        create_space_result.is_ok(),
        "Failed to create space: {:?}",
        create_space_result.err()
    );

    let create_version_json = r#"
    {
        "name": "version1",
        "description": "Initial version",
        "tag": "v1.0",
        "is_default": true
    }"#;

    let create_version_result = bo.create_version("spacename", create_version_json);
    assert!(
        create_version_result.is_ok(),
        "Failed to create version: {:?}",
        create_version_result.err()
    );

    let get_version_result = bo.get_version_by_name("spacename", "version1");
    assert!(
        get_version_result.is_ok(),
        "Failed to get version by name: {:?}",
        get_version_result.err()
    );

    let version = get_version_result.unwrap();
    assert!(version.contains("version1"));
}

#[test]
fn space_lifecycle() {
    let mut bo = ATinyVectorsBO::new();
    let body = r#"{"name":"s1","dimension":4,"metric":"l2"}"#;
    assert!(bo.create_space(body).is_ok());

    let got = bo.get_space_by_name("s1").unwrap();
    assert_eq!(got, "{\"spaceId\":1,\"name\":\"s1\",\"dimension\":4,\"metric\":\"l2\"}");

    let by_id = bo.get_space_by_id(1).unwrap();
    assert_eq!(by_id, got);

    let listing = bo.get_space_lists().unwrap();
    assert_eq!(listing, "{\"values\":[{\"spacename\":\"s1\",\"id\":1}]}");

    // a second creation of the same name is refused by the engine
    let again = bo.create_space(body);
    assert_eq!(again.err().unwrap(), "space already exists");

    assert!(bo.delete_space("s1").is_ok());
    assert!(bo.get_space_by_name("s1").is_err());
    assert_eq!(bo.get_space_lists().unwrap(), "{\"values\":[]}");
}

#[test]
fn default_version_implicit() {
    let mut bo = ATinyVectorsBO::new();
    bo.create_space(r#"{"name":"s1","dimension":4,"metric":"l2"}"#).unwrap();

    // the space creation brought a default version along
    let v = bo.get_default_version("s1").unwrap();
    assert_eq!(
        v,
        "{\"id\":1,\"unique_id\":1,\"name\":\"default\",\"description\":\"\",\"tag\":\"\",\"is_default\":true}"
    );

    bo.upsert_vectors("s1", 0, r#"{"vectors":[{"id":7,"data":[1,0,0,0]}]}"#).unwrap();
    let listed = bo.get_vectors_by_version_id(1).unwrap();
    assert_eq!(
        listed,
        "{\"vectors\":[{\"id\":7,\"data\":[1,0,0,0],\"metadata\":null}],\"total_count\":1}"
    );

    let found = bo.search("s1", r#"{"vector":[1,0,0,0]}"#, 10).unwrap();
    assert_eq!(found, "[{\"id\":7}]");
}

#[test]
fn upsert_replaces_by_key() {
    let mut bo = ATinyVectorsBO::new();
    bo.create_space(r#"{"name":"s1","dimension":4,"metric":"l2"}"#).unwrap();
    bo.upsert_vectors("s1", 0, r#"{"vectors":[{"id":7,"data":[1,0,0,0]}]}"#).unwrap();
    bo.upsert_vectors("s1", 0, r#"{"vectors":[{"id":7,"data":[0,1,0,0]},{"id":8,"data":[9,9,9,9]}]}"#)
        .unwrap();
    let listed = bo.get_vectors_by_version_id(1).unwrap();
    assert_eq!(
        listed,
        "{\"vectors\":[{\"id\":7,\"data\":[0,1,0,0],\"metadata\":null},{\"id\":8,\"data\":[9,9,9,9],\"metadata\":null}],\"total_count\":1}"
            .replace("\"total_count\":1", "\"total_count\":2")
    );
}

#[test]
fn default_version_demoted_on_new_default() {
    let mut bo = ATinyVectorsBO::new();
    bo.create_space(r#"{"name":"s1","dimension":4,"metric":"l2"}"#).unwrap();
    bo.create_version("s1", r#"{"name":"version1","is_default":true}"#).unwrap();
    let v = bo.get_default_version("s1").unwrap();
    assert!(v.contains("\"name\":\"version1\""));
    assert!(v.contains("\"is_default\":true"));
    // the old default is demoted, not removed
    let listing = bo.get_version_lists("s1").unwrap();
    assert!(listing.contains("\"name\":\"default\""));
    assert!(listing.contains("\"total_count\":2"));

    // version lookup by unique id still reaches the first version
    let first = bo.get_version_by_id("s1", 1).unwrap();
    assert!(first.contains("\"is_default\":false"));
}

#[test]
fn version_errors() {
    let mut bo = ATinyVectorsBO::new();
    assert_eq!(bo.create_version("ghost", r#"{"name":"v"}"#).err().unwrap(), "no such space");
    bo.create_space(r#"{"name":"s1","dimension":4,"metric":"l2"}"#).unwrap();
    assert_eq!(bo.get_version_by_id("s1", 9).err().unwrap(), "no such version");
    assert_eq!(bo.get_version_by_name("s1", "nope").err().unwrap(), "no such version");
    assert_eq!(
        bo.upsert_vectors("s1", 5, r#"{"vectors":[{"id":1,"data":[1]}]}"#).err().unwrap(),
        "no such version"
    );
    assert_eq!(bo.create_space(r#"{"dimension":4}"#).err().unwrap(), "invalid space payload");
    assert_eq!(
        bo.upsert_vectors("s1", 0, r#"{"vectors":[{"data":[1]}]}"#).err().unwrap(),
        "invalid vectors payload"
    );
}

#[test]
fn id_cache_coherence() {
    let mut bo = ATinyVectorsBO::new();
    bo.create_space(r#"{"name":"s1","dimension":4,"metric":"l2"}"#).unwrap();
    let engine = &bo.engine;
    let name = chars_vec("s1");
    let vid = bo.id_cache.get_default_version_id(engine, &name);
    assert_eq!(vid, 1);
    // remembered answers keep agreeing with the metadata
    let vid2 = bo.id_cache.get_version_id(engine, &name, 1);
    assert_eq!(vid2, 1);
    let viid = bo.id_cache.get_vector_index_id(engine, &name, 0);
    assert_eq!(viid, 1);
    let back = bo
        .id_cache
        .get_space_name_and_version_unique_id(engine, 1)
        .unwrap();
    assert_eq!(asimplevectors::text::string_from_chars(&back.0), "s1");
    assert_eq!(back.1, 1);
}

#[test]
fn get_vectors_pagination() {
    let mut bo = ATinyVectorsBO::new();
    bo.create_space(r#"{"name":"s1","dimension":2,"metric":"l2"}"#).unwrap();
    bo.upsert_vectors(
        "s1",
        0,
        r#"{"vectors":[{"id":1,"data":[1,0]},{"id":2,"data":[0,1]},{"id":3,"data":[1,1]}]}"#,
    )
    .unwrap();
    let page = bo.get_vectors("s1", 0, 1, 1).unwrap();
    assert_eq!(
        page,
        "{\"vectors\":[{\"id\":2,\"data\":[0,1],\"metadata\":null}],\"total_count\":3}"
    );
    let beyond = bo.get_vectors("s1", 0, 5, 10).unwrap();
    assert_eq!(beyond, "{\"vectors\":[],\"total_count\":3}");
}

#[test]
fn rerank_reports_candidates() {
    let mut bo = ATinyVectorsBO::new();
    bo.create_space(r#"{"name":"s1","dimension":2,"metric":"l2"}"#).unwrap();
    bo.upsert_vectors("s1", 0, r#"{"vectors":[{"id":4,"data":[1,0]},{"id":5,"data":[0,1]}]}"#)
        .unwrap();
    let hits = bo.rerank("s1", 0, r#"{"vector":[1,0],"tokens":["a"]}"#, 1).unwrap();
    assert_eq!(hits, "[{\"id\":4}]");
}

// after any sequence of version creations, exactly one version per space
// carries the default flag
#[test]
fn unique_default_after_version_sequence() {
    let mut bo = ATinyVectorsBO::new();
    bo.create_space(r#"{"name":"s1","dimension":2,"metric":"l2"}"#).unwrap();
    bo.create_version("s1", r#"{"name":"a","is_default":false}"#).unwrap();
    bo.create_version("s1", r#"{"name":"b","is_default":true}"#).unwrap();
    bo.create_version("s1", r#"{"name":"c","is_default":true}"#).unwrap();
    bo.create_version("s1", r#"{"name":"d"}"#).unwrap();
    let listing = bo.get_version_lists("s1").unwrap();
    assert_eq!(listing.matches("\"is_default\":true").count(), 1);
    assert!(listing.contains("\"total_count\":5"));
    let v = bo.get_default_version("s1").unwrap();
    assert!(v.contains("\"name\":\"c\""));
}
