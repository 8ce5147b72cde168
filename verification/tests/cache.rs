use flame::cache::endpoint::{host_by_name, host_by_pattern, CacheEndpoint, InterfaceAddrs, ObjectEndpoint};
use flame::cache::flight::{
    action_kind, descriptor_key, extract_session_and_object_id, object_file_key, parse_put_action, parse_update_action, ActionKind,
    ObjectIndex,
};
use flame::cache::http;
use flame::cache::session::{Object, ObjectCache};
use flame::error::FlameError;

fn endpoint() -> CacheEndpoint {
    CacheEndpoint {
        scheme: "http".to_string(),
        host: "127.0.0.1".to_string(),
        port: 3456,
    }
}

fn ifaces() -> Vec<InterfaceAddrs> {
    vec![
        InterfaceAddrs {
            name: "lo".to_string(),
            ipv4: vec!["127.0.0.1".to_string()],
        },
        InterfaceAddrs {
            name: "eth0".to_string(),
            ipv4: vec!["10.0.0.5".to_string(), "10.0.0.6".to_string()],
        },
        InterfaceAddrs {
            name: "eth1".to_string(),
            ipv4: vec![],
        },
    ]
}

#[test]
fn endpoints_format() {
    let e = endpoint();
    assert_eq!(e.to_uri(), "http://127.0.0.1:3456");
    assert_eq!(e.objects(), "http://127.0.0.1:3456/objects");
    assert_eq!(e.object_endpoint("s1", "o1"), "http://127.0.0.1:3456/objects/s1/o1");
}

#[test]
fn endpoints_parse() {
    let e = CacheEndpoint::from_endpoint("grpc://cache.local").unwrap();
    assert_eq!((e.scheme.as_str(), e.host.as_str(), e.port), ("grpc", "cache.local", 9090));
    let e = CacheEndpoint::from_endpoint("grpcs://10.1.2.3:7000").unwrap();
    assert_eq!((e.scheme.as_str(), e.host.as_str(), e.port), ("grpcs", "10.1.2.3", 7000));
    assert!(matches!(CacheEndpoint::from_endpoint("not a url"), Err(FlameError::InvalidConfig(_))));
    assert!(matches!(CacheEndpoint::from_endpoint("unix:/tmp/sock"), Err(FlameError::InvalidConfig(_))));

    let e = CacheEndpoint::from_http_endpoint("http://127.0.0.1").unwrap();
    assert_eq!((e.host.as_str(), e.port), ("127.0.0.1", 8080));
    let e = CacheEndpoint::from_http_endpoint("unix:/tmp/sock").unwrap();
    assert_eq!(e.host, "0.0.0.0");

    let o = ObjectEndpoint::from_endpoint("http://127.0.0.1:3456/objects/abc").unwrap();
    assert_eq!(o.uuid, Some("objects".to_string()));
    let o = ObjectEndpoint::from_endpoint("http://127.0.0.1:3456").unwrap();
    assert_eq!(o.uuid, None);
    assert_eq!(o.port, 3456);
}

#[test]
fn hosts_are_picked_from_interfaces() {
    assert_eq!(host_by_pattern("^eth", &ifaces()).unwrap(), "10.0.0.5");
    assert_eq!(host_by_pattern("lo|eth", &ifaces()).unwrap(), "127.0.0.1");
    assert!(matches!(host_by_pattern("^eth1$", &ifaces()), Err(FlameError::InvalidConfig(_))));
    assert!(matches!(host_by_pattern("^wlan", &ifaces()), Err(FlameError::InvalidConfig(_))));
    assert!(matches!(host_by_pattern("(", &ifaces()), Err(FlameError::InvalidConfig(_))));
    assert_eq!(host_by_name("eth0", &ifaces()).unwrap(), "10.0.0.5");
    assert!(matches!(host_by_name("eth", &ifaces()), Err(FlameError::InvalidConfig(_))));
}

#[test]
fn session_cache_put_get_update_delete() {
    let mut cache = ObjectCache::new(endpoint());
    let m = cache.put_with_id("s1".to_string(), "o1".to_string(), vec![1, 2, 3]).unwrap();
    assert_eq!(m.version, 1);
    assert_eq!(m.size, 3);
    assert_eq!(m.endpoint, "http://127.0.0.1:3456/objects/s1/o1");

    let o = cache.get(&"s1".to_string(), &"o1".to_string()).unwrap();
    assert_eq!((o.version, o.data), (1, vec![1, 2, 3]));
    assert!(matches!(cache.get(&"s2".to_string(), &"o1".to_string()), Err(FlameError::NotFound(_))));
    assert!(matches!(cache.get(&"s1".to_string(), &"o2".to_string()), Err(FlameError::NotFound(_))));

    let stale = Object { version: 0, data: vec![9] };
    assert!(matches!(
        cache.update(&"s1".to_string(), &"o1".to_string(), stale),
        Err(FlameError::VersionMismatch(_))
    ));
    let m = cache
        .update(&"s1".to_string(), &"o1".to_string(), Object { version: 1, data: vec![7, 7] })
        .unwrap();
    assert_eq!((m.version, m.size), (2, 2));
    let o = cache.get(&"s1".to_string(), &"o1".to_string()).unwrap();
    assert_eq!((o.version, o.data), (2, vec![7, 7]));

    let m = cache.put("s1".to_string(), vec![4]).unwrap();
    assert_eq!(m.version, 1);
    let uid = m.endpoint.rsplit('/').next().unwrap().to_string();
    assert_eq!(uid.len(), 36);
    assert_ne!(uid, "o1");
    assert_eq!(cache.get(&"s1".to_string(), &uid).unwrap().data, vec![4]);

    cache.delete(&"s1".to_string()).unwrap();
    assert!(matches!(cache.get(&"s1".to_string(), &"o1".to_string()), Err(FlameError::NotFound(_))));
    assert!(matches!(cache.delete(&"s1".to_string()), Err(FlameError::NotFound(_))));
}

#[test]
fn http_cache_put_get_delete() {
    let mut cache = http::ObjectCache::new(endpoint());
    cache
        .put(http::Object {
            uid: "u1".to_string(),
            session_id: "s1".to_string(),
            version: 0,
            data: vec![1, 2],
        })
        .unwrap();
    let o = cache.get(&"s1".to_string(), &"u1".to_string()).unwrap().unwrap();
    assert_eq!(o.data, vec![1, 2]);
    assert!(cache.get(&"s1".to_string(), &"u2".to_string()).unwrap().is_none());
    cache.delete(&"s1".to_string()).unwrap();
    assert!(cache.get(&"s1".to_string(), &"u1".to_string()).unwrap().is_none());
    assert!(matches!(cache.delete(&"s1".to_string()), Err(FlameError::NotFound(_))));
}

#[test]
fn http_cache_from_config() {
    let cache = http::ObjectCache::from_config("http://0.0.0.0:3456", "eth0", &ifaces()).unwrap();
    assert_eq!(cache.endpoint().host, "10.0.0.5");
    assert_eq!(cache.endpoint().port, 3456);
    assert!(matches!(
        http::ObjectCache::from_config("http://0.0.0.0:3456", "wlan0", &ifaces()),
        Err(FlameError::InvalidConfig(_))
    ));
}

#[test]
fn flight_index_put_update_delete_list() {
    let mut index = ObjectIndex::new(CacheEndpoint {
        scheme: "grpc".to_string(),
        host: "10.0.0.5".to_string(),
        port: 9090,
    });
    let m = index.put_with_id("s1", "o1", 10);
    assert_eq!(m.key, "s1/o1");
    assert_eq!(m.endpoint, "grpc://10.0.0.5:9090");
    assert_eq!((m.version, m.size), (0, 10));
    index.put_with_id("s1", "o2", 20);
    index.put_with_id("s10", "o3", 30);
    assert!(index.contains(&"s1/o2".to_string()));

    let m = index.update(&"s1/o1".to_string(), 11).unwrap();
    assert_eq!(m.size, 11);
    assert!(matches!(index.update(&"s1".to_string(), 1), Err(FlameError::InvalidConfig(_))));
    assert!(matches!(index.update(&"a/b/c".to_string(), 1), Err(FlameError::InvalidConfig(_))));

    index.delete("s1");
    assert!(!index.contains(&"s1/o1".to_string()));
    assert!(!index.contains(&"s1/o2".to_string()));
    assert!(index.contains(&"s10/o3".to_string()));
    let all = index.list_all();
    assert_eq!(all.len(), 1);
    assert_eq!(all[0].key, "s10/o3");

    assert_eq!(ObjectIndex::object_id_or_new(Some("x".to_string())), "x");
    assert_eq!(ObjectIndex::object_id_or_new(None).len(), 36);
}

#[test]
fn flight_actions() {
    assert!(matches!(action_kind("PUT"), Some(ActionKind::Put)));
    assert!(matches!(action_kind("UPDATE"), Some(ActionKind::Update)));
    assert!(matches!(action_kind("DELETE"), Some(ActionKind::Delete)));
    assert!(action_kind("GET").is_none());

    let (s, d) = parse_put_action("s1:aGVsbG8=").unwrap();
    assert_eq!(s, "s1");
    assert_eq!(d, b"hello".to_vec());
    assert!(matches!(parse_put_action("s1:x:y"), Err(FlameError::InvalidConfig(_))));
    assert!(matches!(parse_put_action("s1:%%%"), Err(FlameError::InvalidConfig(_))));

    let (k, d) = parse_update_action("s1/o1:aGk=").unwrap();
    assert_eq!(k, "s1/o1");
    assert_eq!(d, b"hi".to_vec());
    assert!(matches!(parse_update_action("nocolon"), Err(FlameError::InvalidConfig(_))));

    assert_eq!(descriptor_key(&vec!["s1".to_string(), "o1".to_string()]).unwrap(), "s1/o1");
    assert!(matches!(descriptor_key(&vec![]), Err(FlameError::InvalidConfig(_))));
}

#[test]
fn object_files_are_found_by_extension() {
    assert_eq!(object_file_key("s1", "o1.arrow"), Some("s1/o1".to_string()));
    assert_eq!(object_file_key("s1", "a.b.arrow"), Some("s1/a.b".to_string()));
    assert_eq!(object_file_key("s1", ".arrow"), None);
    assert_eq!(object_file_key("s1", "o1.txt"), None);
    assert_eq!(object_file_key("s1", "arrow"), None);
    assert_eq!(object_file_key("s1", "o1.arrow.bak"), None);
}

#[test]
fn error_messages_name_their_subject() {
    match CacheEndpoint::from_endpoint("not a url") {
        Err(FlameError::InvalidConfig(m)) => assert_eq!(m, "invalid endpoint <not a url>"),
        _ => panic!("expected an invalid configuration"),
    }
    match CacheEndpoint::from_endpoint("unix:/tmp/sock") {
        Err(FlameError::InvalidConfig(m)) => assert_eq!(m, "no host in endpoint <unix:/tmp/sock>"),
        _ => panic!("expected an invalid configuration"),
    }
    match host_by_name("eth1", &ifaces()) {
        Err(FlameError::InvalidConfig(m)) => assert_eq!(m, "network interface <eth1> has no IPv4 addresses"),
        _ => panic!("expected an invalid configuration"),
    }
    match host_by_pattern("^wlan", &ifaces()) {
        Err(FlameError::InvalidConfig(m)) => assert_eq!(m, "network interface <^wlan> not found"),
        _ => panic!("expected an invalid configuration"),
    }
    let mut cache = ObjectCache::new(endpoint());
    match cache.get(&"s9".to_string(), &"o".to_string()) {
        Err(FlameError::NotFound(m)) => assert_eq!(m, "session <s9> not found"),
        _ => panic!("expected not found"),
    }
    cache.put_with_id("s9".to_string(), "o".to_string(), vec![]).unwrap();
    match cache.get(&"s9".to_string(), &"p".to_string()) {
        Err(FlameError::NotFound(m)) => assert_eq!(m, "object <p> not found"),
        _ => panic!("expected not found"),
    }
    cache.update(&"s9".to_string(), &"o".to_string(), Object { version: 1, data: vec![] }).unwrap();
    match cache.update(&"s9".to_string(), &"o".to_string(), Object { version: 1, data: vec![] }) {
        Err(FlameError::VersionMismatch(m)) => assert_eq!(m, "object <o> version is old"),
        _ => panic!("expected a version mismatch"),
    }
    match ObjectIndex::check_key("a/b/c") {
        Err(FlameError::InvalidConfig(m)) => assert_eq!(m, "Invalid key format: a/b/c"),
        _ => panic!("expected an invalid configuration"),
    }
    match parse_put_action("no-colon") {
        Err(FlameError::InvalidConfig(m)) => assert_eq!(m, "Invalid PUT action format"),
        _ => panic!("expected an invalid configuration"),
    }
}

#[test]
fn flight_descriptors_name_session_and_object() {
    let mut s = None;
    let mut o = None;
    extract_session_and_object_id(Some("s1/o1"), &mut s, &mut o);
    assert_eq!((s.clone(), o.clone()), (Some("s1".to_string()), Some("o1".to_string())));
    extract_session_and_object_id(Some("s2"), &mut s, &mut o);
    assert_eq!(s, Some("s1".to_string()));

    let mut s = None;
    let mut o = None;
    extract_session_and_object_id(Some("s2"), &mut s, &mut o);
    assert_eq!((s, o), (Some("s2".to_string()), None));

    let mut s = None;
    let mut o = None;
    extract_session_and_object_id(Some("a/b/c"), &mut s, &mut o);
    assert_eq!((s, o), (None, None));
}

#[test]
fn loaded_objects_are_indexed_and_put_answers_describe_them() {
    let mut index = ObjectIndex::new(endpoint());
    index.index_loaded(&"s1/o9".to_string(), 42);
    assert!(index.contains(&"s1/o9".to_string()));
    let all = index.list_all();
    assert_eq!((all[0].key.as_str(), all[0].size, all[0].version), ("s1/o9", 42, 0));

    let cache = http::ObjectCache::new(endpoint());
    let o = http::Object {
        uid: "u1".to_string(),
        session_id: "s1".to_string(),
        version: 3,
        data: vec![1],
    };
    let info = cache.object_info(&o, 77);
    assert_eq!(info.endpoint, "http://127.0.0.1:3456/objects/s1/u1");
    assert_eq!((info.version, info.size), (3, 77));
}
