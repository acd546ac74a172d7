use redis_server::commands::{Command, SetCommand, SetExistingOptions};
use redis_server::data::engine::InMemoryEngine;
use redis_server::data::shared::{process_get, process_set};
use redis_server::data::store::KvMap;
use redis_server::data::thread_engine::ThreadEngineInternal;
use redis_server::datatypes::DataType;
use redis_server::parser::parse_set;
use redis_server::server;
use redis_server::single_server;
use redis_server::multi_server;

fn plain_set(key: &str, value: &str) -> SetCommand {
    SetCommand {
        key: key.to_string(),
        value: value.to_string(),
        ..Default::default()
    }
}

#[test]
fn test_set_then_get_round_trip_map() {
    let mut map = KvMap::new();
    let reply = process_set(&mut map, plain_set("alpha", "one")).unwrap();
    assert_eq!(reply, DataType::SimpleString("OK".into()));
    let got = process_get(&map, "alpha".to_string()).unwrap();
    assert_eq!(got, DataType::BulkString("one".into()));
}

#[test]
fn test_set_then_get_round_trip_engine() {
    let mut engine = InMemoryEngine::new();
    engine.process_set(plain_set("alpha", "one")).unwrap();
    let got = engine.process_get("alpha".to_string()).unwrap();
    assert_eq!(got, DataType::BulkString("one".into()));
    // A key never written reads as nil.
    let missing = engine.process_get("beta".to_string()).unwrap();
    assert_eq!(missing, DataType::Nil);
}

#[test]
fn test_set_then_get_round_trip_worker() {
    let mut worker = ThreadEngineInternal::new();
    worker
        .process_command(Command::SetCmd(plain_set("alpha", "one")))
        .unwrap();
    let got = worker
        .process_command(Command::Get { key: "alpha".to_string() })
        .unwrap();
    assert_eq!(got, DataType::BulkString("one".into()));
}

#[test]
fn test_nx_second_write_is_a_no_op() {
    let mut map = KvMap::new();
    let mut cmd1 = plain_set("k", "v1");
    cmd1.set_existing = Some(SetExistingOptions::OnlySetIfNotExists);
    let mut cmd2 = plain_set("k", "v2");
    cmd2.set_existing = Some(SetExistingOptions::OnlySetIfNotExists);
    assert_eq!(
        process_set(&mut map, cmd1).unwrap(),
        DataType::SimpleString("OK".into())
    );
    assert_eq!(
        process_set(&mut map, cmd2).unwrap(),
        DataType::SimpleString("OK".into())
    );
    assert_eq!(
        process_get(&map, "k".to_string()).unwrap(),
        DataType::BulkString("v1".into())
    );
}

#[test]
fn test_xx_on_absent_key_stores_nothing() {
    let mut map = KvMap::new();
    let mut cmd = plain_set("k", "v1");
    cmd.set_existing = Some(SetExistingOptions::OnlySetIfExists);
    assert_eq!(
        process_set(&mut map, cmd).unwrap(),
        DataType::SimpleString("OK".into())
    );
    assert!(map.get("k").is_none());
    assert_eq!(process_get(&map, "k".to_string()).unwrap(), DataType::Nil);
}

#[test]
fn test_set_ex_stores_absolute_expiration() {
    // SET k v EX 10 issued at T = 1_000_000 ms stores T + 10_000.
    let now_ms: u128 = 1_000_000;
    let data = vec![
        DataType::BulkString("k".into()),
        DataType::BulkString("v".into()),
        DataType::BulkString("EX".into()),
        DataType::BulkString("10".into()),
    ];
    let cmd = match parse_set(now_ms, &data).unwrap() {
        Command::SetCmd(c) => c,
        other => panic!("expected a SET, got {:?}", other),
    };
    let mut map = KvMap::new();
    process_set(&mut map, cmd).unwrap();
    assert_eq!(map.get("k").unwrap().ttl, Some(1_010_000));
}

#[test]
fn test_set_pxat_stores_verbatim_expiration() {
    let data = vec![
        DataType::BulkString("k".into()),
        DataType::BulkString("v".into()),
        DataType::BulkString("PXAT".into()),
        DataType::BulkString("5678".into()),
    ];
    let cmd = match parse_set(123_456, &data).unwrap() {
        Command::SetCmd(c) => c,
        other => panic!("expected a SET, got {:?}", other),
    };
    let mut map = KvMap::new();
    process_set(&mut map, cmd).unwrap();
    assert_eq!(map.get("k").unwrap().ttl, Some(5678));
}

#[test]
fn test_set_get_returns_previous_value_and_stores_new() {
    let mut map = KvMap::new();
    process_set(&mut map, plain_set("k", "v1")).unwrap();
    let mut cmd2 = plain_set("k", "v2");
    cmd2.get_previous_value = true;
    let reply = process_set(&mut map, cmd2).unwrap();
    assert_eq!(reply, DataType::BulkString("v1".into()));
    assert_eq!(
        process_get(&map, "k".to_string()).unwrap(),
        DataType::BulkString("v2".into())
    );
}

#[test]
fn test_keep_previous_ttl_preserves_expiration() {
    let mut map = KvMap::new();
    let mut cmd1 = plain_set("k", "v0");
    cmd1.expiration = Some(100_000);
    process_set(&mut map, cmd1).unwrap();

    let mut cmd2 = plain_set("k", "v1");
    cmd2.keep_previous_ttl = true;
    process_set(&mut map, cmd2).unwrap();

    let rec = map.get("k").unwrap();
    assert_eq!(rec.ttl, Some(100_000));
    assert_eq!(
        process_get(&map, "k".to_string()).unwrap(),
        DataType::BulkString("v1".into())
    );
}

#[test]
fn test_get_previous_on_absent_key_replies_ok() {
    let mut map = KvMap::new();
    let mut cmd = plain_set("k", "v");
    cmd.get_previous_value = true;
    assert_eq!(
        process_set(&mut map, cmd).unwrap(),
        DataType::SimpleString("OK".into())
    );
}

#[test]
fn test_servers_dispatch_set_and_get() {
    let ok = DataType::SimpleString("OK".into());
    let stored = DataType::BulkString("v".into());

    let mut s1 = server::Server::new();
    assert_eq!(
        s1.process_command(Command::SetCmd(plain_set("k", "v"))).unwrap(),
        ok
    );
    assert_eq!(
        s1.process_command(Command::Get { key: "k".to_string() }).unwrap(),
        stored
    );

    let mut s2 = single_server::Server::new();
    assert_eq!(
        s2.process_command(Command::SetCmd(plain_set("k", "v"))).unwrap(),
        ok
    );
    assert_eq!(
        s2.process_command(Command::Get { key: "k".to_string() }).unwrap(),
        stored
    );

    let mut s3 = multi_server::Server::new();
    assert_eq!(
        s3.process_command(Command::SetCmd(plain_set("k", "v"))).unwrap(),
        ok
    );
    assert_eq!(
        s3.process_command(Command::Get { key: "k".to_string() }).unwrap(),
        stored
    );
}

#[test]
fn test_config_get_is_a_fixed_mock() {
    let mut s = single_server::Server::new();
    let reply = s
        .process_command(Command::ConfigGet { key: Some("anything".to_string()) })
        .unwrap();
    assert_eq!(
        reply,
        DataType::Array(vec![
            DataType::BulkString("save".into()),
            DataType::BulkString("3600 1 300 100 60 10000".into()),
        ])
    );
}

#[test]
fn test_dump_replies_nil_and_keeps_contents() {
    let mut engine = InMemoryEngine::new();
    engine.process_set(plain_set("a", "1")).unwrap();
    assert_eq!(engine.process_dump().unwrap(), DataType::Nil);
    assert_eq!(
        engine.process_get("a".to_string()).unwrap(),
        DataType::BulkString("1".into())
    );
}

#[test]
fn test_map_overwrite_keeps_one_entry() {
    let mut map = KvMap::new();
    process_set(&mut map, plain_set("k", "v1")).unwrap();
    process_set(&mut map, plain_set("k", "v2")).unwrap();
    assert_eq!(map.entry_count(), 1);
    assert_eq!(
        process_get(&map, "k".to_string()).unwrap(),
        DataType::BulkString("v2".into())
    );
}
