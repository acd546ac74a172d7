use redis_server::data::shared::shard_index;
use redis_server::datatypes::DataType;
use redis_server::multi_server;
use redis_server::protocol::stream_parser::{ParseResult, Parser};
use redis_server::server;
use redis_server::single_server;

#[test]
fn test_decode_array_of_bulk_strings() {
    // *2, $3, SET, $1, X decodes to Array[BulkString("SET"), BulkString("X")].
    let mut parser = Parser::new();
    let lines = ["*2", "$3", "SET", "$1", "X"];
    let mut complete = false;
    for line in lines {
        assert!(!complete, "decoder completed before the last line");
        match parser.next(line).unwrap() {
            ParseResult::Complete => complete = true,
            ParseResult::IsMore => {},
        }
    }
    assert!(complete, "decoder did not complete on the last line");
    let value = parser.to_datatype().unwrap();
    assert_eq!(
        value,
        DataType::Array(vec![
            DataType::BulkString("SET".into()),
            DataType::BulkString("X".into()),
        ])
    );
}

#[test]
fn test_decode_string_length_mismatch_is_an_error() {
    // $3 announces three characters; a two-character line is a parse
    // error, not a crash.
    let mut parser = Parser::new();
    assert!(matches!(parser.next("$3").unwrap(), ParseResult::IsMore));
    assert!(parser.next("ab").is_err());
}

#[test]
fn test_decode_bad_count_is_an_error() {
    let mut parser = Parser::new();
    assert!(parser.next("*x").is_err());
    let mut parser = Parser::new();
    assert!(parser.next("$").is_err());
}

#[test]
fn test_decode_truncated_array_is_an_error() {
    let mut parser = Parser::new();
    assert!(matches!(parser.next("*2").unwrap(), ParseResult::IsMore));
    assert!(matches!(parser.next("$1").unwrap(), ParseResult::IsMore));
    assert!(matches!(parser.next("a").unwrap(), ParseResult::IsMore));
    // The stream ends here: the value cannot be materialized.
    assert!(parser.to_datatype().is_err());
}

#[test]
fn test_decode_inline_token_completes_as_nil() {
    let mut parser = Parser::new();
    assert!(matches!(parser.next("PING").unwrap(), ParseResult::Complete));
    assert_eq!(parser.to_datatype().unwrap(), DataType::Nil);
}

#[test]
fn test_decode_nested_array() {
    let mut parser = Parser::new();
    for line in ["*2", "*1", "$1", "a", "$1", "b"] {
        parser.next(line).unwrap();
    }
    assert_eq!(
        parser.to_datatype().unwrap(),
        DataType::Array(vec![
            DataType::Array(vec![DataType::BulkString("a".into())]),
            DataType::BulkString("b".into()),
        ])
    );
}

#[test]
fn test_encode_bulk_string() {
    let v = DataType::BulkString("ab".into());
    assert_eq!(v.to_wire_protocol(), "$2\r\nab\r\n");
}

#[test]
fn test_encode_nil() {
    assert_eq!(DataType::Nil.to_wire_protocol(), "$-1\r\n");
}

#[test]
fn test_encode_array_of_simple_string() {
    let v = DataType::Array(vec![DataType::SimpleString("OK".into())]);
    assert_eq!(v.to_wire_protocol(), "*1\r\n+OK\r\n");
}

#[test]
fn test_encode_error_and_long_bulk() {
    assert_eq!(
        DataType::Error("boom".into()).to_wire_protocol(),
        "-boom\r\n"
    );
    assert_eq!(
        DataType::BulkString("0123456789ab".into()).to_wire_protocol(),
        "$12\r\n0123456789ab\r\n"
    );
}

#[test]
fn test_unknown_command_reports_error_on_every_strategy() {
    let foo = DataType::Array(vec![DataType::BulkString("FOO".into())]);
    let want = DataType::Error("Unknown command: foo".into());

    let mut s1 = server::Server::new();
    assert_eq!(s1.respond_at(&foo, 0), want);

    let mut s2 = single_server::Server::new();
    assert_eq!(s2.respond_at(&foo, 0), want);

    let mut s3 = multi_server::Server::new();
    assert_eq!(s3.respond_at(&foo, 0), want);
}

#[test]
fn test_shard_index_is_deterministic() {
    for key in ["", "a", "alpha", "beta", "some longer key"] {
        let first = shard_index(key, 8);
        let second = shard_index(key, 8);
        assert_eq!(first, second);
        assert!(first < 8);
        // The same key routes identically however often it is asked.
        assert_eq!(shard_index(key, 8), first);
    }
}

#[test]
fn test_round_trip_through_decoder_and_encoder() {
    // A command array built by the encoder decodes back to itself.
    let v = DataType::Array(vec![
        DataType::BulkString("GET".into()),
        DataType::BulkString("key".into()),
    ]);
    let wire = v.to_wire_protocol();
    let mut parser = Parser::new();
    let mut complete = false;
    for line in wire.split("\r\n") {
        if line.is_empty() {
            break;
        }
        if let ParseResult::Complete = parser.next(line).unwrap() {
            complete = true;
            break;
        }
    }
    assert!(complete);
    assert_eq!(parser.to_datatype().unwrap(), v);
}
