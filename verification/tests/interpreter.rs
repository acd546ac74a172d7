use std::time::Duration;

use redis_server::commands::{Command, SetCommand, SetExistingOptions};
use redis_server::datatypes::DataType;
use redis_server::parser::parse_set;

#[test]
pub fn parser_test_set_kv() {
    let data = DataType::Array(vec![
        DataType::BulkString("SET".into()),
        DataType::BulkString("X".into()),
        DataType::BulkString("1".into()),
    ]);

    let output = data
        .to_command()
        .expect("Expected the command to parse successfully");

    assert_eq!(
        output,
        Command::SetCmd(SetCommand {
            key: "X".into(),
            value: "1".into(),
            ..Default::default()
        })
    );
}

#[test]
pub fn parser_test_get_key() {
    let data = DataType::Array(vec![
        DataType::BulkString("GET".into()),
        DataType::BulkString("Y".into()),
    ]);

    let output = data
        .to_command()
        .expect("Expected the command to parse successfully");

    assert_eq!(output, Command::Get { key: "Y".into() });
}

#[test]
pub fn parser_test_invalid_structure() {
    let data = DataType::Array(vec![
        DataType::BulkString("SET".into()),
        DataType::BulkString("Z".into()),
        DataType::BulkString("2".into()),
        DataType::BulkString("3".into()),
    ]);

    let output = data.to_command();

    assert!(output.is_err());
}

#[test]
pub fn parser_test_unknown_command() {
    let data = DataType::Array(vec![
        DataType::BulkString("UNKNOWN".into()),
        DataType::BulkString("A".into()),
        DataType::BulkString("B".into()),
    ]);

    let output = data.to_command();

    assert!(output.is_err());
}

#[test]
pub fn datatypes_test_set_kv() {
    let data = DataType::Array(vec![
        DataType::BulkString("SET".into()),
        DataType::BulkString("X".into()),
        DataType::BulkString("1".into()),
    ]);

    let output = data
        .to_command()
        .expect("Expected the command to parse successfully");

    assert_eq!(
        output,
        Command::SetCmd(SetCommand {
            key: "X".into(),
            value: "1".into(),
            ..Default::default()
        })
    );
}

#[test]
pub fn datatypes_test_get_key() {
    let data = DataType::Array(vec![
        DataType::BulkString("GET".into()),
        DataType::BulkString("Y".into()),
    ]);

    let output = data
        .to_command()
        .expect("Expected the command to parse successfully");

    assert_eq!(output, Command::Get { key: "Y".into() });
}

#[test]
pub fn datatypes_test_invalid_structure() {
    let data = DataType::Array(vec![
        DataType::BulkString("SET".into()),
        DataType::BulkString("Z".into()),
        DataType::BulkString("2".into()),
        DataType::BulkString("3".into()),
    ]);

    let output = data.to_command();

    assert!(output.is_err());
}

#[test]
pub fn datatypes_test_unknown_command() {
    let data = DataType::Array(vec![
        DataType::BulkString("UNKNOWN".into()),
        DataType::BulkString("A".into()),
        DataType::BulkString("B".into()),
    ]);

    let output = data.to_command();

    assert!(output.is_err());
}

#[test]
pub fn test_set_ex() {
    let data = vec![
        DataType::BulkString("X".into()),
        DataType::BulkString("1".into()),
        DataType::BulkString("EX".into()),
        DataType::BulkString("10".into()),
    ];

    let output = parse_set(Duration::from_secs(10).as_millis(), &data)
        .expect("Expect parsing to be successful");

    assert_eq!(
        output,
        Command::SetCmd(SetCommand {
            key: "X".into(),
            value: "1".into(),
            expiration: Some(Duration::from_secs(20).as_millis()),
            ..Default::default()
        })
    );
}

#[test]
pub fn test_set_px() {
    let data = vec![
        DataType::BulkString("Y".into()),
        DataType::BulkString("2".into()),
        DataType::BulkString("PX".into()),
        DataType::BulkString("10000".into()),
    ];

    let output = parse_set(Duration::from_secs(10).as_millis(), &data)
        .expect("Expect parsing to be successful");

    assert_eq!(
        output,
        Command::SetCmd(SetCommand {
            key: "Y".into(),
            value: "2".into(),
            expiration: Some(Duration::from_millis(20000).as_millis()),
            ..Default::default()
        })
    );
}

#[test]
pub fn test_set_exat() {
    let data = vec![
        DataType::BulkString("Z".into()),
        DataType::BulkString("3".into()),
        DataType::BulkString("EXAT".into()),
        DataType::BulkString("1234".into()),
    ];

    let output = parse_set(Duration::from_secs(10).as_millis(), &data)
        .expect("Expect parsing to be successful");

    assert_eq!(
        output,
        Command::SetCmd(SetCommand {
            key: "Z".into(),
            value: "3".into(),
            expiration: Some(Duration::from_secs(1234).as_millis()),
            ..Default::default()
        })
    );
}

#[test]
pub fn test_set_pxat() {
    let data = vec![
        DataType::BulkString("A".into()),
        DataType::BulkString("4".into()),
        DataType::BulkString("PXAT".into()),
        DataType::BulkString("5678".into()),
    ];

    let output = parse_set(Duration::from_secs(10).as_millis(), &data)
        .expect("Expect parsing to be successful");

    assert_eq!(
        output,
        Command::SetCmd(SetCommand {
            key: "A".into(),
            value: "4".into(),
            expiration: Some(5678),
            ..Default::default()
        })
    );
}

#[test]
pub fn test_set_nx() {
    let data = vec![
        DataType::BulkString("X".into()),
        DataType::BulkString("1".into()),
        DataType::BulkString("NX".into()),
    ];

    let output = parse_set(Duration::from_secs(10).as_millis(), &data)
        .expect("Expect parsing to be successful");

    assert_eq!(
        output,
        Command::SetCmd(SetCommand {
            key: "X".into(),
            value: "1".into(),
            set_existing: Some(SetExistingOptions::OnlySetIfNotExists),
            ..Default::default()
        })
    );
}

#[test]
pub fn test_set_xx() {
    let data = vec![
        DataType::BulkString("X".into()),
        DataType::BulkString("1".into()),
        DataType::BulkString("XX".into()),
    ];

    let output = parse_set(Duration::from_secs(10).as_millis(), &data)
        .expect("Expect parsing to be successful");

    assert_eq!(
        output,
        Command::SetCmd(SetCommand {
            key: "X".into(),
            value: "1".into(),
            set_existing: Some(SetExistingOptions::OnlySetIfExists),
            ..Default::default()
        })
    );
}

#[test]
fn test_interpret_errors_name_their_cause() {
    // Not an array at the top level.
    assert_eq!(
        DataType::BulkString("SET".into()).to_command(),
        Err("Invalid command".to_string())
    );
    // An empty array.
    assert_eq!(
        DataType::Array(vec![]).to_command(),
        Err("Invalid array shape".to_string())
    );
    // A command name that is not a bulk string.
    assert_eq!(
        DataType::Array(vec![DataType::SimpleString("SET".into())]).to_command(),
        Err("Invalid array command type, expected bulk string".to_string())
    );
    // An unknown command names the unrecognized word, lowercased.
    assert_eq!(
        DataType::Array(vec![DataType::BulkString("FOO".into())]).to_command(),
        Err("Unknown command: foo".to_string())
    );
    // GET wants exactly one key.
    assert_eq!(
        DataType::Array(vec![
            DataType::BulkString("GET".into()),
            DataType::BulkString("a".into()),
            DataType::BulkString("b".into()),
        ])
        .to_command(),
        Err("Invalid structure".to_string())
    );
}

#[test]
fn test_set_option_errors() {
    // A flag that wants a numeric argument, with none following.
    let data = vec![
        DataType::BulkString("k".into()),
        DataType::BulkString("v".into()),
        DataType::BulkString("EX".into()),
    ];
    assert_eq!(
        parse_set(0, &data),
        Err("Invalid datatype, expected BulkString".to_string())
    );

    // A non-numeric argument.
    let data = vec![
        DataType::BulkString("k".into()),
        DataType::BulkString("v".into()),
        DataType::BulkString("PX".into()),
        DataType::BulkString("soon".into()),
    ];
    assert_eq!(
        parse_set(0, &data),
        Err("Invalid numeric argument".to_string())
    );

    // An unrecognized option token is named in the error.
    let data = vec![
        DataType::BulkString("k".into()),
        DataType::BulkString("v".into()),
        DataType::BulkString("FROB".into()),
    ];
    assert_eq!(
        parse_set(0, &data),
        Err("Invalid command sequence: FROB".to_string())
    );

    // An option that is not a bulk string.
    let data = vec![
        DataType::BulkString("k".into()),
        DataType::BulkString("v".into()),
        DataType::Nil,
    ];
    assert_eq!(
        parse_set(0, &data),
        Err("Invalid datatype, expected BulkString".to_string())
    );
}

#[test]
fn test_dump_parses_and_ignores_arguments() {
    let data = DataType::Array(vec![
        DataType::BulkString("DUMP".into()),
        DataType::BulkString("whatever".into()),
    ]);
    assert_eq!(data.to_command(), Ok(Command::Dump));
}

#[test]
fn test_command_name_is_case_insensitive() {
    let data = DataType::Array(vec![
        DataType::BulkString("sEt".into()),
        DataType::BulkString("k".into()),
        DataType::BulkString("v".into()),
    ]);
    assert!(data.to_command().is_ok());
}
