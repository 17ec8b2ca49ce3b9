use stratis_core::dbus_api::{
    engine_to_dbus_err_tuple, msg_code_ok, msg_string_ok, tuple_to_option, DbusErrorEnum,
};
use stratis_core::errors::{EngineError, ErrorEnum};

#[test]
fn test_tuple_to_option() {
    assert_eq!(tuple_to_option((true, 5u32)), Some(5u32));
    assert_eq!(tuple_to_option((false, 5u32)), None);
    assert_eq!(tuple_to_option((true, "x")), Some("x"));
}

#[test]
fn test_ok_code_and_string() {
    assert_eq!(msg_code_ok(), 0);
    assert_eq!(msg_string_ok(), "Ok");
}

#[test]
fn test_category_codes() {
    assert_eq!(DbusErrorEnum::OK.code(), 0);
    assert_eq!(DbusErrorEnum::ERROR.code(), 1);
    assert_eq!(DbusErrorEnum::ALREADY_EXISTS.code(), 2);
    assert_eq!(DbusErrorEnum::BUSY.code(), 3);
    assert_eq!(DbusErrorEnum::INTERNAL_ERROR.code(), 4);
    assert_eq!(DbusErrorEnum::IO_ERROR.code(), 5);
    assert_eq!(DbusErrorEnum::NIX_ERROR.code(), 6);
    assert_eq!(DbusErrorEnum::NOTFOUND.code(), 7);
}

#[test]
fn test_engine_errors_map_to_codes() {
    let cases: Vec<(EngineError, u16)> = vec![
        (EngineError::Engine(ErrorEnum::Error, "e".to_owned()), 1),
        (EngineError::Engine(ErrorEnum::AlreadyExists, "a".to_owned()), 2),
        (EngineError::Engine(ErrorEnum::Busy, "b".to_owned()), 3),
        (EngineError::Engine(ErrorEnum::Invalid, "i".to_owned()), 1),
        (EngineError::Engine(ErrorEnum::NotFound, "n".to_owned()), 7),
        (EngineError::Io("io".to_owned()), 5),
        (EngineError::Nix("nx".to_owned()), 6),
        (EngineError::Uuid("u".to_owned()), 4),
        (EngineError::Utf8("t".to_owned()), 4),
        (EngineError::Serde("s".to_owned()), 4),
        (EngineError::Dm("d".to_owned()), 4),
    ];
    for (err, code) in cases {
        let (c, msg) = engine_to_dbus_err_tuple(&err);
        assert_eq!(c, code);
        assert_eq!(msg, err.description());
    }
}

#[test]
fn test_description_carries_message() {
    let err = EngineError::Engine(ErrorEnum::AlreadyExists, "name1".to_owned());
    assert_eq!(err.description(), "name1");
    let err = EngineError::Io("boom".to_owned());
    assert_eq!(err.description(), "boom");
}
