use pg_typescript::convert::{
    decode_kind, DecodeKind, FloatKind, JsNumber, BOOLOID, FLOAT8OID, INT4OID, INT8OID, JSONBOID,
    JSONOID, TEXTOID, UNKNOWNOID,
};
use pg_typescript::error::ErrorClass;
use pg_typescript::extensions::console::{console_line, MessageLevel};
use pg_typescript::extensions::pg::{
    bind_inferred_value, bind_numbered_param, bind_param, bind_typed_value, column_name_error,
    format_pg_error, map_command, spi_arguments, JsonValue, PgExecuteAllowed, SpiOkCodes,
    SpiParam, SpiValue, WireParam, WireTypeRef, WireValue,
};

fn number(v: f64) -> JsNumber {
    let kind = if !v.is_finite() {
        FloatKind::NotFinite
    } else if v.fract() == 0.0 {
        FloatKind::Integer(v as i128)
    } else {
        FloatKind::Fraction
    };
    JsNumber {
        kind,
        text: v.to_string(),
        bits: v.to_bits(),
    }
}

fn wire_number(v: f64) -> WireValue {
    WireValue::Number { value: number(v) }
}

fn bigint(text: &str) -> WireValue {
    WireValue::Bigint { value: text.to_string() }
}

#[test]
fn wire_value_json_rejects_bigint() {
    let err = WireValue::Bigint {
        value: "42".to_string(),
    }
    .to_json_value()
    .unwrap_err();
    assert!(err.to_string().contains("bigint values are not supported"));
}

#[test]
fn empty_command_maps() {
    assert_eq!(map_command(0, None).unwrap(), "EMPTY");
}

#[test]
fn commands_are_named() {
    let name = |code: SpiOkCodes| map_command(1, Some(Ok(code))).unwrap();
    assert_eq!(name(SpiOkCodes::Select), "SELECT");
    assert_eq!(name(SpiOkCodes::SelInto), "SELECT");
    assert_eq!(name(SpiOkCodes::InsertReturning), "INSERT");
    assert_eq!(name(SpiOkCodes::Update), "UPDATE");
    assert_eq!(name(SpiOkCodes::DeleteReturning), "DELETE");
    assert_eq!(name(SpiOkCodes::Merge), "MERGE");
    assert_eq!(name(SpiOkCodes::Utility), "UTILITY");
    assert_eq!(name(SpiOkCodes::Cursor), "UTILITY");
    assert_eq!(
        map_command(-1, Some(Err("Argument".to_string()))).unwrap_err().to_string(),
        "pg_typescript: SPI execute failed: Argument"
    );
}

#[test]
fn execution_is_refused_unless_allowed() {
    assert_eq!(PgExecuteAllowed::default(), PgExecuteAllowed(false));
    assert!(PgExecuteAllowed(true).check().is_ok());
    assert_eq!(
        PgExecuteAllowed(false).check().unwrap_err().to_string(),
        "pg_typescript: _pg.execute() may only be called from inside the function body"
    );
}

#[test]
fn values_bind_by_their_kind() {
    let bound = |value: WireValue| bind_inferred_value(&value).unwrap();
    assert_eq!(bound(WireValue::Null), SpiParam { oid: UNKNOWNOID, value: SpiValue::Null });
    assert_eq!(
        bound(WireValue::Bool { value: true }),
        SpiParam { oid: BOOLOID, value: SpiValue::Bool(true) }
    );
    assert_eq!(
        bound(WireValue::String { value: "x".to_string() }),
        SpiParam { oid: TEXTOID, value: SpiValue::Text("x".to_string()) }
    );
    assert_eq!(bound(wire_number(42.0)), SpiParam { oid: INT4OID, value: SpiValue::I32(42) });
    assert_eq!(
        bound(wire_number(2147483648.0)),
        SpiParam { oid: INT8OID, value: SpiValue::I64(2147483648) }
    );
    assert_eq!(
        bound(wire_number(-1e30)),
        SpiParam { oid: INT8OID, value: SpiValue::I64(i64::MIN) }
    );
    assert_eq!(
        bound(wire_number(1e30)),
        SpiParam { oid: INT8OID, value: SpiValue::I64(i64::MAX) }
    );
    assert_eq!(
        bound(wire_number(0.5)),
        SpiParam { oid: FLOAT8OID, value: SpiValue::F64(0.5f64.to_bits()) }
    );
    assert_eq!(
        bound(wire_number(f64::INFINITY)),
        SpiParam { oid: FLOAT8OID, value: SpiValue::F64(f64::INFINITY.to_bits()) }
    );
    assert_eq!(
        bound(bigint("-9223372036854775808")),
        SpiParam { oid: INT8OID, value: SpiValue::I64(i64::MIN) }
    );
    assert_eq!(bound(bigint("+7")), SpiParam { oid: INT8OID, value: SpiValue::I64(7) });
    assert_eq!(
        bound(WireValue::Array { value: vec![WireValue::Null, WireValue::Bool { value: false }] }),
        SpiParam {
            oid: JSONBOID,
            value: SpiValue::Jsonb(JsonValue::Array(vec![JsonValue::Null, JsonValue::Bool(false)])),
        }
    );
}

#[test]
fn bound_parameters_are_read_back() {
    let read = |value: WireValue| {
        let bound = bind_inferred_value(&value).unwrap();
        let kind = decode_kind(bound.value == SpiValue::Null, bound.oid);
        (bound.value, kind)
    };
    assert_eq!(read(WireValue::Null), (SpiValue::Null, DecodeKind::Null));
    assert_eq!(
        read(WireValue::Bool { value: true }),
        (SpiValue::Bool(true), DecodeKind::Bool)
    );
    assert_eq!(read(wire_number(-3.0)), (SpiValue::I32(-3), DecodeKind::I32));
    assert_eq!(
        read(wire_number(4294967296.0)),
        (SpiValue::I64(4294967296), DecodeKind::I64)
    );
    assert_eq!(
        read(wire_number(2.5)),
        (SpiValue::F64(2.5f64.to_bits()), DecodeKind::F64)
    );
    assert_eq!(
        read(WireValue::String { value: "x".to_string() }),
        (SpiValue::Text("x".to_string()), DecodeKind::Text)
    );
    assert_eq!(read(bigint("12")), (SpiValue::I64(12), DecodeKind::I64));
    assert_eq!(
        read(WireValue::Object { value: vec![] }),
        (SpiValue::Jsonb(JsonValue::Object(vec![])), DecodeKind::Json)
    );
}

#[test]
fn bigints_must_fit() {
    for text in ["9223372036854775808", "-9223372036854775809", "", "-", "1x", " 1"] {
        let err = bind_inferred_value(&bigint(text)).unwrap_err();
        assert_eq!(err.class, ErrorClass::Range);
        assert_eq!(
            err.message,
            format!("pg_typescript: bigint parameter is out of range for int8: {text}")
        );
    }
}

#[test]
fn json_parameters() {
    let object = WireValue::Object {
        value: vec![
            ("a".to_string(), wire_number(1.5)),
            ("b".to_string(), WireValue::String { value: "x".to_string() }),
        ],
    };
    assert_eq!(
        object.to_json_value().unwrap(),
        JsonValue::Object(vec![
            ("a".to_string(), JsonValue::Number(number(1.5))),
            ("b".to_string(), JsonValue::String("x".to_string())),
        ])
    );
    let infinite = WireValue::Array { value: vec![wire_number(f64::NAN), bigint("1")] };
    let err = infinite.to_json_value().unwrap_err();
    assert_eq!(err.class, ErrorClass::Type);
    assert_eq!(
        err.message,
        "pg_typescript: cannot encode NaN or Infinity inside JSON values"
    );
    let nested = WireValue::Object {
        value: vec![("a".to_string(), WireValue::Array { value: vec![bigint("1")] })],
    };
    assert!(nested.to_json_value().is_err());
}

#[test]
fn typed_parameters() {
    assert_eq!(
        bind_typed_value(1700, &wire_number(1.5)).unwrap(),
        SpiParam { oid: 1700, value: SpiValue::Input("1.5".to_string()) }
    );
    assert_eq!(
        bind_typed_value(TEXTOID, &WireValue::Bool { value: true }).unwrap(),
        SpiParam { oid: TEXTOID, value: SpiValue::Input("true".to_string()) }
    );
    assert_eq!(
        bind_typed_value(1700, &WireValue::Null).unwrap(),
        SpiParam { oid: 1700, value: SpiValue::Null }
    );
    assert_eq!(
        bind_typed_value(JSONOID, &WireValue::Array { value: vec![] }).unwrap(),
        SpiParam { oid: JSONOID, value: SpiValue::InputJson(JsonValue::Array(vec![])) }
    );
    let err = bind_typed_value(1700, &WireValue::Array { value: vec![] }).unwrap_err();
    assert_eq!(err.class, ErrorClass::Type);
    assert_eq!(
        err.message,
        "pg_typescript: array/object typed parameters are only supported for json/jsonb"
    );
}

#[test]
fn texts_of_values() {
    assert_eq!(bigint("12").to_text().unwrap(), "12");
    assert_eq!(
        WireValue::Null.to_text().unwrap_err().message,
        "pg_typescript: null values require an explicit type or SQL cast"
    );
    assert_eq!(
        WireValue::Object { value: vec![] }.to_text().unwrap_err().message,
        "pg_typescript: array/object parameters require JSON/jsonb or a string literal"
    );
}

#[test]
fn parameters_bind_with_their_type() {
    let named = WireParam::Typed {
        type_ref: WireTypeRef::Name { value: "numeric".to_string() },
        value: wire_number(2.0),
    };
    assert_eq!(bind_param(&named, 1700).unwrap().oid, 1700);
    let by_oid = WireParam::Typed {
        type_ref: WireTypeRef::Oid { value: 20 },
        value: WireValue::Null,
    };
    assert_eq!(
        bind_param(&by_oid, 1700).unwrap(),
        SpiParam { oid: 20, value: SpiValue::Null }
    );
    let bad = WireParam::Inferred { value: bigint("x") };
    let err = bind_numbered_param(1, &bad, 0).unwrap_err();
    assert_eq!(err.class, ErrorClass::Generic);
    assert_eq!(
        err.message,
        "pg_typescript: invalid parameter $2: \
         pg_typescript: bigint parameter is out of range for int8: x"
    );
}

#[test]
fn arguments_are_marked_null() {
    let params = vec![
        SpiParam { oid: 23, value: SpiValue::I32(1) },
        SpiParam { oid: 705, value: SpiValue::Null },
    ];
    assert_eq!(spi_arguments(&params), (vec![23, 705], vec![b' ', b'n']));
}

#[test]
fn server_errors_are_reported() {
    assert_eq!(format_pg_error("m", None, None), "pg_typescript: m");
    assert_eq!(
        format_pg_error("m", Some("d".to_string()), Some("h".to_string())),
        "pg_typescript: m\nDETAIL: d\nHINT: h"
    );
    assert_eq!(
        format_pg_error("m", None, Some("h".to_string())),
        "pg_typescript: m\nHINT: h"
    );
    assert_eq!(
        column_name_error(3).message,
        "pg_typescript: could not read SPI column name at ordinal 3"
    );
}

#[test]
fn console_lines() {
    assert_eq!(
        console_line("warn", "x"),
        (MessageLevel::Warning, "[pg_typescript:warn] x".to_string())
    );
    assert_eq!(console_line("error", "x").0, MessageLevel::Warning);
    assert_eq!(console_line("info", "x").0, MessageLevel::Info);
    assert_eq!(
        console_line("log", "a b"),
        (MessageLevel::Log, "[pg_typescript:log] a b".to_string())
    );
}
