use pg_typescript::convert::{
    classify_oid, column_sources, decode_kind, expected_sql_type, is_scalar_oid,
    text_of_bool, type_mismatch_message, Column, DatumPlan, DecodeKind, FloatKind, JsNumber, Number,
    OidCategory, OwnedPgValue, PgDatumVisitor, BOOLOID, BPCHAROID, FLOAT4OID, FLOAT8OID, INT2OID, INT4OID,
    INT8OID, JSONBOID, JSONOID, NAMEOID, ROW_TYPE, TEXTOID, UNKNOWNOID, VARCHAROID,
};

fn visitor(oid: u32) -> PgDatumVisitor {
    PgDatumVisitor { oid, typtype: b'b' }
}

fn number(v: f64) -> JsNumber {
    let kind = if !v.is_finite() {
        FloatKind::NotFinite
    } else if v.fract() == 0.0 {
        FloatKind::Integer(v as i128)
    } else {
        FloatKind::Fraction
    };
    JsNumber {
        kind,
        text: v.to_string(),
        bits: v.to_bits(),
    }
}

#[test]
fn types_are_classified() {
    for oid in [
        BOOLOID, INT2OID, INT4OID, INT8OID, FLOAT4OID, FLOAT8OID, TEXTOID, VARCHAROID, BPCHAROID,
        NAMEOID, JSONOID, JSONBOID,
    ] {
        assert!(is_scalar_oid(oid));
        assert_eq!(classify_oid(oid, ROW_TYPE), OidCategory::Scalar);
    }
    assert_eq!(classify_oid(100000, b'c'), OidCategory::Composite);
    assert_eq!(classify_oid(100000, b'b'), OidCategory::Other);
    assert_eq!(classify_oid(UNKNOWNOID, b'p'), OidCategory::Other);
    assert_eq!(ROW_TYPE, b'c');
}

#[test]
fn types_are_named() {
    assert_eq!(expected_sql_type(BPCHAROID), "char");
    assert_eq!(expected_sql_type(100000), "declared SQL return type");
    assert_eq!(
        type_mismatch_message(BOOLOID, "number"),
        "pg_typescript: return type mismatch: expected boolean, got number"
    );
}

#[test]
fn integers_are_finite() {
    assert_eq!(number(-0.0).integral(), Some(0));
    assert!(number(7.0).is_finite());
    assert_eq!(number(0.5).integral(), None);
    assert!(number(0.5).is_finite());
    assert_eq!(number(f64::INFINITY).integral(), None);
    assert!(!number(f64::NAN).is_finite());
}

#[test]
fn integers_are_exact() {
    assert_eq!(visitor(INT4OID).visit_i64(42), Ok(DatumPlan::I32(42)));
    assert_eq!(visitor(INT4OID).visit_f64(number(42.0)), Ok(DatumPlan::I32(42)));
    assert_eq!(visitor(INT2OID).visit_i64(-32768), Ok(DatumPlan::I16(i16::MIN)));
    assert_eq!(
        visitor(INT2OID).visit_i64(32768),
        Err("pg_typescript: integer out of range for int2: 32768".to_string())
    );
    assert_eq!(
        visitor(INT4OID).visit_i64(-2147483649),
        Err("pg_typescript: integer out of range for int4: -2147483649".to_string())
    );
    assert_eq!(visitor(INT8OID).visit_u64(9223372036854775807), Ok(DatumPlan::I64(i64::MAX)));
    assert_eq!(
        visitor(INT8OID).visit_u64(9223372036854775808),
        Err("pg_typescript: integer out of range for int8: 9223372036854775808".to_string())
    );
    assert_eq!(
        visitor(INT8OID).visit_f64(number(1.5)),
        Err("pg_typescript: expected integral number for int8, got 1.5".to_string())
    );
    assert_eq!(
        visitor(INT2OID).visit_f64(number(f64::NAN)),
        Err("pg_typescript: expected integral number for int2, got NaN".to_string())
    );
    assert_eq!(
        visitor(INT4OID).visit_f64(number(1e40)),
        Err(format!("pg_typescript: integer out of range for int4: {}", 1e40))
    );
}

#[test]
fn numbers_go_to_the_types_that_take_them() {
    assert_eq!(visitor(FLOAT4OID).visit_i64(1), Ok(DatumPlan::Float4(Number::Signed(1))));
    assert_eq!(visitor(FLOAT8OID).visit_u64(1), Ok(DatumPlan::Float8(Number::Unsigned(1))));
    assert_eq!(
        visitor(JSONBOID).visit_f64(number(0.5)),
        Ok(DatumPlan::JsonNumber(Number::Float(number(0.5))))
    );
    assert_eq!(visitor(100000).visit_i64(-7), Ok(DatumPlan::Input("-7".to_string())));
    assert_eq!(
        visitor(BOOLOID).visit_i64(1),
        Err("pg_typescript: return type mismatch: expected boolean, got number".to_string())
    );
    assert_eq!(
        visitor(TEXTOID).visit_f64(number(1.0)),
        Err("pg_typescript: return type mismatch: expected text, got number".to_string())
    );
}

#[test]
fn booleans_strings_and_nulls() {
    assert_eq!(visitor(BOOLOID).visit_bool(true), Ok(DatumPlan::Bool(true)));
    assert_eq!(visitor(JSONOID).visit_bool(false), Ok(DatumPlan::JsonBool(false)));
    assert_eq!(visitor(100000).visit_bool(true), Ok(DatumPlan::Input("true".to_string())));
    assert_eq!(
        visitor(INT4OID).visit_bool(true),
        Err("pg_typescript: return type mismatch: expected int4, got boolean".to_string())
    );
    assert_eq!(visitor(NAMEOID).visit_str("x"), Ok(DatumPlan::Text("x".to_string())));
    assert_eq!(visitor(JSONBOID).visit_str("x"), Ok(DatumPlan::JsonText("x".to_string())));
    assert_eq!(visitor(100000).visit_str("x"), Ok(DatumPlan::Input("x".to_string())));
    assert_eq!(
        visitor(FLOAT8OID).visit_str("1"),
        Err("pg_typescript: return type mismatch: expected float8, got string".to_string())
    );
    assert_eq!(visitor(INT4OID).visit_unit(), DatumPlan::Null);
    assert_eq!(visitor(100000).visit_none(), DatumPlan::Null);
    assert_eq!(text_of_bool(false), "false");
}

#[test]
fn objects_and_arrays() {
    let row = PgDatumVisitor { oid: 100000, typtype: b'c' };
    assert_eq!(visitor(JSONBOID).visit_map("{}"), Ok(DatumPlan::JsonDocument));
    assert_eq!(row.visit_map("{}"), Ok(DatumPlan::Row));
    assert_eq!(visitor(100000).visit_map("{}"), Ok(DatumPlan::Input("{}".to_string())));
    assert_eq!(
        visitor(TEXTOID).visit_map("{}"),
        Err("pg_typescript: return type mismatch: expected text, got object".to_string())
    );
    assert_eq!(visitor(JSONOID).visit_seq("[]"), Ok(DatumPlan::JsonDocument));
    assert_eq!(row.visit_seq("[1]"), Ok(DatumPlan::Input("[1]".to_string())));
    assert_eq!(
        visitor(INT2OID).visit_seq("[]"),
        Err("pg_typescript: return type mismatch: expected int2, got array".to_string())
    );
}

#[test]
fn values_are_decoded_by_type() {
    assert_eq!(decode_kind(true, INT2OID), DecodeKind::Null);
    assert_eq!(decode_kind(false, INT2OID), DecodeKind::I16);
    assert_eq!(decode_kind(false, INT4OID), DecodeKind::I32);
    assert_eq!(decode_kind(false, INT8OID), DecodeKind::I64);
    assert_eq!(decode_kind(false, FLOAT4OID), DecodeKind::F32);
    assert_eq!(decode_kind(false, FLOAT8OID), DecodeKind::F64);
    assert_eq!(decode_kind(false, BOOLOID), DecodeKind::Bool);
    assert_eq!(decode_kind(false, VARCHAROID), DecodeKind::Text);
    assert_eq!(decode_kind(false, JSONBOID), DecodeKind::Json);
    assert_eq!(decode_kind(false, 100000), DecodeKind::Output);
}

#[test]
fn columns_must_decode() {
    let read = |kind: DecodeKind, value: Option<OwnedPgValue<()>>| {
        OwnedPgValue::from_decoded(kind, value)
    };
    assert_eq!(
        read(DecodeKind::I16, Some(OwnedPgValue::I16(3))),
        Ok(OwnedPgValue::I16(3))
    );
    for (kind, name) in [
        (DecodeKind::Bool, "boolean"),
        (DecodeKind::I16, "int2"),
        (DecodeKind::I32, "int4"),
        (DecodeKind::I64, "int8"),
        (DecodeKind::F32, "float4"),
        (DecodeKind::F64, "float8"),
        (DecodeKind::Text, "text"),
        (DecodeKind::Json, "json/jsonb"),
    ] {
        assert_eq!(
            read(kind, None).unwrap_err().message,
            format!("pg_typescript: failed to decode {name}")
        );
    }
}

#[test]
fn arguments_have_stand_ins() {
    let read = |kind: DecodeKind, value: Option<OwnedPgValue<u8>>| {
        OwnedPgValue::from_argument(kind, value, 9)
    };
    assert_eq!(read(DecodeKind::I32, Some(OwnedPgValue::I32(5))), OwnedPgValue::I32(5));
    assert_eq!(read(DecodeKind::I32, None), OwnedPgValue::I32(0));
    assert_eq!(read(DecodeKind::F64, None), OwnedPgValue::F64(0f64.to_bits()));
    assert_eq!(read(DecodeKind::Bool, None), OwnedPgValue::Bool(false));
    assert_eq!(read(DecodeKind::Text, None), OwnedPgValue::String(String::new()));
    assert_eq!(read(DecodeKind::Json, None), OwnedPgValue::Json(9));
    assert_eq!(read(DecodeKind::Null, None), OwnedPgValue::Null);
}

#[test]
fn values_survive_the_round_trip() {
    assert_eq!(decode_kind(false, INT2OID), DecodeKind::I16);
    assert_eq!(visitor(INT2OID).visit_i64(-5), Ok(DatumPlan::I16(-5)));
    assert_eq!(decode_kind(false, TEXTOID), DecodeKind::Text);
    assert_eq!(visitor(TEXTOID).visit_str("a"), Ok(DatumPlan::Text("a".to_string())));
}

#[test]
fn columns_match_fields_by_name() {
    let columns = vec![
        Column { name: "a".to_string(), dropped: false },
        Column { name: "b".to_string(), dropped: true },
        Column { name: "c".to_string(), dropped: false },
        Column { name: "d".to_string(), dropped: false },
    ];
    let fields = vec!["d".to_string(), "b".to_string(), "a".to_string(), "x".to_string()];
    assert_eq!(
        column_sources(&columns, &fields),
        vec![Some(2), None, None, Some(0)]
    );
    assert!(column_sources(&vec![], &fields).is_empty());
}
