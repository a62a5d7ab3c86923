//! The rules by which values cross between SQL and JavaScript.
use vstd::prelude::*;

use crate::error::{generic_error, JsError};
use crate::text::{decimal_i64, decimal_spec, decimal_u64, result_view, str_eq};

verus! {

// ---------------------------------------------------------------------------
// SQL types
// ---------------------------------------------------------------------------

pub const BOOLOID: u32 = 16;

pub const NAMEOID: u32 = 19;

pub const INT8OID: u32 = 20;

pub const INT2OID: u32 = 21;

pub const INT4OID: u32 = 23;

pub const TEXTOID: u32 = 25;

pub const JSONOID: u32 = 114;

pub const FLOAT4OID: u32 = 700;

pub const FLOAT8OID: u32 = 701;

pub const UNKNOWNOID: u32 = 705;

pub const BPCHAROID: u32 = 1042;

pub const VARCHAROID: u32 = 1043;

pub const JSONBOID: u32 = 3802;

/// The kind `c` that the catalog gives a row type.
pub const ROW_TYPE: u8 = 99;

/// Is the type one of the text types?
pub open spec fn is_text(oid: u32) -> bool {
    oid == TEXTOID || oid == VARCHAROID || oid == BPCHAROID || oid == NAMEOID
}

/// Is the type one of the JSON types?
pub open spec fn is_json(oid: u32) -> bool {
    oid == JSONOID || oid == JSONBOID
}

/// Is the type one that has a conversion of its own?
pub open spec fn is_scalar(oid: u32) -> bool {
    oid == BOOLOID || oid == INT2OID || oid == INT4OID || oid == INT8OID || oid == FLOAT4OID || oid
        == FLOAT8OID || is_text(oid) || is_json(oid)
}

/// How values of a type are converted.
#[derive(Debug, Clone, Copy, PartialEq, Eq, Structural)]
pub enum OidCategory {
    /// By a conversion of the type's own.
    Scalar,
    /// Field by field: the type is a row type.
    Composite,
    /// By the type's input and output functions.
    Other,
}

/// The category of a type, from its OID and its kind in the catalog.
pub open spec fn category(oid: u32, typtype: u8) -> OidCategory {
    if is_scalar(oid) {
        OidCategory::Scalar
    } else if typtype == ROW_TYPE {
        OidCategory::Composite
    } else {
        OidCategory::Other
    }
}

/// What errors call a type.
pub open spec fn sql_type(oid: u32) -> Seq<char> {
    if oid == BOOLOID {
        "boolean"@
    } else if oid == INT2OID {
        "int2"@
    } else if oid == INT4OID {
        "int4"@
    } else if oid == INT8OID {
        "int8"@
    } else if oid == FLOAT4OID {
        "float4"@
    } else if oid == FLOAT8OID {
        "float8"@
    } else if oid == TEXTOID {
        "text"@
    } else if oid == VARCHAROID {
        "varchar"@
    } else if oid == BPCHAROID {
        "char"@
    } else if oid == NAMEOID {
        "name"@
    } else if oid == JSONOID {
        "json"@
    } else if oid == JSONBOID {
        "jsonb"@
    } else {
        "declared SQL return type"@
    }
}

/// The error of a value that the declared type does not take.
pub open spec fn mismatch(oid: u32, got: Seq<char>) -> Seq<char> {
    "pg_typescript: return type mismatch: expected "@ + sql_type(oid) + ", got "@ + got
}

fn oid_is_text(oid: u32) -> (r: bool)
    ensures
        r == is_text(oid),
{
    oid == TEXTOID || oid == VARCHAROID || oid == BPCHAROID || oid == NAMEOID
}

fn oid_is_json(oid: u32) -> (r: bool)
    ensures
        r == is_json(oid),
{
    oid == JSONOID || oid == JSONBOID
}

/// Is the type one that has a conversion of its own?
pub fn is_scalar_oid(oid: u32) -> (r: bool)
    ensures
        r == is_scalar(oid),
{
    oid == BOOLOID || oid == INT2OID || oid == INT4OID || oid == INT8OID || oid == FLOAT4OID || oid
        == FLOAT8OID || oid_is_text(oid) || oid_is_json(oid)
}

/// The category of a type. Its kind in the catalog, `c` for a row type, counts
/// only where the type has no conversion of its own.
pub fn classify_oid(oid: u32, typtype: u8) -> (r: OidCategory)
    ensures
        r == category(oid, typtype),
{
    if is_scalar_oid(oid) {
        OidCategory::Scalar
    } else if typtype == ROW_TYPE {
        OidCategory::Composite
    } else {
        OidCategory::Other
    }
}

/// What errors call a type.
pub fn expected_sql_type(oid: u32) -> (r: &'static str)
    ensures
        r@ == sql_type(oid),
{
    if oid == BOOLOID {
        "boolean"
    } else if oid == INT2OID {
        "int2"
    } else if oid == INT4OID {
        "int4"
    } else if oid == INT8OID {
        "int8"
    } else if oid == FLOAT4OID {
        "float4"
    } else if oid == FLOAT8OID {
        "float8"
    } else if oid == TEXTOID {
        "text"
    } else if oid == VARCHAROID {
        "varchar"
    } else if oid == BPCHAROID {
        "char"
    } else if oid == NAMEOID {
        "name"
    } else if oid == JSONOID {
        "json"
    } else if oid == JSONBOID {
        "jsonb"
    } else {
        "declared SQL return type"
    }
}

/// The error of a value that the declared type does not take.
pub fn type_mismatch_message(oid: u32, got: &str) -> (r: String)
    ensures
        r@ == mismatch(oid, got@),
{
    String::from_str("pg_typescript: return type mismatch: expected ").concat(
        expected_sql_type(oid),
    ).concat(", got ").concat(got)
}

// ---------------------------------------------------------------------------
// From SQL to JavaScript
// ---------------------------------------------------------------------------

/// How a value of a type is read.
#[derive(Debug, Clone, Copy, PartialEq, Eq, Structural)]
pub enum DecodeKind {
    Null,
    Bool,
    I16,
    I32,
    I64,
    F32,
    F64,
    Text,
    Json,
    /// As the text that the type's output function gives.
    Output,
}

/// How a value of a type is read.
pub open spec fn decoding(isnull: bool, oid: u32) -> DecodeKind {
    if isnull {
        DecodeKind::Null
    } else if oid == INT2OID {
        DecodeKind::I16
    } else if oid == INT4OID {
        DecodeKind::I32
    } else if oid == INT8OID {
        DecodeKind::I64
    } else if oid == FLOAT4OID {
        DecodeKind::F32
    } else if oid == FLOAT8OID {
        DecodeKind::F64
    } else if oid == BOOLOID {
        DecodeKind::Bool
    } else if is_text(oid) {
        DecodeKind::Text
    } else if is_json(oid) {
        DecodeKind::Json
    } else {
        DecodeKind::Output
    }
}

/// What errors call the type of value that a decoding yields.
pub open spec fn decoded_type(kind: DecodeKind) -> Seq<char> {
    match kind {
        DecodeKind::Null => "null"@,
        DecodeKind::Bool => "boolean"@,
        DecodeKind::I16 => "int2"@,
        DecodeKind::I32 => "int4"@,
        DecodeKind::I64 => "int8"@,
        DecodeKind::F32 => "float4"@,
        DecodeKind::F64 => "float8"@,
        DecodeKind::Text => "text"@,
        DecodeKind::Json => "json/jsonb"@,
        DecodeKind::Output => "value"@,
    }
}

/// How a value of a type is read.
pub fn decode_kind(isnull: bool, oid: u32) -> (r: DecodeKind)
    ensures
        r == decoding(isnull, oid),
{
    if isnull {
        DecodeKind::Null
    } else if oid == INT2OID {
        DecodeKind::I16
    } else if oid == INT4OID {
        DecodeKind::I32
    } else if oid == INT8OID {
        DecodeKind::I64
    } else if oid == FLOAT4OID {
        DecodeKind::F32
    } else if oid == FLOAT8OID {
        DecodeKind::F64
    } else if oid == BOOLOID {
        DecodeKind::Bool
    } else if oid_is_text(oid) {
        DecodeKind::Text
    } else if oid_is_json(oid) {
        DecodeKind::Json
    } else {
        DecodeKind::Output
    }
}

fn decoded_type_of(kind: DecodeKind) -> (r: &'static str)
    ensures
        r@ == decoded_type(kind),
{
    match kind {
        DecodeKind::Null => "null",
        DecodeKind::Bool => "boolean",
        DecodeKind::I16 => "int2",
        DecodeKind::I32 => "int4",
        DecodeKind::I64 => "int8",
        DecodeKind::F32 => "float4",
        DecodeKind::F64 => "float8",
        DecodeKind::Text => "text",
        DecodeKind::Json => "json/jsonb",
        DecodeKind::Output => "value",
    }
}

/// A value that was read. Floating-point numbers stand by their representation;
/// `J` is the type of JSON documents.
#[derive(Debug, PartialEq, Eq)]
pub enum OwnedPgValue<J> {
    Null,
    Bool(bool),
    I16(i16),
    I32(i32),
    I64(i64),
    F32(u32),
    F64(u64),
    String(String),
    Json(J),
}

/// Is the value the one that stands in for an argument that cannot be decoded:
/// zero, `false`, the empty text, or the given JSON document?
pub open spec fn is_stand_in<J>(kind: DecodeKind, value: OwnedPgValue<J>, document: J) -> bool {
    match kind {
        DecodeKind::Null => value == OwnedPgValue::<J>::Null,
        DecodeKind::Bool => value == OwnedPgValue::<J>::Bool(false),
        DecodeKind::I16 => value == OwnedPgValue::<J>::I16(0),
        DecodeKind::I32 => value == OwnedPgValue::<J>::I32(0),
        DecodeKind::I64 => value == OwnedPgValue::<J>::I64(0),
        DecodeKind::F32 => value == OwnedPgValue::<J>::F32(0),
        DecodeKind::F64 => value == OwnedPgValue::<J>::F64(0),
        DecodeKind::Text | DecodeKind::Output => value matches OwnedPgValue::String(s) && s@
            == Seq::<char>::empty(),
        DecodeKind::Json => value == OwnedPgValue::<J>::Json(document),
    }
}

impl<J> OwnedPgValue<J> {
    /// A column of a query result: the decoded value, or the error of one that
    /// could not be decoded.
    pub fn from_decoded(kind: DecodeKind, decoded: Option<OwnedPgValue<J>>) -> (r: Result<
        OwnedPgValue<J>,
        JsError,
    >)
        ensures
            match decoded {
                Some(value) => r == Ok::<OwnedPgValue<J>, JsError>(value),
                None => r matches Err(e) && e@ == generic_error(
                    "pg_typescript: failed to decode "@ + decoded_type(kind),
                ),
            },
    {
        match decoded {
            Some(value) => Ok(value),
            None => Err(
                JsError::generic(
                    String::from_str("pg_typescript: failed to decode ").concat(
                        decoded_type_of(kind),
                    ),
                ),
            ),
        }
    }

    /// An argument of a function: the decoded value, or the one that stands in
    /// for a value that could not be decoded.
    pub fn from_argument(
        kind: DecodeKind,
        decoded: Option<OwnedPgValue<J>>,
        document: J,
    ) -> (r: OwnedPgValue<J>)
        ensures
            match decoded {
                Some(value) => r == value,
                None => is_stand_in(kind, r, document),
            },
    {
        match decoded {
            Some(value) => value,
            None => match kind {
                DecodeKind::Null => OwnedPgValue::Null,
                DecodeKind::Bool => OwnedPgValue::Bool(false),
                DecodeKind::I16 => OwnedPgValue::I16(0),
                DecodeKind::I32 => OwnedPgValue::I32(0),
                DecodeKind::I64 => OwnedPgValue::I64(0),
                DecodeKind::F32 => OwnedPgValue::F32(0),
                DecodeKind::F64 => OwnedPgValue::F64(0),
                DecodeKind::Text | DecodeKind::Output => OwnedPgValue::String(String::new()),
                DecodeKind::Json => OwnedPgValue::Json(document),
            },
        }
    }
}

// ---------------------------------------------------------------------------
// From JavaScript to SQL
// ---------------------------------------------------------------------------

/// What a floating-point number stands for.
#[derive(Debug, Clone, Copy, PartialEq, Eq, Structural)]
pub enum FloatKind {
    /// An integer; beyond 128 bits the nearest that there is.
    Integer(i128),
    /// A finite number that is no integer.
    Fraction,
    /// An infinity, or no number at all.
    NotFinite,
}

/// A floating-point number, by what the conversions ask of it.
#[derive(Debug, PartialEq, Eq)]
pub struct JsNumber {
    pub kind: FloatKind,
    /// The shortest text that stands for it.
    pub text: String,
    /// Its representation.
    pub bits: u64,
}

/// The model of a [`JsNumber`].
pub struct JsNumberView {
    pub kind: FloatKind,
    pub text: Seq<char>,
    pub bits: u64,
}

impl JsNumberView {
    /// The integer that the number stands for, where it stands for one.
    pub open spec fn integral(self) -> Option<i128> {
        match self.kind {
            FloatKind::Integer(v) => Some(v),
            _ => None,
        }
    }

    /// Is the number neither infinite nor NaN?
    pub open spec fn finite(self) -> bool {
        !(self.kind is NotFinite)
    }
}

impl View for JsNumber {
    type V = JsNumberView;

    open spec fn view(&self) -> JsNumberView {
        JsNumberView { kind: self.kind, text: self.text@, bits: self.bits }
    }
}

impl JsNumber {
    /// The integer that the number stands for, where it stands for one. Only a
    /// finite number stands for one.
    pub fn integral(&self) -> (r: Option<i128>)
        ensures
            r == self@.integral(),
            r is Some ==> self@.finite(),
    {
        match self.kind {
            FloatKind::Integer(v) => Some(v),
            _ => None,
        }
    }

    /// Is the number neither infinite nor NaN?
    pub fn is_finite(&self) -> (r: bool)
        ensures
            r == self@.finite(),
    {
        match self.kind {
            FloatKind::NotFinite => false,
            _ => true,
        }
    }
}

impl Clone for JsNumber {
    fn clone(&self) -> (r: JsNumber)
        ensures
            r@ == self@,
    {
        JsNumber { kind: self.kind, text: self.text.clone(), bits: self.bits }
    }
}

/// A number, in the form in which it arrives.
#[derive(Debug, PartialEq, Eq)]
pub enum Number {
    Signed(i64),
    Unsigned(u64),
    Float(JsNumber),
}

/// The model of a [`Number`].
pub enum NumberView {
    Signed(i64),
    Unsigned(u64),
    Float(JsNumberView),
}

impl View for Number {
    type V = NumberView;

    open spec fn view(&self) -> NumberView {
        match self {
            Number::Signed(v) => NumberView::Signed(*v),
            Number::Unsigned(v) => NumberView::Unsigned(*v),
            Number::Float(v) => NumberView::Float(v@),
        }
    }
}

/// The integer that a number stands for, where it stands for one.
pub open spec fn number_integer(n: NumberView) -> Option<int> {
    match n {
        NumberView::Signed(v) => Some(v as int),
        NumberView::Unsigned(v) => Some(v as int),
        NumberView::Float(v) => match v.integral() {
            Some(i) => Some(i as int),
            None => None,
        },
    }
}

/// The text of a number.
pub open spec fn number_text(n: NumberView) -> Seq<char> {
    match n {
        NumberView::Signed(v) => decimal_spec(v as int),
        NumberView::Unsigned(v) => decimal_spec(v as int),
        NumberView::Float(v) => v.text,
    }
}

impl Number {
    fn integer(&self) -> (r: Option<i128>)
        ensures
            match r {
                Some(v) => number_integer(self@) == Some(v as int),
                None => number_integer(self@) is None,
            },
    {
        match self {
            Number::Signed(v) => Some(*v as i128),
            Number::Unsigned(v) => Some(*v as i128),
            Number::Float(v) => v.integral(),
        }
    }

    fn text(&self) -> (r: String)
        ensures
            r@ == number_text(self@),
    {
        match self {
            Number::Signed(v) => decimal_i64(*v),
            Number::Unsigned(v) => decimal_u64(*v),
            Number::Float(v) => v.text.clone(),
        }
    }
}

/// How a JavaScript value becomes one of SQL.
#[derive(Debug, PartialEq, Eq)]
pub enum DatumPlan {
    Null,
    Bool(bool),
    I16(i16),
    I32(i32),
    I64(i64),
    /// The number, rounded to single precision.
    Float4(Number),
    /// The number, rounded to double precision.
    Float8(Number),
    Text(String),
    JsonBool(bool),
    JsonNumber(Number),
    JsonText(String),
    /// The array or object, as it is.
    JsonDocument,
    /// What the type's input function makes of the text.
    Input(String),
    /// A row, with a column for each field of the object.
    Row,
}

/// The model of a [`DatumPlan`].
pub enum DatumPlanView {
    Null,
    Bool(bool),
    I16(i16),
    I32(i32),
    I64(i64),
    Float4(NumberView),
    Float8(NumberView),
    Text(Seq<char>),
    JsonBool(bool),
    JsonNumber(NumberView),
    JsonText(Seq<char>),
    JsonDocument,
    Input(Seq<char>),
    Row,
}

impl View for DatumPlan {
    type V = DatumPlanView;

    open spec fn view(&self) -> DatumPlanView {
        match self {
            DatumPlan::Null => DatumPlanView::Null,
            DatumPlan::Bool(v) => DatumPlanView::Bool(*v),
            DatumPlan::I16(v) => DatumPlanView::I16(*v),
            DatumPlan::I32(v) => DatumPlanView::I32(*v),
            DatumPlan::I64(v) => DatumPlanView::I64(*v),
            DatumPlan::Float4(v) => DatumPlanView::Float4(v@),
            DatumPlan::Float8(v) => DatumPlanView::Float8(v@),
            DatumPlan::Text(v) => DatumPlanView::Text(v@),
            DatumPlan::JsonBool(v) => DatumPlanView::JsonBool(*v),
            DatumPlan::JsonNumber(v) => DatumPlanView::JsonNumber(v@),
            DatumPlan::JsonText(v) => DatumPlanView::JsonText(v@),
            DatumPlan::JsonDocument => DatumPlanView::JsonDocument,
            DatumPlan::Input(v) => DatumPlanView::Input(v@),
            DatumPlan::Row => DatumPlanView::Row,
        }
    }
}

/// The error of a number that is no integer.
pub open spec fn not_integral(sql_name: Seq<char>, text: Seq<char>) -> Seq<char> {
    "pg_typescript: expected integral number for "@ + sql_name + ", got "@ + text
}

/// The error of an integer that does not fit.
pub open spec fn out_of_range(sql_name: Seq<char>, text: Seq<char>) -> Seq<char> {
    "pg_typescript: integer out of range for "@ + sql_name + ": "@ + text
}

/// The text of a truth value.
pub open spec fn bool_text(v: bool) -> Seq<char> {
    if v {
        "true"@
    } else {
        "false"@
    }
}

/// How a boolean becomes a value of a type.
pub open spec fn bool_plan(oid: u32, typtype: u8, v: bool) -> Result<DatumPlanView, Seq<char>> {
    if oid == BOOLOID {
        Ok(DatumPlanView::Bool(v))
    } else if is_json(oid) {
        Ok(DatumPlanView::JsonBool(v))
    } else if category(oid, typtype) != OidCategory::Scalar {
        Ok(DatumPlanView::Input(bool_text(v)))
    } else {
        Err(mismatch(oid, "boolean"@))
    }
}

/// How a number becomes a value of a type.
pub open spec fn number_plan(oid: u32, typtype: u8, n: NumberView) -> Result<
    DatumPlanView,
    Seq<char>,
> {
    if oid == INT2OID || oid == INT4OID || oid == INT8OID {
        match number_integer(n) {
            None => Err(not_integral(sql_type(oid), number_text(n))),
            Some(v) => if oid == INT2OID && i16::MIN <= v <= i16::MAX {
                Ok(DatumPlanView::I16(v as i16))
            } else if oid == INT4OID && i32::MIN <= v <= i32::MAX {
                Ok(DatumPlanView::I32(v as i32))
            } else if oid == INT8OID && i64::MIN <= v <= i64::MAX {
                Ok(DatumPlanView::I64(v as i64))
            } else {
                Err(out_of_range(sql_type(oid), number_text(n)))
            },
        }
    } else if oid == FLOAT4OID {
        Ok(DatumPlanView::Float4(n))
    } else if oid == FLOAT8OID {
        Ok(DatumPlanView::Float8(n))
    } else if is_json(oid) {
        Ok(DatumPlanView::JsonNumber(n))
    } else if category(oid, typtype) != OidCategory::Scalar {
        Ok(DatumPlanView::Input(number_text(n)))
    } else {
        Err(mismatch(oid, "number"@))
    }
}

/// How a string becomes a value of a type.
pub open spec fn str_plan(oid: u32, typtype: u8, v: Seq<char>) -> Result<
    DatumPlanView,
    Seq<char>,
> {
    if is_text(oid) {
        Ok(DatumPlanView::Text(v))
    } else if is_json(oid) {
        Ok(DatumPlanView::JsonText(v))
    } else if category(oid, typtype) != OidCategory::Scalar {
        Ok(DatumPlanView::Input(v))
    } else {
        Err(mismatch(oid, "string"@))
    }
}

/// How an object, given with its JSON text, becomes a value of a type.
pub open spec fn map_plan(oid: u32, typtype: u8, json: Seq<char>) -> Result<
    DatumPlanView,
    Seq<char>,
> {
    if is_json(oid) {
        Ok(DatumPlanView::JsonDocument)
    } else {
        match category(oid, typtype) {
            OidCategory::Composite => Ok(DatumPlanView::Row),
            OidCategory::Other => Ok(DatumPlanView::Input(json)),
            OidCategory::Scalar => Err(mismatch(oid, "object"@)),
        }
    }
}

/// How an array, given with its JSON text, becomes a value of a type.
pub open spec fn seq_plan(oid: u32, typtype: u8, json: Seq<char>) -> Result<
    DatumPlanView,
    Seq<char>,
> {
    if is_json(oid) {
        Ok(DatumPlanView::JsonDocument)
    } else if category(oid, typtype) != OidCategory::Scalar {
        Ok(DatumPlanView::Input(json))
    } else {
        Err(mismatch(oid, "array"@))
    }
}

/// The type that a JavaScript value is to become: its OID and its kind in the
/// catalog.
#[derive(Debug, Clone, Copy, PartialEq, Eq, Structural)]
pub struct PgDatumVisitor {
    pub oid: u32,
    pub typtype: u8,
}

impl PgDatumVisitor {
    /// `undefined` becomes NULL.
    pub fn visit_unit(&self) -> (r: DatumPlan)
        ensures
            r@ == DatumPlanView::Null,
    {
        DatumPlan::Null
    }

    /// `null` becomes NULL.
    pub fn visit_none(&self) -> (r: DatumPlan)
        ensures
            r@ == DatumPlanView::Null,
    {
        DatumPlan::Null
    }

    pub fn visit_bool(&self, v: bool) -> (r: Result<DatumPlan, String>)
        ensures
            result_view(r) == bool_plan(self.oid, self.typtype, v),
    {
        if self.oid == BOOLOID {
            Ok(DatumPlan::Bool(v))
        } else if oid_is_json(self.oid) {
            Ok(DatumPlan::JsonBool(v))
        } else if !is_scalar_oid(self.oid) {
            Ok(DatumPlan::Input(text_of_bool(v)))
        } else {
            Err(type_mismatch_message(self.oid, "boolean"))
        }
    }

    pub fn visit_i64(&self, v: i64) -> (r: Result<DatumPlan, String>)
        ensures
            result_view(r) == number_plan(self.oid, self.typtype, NumberView::Signed(v)),
    {
        self.visit_number(Number::Signed(v))
    }

    pub fn visit_u64(&self, v: u64) -> (r: Result<DatumPlan, String>)
        ensures
            result_view(r) == number_plan(self.oid, self.typtype, NumberView::Unsigned(v)),
    {
        self.visit_number(Number::Unsigned(v))
    }

    pub fn visit_f64(&self, v: JsNumber) -> (r: Result<DatumPlan, String>)
        ensures
            result_view(r) == number_plan(self.oid, self.typtype, NumberView::Float(v@)),
    {
        self.visit_number(Number::Float(v))
    }

    /// An integer type takes an integer in its range and no other number.
    fn visit_number(&self, n: Number) -> (r: Result<DatumPlan, String>)
        ensures
            result_view(r) == number_plan(self.oid, self.typtype, n@),
    {
        if self.oid == INT2OID || self.oid == INT4OID || self.oid == INT8OID {
            match n.integer() {
                None => Err(
                    String::from_str("pg_typescript: expected integral number for ").concat(
                        expected_sql_type(self.oid),
                    ).concat(", got ").concat(n.text().as_str()),
                ),
                Some(v) => if self.oid == INT2OID && -0x8000 <= v && v <= 0x7fff {
                    Ok(DatumPlan::I16(v as i16))
                } else if self.oid == INT4OID && -0x8000_0000 <= v && v <= 0x7fff_ffff {
                    Ok(DatumPlan::I32(v as i32))
                } else if self.oid == INT8OID && -0x8000_0000_0000_0000 <= v && v
                    <= 0x7fff_ffff_ffff_ffff {
                    Ok(DatumPlan::I64(v as i64))
                } else {
                    Err(
                        String::from_str("pg_typescript: integer out of range for ").concat(
                            expected_sql_type(self.oid),
                        ).concat(": ").concat(n.text().as_str()),
                    )
                },
            }
        } else if self.oid == FLOAT4OID {
            Ok(DatumPlan::Float4(n))
        } else if self.oid == FLOAT8OID {
            Ok(DatumPlan::Float8(n))
        } else if oid_is_json(self.oid) {
            Ok(DatumPlan::JsonNumber(n))
        } else if !is_scalar_oid(self.oid) {
            Ok(DatumPlan::Input(n.text()))
        } else {
            Err(type_mismatch_message(self.oid, "number"))
        }
    }

    pub fn visit_str(&self, v: &str) -> (r: Result<DatumPlan, String>)
        ensures
            result_view(r) == str_plan(self.oid, self.typtype, v@),
    {
        if oid_is_text(self.oid) {
            Ok(DatumPlan::Text(String::from_str(v)))
        } else if oid_is_json(self.oid) {
            Ok(DatumPlan::JsonText(String::from_str(v)))
        } else if !is_scalar_oid(self.oid) {
            Ok(DatumPlan::Input(String::from_str(v)))
        } else {
            Err(type_mismatch_message(self.oid, "string"))
        }
    }

    /// An object, given with its JSON text.
    pub fn visit_map(&self, json: &str) -> (r: Result<DatumPlan, String>)
        ensures
            result_view(r) == map_plan(self.oid, self.typtype, json@),
    {
        if oid_is_json(self.oid) {
            return Ok(DatumPlan::JsonDocument);
        }
        match classify_oid(self.oid, self.typtype) {
            OidCategory::Composite => Ok(DatumPlan::Row),
            OidCategory::Other => Ok(DatumPlan::Input(String::from_str(json))),
            OidCategory::Scalar => Err(type_mismatch_message(self.oid, "object")),
        }
    }

    /// An array, given with its JSON text.
    pub fn visit_seq(&self, json: &str) -> (r: Result<DatumPlan, String>)
        ensures
            result_view(r) == seq_plan(self.oid, self.typtype, json@),
    {
        if oid_is_json(self.oid) {
            Ok(DatumPlan::JsonDocument)
        } else if !is_scalar_oid(self.oid) {
            Ok(DatumPlan::Input(String::from_str(json)))
        } else {
            Err(type_mismatch_message(self.oid, "array"))
        }
    }
}

/// The text of a truth value.
pub fn text_of_bool(v: bool) -> (r: String)
    ensures
        r@ == bool_text(v),
{
    if v {
        String::from_str("true")
    } else {
        String::from_str("false")
    }
}

// ---------------------------------------------------------------------------
// Rows
// ---------------------------------------------------------------------------

/// A column of a row type.
#[derive(Debug, PartialEq, Eq)]
pub struct Column {
    pub name: String,
    pub dropped: bool,
}

/// The position of a name.
pub open spec fn name_position(names: Seq<Seq<char>>, name: Seq<char>) -> Option<int>
    decreases names.len(),
{
    if names.len() == 0 {
        None
    } else {
        match name_position(names.drop_last(), name) {
            Some(i) => Some(i),
            None => if names.last() == name {
                Some(names.len() - 1)
            } else {
                None
            },
        }
    }
}

/// The field that a column takes its value from; without one it is NULL.
pub open spec fn column_source(column: Column, fields: Seq<Seq<char>>) -> Option<int> {
    if column.dropped {
        None
    } else {
        name_position(fields, column.name@)
    }
}

/// The model of optional positions.
pub open spec fn positions(list: Seq<Option<usize>>) -> Seq<Option<int>> {
    Seq::new(
        list.len(),
        |i: int|
            match list[i] {
                Some(p) => Some(p as int),
                None => None,
            },
    )
}

fn position_of(names: &Vec<String>, name: &str) -> (r: Option<usize>)
    ensures
        match r {
            Some(i) => name_position(crate::text::views(names@), name@) == Some(i as int) && i
                < names@.len(),
            None => name_position(crate::text::views(names@), name@) is None,
        },
{
    let ghost all = crate::text::views(names@);
    let mut i: usize = 0;
    while i < names.len()
        invariant
            i <= names@.len(),
            all == crate::text::views(names@),
            name_position(all.take(i as int), name@) is None,
        decreases names@.len() - i,
    {
        assert(all.take(i + 1).drop_last() =~= all.take(i as int));
        if str_eq(names[i].as_str(), name) {
            proof {
                lemma_name_position_stays(all, name@, i + 1);
            }
            return Some(i);
        }
        i += 1;
    }
    assert(all.take(i as int) =~= all);
    None
}

proof fn lemma_name_position_stays(names: Seq<Seq<char>>, name: Seq<char>, n: int)
    requires
        0 <= n <= names.len(),
        name_position(names.take(n), name) is Some,
    ensures
        name_position(names, name) == name_position(names.take(n), name),
    decreases names.len() - n,
{
    if n < names.len() {
        assert(names.take(n + 1).drop_last() =~= names.take(n));
        lemma_name_position_stays(names, name, n + 1);
    } else {
        assert(names.take(n) =~= names);
    }
}

/// The field that each column of a row takes its value from. A column without
/// a field of its name is NULL, as is one that was dropped; a field without a
/// column counts for nothing.
pub fn column_sources(columns: &Vec<Column>, fields: &Vec<String>) -> (r: Vec<Option<usize>>)
    ensures
        positions(r@) == Seq::new(
            columns@.len(),
            |i: int| column_source(columns@[i], crate::text::views(fields@)),
        ),
        forall|i: int| 0 <= i < r@.len() ==> ((#[trigger] r@[i]) matches Some(p) ==> p
            < fields@.len()),
{
    let mut out: Vec<Option<usize>> = Vec::new();
    let ghost want = Seq::new(
        columns@.len(),
        |i: int| column_source(columns@[i], crate::text::views(fields@)),
    );
    let mut i: usize = 0;
    while i < columns.len()
        invariant
            i <= columns@.len(),
            want == Seq::new(
                columns@.len(),
                |i: int| column_source(columns@[i], crate::text::views(fields@)),
            ),
            positions(out@) =~= want.take(i as int),
            forall|j: int| 0 <= j < out@.len() ==> ((#[trigger] out@[j]) matches Some(p) ==> p
                < fields@.len()),
        decreases columns@.len() - i,
    {
        let source = if columns[i].dropped {
            None
        } else {
            position_of(fields, columns[i].name.as_str())
        };
        let ghost before = positions(out@);
        out.push(source);
        assert(positions(out@) =~= before.push(want[i as int]));
        i += 1;
    }
    assert(want.take(i as int) =~= want);
    out
}

// ---------------------------------------------------------------------------
// Laws
// ---------------------------------------------------------------------------

/// Is the plan one for values of the type?
pub open spec fn plan_fits(plan: DatumPlanView, oid: u32) -> bool {
    match plan {
        DatumPlanView::Null => true,
        DatumPlanView::Bool(_) => oid == BOOLOID,
        DatumPlanView::I16(_) => oid == INT2OID,
        DatumPlanView::I32(_) => oid == INT4OID,
        DatumPlanView::I64(_) => oid == INT8OID,
        DatumPlanView::Float4(_) => oid == FLOAT4OID,
        DatumPlanView::Float8(_) => oid == FLOAT8OID,
        DatumPlanView::Text(_) => is_text(oid),
        DatumPlanView::JsonBool(_) => is_json(oid),
        DatumPlanView::JsonNumber(_) => is_json(oid),
        DatumPlanView::JsonText(_) => is_json(oid),
        DatumPlanView::JsonDocument => is_json(oid),
        DatumPlanView::Input(_) => !is_scalar(oid),
        DatumPlanView::Row => !is_scalar(oid),
    }
}

/// Whatever a function returns, the value that reaches SQL is one of the
/// declared type; a value of another kind is refused, not converted.
pub proof fn law_returns_fit_the_declared_type(
    oid: u32,
    typtype: u8,
    b: bool,
    n: NumberView,
    s: Seq<char>,
)
    ensures
        bool_plan(oid, typtype, b) matches Ok(plan) ==> plan_fits(plan, oid),
        number_plan(oid, typtype, n) matches Ok(plan) ==> plan_fits(plan, oid),
        str_plan(oid, typtype, s) matches Ok(plan) ==> plan_fits(plan, oid),
        map_plan(oid, typtype, s) matches Ok(plan) ==> plan_fits(plan, oid),
        seq_plan(oid, typtype, s) matches Ok(plan) ==> plan_fits(plan, oid),
{
}

/// A number that stands for an integer is finite.
pub proof fn law_integers_are_finite(n: JsNumberView)
    ensures
        n.integral() is Some ==> n.finite(),
{
}

/// An integer type takes a number just where the number is an integer in its
/// range, and takes it unchanged.
pub proof fn law_integers_are_exact(typtype: u8, n: NumberView, small: i16, medium: i32, large: i64)
    ensures
        number_plan(INT2OID, typtype, n) == Ok::<_, Seq<char>>(DatumPlanView::I16(small))
            <==> number_integer(n) == Some(small as int),
        number_plan(INT4OID, typtype, n) == Ok::<_, Seq<char>>(DatumPlanView::I32(medium))
            <==> number_integer(n) == Some(medium as int),
        number_plan(INT8OID, typtype, n) == Ok::<_, Seq<char>>(DatumPlanView::I64(large))
            <==> number_integer(n) == Some(large as int),
{
}

/// A value that SQL hands to JavaScript as an integer, a boolean or a string
/// comes back as it was.
pub proof fn law_values_survive_the_round_trip(
    oid: u32,
    typtype: u8,
    v: i64,
    b: bool,
    s: Seq<char>,
)
    ensures
        decoding(false, oid) == DecodeKind::I16 && i16::MIN <= v <= i16::MAX ==> number_plan(
            oid,
            typtype,
            NumberView::Signed(v),
        ) == Ok::<_, Seq<char>>(DatumPlanView::I16(v as i16)),
        decoding(false, oid) == DecodeKind::I32 && i32::MIN <= v <= i32::MAX ==> number_plan(
            oid,
            typtype,
            NumberView::Signed(v),
        ) == Ok::<_, Seq<char>>(DatumPlanView::I32(v as i32)),
        decoding(false, oid) == DecodeKind::I64 ==> number_plan(
            oid,
            typtype,
            NumberView::Signed(v),
        ) == Ok::<_, Seq<char>>(DatumPlanView::I64(v)),
        decoding(false, oid) == DecodeKind::Bool ==> bool_plan(oid, typtype, b) == Ok::<
            _,
            Seq<char>,
        >(DatumPlanView::Bool(b)),
        decoding(false, oid) == DecodeKind::Text ==> str_plan(oid, typtype, s) == Ok::<
            _,
            Seq<char>,
        >(DatumPlanView::Text(s)),
        decoding(false, oid) == DecodeKind::Output ==> str_plan(oid, typtype, s) == Ok::<
            _,
            Seq<char>,
        >(DatumPlanView::Input(s)),
{
}

/// A column takes its value from a field of its own name, or is NULL.
pub proof fn law_columns_match_fields_by_name(column: Column, fields: Seq<Seq<char>>)
    ensures
        match column_source(column, fields) {
            Some(i) => !column.dropped && 0 <= i < fields.len() && fields[i] == column.name@,
            None => column.dropped || !fields.contains(column.name@),
        },
{
    lemma_name_position(fields, column.name@);
}

proof fn lemma_name_position(names: Seq<Seq<char>>, name: Seq<char>)
    ensures
        match name_position(names, name) {
            Some(i) => 0 <= i < names.len() && names[i] == name,
            None => !names.contains(name),
        },
    decreases names.len(),
{
    if names.len() > 0 {
        lemma_name_position(names.drop_last(), name);
        if name_position(names, name) is None && names.contains(name) {
            let i = choose|i: int| 0 <= i < names.len() && names[i] == name;
            if i < names.len() - 1 {
                assert(names.drop_last()[i] == name);
            }
        }
    }
}

/// The models of numbers have the parts of the numbers.
pub proof fn law_models_of_numbers(n: JsNumber, signed: i64, unsigned: u64)
    ensures
        n@.kind == n.kind,
        n@.text == n.text@,
        n@.bits == n.bits,
        Number::Signed(signed)@ == NumberView::Signed(signed),
        Number::Unsigned(unsigned)@ == NumberView::Unsigned(unsigned),
        Number::Float(n)@ == NumberView::Float(n@),
{
}

/// The models of values that reach SQL have what the values hold.
pub proof fn law_models_of_plans(b: bool, small: i16, medium: i32, large: i64, n: Number, s: String)
    ensures
        DatumPlan::Null@ == DatumPlanView::Null,
        DatumPlan::Bool(b)@ == DatumPlanView::Bool(b),
        DatumPlan::I16(small)@ == DatumPlanView::I16(small),
        DatumPlan::I32(medium)@ == DatumPlanView::I32(medium),
        DatumPlan::I64(large)@ == DatumPlanView::I64(large),
        DatumPlan::Float4(n)@ == DatumPlanView::Float4(n@),
        DatumPlan::Float8(n)@ == DatumPlanView::Float8(n@),
        DatumPlan::Text(s)@ == DatumPlanView::Text(s@),
        DatumPlan::JsonBool(b)@ == DatumPlanView::JsonBool(b),
        DatumPlan::JsonNumber(n)@ == DatumPlanView::JsonNumber(n@),
        DatumPlan::JsonText(s)@ == DatumPlanView::JsonText(s@),
        DatumPlan::JsonDocument@ == DatumPlanView::JsonDocument,
        DatumPlan::Input(s)@ == DatumPlanView::Input(s@),
        DatumPlan::Row@ == DatumPlanView::Row,
{
}

/// Which types are text types, JSON types and types with a conversion of their
/// own, by the numbers that the catalog gives them; of the others, those of the
/// kind `c` are row types.
pub proof fn law_kinds_of_types(oid: u32, typtype: u8)
    ensures
        is_text(oid) <==> oid == 25 || oid == 1043 || oid == 1042 || oid == 19,
        is_json(oid) <==> oid == 114 || oid == 3802,
        is_scalar(oid) <==> (oid == 16 || oid == 21 || oid == 23 || oid == 20 || oid == 700
            || oid == 701 || oid == 25 || oid == 1043 || oid == 1042 || oid == 19 || oid == 114
            || oid == 3802),
        is_scalar(oid) ==> category(oid, typtype) == OidCategory::Scalar,
        !is_scalar(oid) && typtype == 'c' as int ==> category(oid, typtype)
            == OidCategory::Composite,
        !is_scalar(oid) && typtype != 'c' as int ==> category(oid, typtype) == OidCategory::Other,
{
}

/// What errors call each type.
pub proof fn law_names_of_types(oid: u32)
    ensures
        oid == 16 ==> sql_type(oid) == "boolean"@,
        oid == 21 ==> sql_type(oid) == "int2"@,
        oid == 23 ==> sql_type(oid) == "int4"@,
        oid == 20 ==> sql_type(oid) == "int8"@,
        oid == 700 ==> sql_type(oid) == "float4"@,
        oid == 701 ==> sql_type(oid) == "float8"@,
        oid == 25 ==> sql_type(oid) == "text"@,
        oid == 1043 ==> sql_type(oid) == "varchar"@,
        oid == 1042 ==> sql_type(oid) == "char"@,
        oid == 19 ==> sql_type(oid) == "name"@,
        oid == 114 ==> sql_type(oid) == "json"@,
        oid == 3802 ==> sql_type(oid) == "jsonb"@,
        !is_scalar(oid) ==> sql_type(oid) == "declared SQL return type"@,
{
}

/// Each type is read in its own way: integers and floats in their width, texts,
/// booleans and JSON as such, and all other types as their text. NULL is read as
/// `null`, whatever its type.
pub proof fn law_how_types_are_read(oid: u32)
    ensures
        decoding(true, oid) == DecodeKind::Null,
        oid == 21 ==> decoding(false, oid) == DecodeKind::I16,
        oid == 23 ==> decoding(false, oid) == DecodeKind::I32,
        oid == 20 ==> decoding(false, oid) == DecodeKind::I64,
        oid == 700 ==> decoding(false, oid) == DecodeKind::F32,
        oid == 701 ==> decoding(false, oid) == DecodeKind::F64,
        oid == 16 ==> decoding(false, oid) == DecodeKind::Bool,
        oid == 25 || oid == 1043 || oid == 1042 || oid == 19 ==> decoding(false, oid)
            == DecodeKind::Text,
        oid == 114 || oid == 3802 ==> decoding(false, oid) == DecodeKind::Json,
        !is_scalar(oid) ==> decoding(false, oid) == DecodeKind::Output,
{
}

/// The error of a value that cannot be read calls its type by the name that SQL
/// has for it.
pub proof fn law_names_of_what_is_read(oid: u32)
    ensures
        is_scalar(oid) && !is_text(oid) && !is_json(oid) ==> decoded_type(decoding(false, oid))
            == sql_type(oid),
        is_text(oid) ==> decoded_type(decoding(false, oid)) == "text"@,
        is_json(oid) ==> decoded_type(decoding(false, oid)) == "json/jsonb"@,
        !is_scalar(oid) ==> decoded_type(decoding(false, oid)) == "value"@,
        decoded_type(decoding(true, oid)) == "null"@,
{
}

/// An argument that cannot be read is zero, `false`, the empty text or the given
/// document, as its type has it.
pub proof fn law_stand_ins<J>(kind: DecodeKind, value: OwnedPgValue<J>, document: J)
    requires
        is_stand_in(kind, value, document),
    ensures
        match value {
            OwnedPgValue::Null => kind == DecodeKind::Null,
            OwnedPgValue::Bool(b) => kind == DecodeKind::Bool && !b,
            OwnedPgValue::I16(v) => kind == DecodeKind::I16 && v == 0,
            OwnedPgValue::I32(v) => kind == DecodeKind::I32 && v == 0,
            OwnedPgValue::I64(v) => kind == DecodeKind::I64 && v == 0,
            OwnedPgValue::F32(v) => kind == DecodeKind::F32 && v == 0,
            OwnedPgValue::F64(v) => kind == DecodeKind::F64 && v == 0,
            OwnedPgValue::String(s) => (kind == DecodeKind::Text || kind == DecodeKind::Output)
                && s@.len() == 0,
            OwnedPgValue::Json(json) => kind == DecodeKind::Json && json == document,
        },
{
}

/// The integer that a number stands for, and the text of the number.
pub proof fn law_numbers(signed: i64, unsigned: u64, n: JsNumberView, v: i128)
    ensures
        number_integer(NumberView::Signed(signed)) == Some(signed as int),
        number_integer(NumberView::Unsigned(unsigned)) == Some(unsigned as int),
        n.kind == FloatKind::Integer(v) ==> number_integer(NumberView::Float(n)) == Some(v as int)
            && n.integral() == Some(v) && n.finite(),
        n.kind is Fraction ==> number_integer(NumberView::Float(n)) is None && n.integral() is None
            && n.finite(),
        n.kind is NotFinite ==> number_integer(NumberView::Float(n)) is None && n.integral() is None
            && !n.finite(),
        number_text(NumberView::Signed(signed)) == decimal_spec(signed as int),
        number_text(NumberView::Unsigned(unsigned)) == decimal_spec(unsigned as int),
        number_text(NumberView::Float(n)) == n.text,
{
}

/// The float types take every number, and take it unchanged, so that a float that
/// SQL hands out comes back as it was.
pub proof fn law_floats_take_every_number(oid: u32, typtype: u8, n: NumberView)
    ensures
        number_plan(700, typtype, n) == Ok::<_, Seq<char>>(DatumPlanView::Float4(n)),
        number_plan(701, typtype, n) == Ok::<_, Seq<char>>(DatumPlanView::Float8(n)),
        decoding(false, oid) == DecodeKind::F32 ==> number_plan(oid, typtype, n) == Ok::<
            _,
            Seq<char>,
        >(DatumPlanView::Float4(n)),
        decoding(false, oid) == DecodeKind::F64 ==> number_plan(oid, typtype, n) == Ok::<
            _,
            Seq<char>,
        >(DatumPlanView::Float8(n)),
{
}

/// The JSON types take every value as it is.
pub proof fn law_json_takes_every_value(
    oid: u32,
    typtype: u8,
    b: bool,
    n: NumberView,
    s: Seq<char>,
)
    requires
        oid == 114 || oid == 3802,
    ensures
        bool_plan(oid, typtype, b) == Ok::<_, Seq<char>>(DatumPlanView::JsonBool(b)),
        number_plan(oid, typtype, n) == Ok::<_, Seq<char>>(DatumPlanView::JsonNumber(n)),
        str_plan(oid, typtype, s) == Ok::<_, Seq<char>>(DatumPlanView::JsonText(s)),
        map_plan(oid, typtype, s) == Ok::<_, Seq<char>>(DatumPlanView::JsonDocument),
        seq_plan(oid, typtype, s) == Ok::<_, Seq<char>>(DatumPlanView::JsonDocument),
{
}

/// A type without a conversion of its own takes every value by its text; only an
/// object for a row type is taken field by field.
pub proof fn law_other_types_take_texts(
    oid: u32,
    typtype: u8,
    b: bool,
    n: NumberView,
    s: Seq<char>,
)
    requires
        !(oid == 16 || oid == 21 || oid == 23 || oid == 20 || oid == 700 || oid == 701 || oid == 25
            || oid == 1043 || oid == 1042 || oid == 19 || oid == 114 || oid == 3802),
    ensures
        bool_plan(oid, typtype, true) == Ok::<_, Seq<char>>(DatumPlanView::Input("true"@)),
        bool_plan(oid, typtype, false) == Ok::<_, Seq<char>>(DatumPlanView::Input("false"@)),
        number_plan(oid, typtype, n) == Ok::<_, Seq<char>>(DatumPlanView::Input(number_text(n))),
        str_plan(oid, typtype, s) == Ok::<_, Seq<char>>(DatumPlanView::Input(s)),
        seq_plan(oid, typtype, s) == Ok::<_, Seq<char>>(DatumPlanView::Input(s)),
        typtype == 'c' as int ==> map_plan(oid, typtype, s) == Ok::<_, Seq<char>>(
            DatumPlanView::Row,
        ),
        typtype != 'c' as int ==> map_plan(oid, typtype, s) == Ok::<_, Seq<char>>(
            DatumPlanView::Input(s),
        ),
{
}

/// Every other type takes values of its own kind unchanged and refuses all
/// others, by its name and by what it got.
pub proof fn law_scalars_take_their_own_kind(
    oid: u32,
    typtype: u8,
    b: bool,
    n: NumberView,
    s: Seq<char>,
)
    requires
        (oid == 16 || oid == 21 || oid == 23 || oid == 20 || oid == 700 || oid == 701 || oid == 25
            || oid == 1043 || oid == 1042 || oid == 19 || oid == 114 || oid == 3802) && oid != 114
            && oid != 3802,
    ensures
        oid == 16 ==> bool_plan(oid, typtype, b) == Ok::<_, Seq<char>>(DatumPlanView::Bool(b)),
        oid != 16 ==> bool_plan(oid, typtype, b) == Err::<DatumPlanView, _>(
            "pg_typescript: return type mismatch: expected "@ + sql_type(oid) + ", got "@ + "boolean"@,
        ),
        oid == 16 || oid == 25 || oid == 1043 || oid == 1042
            || oid == 19 ==> number_plan(oid, typtype, n) == Err::<DatumPlanView, _>(
            "pg_typescript: return type mismatch: expected "@ + sql_type(oid) + ", got "@ + "number"@,
        ),
        oid == 25 || oid == 1043 || oid == 1042 || oid == 19 ==> str_plan(oid, typtype, s) == Ok::<
            _,
            Seq<char>,
        >(DatumPlanView::Text(s)),
        !(oid == 25 || oid == 1043 || oid == 1042
            || oid == 19) ==> str_plan(oid, typtype, s) == Err::<DatumPlanView, _>(
            "pg_typescript: return type mismatch: expected "@ + sql_type(oid) + ", got "@ + "string"@,
        ),
        map_plan(oid, typtype, s) == Err::<DatumPlanView, _>(
            "pg_typescript: return type mismatch: expected "@ + sql_type(oid) + ", got "@ + "object"@,
        ),
        seq_plan(oid, typtype, s) == Err::<DatumPlanView, _>(
            "pg_typescript: return type mismatch: expected "@ + sql_type(oid) + ", got "@ + "array"@,
        ),
{
}

/// An integer type refuses a number that is no integer, and an integer beyond its
/// range, each by its own error.
pub proof fn law_refused_integers(oid: u32, typtype: u8, n: NumberView)
    requires
        oid == 21 || oid == 23 || oid == 20,
    ensures
        number_integer(n) is None ==> number_plan(oid, typtype, n) == Err::<DatumPlanView, _>(
            "pg_typescript: expected integral number for "@ + sql_type(oid) + ", got "@
                + number_text(n),
        ),
        number_integer(n) matches Some(v) && (oid == 21 && !(-32768 <= v <= 32767) || oid == 23
            && !(-2147483648 <= v <= 2147483647) || oid == 20 && !(-9223372036854775808 <= v
            <= 9223372036854775807)) ==> number_plan(oid, typtype, n) == Err::<DatumPlanView, _>(
            "pg_typescript: integer out of range for "@ + sql_type(oid) + ": "@ + number_text(n),
        ),
        number_integer(n) matches Some(v) ==> {
            &&& oid == 21 && -32768 <= v <= 32767 ==> number_plan(oid, typtype, n) == Ok::<
                _,
                Seq<char>,
            >(DatumPlanView::I16(v as i16))
            &&& oid == 23 && -2147483648 <= v <= 2147483647 ==> number_plan(oid, typtype, n)
                == Ok::<_, Seq<char>>(DatumPlanView::I32(v as i32))
            &&& oid == 20 && -9223372036854775808 <= v <= 9223372036854775807 ==> number_plan(
                oid,
                typtype,
                n,
            ) == Ok::<_, Seq<char>>(DatumPlanView::I64(v as i64))
        },
{
}

/// A column that was not dropped takes the first field of its name; one that was
/// dropped takes none.
pub proof fn law_columns_take_the_first_field_of_their_name(
    column: Column,
    before: Seq<Seq<char>>,
    after: Seq<Seq<char>>,
)
    requires
        !before.contains(column.name@),
    ensures
        column.dropped ==> column_source(column, before + seq![column.name@] + after) is None,
        !column.dropped ==> column_source(column, before + seq![column.name@] + after) == Some(
            before.len() as int,
        ),
        column_source(column, before) is None,
{
    let all = before + seq![column.name@] + after;
    let n = before.len() as int;
    lemma_name_position(before, column.name@);
    assert(all.take(n + 1).drop_last() =~= before);
    assert(all.take(n + 1).last() == column.name@);
    lemma_name_position_stays(all, column.name@, n + 1);
}

/// The models of positions are the positions.
pub proof fn law_models_of_positions(list: Seq<Option<usize>>, i: int)
    requires
        0 <= i < list.len(),
    ensures
        positions(list).len() == list.len(),
        list[i] is None <==> positions(list)[i] is None,
        list[i] matches Some(p) ==> positions(list)[i] == Some(p as int),
{
}

} // verus!
