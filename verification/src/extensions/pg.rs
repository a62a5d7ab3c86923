//! `_pg.execute()`: who may call it, how its parameters are bound, and how its
//! outcome is reported.
use vstd::prelude::*;

use crate::convert::{
    bool_text, decoding, is_json, text_of_bool, DecodeKind, FloatKind, JsNumber, JsNumberView,
    BOOLOID, FLOAT8OID, INT4OID, INT8OID, JSONBOID, JSONOID, TEXTOID, UNKNOWNOID,
};
use crate::error::{
    generic_error, js_result_view, range_error, type_error, ErrorClass, JsError, JsErrorView,
};
use crate::text::{
    decimal_nat, decimal_u64, integer_spec, lex_lt, opt_view, parse_i64, strictly_sorted,
};

verus! {

// ---------------------------------------------------------------------------
// Access
// ---------------------------------------------------------------------------

/// May `_pg.execute()` be called at this moment?
#[derive(Debug, Clone, Copy, PartialEq, Eq, Structural)]
pub struct PgExecuteAllowed(pub bool);

impl Default for PgExecuteAllowed {
    /// Not unless a run grants it.
    fn default() -> (r: PgExecuteAllowed)
        ensures
            r == PgExecuteAllowed(false),
    {
        PgExecuteAllowed(false)
    }
}

impl PgExecuteAllowed {
    /// Lets a call through, or refuses it.
    pub fn check(self) -> (r: Result<(), JsError>)
        ensures
            self.0 ==> r is Ok,
            !self.0 ==> (r matches Err(e) && e@ == generic_error(
                "pg_typescript: _pg.execute() may only be called from inside the function body"@,
            )),
    {
        if self.0 {
            Ok(())
        } else {
            Err(
                JsError::generic(
                    String::from_str(
                        "pg_typescript: _pg.execute() may only be called from inside the function body",
                    ),
                ),
            )
        }
    }
}

// ---------------------------------------------------------------------------
// Values
// ---------------------------------------------------------------------------

/// A parameter value as it arrives from JavaScript.
#[allow(inconsistent_fields)]
#[derive(Debug)]
pub enum WireValue {
    Null,
    Bool { value: bool },
    Number { value: JsNumber },
    String { value: String },
    Bigint { value: String },
    Array { value: Vec<WireValue> },
    /// The members in the order of their names, each name once (see
    /// [`wire_well_formed`]).
    Object { value: Vec<(String, WireValue)> },
}

/// A type as a parameter names it.
#[allow(inconsistent_fields)]
#[derive(Debug, PartialEq, Eq)]
pub enum WireTypeRef {
    Name { value: String },
    Oid { value: u32 },
}

/// A parameter: a value by itself, or one of a given type.
#[derive(Debug)]
pub enum WireParam {
    Inferred { value: WireValue },
    Typed { type_ref: WireTypeRef, value: WireValue },
}

/// A JSON value.
#[derive(Debug, PartialEq, Eq)]
pub enum JsonValue {
    Null,
    Bool(bool),
    Number(JsNumber),
    String(String),
    Array(Vec<JsonValue>),
    /// The members in the order of their names, each name once (see
    /// [`json_well_formed`]).
    Object(Vec<(String, JsonValue)>),
}

/// The model of a [`JsonValue`].
pub enum JsonView {
    Null,
    Bool(bool),
    Number(JsNumberView),
    String(Seq<char>),
    Array(Seq<JsonView>),
    Object(Seq<(Seq<char>, JsonView)>),
}

/// The model of a JSON value.
pub open spec fn json_view(json: JsonValue) -> JsonView
    decreases json,
{
    match json {
        JsonValue::Null => JsonView::Null,
        JsonValue::Bool(b) => JsonView::Bool(b),
        JsonValue::Number(n) => JsonView::Number(n@),
        JsonValue::String(s) => JsonView::String(s@),
        JsonValue::Array(items) => JsonView::Array(json_item_views(items@)),
        JsonValue::Object(members) => JsonView::Object(json_member_views(members@)),
    }
}

/// The models of the items of an array.
pub open spec fn json_item_views(items: Seq<JsonValue>) -> Seq<JsonView>
    decreases items,
{
    if items.len() == 0 {
        Seq::empty()
    } else {
        json_item_views(items.drop_last()).push(json_view(items.last()))
    }
}

/// The models of the members of an object.
pub open spec fn json_member_views(members: Seq<(String, JsonValue)>) -> Seq<(Seq<char>, JsonView)>
    decreases members,
{
    if members.len() == 0 {
        Seq::empty()
    } else {
        json_member_views(members.drop_last()).push((members.last().0@, json_view(members.last().1)))
    }
}

impl View for JsonValue {
    type V = JsonView;

    open spec fn view(&self) -> JsonView {
        json_view(*self)
    }
}

/// The JSON value that a parameter value stands for. A number must be finite,
/// and there must be no bigint anywhere in it.
pub open spec fn json_of(value: WireValue) -> Result<JsonView, JsErrorView>
    decreases value,
{
    match value {
        WireValue::Null => Ok(JsonView::Null),
        WireValue::Bool { value } => Ok(JsonView::Bool(value)),
        WireValue::Number { value } => if value@.finite() {
            Ok(JsonView::Number(value@))
        } else {
            Err(
                type_error("pg_typescript: cannot encode NaN or Infinity inside JSON values"@),
            )
        },
        WireValue::String { value } => Ok(JsonView::String(value@)),
        WireValue::Bigint { .. } => Err(
            type_error(
                "pg_typescript: bigint values are not supported inside inferred JSON parameters"@,
            ),
        ),
        WireValue::Array { value } => match json_items_of(value@) {
            Ok(items) => Ok(JsonView::Array(items)),
            Err(e) => Err(e),
        },
        WireValue::Object { value } => match json_members_of(value@) {
            Ok(members) => Ok(JsonView::Object(members)),
            Err(e) => Err(e),
        },
    }
}

/// The JSON values of the items of an array, or the first error.
pub open spec fn json_items_of(items: Seq<WireValue>) -> Result<Seq<JsonView>, JsErrorView>
    decreases items,
{
    if items.len() == 0 {
        Ok(Seq::empty())
    } else {
        match json_items_of(items.drop_last()) {
            Err(e) => Err(e),
            Ok(done) => match json_of(items.last()) {
                Err(e) => Err(e),
                Ok(json) => Ok(done.push(json)),
            },
        }
    }
}

/// The JSON values of the members of an object, or the first error.
pub open spec fn json_members_of(members: Seq<(String, WireValue)>) -> Result<
    Seq<(Seq<char>, JsonView)>,
    JsErrorView,
>
    decreases members,
{
    if members.len() == 0 {
        Ok(Seq::empty())
    } else {
        match json_members_of(members.drop_last()) {
            Err(e) => Err(e),
            Ok(done) => match json_of(members.last().1) {
                Err(e) => Err(e),
                Ok(json) => Ok(done.push((members.last().0@, json))),
            },
        }
    }
}

/// The names of the members of an object.
pub open spec fn wire_names(members: Seq<(String, WireValue)>) -> Seq<Seq<char>> {
    Seq::new(members.len(), |i: int| members[i].0@)
}

/// Do the members of every object in the value stand in the order of their
/// names, and so no name twice?
pub open spec fn wire_well_formed(value: WireValue) -> bool
    decreases value,
{
    match value {
        WireValue::Array { value } => wire_items_well_formed(value@),
        WireValue::Object { value } => strictly_sorted(wire_names(value@))
            && wire_members_well_formed(value@),
        _ => true,
    }
}

/// Is every item well-formed?
pub open spec fn wire_items_well_formed(items: Seq<WireValue>) -> bool
    decreases items,
{
    items.len() == 0 || (wire_items_well_formed(items.drop_last()) && wire_well_formed(
        items.last(),
    ))
}

/// Is the value of every member well-formed?
pub open spec fn wire_members_well_formed(members: Seq<(String, WireValue)>) -> bool
    decreases members,
{
    members.len() == 0 || (wire_members_well_formed(members.drop_last()) && wire_well_formed(
        members.last().1,
    ))
}

/// The names of the members of an object.
pub open spec fn json_names(members: Seq<(Seq<char>, JsonView)>) -> Seq<Seq<char>> {
    Seq::new(members.len(), |i: int| members[i].0)
}

/// Do the members of every object in the value stand in the order of their
/// names, and so no name twice?
pub open spec fn json_well_formed(json: JsonView) -> bool
    decreases json,
{
    match json {
        JsonView::Array(items) => json_items_well_formed(items),
        JsonView::Object(members) => strictly_sorted(json_names(members))
            && json_members_well_formed(members),
        _ => true,
    }
}

/// Is every item well-formed?
pub open spec fn json_items_well_formed(items: Seq<JsonView>) -> bool
    decreases items,
{
    items.len() == 0 || (json_items_well_formed(items.drop_last()) && json_well_formed(
        items.last(),
    ))
}

/// Is the value of every member well-formed?
pub open spec fn json_members_well_formed(members: Seq<(Seq<char>, JsonView)>) -> bool
    decreases members,
{
    members.len() == 0 || (json_members_well_formed(members.drop_last()) && json_well_formed(
        members.last().1,
    ))
}

/// The text that a parameter value stands for.
pub open spec fn text_of(value: WireValue) -> Result<Seq<char>, JsErrorView> {
    match value {
        WireValue::Null => Err(
            type_error("pg_typescript: null values require an explicit type or SQL cast"@),
        ),
        WireValue::Bool { value } => Ok(bool_text(value)),
        WireValue::Number { value } => Ok(value.text@),
        WireValue::String { value } => Ok(value@),
        WireValue::Bigint { value } => Ok(value@),
        WireValue::Array { .. } | WireValue::Object { .. } => Err(
            type_error(
                "pg_typescript: array/object parameters require JSON/jsonb or a string literal"@,
            ),
        ),
    }
}

proof fn lemma_items_error_stays(items: Seq<WireValue>, n: int)
    requires
        0 <= n <= items.len(),
        json_items_of(items.take(n)) is Err,
    ensures
        json_items_of(items) == json_items_of(items.take(n)),
    decreases items.len() - n,
{
    if n < items.len() {
        assert(items.take(n + 1).drop_last() =~= items.take(n));
        lemma_items_error_stays(items, n + 1);
    } else {
        assert(items.take(n) =~= items);
    }
}

proof fn lemma_members_error_stays(members: Seq<(String, WireValue)>, n: int)
    requires
        0 <= n <= members.len(),
        json_members_of(members.take(n)) is Err,
    ensures
        json_members_of(members) == json_members_of(members.take(n)),
    decreases members.len() - n,
{
    if n < members.len() {
        assert(members.take(n + 1).drop_last() =~= members.take(n));
        lemma_members_error_stays(members, n + 1);
    } else {
        assert(members.take(n) =~= members);
    }
}

impl WireValue {
    /// The text that the value stands for.
    pub fn to_text(&self) -> (r: Result<String, JsError>)
        ensures
            js_result_view(r) == text_of(*self),
    {
        match self {
            WireValue::Null => Err(
                JsError::type_error(
                    String::from_str(
                        "pg_typescript: null values require an explicit type or SQL cast",
                    ),
                ),
            ),
            WireValue::Bool { value } => Ok(text_of_bool(*value)),
            WireValue::Number { value } => Ok(value.text.clone()),
            WireValue::String { value } => Ok(value.clone()),
            WireValue::Bigint { value } => Ok(value.clone()),
            WireValue::Array { .. } | WireValue::Object { .. } => Err(
                JsError::type_error(
                    String::from_str(
                        "pg_typescript: array/object parameters require JSON/jsonb or a string literal",
                    ),
                ),
            ),
        }
    }

    /// The JSON value that the value stands for.
    pub fn to_json_value(&self) -> (r: Result<JsonValue, JsError>)
        ensures
            js_result_view(r) == json_of(*self),
            wire_well_formed(*self) ==> (r matches Ok(json) ==> json_well_formed(json@)),
        decreases self,
    {
        proof {
            if wire_well_formed(*self) {
                law_json_keeps_names_distinct(*self);
            }
        }
        match self {
            WireValue::Null => Ok(JsonValue::Null),
            WireValue::Bool { value } => Ok(JsonValue::Bool(*value)),
            WireValue::Number { value } => if value.is_finite() {
                Ok(JsonValue::Number(value.clone()))
            } else {
                Err(
                    JsError::type_error(
                        String::from_str(
                            "pg_typescript: cannot encode NaN or Infinity inside JSON values",
                        ),
                    ),
                )
            },
            WireValue::String { value } => Ok(JsonValue::String(value.clone())),
            WireValue::Bigint { .. } => Err(
                JsError::type_error(
                    String::from_str(
                        "pg_typescript: bigint values are not supported inside inferred JSON parameters",
                    ),
                ),
            ),
            WireValue::Array { value } => {
                let mut items: Vec<JsonValue> = Vec::new();
                let mut i: usize = 0;
                while i < value.len()
                    invariant
                        i <= value@.len(),
                        *self == (WireValue::Array { value: *value }),
                        json_items_of(value@.take(i as int)) == Ok::<_, JsErrorView>(
                            json_item_views(items@),
                        ),
                    decreases value@.len() - i,
                {
                    assert(value@.take(i + 1).drop_last() =~= value@.take(i as int));
                    assert(value@.take(i + 1).last() == value@[i as int]);
                    assert(decreases_to!(self => value@[i as int]));
                    match value[i].to_json_value() {
                        Ok(json) => {
                            let ghost before = items@;
                            items.push(json);
                            assert(items@.drop_last() =~= before);
                        },
                        Err(e) => {
                            proof {
                                lemma_items_error_stays(value@, i + 1);
                            }
                            return Err(e);
                        },
                    }
                    i += 1;
                }
                assert(value@.take(i as int) =~= value@);
                Ok(JsonValue::Array(items))
            },
            WireValue::Object { value } => {
                let mut members: Vec<(String, JsonValue)> = Vec::new();
                let mut i: usize = 0;
                while i < value.len()
                    invariant
                        i <= value@.len(),
                        *self == (WireValue::Object { value: *value }),
                        json_members_of(value@.take(i as int)) == Ok::<_, JsErrorView>(
                            json_member_views(members@),
                        ),
                    decreases value@.len() - i,
                {
                    assert(value@.take(i + 1).drop_last() =~= value@.take(i as int));
                    assert(value@.take(i + 1).last() == value@[i as int]);
                    assert(decreases_to!(self => value@[i as int].1));
                    match value[i].1.to_json_value() {
                        Ok(json) => {
                            let ghost before = members@;
                            members.push((value[i].0.clone(), json));
                            assert(members@.drop_last() =~= before);
                        },
                        Err(e) => {
                            proof {
                                lemma_members_error_stays(value@, i + 1);
                            }
                            return Err(e);
                        },
                    }
                    i += 1;
                }
                assert(value@.take(i as int) =~= value@);
                Ok(JsonValue::Object(members))
            },
        }
    }
}

// ---------------------------------------------------------------------------
// Parameters
// ---------------------------------------------------------------------------

/// The value that a parameter is bound to.
#[derive(Debug, PartialEq, Eq)]
pub enum SpiValue {
    Null,
    Bool(bool),
    I32(i32),
    I64(i64),
    /// The number in double precision, by its representation.
    F64(u64),
    Text(String),
    Jsonb(JsonValue),
    /// What the type's input function makes of the text.
    Input(String),
    /// What the type's input function makes of the text of the JSON value.
    InputJson(JsonValue),
}

/// A bound parameter: its type and its value.
#[derive(Debug, PartialEq, Eq)]
pub struct SpiParam {
    pub oid: u32,
    pub value: SpiValue,
}

/// The model of a [`SpiValue`].
pub enum SpiValueView {
    Null,
    Bool(bool),
    I32(i32),
    I64(i64),
    F64(u64),
    Text(Seq<char>),
    Jsonb(JsonView),
    Input(Seq<char>),
    InputJson(JsonView),
}

/// The model of a [`SpiParam`].
pub struct SpiParamView {
    pub oid: u32,
    pub value: SpiValueView,
}

impl View for SpiValue {
    type V = SpiValueView;

    open spec fn view(&self) -> SpiValueView {
        match self {
            SpiValue::Null => SpiValueView::Null,
            SpiValue::Bool(v) => SpiValueView::Bool(*v),
            SpiValue::I32(v) => SpiValueView::I32(*v),
            SpiValue::I64(v) => SpiValueView::I64(*v),
            SpiValue::F64(v) => SpiValueView::F64(*v),
            SpiValue::Text(v) => SpiValueView::Text(v@),
            SpiValue::Jsonb(v) => SpiValueView::Jsonb(v@),
            SpiValue::Input(v) => SpiValueView::Input(v@),
            SpiValue::InputJson(v) => SpiValueView::InputJson(v@),
        }
    }
}

impl View for SpiParam {
    type V = SpiParamView;

    open spec fn view(&self) -> SpiParamView {
        SpiParamView { oid: self.oid, value: self.value@ }
    }
}

/// The 64-bit integer nearest to an integer.
pub open spec fn saturated(v: int) -> i64 {
    if v < i64::MIN {
        i64::MIN
    } else if v > i64::MAX {
        i64::MAX
    } else {
        v as i64
    }
}

/// How a number binds where no type is given: as the smallest of int4 and int8
/// that it fits, where it is an integer, else as float8.
pub open spec fn number_binding(n: JsNumberView) -> SpiParamView {
    match n.integral() {
        Some(v) => if i32::MIN <= v <= i32::MAX {
            SpiParamView { oid: INT4OID, value: SpiValueView::I32(v as i32) }
        } else {
            SpiParamView { oid: INT8OID, value: SpiValueView::I64(saturated(v as int)) }
        },
        None => SpiParamView { oid: FLOAT8OID, value: SpiValueView::F64(n.bits) },
    }
}

/// How a value binds where no type is given.
pub open spec fn inferred_binding(value: WireValue) -> Result<SpiParamView, JsErrorView> {
    match value {
        WireValue::Null => Ok(SpiParamView { oid: UNKNOWNOID, value: SpiValueView::Null }),
        WireValue::Bool { value } => Ok(
            SpiParamView { oid: BOOLOID, value: SpiValueView::Bool(value) },
        ),
        WireValue::Number { value } => Ok(number_binding(value@)),
        WireValue::String { value } => Ok(
            SpiParamView { oid: TEXTOID, value: SpiValueView::Text(value@) },
        ),
        WireValue::Bigint { value } => match integer_spec(value@) {
            Some(v) if i64::MIN <= v <= i64::MAX => Ok(
                SpiParamView { oid: INT8OID, value: SpiValueView::I64(v as i64) },
            ),
            _ => Err(
                range_error(
                    "pg_typescript: bigint parameter is out of range for int8: "@ + value@,
                ),
            ),
        },
        WireValue::Array { .. } | WireValue::Object { .. } => match json_of(value) {
            Ok(json) => Ok(SpiParamView { oid: JSONBOID, value: SpiValueView::Jsonb(json) }),
            Err(e) => Err(e),
        },
    }
}

/// How a value binds as one of a given type.
pub open spec fn typed_binding(oid: u32, value: WireValue) -> Result<SpiParamView, JsErrorView> {
    match value {
        WireValue::Null => Ok(SpiParamView { oid, value: SpiValueView::Null }),
        WireValue::Array { .. } | WireValue::Object { .. } => if is_json(oid) {
            match json_of(value) {
                Ok(json) => Ok(SpiParamView { oid, value: SpiValueView::InputJson(json) }),
                Err(e) => Err(e),
            }
        } else {
            Err(
                type_error(
                    "pg_typescript: array/object typed parameters are only supported for json/jsonb"@,
                ),
            )
        },
        _ => match text_of(value) {
            Ok(text) => Ok(SpiParamView { oid, value: SpiValueView::Input(text) }),
            Err(e) => Err(e),
        },
    }
}

/// The OID of a type; one that is named has the OID that the catalog gives it.
pub open spec fn type_oid(type_ref: WireTypeRef, named: u32) -> u32 {
    match type_ref {
        WireTypeRef::Oid { value } => value,
        WireTypeRef::Name { .. } => named,
    }
}

/// How a parameter binds, with the OID that the catalog gives to the name of
/// its type, where it names one.
pub open spec fn binding(param: WireParam, named: u32) -> Result<SpiParamView, JsErrorView> {
    match param {
        WireParam::Inferred { value } => inferred_binding(value),
        WireParam::Typed { type_ref, value } => typed_binding(type_oid(type_ref, named), value),
    }
}

/// The error of a parameter, by its number.
pub open spec fn numbered_error(index: nat, message: Seq<char>) -> JsErrorView {
    generic_error(
        "pg_typescript: invalid parameter $"@ + decimal_nat(index + 1) + ": "@ + message,
    )
}

/// Binds a number where no type is given.
pub fn bind_inferred_number(value: &JsNumber) -> (r: SpiParam)
    ensures
        r@ == number_binding(value@),
{
    match value.integral() {
        Some(v) => if -0x8000_0000 <= v && v <= 0x7fff_ffff {
            SpiParam { oid: INT4OID, value: SpiValue::I32(v as i32) }
        } else if v < -0x8000_0000_0000_0000 {
            SpiParam { oid: INT8OID, value: SpiValue::I64(i64::MIN) }
        } else if v > 0x7fff_ffff_ffff_ffff {
            SpiParam { oid: INT8OID, value: SpiValue::I64(i64::MAX) }
        } else {
            SpiParam { oid: INT8OID, value: SpiValue::I64(v as i64) }
        },
        None => SpiParam { oid: FLOAT8OID, value: SpiValue::F64(value.bits) },
    }
}

/// Binds a value where no type is given.
pub fn bind_inferred_value(value: &WireValue) -> (r: Result<SpiParam, JsError>)
    ensures
        js_result_view(r) == inferred_binding(*value),
{
    match value {
        WireValue::Null => Ok(SpiParam { oid: UNKNOWNOID, value: SpiValue::Null }),
        WireValue::Bool { value } => Ok(SpiParam { oid: BOOLOID, value: SpiValue::Bool(*value) }),
        WireValue::Number { value } => Ok(bind_inferred_number(value)),
        WireValue::String { value } => Ok(
            SpiParam { oid: TEXTOID, value: SpiValue::Text(value.clone()) },
        ),
        WireValue::Bigint { value } => match parse_i64(value.as_str()) {
            Some(v) => Ok(SpiParam { oid: INT8OID, value: SpiValue::I64(v) }),
            None => Err(
                JsError::range_error(
                    String::from_str(
                        "pg_typescript: bigint parameter is out of range for int8: ",
                    ).concat(value.as_str()),
                ),
            ),
        },
        WireValue::Array { .. } | WireValue::Object { .. } => match value.to_json_value() {
            Ok(json) => Ok(SpiParam { oid: JSONBOID, value: SpiValue::Jsonb(json) }),
            Err(e) => Err(e),
        },
    }
}

/// Binds a value as one of a given type.
pub fn bind_typed_value(oid: u32, value: &WireValue) -> (r: Result<SpiParam, JsError>)
    ensures
        js_result_view(r) == typed_binding(oid, *value),
{
    match value {
        WireValue::Null => Ok(SpiParam { oid, value: SpiValue::Null }),
        WireValue::Array { .. } | WireValue::Object { .. } => if oid == JSONOID || oid
            == JSONBOID {
            match value.to_json_value() {
                Ok(json) => Ok(SpiParam { oid, value: SpiValue::InputJson(json) }),
                Err(e) => Err(e),
            }
        } else {
            Err(
                JsError::type_error(
                    String::from_str(
                        "pg_typescript: array/object typed parameters are only supported for json/jsonb",
                    ),
                ),
            )
        },
        _ => match value.to_text() {
            Ok(text) => Ok(SpiParam { oid, value: SpiValue::Input(text) }),
            Err(e) => Err(e),
        },
    }
}

/// The OID of a type, with the one that the catalog gives to its name, where it
/// is named.
pub fn resolve_type_ref(type_ref: &WireTypeRef, named: u32) -> (r: u32)
    ensures
        r == type_oid(*type_ref, named),
{
    match type_ref {
        WireTypeRef::Oid { value } => *value,
        WireTypeRef::Name { .. } => named,
    }
}

/// Binds a parameter, with the OID that the catalog gives to the name of its
/// type, where it names one.
pub fn bind_param(param: &WireParam, named: u32) -> (r: Result<SpiParam, JsError>)
    ensures
        js_result_view(r) == binding(*param, named),
{
    match param {
        WireParam::Inferred { value } => bind_inferred_value(value),
        WireParam::Typed { type_ref, value } => bind_typed_value(
            resolve_type_ref(type_ref, named),
            value,
        ),
    }
}

/// The error of a parameter, by its number.
pub fn param_error(index: usize, err: JsError) -> (r: JsError)
    requires
        index < usize::MAX,
    ensures
        r@ == numbered_error(index as nat, err@.message),
{
    let number: u64 = (index + 1) as u64;
    JsError::generic(
        String::from_str("pg_typescript: invalid parameter $").concat(
            decimal_u64(number).as_str(),
        ).concat(": ").concat(err.message.as_str()),
    )
}

/// Binds the parameter at a position of the list.
pub fn bind_numbered_param(index: usize, param: &WireParam, named: u32) -> (r: Result<
    SpiParam,
    JsError,
>)
    requires
        index < usize::MAX,
    ensures
        match binding(*param, named) {
            Ok(bound) => js_result_view(r) == Ok::<_, JsErrorView>(bound),
            Err(e) => js_result_view(r) == Err::<SpiParamView, _>(
                numbered_error(index as nat, e.message),
            ),
        },
{
    match bind_param(param, named) {
        Ok(bound) => Ok(bound),
        Err(e) => Err(param_error(index, e)),
    }
}

/// The types of bound parameters.
pub open spec fn argument_types(params: Seq<SpiParam>) -> Seq<u32> {
    Seq::new(params.len(), |i: int| params[i].oid)
}

/// For each bound parameter the mark that says whether it is NULL.
pub open spec fn argument_marks(params: Seq<SpiParam>) -> Seq<u8> {
    Seq::new(
        params.len(),
        |i: int|
            if params[i].value is Null {
                110u8
            } else {
                32u8
            },
    )
}

/// The types of bound parameters, and for each the mark that says whether it is
/// NULL: `n` where it is, a space where it is not.
pub fn spi_arguments(params: &Vec<SpiParam>) -> (r: (Vec<u32>, Vec<u8>))
    ensures
        r.0@ == argument_types(params@),
        r.1@ == argument_marks(params@),
        r.0@ == Seq::new(params@.len(), |i: int| params@[i].oid),
        r.1@ == Seq::new(
            params@.len(),
            |i: int|
                if params@[i].value is Null {
                    110u8
                } else {
                    32u8
                },
        ),
{
    let mut types: Vec<u32> = Vec::new();
    let mut nulls: Vec<u8> = Vec::new();
    let mut i: usize = 0;
    while i < params.len()
        invariant
            i <= params@.len(),
            types@ =~= Seq::new(i as nat, |j: int| params@[j].oid),
            nulls@ =~= Seq::new(
                i as nat,
                |j: int|
                    if params@[j].value is Null {
                        110u8
                    } else {
                        32u8
                    },
            ),
        decreases params@.len() - i,
    {
        types.push(params[i].oid);
        nulls.push(
            match params[i].value {
                SpiValue::Null => 110u8,
                _ => 32u8,
            },
        );
        i += 1;
    }
    assert(types@ =~= argument_types(params@));
    assert(nulls@ =~= argument_marks(params@));
    (types, nulls)
}

// ---------------------------------------------------------------------------
// Outcomes
// ---------------------------------------------------------------------------

/// The kinds of success that the server interface reports.
#[derive(Debug, Clone, Copy, PartialEq, Eq, Structural)]
pub enum SpiOkCodes {
    Connect,
    Finish,
    Fetch,
    Utility,
    Select,
    SelInto,
    Insert,
    Delete,
    Update,
    Cursor,
    InsertReturning,
    DeleteReturning,
    UpdateReturning,
    Rewritten,
    RelRegister,
    RelUnregister,
    TdRegister,
    Merge,
}

/// The command that a kind of success stands for.
pub open spec fn command_name(code: SpiOkCodes) -> Seq<char> {
    match code {
        SpiOkCodes::Select | SpiOkCodes::SelInto => "SELECT"@,
        SpiOkCodes::Insert | SpiOkCodes::InsertReturning => "INSERT"@,
        SpiOkCodes::Update | SpiOkCodes::UpdateReturning => "UPDATE"@,
        SpiOkCodes::Delete | SpiOkCodes::DeleteReturning => "DELETE"@,
        SpiOkCodes::Merge => "MERGE"@,
        _ => "UTILITY"@,
    }
}

/// The command of a status, with what the server interface says of a status
/// other than zero.
pub open spec fn command_of(
    status_code: i32,
    checked: Option<Result<SpiOkCodes, Seq<char>>>,
) -> Result<Seq<char>, JsErrorView> {
    if status_code == 0 {
        Ok("EMPTY"@)
    } else {
        match checked->0 {
            Ok(code) => Ok(command_name(code)),
            Err(e) => Err(generic_error("pg_typescript: SPI execute failed: "@ + e)),
        }
    }
}

/// The command that was run, from the status of the run and what the server
/// interface says of it. An empty query has status zero, of which the server
/// interface says nothing.
pub fn map_command(status_code: i32, checked: Option<Result<SpiOkCodes, String>>) -> (r: Result<
    &'static str,
    JsError,
>)
    requires
        status_code != 0 ==> checked is Some,
    ensures
        match r {
            Ok(command) => Ok::<_, JsErrorView>(command@),
            Err(e) => Err(e@),
        } == command_of(
            status_code,
            match checked {
                Some(Ok(code)) => Some(Ok(code)),
                Some(Err(e)) => Some(Err(e@)),
                None => None,
            },
        ),
{
    if status_code == 0 {
        return Ok("EMPTY");
    }
    match checked {
        Some(Ok(code)) => match code {
            SpiOkCodes::Select | SpiOkCodes::SelInto => Ok("SELECT"),
            SpiOkCodes::Insert | SpiOkCodes::InsertReturning => Ok("INSERT"),
            SpiOkCodes::Update | SpiOkCodes::UpdateReturning => Ok("UPDATE"),
            SpiOkCodes::Delete | SpiOkCodes::DeleteReturning => Ok("DELETE"),
            SpiOkCodes::Merge => Ok("MERGE"),
            _ => Ok("UTILITY"),
        },
        Some(Err(e)) => Err(
            JsError::generic(
                String::from_str("pg_typescript: SPI execute failed: ").concat(e.as_str()),
            ),
        ),
        None => Ok("UTILITY"),
    }
}

/// A part of an error report that may be missing.
pub open spec fn report_part(label: Seq<char>, part: Option<Seq<char>>) -> Seq<char> {
    match part {
        Some(text) => label + text,
        None => Seq::empty(),
    }
}

/// An error of the server as user code sees it.
pub open spec fn error_report(
    message: Seq<char>,
    detail: Option<Seq<char>>,
    hint: Option<Seq<char>>,
) -> Seq<char> {
    "pg_typescript: "@ + message + report_part("\nDETAIL: "@, detail) + report_part(
        "\nHINT: "@,
        hint,
    )
}

/// An error of the server as user code sees it.
pub fn format_pg_error(message: &str, detail: Option<String>, hint: Option<String>) -> (r: String)
    ensures
        r@ == error_report(message@, opt_view(detail), opt_view(hint)),
        r@ == "pg_typescript: "@ + message@ + report_part("\nDETAIL: "@, opt_view(detail))
            + report_part("\nHINT: "@, opt_view(hint)),
{
    let mut out = String::from_str("pg_typescript: ").concat(message);
    if let Some(detail) = &detail {
        out = out.concat("\nDETAIL: ").concat(detail.as_str());
    }
    assert(out@ =~= "pg_typescript: "@ + message@ + report_part("\nDETAIL: "@, opt_view(detail)));
    let ghost so_far = out@;
    if let Some(hint) = &hint {
        out = out.concat("\nHINT: ").concat(hint.as_str());
    }
    assert(out@ =~= so_far + report_part("\nHINT: "@, opt_view(hint)));
    out
}

/// The error of a result column whose name cannot be read.
pub fn column_name_error(ordinal: u32) -> (r: JsError)
    ensures
        r@ == generic_error(
            "pg_typescript: could not read SPI column name at ordinal "@ + decimal_nat(
                ordinal as nat,
            ),
        ),
{
    JsError::generic(
        String::from_str("pg_typescript: could not read SPI column name at ordinal ").concat(
            decimal_u64(ordinal as u64).as_str(),
        ),
    )
}

// ---------------------------------------------------------------------------
// Laws
// ---------------------------------------------------------------------------

/// `null` always binds, as NULL, with or without a type, and nothing else binds
/// as NULL.
pub proof fn law_null_binds_as_null(param: WireParam, named: u32)
    ensures
        binding(param, named) matches Ok(bound) ==> (bound.value is Null <==> (match param {
            WireParam::Inferred { value } => value is Null,
            WireParam::Typed { value, .. } => value is Null,
        })),
        (match param {
            WireParam::Inferred { value } => value is Null,
            WireParam::Typed { value, .. } => value is Null,
        }) ==> binding(param, named) is Ok,
{
}

/// An explicit type is the type that the parameter has.
pub proof fn law_explicit_type_is_kept(type_ref: WireTypeRef, value: WireValue, named: u32)
    ensures
        binding(WireParam::Typed { type_ref, value }, named) matches Ok(bound) ==> bound.oid
            == type_oid(type_ref, named),
{
}

/// An integer that fits 64 bits binds as itself, whether it arrives as a number
/// or as a bigint.
pub proof fn law_integers_bind_exactly(n: JsNumberView, text: String, v: i64)
    ensures
        n.integral() == Some(v as i128) ==> match number_binding(n).value {
            SpiValueView::I32(bound) => bound == v,
            SpiValueView::I64(bound) => bound == v,
            _ => false,
        },
        integer_spec(text@) == Some(v as int) ==> inferred_binding(
            WireValue::Bigint { value: text },
        ) == Ok::<_, JsErrorView>(SpiParamView { oid: INT8OID, value: SpiValueView::I64(v) }),
{
}

/// The JSON value of a parameter keeps the names of objects in order, and so
/// distinct.
pub proof fn law_json_keeps_names_distinct(value: WireValue)
    requires
        wire_well_formed(value),
    ensures
        json_of(value) matches Ok(json) ==> json_well_formed(json),
    decreases value,
{
    match value {
        WireValue::Array { value: items } => {
            lemma_items_well_formed(items@);
        },
        WireValue::Object { value: members } => {
            lemma_members_well_formed(members@);
        },
        _ => {},
    }
}

proof fn lemma_items_well_formed(items: Seq<WireValue>)
    requires
        wire_items_well_formed(items),
    ensures
        json_items_of(items) matches Ok(json) ==> json_items_well_formed(json),
    decreases items,
{
    if items.len() > 0 {
        lemma_items_well_formed(items.drop_last());
        law_json_keeps_names_distinct(items.last());
        if let Ok(done) = json_items_of(items.drop_last()) {
            if let Ok(json) = json_of(items.last()) {
                assert(done.push(json).drop_last() =~= done);
            }
        }
    }
}

proof fn lemma_members_well_formed(members: Seq<(String, WireValue)>)
    requires
        wire_members_well_formed(members),
    ensures
        json_members_of(members) matches Ok(json) ==> json_members_well_formed(json) && json_names(
            json,
        ) =~= wire_names(members),
    decreases members,
{
    if members.len() > 0 {
        lemma_members_well_formed(members.drop_last());
        law_json_keeps_names_distinct(members.last().1);
        if let Ok(done) = json_members_of(members.drop_last()) {
            if let Ok(json) = json_of(members.last().1) {
                let all = done.push((members.last().0@, json));
                assert(all.drop_last() =~= done);
                assert(json_names(all) =~= json_names(done).push(members.last().0@));
                assert(wire_names(members) =~= wire_names(members.drop_last()).push(
                    members.last().0@,
                ));
            }
        }
    }
}

/// The way of reading that yields a bound value.
pub open spec fn read_as(value: SpiValueView) -> DecodeKind {
    match value {
        SpiValueView::Null => DecodeKind::Null,
        SpiValueView::Bool(_) => DecodeKind::Bool,
        SpiValueView::I32(_) => DecodeKind::I32,
        SpiValueView::I64(_) => DecodeKind::I64,
        SpiValueView::F64(_) => DecodeKind::F64,
        SpiValueView::Text(_) => DecodeKind::Text,
        SpiValueView::Jsonb(_) => DecodeKind::Json,
        SpiValueView::Input(_) | SpiValueView::InputJson(_) => DecodeKind::Output,
    }
}

/// Is the bound value the same as the value from JavaScript?
pub open spec fn holds_value(bound: SpiValueView, value: WireValue) -> bool {
    match value {
        WireValue::Null => bound is Null,
        WireValue::Bool { value } => bound == SpiValueView::Bool(value),
        WireValue::Number { value } => match value@.integral() {
            Some(v) => match bound {
                SpiValueView::I32(b) => b == v,
                SpiValueView::I64(b) => b == v,
                _ => false,
            },
            None => bound == SpiValueView::F64(value.bits),
        },
        WireValue::String { value } => bound == SpiValueView::Text(value@),
        WireValue::Bigint { value } => bound matches SpiValueView::I64(b) && integer_spec(value@)
            == Some(b as int),
        WireValue::Array { .. } | WireValue::Object { .. } => bound matches SpiValueView::Jsonb(
            json,
        ) && json_of(value) == Ok::<_, JsErrorView>(json),
    }
}

/// A parameter without a type of its own is bound as what it is, with a type
/// that is read back in the way that yields a value of that kind. Only an integer
/// beyond 64 bits is not bound as what it is.
pub proof fn law_bound_parameter_is_read_back(value: WireValue)
    ensures
        inferred_binding(value) matches Ok(bound) ==> {
            &&& decoding(bound.value is Null, bound.oid) == read_as(bound.value)
            &&& (value matches WireValue::Number { value: n } ==> (n@.integral() matches Some(v)
                ==> i64::MIN <= v <= i64::MAX)) ==> holds_value(bound.value, value)
        },
{
}

/// The model of a JSON value has its structure and its leaves.
pub proof fn law_models_of_json(
    b: bool,
    n: JsNumber,
    s: String,
    items: Vec<JsonValue>,
    members: Vec<(String, JsonValue)>,
)
    ensures
        JsonValue::Null@ == JsonView::Null,
        JsonValue::Bool(b)@ == JsonView::Bool(b),
        JsonValue::Number(n)@ == JsonView::Number(n@),
        JsonValue::String(s)@ == JsonView::String(s@),
        JsonValue::Array(items)@ matches JsonView::Array(views) && views.len() == items@.len()
            && forall|i: int| 0 <= i < items@.len() ==> #[trigger] views[i] == items@[i]@,
        JsonValue::Object(members)@ matches JsonView::Object(views) && views.len() == members@.len()
            && forall|i: int|
            0 <= i < members@.len() ==> #[trigger] views[i] == (members@[i].0@, members@[i].1@),
{
    lemma_json_item_views(items@);
    lemma_json_member_views(members@);
}

proof fn lemma_json_item_views(items: Seq<JsonValue>)
    ensures
        json_item_views(items).len() == items.len(),
        forall|i: int|
            0 <= i < items.len() ==> #[trigger] json_item_views(items)[i] == json_view(items[i]),
    decreases items.len(),
{
    if items.len() > 0 {
        lemma_json_item_views(items.drop_last());
        assert forall|i: int| 0 <= i < items.len() implies #[trigger] json_item_views(items)[i]
            == json_view(items[i]) by {
            if i < items.len() - 1 {
                assert(json_item_views(items.drop_last())[i] == json_view(items.drop_last()[i]));
            }
        }
    }
}

proof fn lemma_json_member_views(members: Seq<(String, JsonValue)>)
    ensures
        json_member_views(members).len() == members.len(),
        forall|i: int|
            0 <= i < members.len() ==> #[trigger] json_member_views(members)[i] == (
                members[i].0@,
                json_view(members[i].1),
            ),
    decreases members.len(),
{
    if members.len() > 0 {
        lemma_json_member_views(members.drop_last());
        assert forall|i: int| 0 <= i < members.len() implies #[trigger] json_member_views(members)[i]
            == (members[i].0@, json_view(members[i].1)) by {
            if i < members.len() - 1 {
                assert(json_member_views(members.drop_last())[i] == (
                    members.drop_last()[i].0@,
                    json_view(members.drop_last()[i].1),
                ));
            }
        }
    }
}

/// The models of bound parameters have what the parameters hold.
pub proof fn law_models_of_parameters(
    param: SpiParam,
    b: bool,
    medium: i32,
    large: i64,
    bits: u64,
    s: String,
    json: JsonValue,
)
    ensures
        param@.oid == param.oid,
        param@.value == param.value@,
        SpiValue::Null@ == SpiValueView::Null,
        SpiValue::Bool(b)@ == SpiValueView::Bool(b),
        SpiValue::I32(medium)@ == SpiValueView::I32(medium),
        SpiValue::I64(large)@ == SpiValueView::I64(large),
        SpiValue::F64(bits)@ == SpiValueView::F64(bits),
        SpiValue::Text(s)@ == SpiValueView::Text(s@),
        SpiValue::Jsonb(json)@ == SpiValueView::Jsonb(json@),
        SpiValue::Input(s)@ == SpiValueView::Input(s@),
        SpiValue::InputJson(json)@ == SpiValueView::InputJson(json@),
{
}

/// In JSON, `null`, a boolean, a finite number and a string stand for themselves;
/// a bigint and a number that is not finite have no JSON.
pub proof fn law_json_of_leaves(b: bool, n: JsNumber, s: String)
    ensures
        json_of(WireValue::Null) == Ok::<_, JsErrorView>(JsonView::Null),
        json_of(WireValue::Bool { value: b }) == Ok::<_, JsErrorView>(JsonView::Bool(b)),
        !(n.kind is NotFinite) ==> json_of(WireValue::Number { value: n }) == Ok::<_, JsErrorView>(
            JsonView::Number(n@),
        ),
        n.kind is NotFinite ==> json_of(WireValue::Number { value: n }) == Err::<JsonView, _>(
            JsErrorView {
                class: ErrorClass::Type,
                message: "pg_typescript: cannot encode NaN or Infinity inside JSON values"@,
            },
        ),
        json_of(WireValue::String { value: s }) == Ok::<_, JsErrorView>(JsonView::String(s@)),
        json_of(WireValue::Bigint { value: s }) == Err::<JsonView, _>(
            JsErrorView {
                class: ErrorClass::Type,
                message: "pg_typescript: bigint values are not supported inside inferred JSON parameters"@,
            },
        ),
{
}

proof fn lemma_json_items(items: Seq<WireValue>)
    ensures
        match json_items_of(items) {
            Ok(json) => json.len() == items.len() && forall|i: int|
                0 <= i < items.len() ==> json_of(items[i]) == Ok::<_, JsErrorView>(
                    #[trigger] json[i],
                ),
            Err(e) => exists|i: int|
                0 <= i < items.len() && json_of(#[trigger] items[i]) == Err::<JsonView, _>(e)
                    && forall|j: int| 0 <= j < i ==> json_of(#[trigger] items[j]) is Ok,
        },
    decreases items.len(),
{
    if items.len() > 0 {
        let front = items.drop_last();
        lemma_json_items(front);
        let last = items.len() - 1;
        match json_items_of(front) {
            Ok(done) => {
                assert forall|j: int| 0 <= j < last implies json_of(#[trigger] items[j]) is Ok by {
                    assert(json_of(front[j]) == Ok::<_, JsErrorView>(done[j]));
                }
                if let Ok(json) = json_items_of(items) {
                    assert forall|i: int| 0 <= i < items.len() implies json_of(items[i]) == Ok::<
                        _,
                        JsErrorView,
                    >(#[trigger] json[i]) by {
                        if i < last {
                            assert(json_of(front[i]) == Ok::<_, JsErrorView>(done[i]));
                        }
                    }
                } else {
                    assert(json_of(items[last]) is Err);
                }
            },
            Err(e) => {
                let i = choose|i: int|
                    0 <= i < front.len() && json_of(#[trigger] front[i]) == Err::<JsonView, _>(e)
                        && forall|j: int| 0 <= j < i ==> json_of(#[trigger] front[j]) is Ok;
                assert(json_of(items[i]) == Err::<JsonView, _>(e));
                assert forall|j: int| 0 <= j < i implies json_of(#[trigger] items[j]) is Ok by {
                    assert(json_of(front[j]) is Ok);
                }
            },
        }
    }
}

proof fn lemma_json_members(members: Seq<(String, WireValue)>)
    ensures
        match json_members_of(members) {
            Ok(json) => json.len() == members.len() && forall|i: int|
                0 <= i < members.len() ==> (#[trigger] json[i]).0 == members[i].0@ && json_of(
                    members[i].1,
                ) == Ok::<_, JsErrorView>(json[i].1),
            Err(e) => exists|i: int|
                0 <= i < members.len() && json_of((#[trigger] members[i]).1) == Err::<JsonView, _>(
                    e,
                ) && forall|j: int| 0 <= j < i ==> json_of((#[trigger] members[j]).1) is Ok,
        },
    decreases members.len(),
{
    if members.len() > 0 {
        let front = members.drop_last();
        lemma_json_members(front);
        let last = members.len() - 1;
        match json_members_of(front) {
            Ok(done) => {
                assert forall|j: int| 0 <= j < last implies json_of(
                    (#[trigger] members[j]).1,
                ) is Ok by {
                    assert(done[j].0 == front[j].0@);
                }
                if let Ok(json) = json_members_of(members) {
                    assert forall|i: int| 0 <= i < members.len() implies (#[trigger] json[i]).0
                        == members[i].0@ && json_of(members[i].1) == Ok::<_, JsErrorView>(
                        json[i].1,
                    ) by {
                        if i < last {
                            assert(done[i].0 == front[i].0@);
                        }
                    }
                } else {
                    assert(json_of(members[last].1) is Err);
                }
            },
            Err(e) => {
                let i = choose|i: int|
                    0 <= i < front.len() && json_of((#[trigger] front[i]).1) == Err::<JsonView, _>(
                        e,
                    ) && forall|j: int| 0 <= j < i ==> json_of((#[trigger] front[j]).1) is Ok;
                assert(json_of(members[i].1) == Err::<JsonView, _>(e));
                assert forall|j: int| 0 <= j < i implies json_of((#[trigger] members[j]).1) is Ok by {
                    assert(json_of(front[j].1) is Ok);
                }
            },
        }
    }
}

/// In JSON an array stands for the array of its items and an object for the
/// object of its members under their names, in their order; the first part that
/// has no JSON makes the error.
pub proof fn law_json_of_parts(items: Vec<WireValue>, members: Vec<(String, WireValue)>)
    ensures
        match json_of(WireValue::Array { value: items }) {
            Ok(json) => json matches JsonView::Array(parts) && parts.len() == items@.len()
                && forall|i: int|
                0 <= i < items@.len() ==> json_of(items@[i]) == Ok::<_, JsErrorView>(
                    #[trigger] parts[i],
                ),
            Err(e) => exists|i: int|
                0 <= i < items@.len() && json_of(#[trigger] items@[i]) == Err::<JsonView, _>(e)
                    && forall|j: int| 0 <= j < i ==> json_of(#[trigger] items@[j]) is Ok,
        },
        match json_of(WireValue::Object { value: members }) {
            Ok(json) => json matches JsonView::Object(parts) && parts.len() == members@.len()
                && forall|i: int|
                0 <= i < members@.len() ==> (#[trigger] parts[i]).0 == members@[i].0@ && json_of(
                    members@[i].1,
                ) == Ok::<_, JsErrorView>(parts[i].1),
            Err(e) => exists|i: int|
                0 <= i < members@.len() && json_of((#[trigger] members@[i]).1) == Err::<
                    JsonView,
                    _,
                >(e) && forall|j: int| 0 <= j < i ==> json_of((#[trigger] members@[j]).1) is Ok,
        },
{
    lemma_json_items(items@);
    lemma_json_members(members@);
}

/// Are the two values the same, part by part?
pub open spec fn same_value(a: WireValue, b: WireValue) -> bool
    decreases a,
{
    match (a, b) {
        (WireValue::Null, WireValue::Null) => true,
        (WireValue::Bool { value: x }, WireValue::Bool { value: y }) => x == y,
        (WireValue::Number { value: x }, WireValue::Number { value: y }) => x@ == y@,
        (WireValue::String { value: x }, WireValue::String { value: y }) => x@ == y@,
        (WireValue::Bigint { value: x }, WireValue::Bigint { value: y }) => x@ == y@,
        (WireValue::Array { value: x }, WireValue::Array { value: y }) => same_items(x@, y@),
        (WireValue::Object { value: x }, WireValue::Object { value: y }) => same_members(x@, y@),
        _ => false,
    }
}

/// Are the items of two arrays the same?
pub open spec fn same_items(a: Seq<WireValue>, b: Seq<WireValue>) -> bool
    decreases a,
{
    a.len() == b.len() && (a.len() == 0 || (same_items(a.drop_last(), b.drop_last()) && same_value(
        a.last(),
        b.last(),
    )))
}

/// Are the members of two objects the same?
pub open spec fn same_members(a: Seq<(String, WireValue)>, b: Seq<(String, WireValue)>) -> bool
    decreases a,
{
    a.len() == b.len() && (a.len() == 0 || (same_members(a.drop_last(), b.drop_last())
        && a.last().0@ == b.last().0@ && same_value(a.last().1, b.last().1)))
}

/// Two different values never have the same JSON, and equal ones always do.
pub proof fn law_json_tells_values_apart(a: WireValue, b: WireValue)
    ensures
        json_of(a) is Ok && json_of(a) == json_of(b) ==> same_value(a, b),
        same_value(a, b) ==> json_of(a) == json_of(b),
    decreases a,
{
    match (a, b) {
        (WireValue::Array { value: x }, WireValue::Array { value: y }) => {
            lemma_items_apart(x@, y@);
        },
        (WireValue::Object { value: x }, WireValue::Object { value: y }) => {
            lemma_members_apart(x@, y@);
        },
        _ => {},
    }
}

proof fn lemma_items_apart(a: Seq<WireValue>, b: Seq<WireValue>)
    ensures
        json_items_of(a) is Ok && json_items_of(a) == json_items_of(b) ==> same_items(a, b),
        same_items(a, b) ==> json_items_of(a) == json_items_of(b),
    decreases a,
{
    lemma_json_items(a);
    lemma_json_items(b);
    if a.len() > 0 && b.len() > 0 {
        lemma_items_apart(a.drop_last(), b.drop_last());
        law_json_tells_values_apart(a.last(), b.last());
        if json_items_of(a) is Ok && json_items_of(a) == json_items_of(b) {
            let all = json_items_of(a)->Ok_0;
            assert(json_items_of(a.drop_last())->Ok_0 =~= all.drop_last());
            assert(json_items_of(b.drop_last())->Ok_0 =~= all.drop_last());
            assert(json_of(a.last()) == Ok::<_, JsErrorView>(all.last()));
            assert(json_of(b.last()) == Ok::<_, JsErrorView>(all.last()));
        }
    }
}

proof fn lemma_members_apart(a: Seq<(String, WireValue)>, b: Seq<(String, WireValue)>)
    ensures
        json_members_of(a) is Ok && json_members_of(a) == json_members_of(b) ==> same_members(a, b),
        same_members(a, b) ==> json_members_of(a) == json_members_of(b),
    decreases a,
{
    lemma_json_members(a);
    lemma_json_members(b);
    if a.len() > 0 && b.len() > 0 {
        lemma_members_apart(a.drop_last(), b.drop_last());
        law_json_tells_values_apart(a.last().1, b.last().1);
        if json_members_of(a) is Ok && json_members_of(a) == json_members_of(b) {
            let all = json_members_of(a)->Ok_0;
            assert(json_members_of(a.drop_last())->Ok_0 =~= all.drop_last());
            assert(json_members_of(b.drop_last())->Ok_0 =~= all.drop_last());
            let last = all.len() - 1;
            assert(all[last] == all.last());
            assert(all[last].0 == a[last].0@);
            assert(all[last].0 == b[last].0@);
        }
    }
}

/// A well-formed object has its names in order, and so none of them twice.
pub proof fn law_names_of_objects(
    members: Vec<(String, WireValue)>,
    views: Seq<(Seq<char>, JsonView)>,
    i: int,
    j: int,
)
    ensures
        wire_well_formed(WireValue::Object { value: members }) && 0 <= i < j < members@.len()
            ==> lex_lt(members@[i].0@, members@[j].0@),
        json_well_formed(JsonView::Object(views)) && 0 <= i < j < views.len() ==> lex_lt(
            views[i].0,
            views[j].0,
        ),
{
    let names = wire_names(members@);
    let others = json_names(views);
    if wire_well_formed(WireValue::Object { value: members }) && 0 <= i < j < members@.len() {
        assert(lex_lt(names[i], names[j]));
    }
    if json_well_formed(JsonView::Object(views)) && 0 <= i < j < views.len() {
        assert(lex_lt(others[i], others[j]));
    }
}

/// The text of a boolean is its word, that of a string, a number and a bigint the
/// one that it comes with; `null`, arrays and objects have none.
pub proof fn law_texts_of_values(
    n: JsNumber,
    s: String,
    items: Vec<WireValue>,
    members: Vec<(String, WireValue)>,
)
    ensures
        text_of(WireValue::Bool { value: true }) == Ok::<_, JsErrorView>("true"@),
        text_of(WireValue::Bool { value: false }) == Ok::<_, JsErrorView>("false"@),
        text_of(WireValue::Number { value: n }) == Ok::<_, JsErrorView>(n.text@),
        text_of(WireValue::String { value: s }) == Ok::<_, JsErrorView>(s@),
        text_of(WireValue::Bigint { value: s }) == Ok::<_, JsErrorView>(s@),
        text_of(WireValue::Null) == Err::<Seq<char>, _>(
            JsErrorView {
                class: ErrorClass::Type,
                message: "pg_typescript: null values require an explicit type or SQL cast"@,
            },
        ),
        text_of(WireValue::Array { value: items }) == Err::<Seq<char>, _>(
            JsErrorView {
                class: ErrorClass::Type,
                message: "pg_typescript: array/object parameters require JSON/jsonb or a string literal"@,
            },
        ),
        text_of(WireValue::Object { value: members }) == text_of(WireValue::Array { value: items }),
{
}

/// Without a type of its own, a number binds as the narrower of int4 and int8
/// that holds it, where it is an integer, an integer beyond both as the nearest
/// end of int8, and any other number as float8, bit by bit.
pub proof fn law_numbers_bind_by_their_size(n: JsNumberView, v: i128)
    ensures
        n.kind == FloatKind::Integer(v) ==> {
            &&& -2147483648 <= v <= 2147483647 ==> number_binding(n) == (SpiParamView {
                oid: 23,
                value: SpiValueView::I32(v as i32),
            })
            &&& !(-2147483648 <= v <= 2147483647) && -9223372036854775808 <= v
                <= 9223372036854775807 ==> number_binding(n) == (SpiParamView {
                oid: 20,
                value: SpiValueView::I64(v as i64),
            })
            &&& v > 9223372036854775807 ==> number_binding(n) == (SpiParamView {
                oid: 20,
                value: SpiValueView::I64(9223372036854775807i64),
            })
            &&& v < -9223372036854775808 ==> number_binding(n) == (SpiParamView {
                oid: 20,
                value: SpiValueView::I64(i64::MIN),
            })
        },
        !(n.kind is Integer) ==> number_binding(n) == (SpiParamView {
            oid: 701,
            value: SpiValueView::F64(n.bits),
        }),
{
}

/// Without a type of its own, a value binds as the SQL type of its kind: a boolean
/// as boolean, a string as text, a bigint as int8 where it fits, an array or
/// object as jsonb, and `null` as NULL of no known type.
pub proof fn law_values_bind_by_their_kind(
    b: bool,
    n: JsNumber,
    s: String,
    items: Vec<WireValue>,
    members: Vec<(String, WireValue)>,
)
    ensures
        inferred_binding(WireValue::Null) == Ok::<_, JsErrorView>(
            SpiParamView { oid: 705, value: SpiValueView::Null },
        ),
        inferred_binding(WireValue::Bool { value: b }) == Ok::<_, JsErrorView>(
            SpiParamView { oid: 16, value: SpiValueView::Bool(b) },
        ),
        inferred_binding(WireValue::Number { value: n }) == Ok::<_, JsErrorView>(
            number_binding(n@),
        ),
        inferred_binding(WireValue::String { value: s }) == Ok::<_, JsErrorView>(
            SpiParamView { oid: 25, value: SpiValueView::Text(s@) },
        ),
        integer_spec(s@) matches Some(v) ==> (-9223372036854775808 <= v <= 9223372036854775807
            ==> inferred_binding(WireValue::Bigint { value: s }) == Ok::<_, JsErrorView>(
            SpiParamView { oid: 20, value: SpiValueView::I64(v as i64) },
        )),
        !(integer_spec(s@) matches Some(v) && -9223372036854775808 <= v <= 9223372036854775807)
            ==> inferred_binding(WireValue::Bigint { value: s }) == Err::<SpiParamView, _>(
            JsErrorView {
                class: ErrorClass::Range,
                message: "pg_typescript: bigint parameter is out of range for int8: "@ + s@,
            },
        ),
        match json_of(WireValue::Array { value: items }) {
            Ok(json) => inferred_binding(WireValue::Array { value: items }) == Ok::<_, JsErrorView>(
                SpiParamView { oid: 3802, value: SpiValueView::Jsonb(json) },
            ),
            Err(e) => inferred_binding(WireValue::Array { value: items }) == Err::<SpiParamView, _>(
                e,
            ),
        },
        match json_of(WireValue::Object { value: members }) {
            Ok(json) => inferred_binding(WireValue::Object { value: members }) == Ok::<
                _,
                JsErrorView,
            >(SpiParamView { oid: 3802, value: SpiValueView::Jsonb(json) }),
            Err(e) => inferred_binding(WireValue::Object { value: members }) == Err::<
                SpiParamView,
                _,
            >(e),
        },
{
}

/// With a type of its own, a value binds as what the input function of the type
/// makes of its text, and an array or object of its JSON, which only the JSON
/// types take.
pub proof fn law_typed_values_bind_by_their_text(oid: u32, value: WireValue)
    ensures
        value is Null ==> typed_binding(oid, value) == Ok::<_, JsErrorView>(
            SpiParamView { oid, value: SpiValueView::Null },
        ),
        value is Bool || value is Number || value is String || value is Bigint ==> (text_of(
            value,
        ) matches Ok(text) && typed_binding(oid, value) == Ok::<_, JsErrorView>(
            SpiParamView { oid, value: SpiValueView::Input(text) },
        )),
        (value is Array || value is Object) && (oid == 114 || oid == 3802) ==> match json_of(
            value,
        ) {
            Ok(json) => typed_binding(oid, value) == Ok::<_, JsErrorView>(
                SpiParamView { oid, value: SpiValueView::InputJson(json) },
            ),
            Err(e) => typed_binding(oid, value) == Err::<SpiParamView, _>(e),
        },
        (value is Array || value is Object) && oid != 114 && oid != 3802 ==> typed_binding(
            oid,
            value,
        ) == Err::<SpiParamView, _>(
            JsErrorView {
                class: ErrorClass::Type,
                message: "pg_typescript: array/object typed parameters are only supported for json/jsonb"@,
            },
        ),
{
}

/// A parameter binds by its own type where it has one, given by number or looked
/// up by name, and otherwise by its kind.
pub proof fn law_parameters_bind_by_their_type(
    value: WireValue,
    oid: u32,
    name: String,
    named: u32,
)
    ensures
        binding(WireParam::Inferred { value }, named) == inferred_binding(value),
        binding(WireParam::Typed { type_ref: WireTypeRef::Oid { value: oid }, value }, named)
            == typed_binding(oid, value),
        binding(WireParam::Typed { type_ref: WireTypeRef::Name { value: name }, value }, named)
            == typed_binding(named, value),
{
}

/// The error of a parameter gives its number, counted from one, and the reason.
pub proof fn law_parameters_are_counted_from_one(index: nat, message: Seq<char>)
    ensures
        numbered_error(index, message) == (JsErrorView {
            class: ErrorClass::Generic,
            message: "pg_typescript: invalid parameter $"@ + decimal_nat(index + 1) + ": "@
                + message,
        }),
{
}

/// Each kind of success is reported as the command that it stands for, an empty
/// query as such, and a failure as an error.
pub proof fn law_commands(status: i32, code: SpiOkCodes, e: Seq<char>)
    ensures
        command_of(0, None) == Ok::<_, JsErrorView>("EMPTY"@),
        status != 0 ==> {
            let command = command_of(status, Some(Ok(code)));
            &&& code is Select || code is SelInto ==> command == Ok::<_, JsErrorView>("SELECT"@)
            &&& code is Insert
                || code is InsertReturning ==> command == Ok::<_, JsErrorView>("INSERT"@)
            &&& code is Update
                || code is UpdateReturning ==> command == Ok::<_, JsErrorView>("UPDATE"@)
            &&& code is Delete
                || code is DeleteReturning ==> command == Ok::<_, JsErrorView>("DELETE"@)
            &&& code is Merge ==> command == Ok::<_, JsErrorView>("MERGE"@)
            &&& !(code is Select) && !(code is SelInto) && !(code is Insert)
                && !(code is InsertReturning) && !(code is Update) && !(code is UpdateReturning)
                && !(code is Delete) && !(code is DeleteReturning)
                && !(code is Merge) ==> command == Ok::<_, JsErrorView>("UTILITY"@)
            &&& command_of(status, Some(Err(e))) == Err::<Seq<char>, _>(
                JsErrorView {
                    class: ErrorClass::Generic,
                    message: "pg_typescript: SPI execute failed: "@ + e,
                },
            )
        },
{
}

/// An error of the server is reported by its message, with its detail and its hint
/// on lines of their own, where it has them; one that is missing leaves no trace.
pub proof fn law_parts_of_reports(message: Seq<char>, detail: Seq<char>, hint: Seq<char>)
    ensures
        error_report(message, None, None) == "pg_typescript: "@ + message,
        error_report(message, Some(detail), None) == "pg_typescript: "@ + message + "\nDETAIL: "@
            + detail,
        error_report(message, None, Some(hint)) == "pg_typescript: "@ + message + "\nHINT: "@ + hint,
        error_report(message, Some(detail), Some(hint)) == "pg_typescript: "@ + message
            + "\nDETAIL: "@ + detail + "\nHINT: "@ + hint,
{
    assert(error_report(message, None, None) =~= "pg_typescript: "@ + message);
    assert(error_report(message, Some(detail), None) =~= "pg_typescript: "@ + message
        + "\nDETAIL: "@ + detail);
    assert(error_report(message, None, Some(hint)) =~= "pg_typescript: "@ + message + "\nHINT: "@
        + hint);
    assert(error_report(message, Some(detail), Some(hint)) =~= "pg_typescript: "@ + message
        + "\nDETAIL: "@ + detail + "\nHINT: "@ + hint);
}

/// Each parameter is handed over with its own type, and with the mark `n` where it
/// is NULL and a space where it is not.
pub proof fn law_arguments(params: Seq<SpiParam>, i: int)
    requires
        0 <= i < params.len(),
    ensures
        argument_types(params).len() == params.len(),
        argument_marks(params).len() == params.len(),
        argument_types(params)[i] == params[i].oid,
        params[i].value is Null ==> argument_marks(params)[i] == 'n' as int,
        !(params[i].value is Null) ==> argument_marks(params)[i] == ' ' as int,
{
}

} // verus!
