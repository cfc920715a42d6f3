//! The action/block registry: the closed, app-owned contract.

use vstd::prelude::*;

use crate::envelope::{copy_strings, strs_view};
use crate::error::{RegErrV, RegistryError, ValidationFailure};
use crate::schema::RegistrySchema;
use crate::strmap::StrMap;
use crate::text::{lex_lt, lemma_lex_total, lemma_lex_transitive, str_lt};
use crate::json::{array_view, entries_insert, json_text, json_view, map_view, to_json_text, Json, JsonMap, JsonV, NumberV};
use crate::seams::{ToolDef, ToolDefV, tools_view};
use crate::text::{concat3, push_str, str_eq};

verus! {

/// Where a parameter's value comes from.
#[derive(Debug, Clone, Copy, PartialEq, Eq, Structural)]
pub enum ParamSource {
    /// Filled by the framework from the app context snapshot.
    Context,
    /// Emitted by the model and validated against the schema.
    Utterance,
}

/// Model of a [`ValueType`].
pub enum TypeV {
    String,
    Integer,
    Number,
    Boolean,
    StringEnum(Seq<Seq<char>>),
    Json,
}

/// Value types for params and slots.
#[derive(Debug, PartialEq)]
pub enum ValueType {
    /// UTF-8 string.
    String,
    /// Whole number.
    Integer,
    /// Any JSON number.
    Number,
    /// Boolean.
    Boolean,
    /// One of a fixed set of strings.
    StringEnum(Vec<String>),
    /// Any JSON value.
    Json,
}

impl View for ValueType {
    type V = TypeV;

    open spec fn view(&self) -> TypeV {
        match self {
            ValueType::String => TypeV::String,
            ValueType::Integer => TypeV::Integer,
            ValueType::Number => TypeV::Number,
            ValueType::Boolean => TypeV::Boolean,
            ValueType::StringEnum(allowed) => TypeV::StringEnum(strs_view(allowed@)),
            ValueType::Json => TypeV::Json,
        }
    }
}

/// Whether a value has the given type.
pub open spec fn type_accepts(t: TypeV, v: JsonV) -> bool {
    match t {
        TypeV::String => v is String,
        TypeV::Integer => match v {
            JsonV::Number(NumberV::PosInt(_)) | JsonV::Number(NumberV::NegInt(_)) => true,
            _ => false,
        },
        TypeV::Number => v is Number,
        TypeV::Boolean => v is Bool,
        TypeV::StringEnum(allowed) => match v {
            JsonV::String(s) => allowed.contains(s),
            _ => false,
        },
        TypeV::Json => true,
    }
}

/// The `Debug` text of a list of strings, e.g. `["a", "b"]`.
pub uninterp spec fn strings_debug_text(v: Seq<Seq<char>>) -> Seq<char>;

/// `format!("{:?}", v)` for a list of strings: the named text.
#[verifier::external_body]
pub(crate) fn strings_debug(v: &Vec<String>) -> (s: String)
    ensures
        s@ == strings_debug_text(strs_view(v@)),
{
    format!("{:?}", v)
}

/// The `Debug` text of a value type.
pub open spec fn type_debug_text(t: TypeV) -> Seq<char> {
    match t {
        TypeV::String => "String"@,
        TypeV::Integer => "Integer"@,
        TypeV::Number => "Number"@,
        TypeV::Boolean => "Boolean"@,
        TypeV::StringEnum(allowed) => "StringEnum("@ + strings_debug_text(allowed) + ")"@,
        TypeV::Json => "Json"@,
    }
}

/// Why a value failed its type check.
pub open spec fn type_mismatch_text(t: TypeV, v: JsonV) -> Seq<char> {
    "expected "@ + type_debug_text(t) + ", got `"@ + json_text(v) + "`"@
}

impl ValueType {
    /// A copy of this type.
    pub fn copy(&self) -> (r: ValueType)
        ensures
            r@ == self@,
    {
        match self {
            ValueType::String => ValueType::String,
            ValueType::Integer => ValueType::Integer,
            ValueType::Number => ValueType::Number,
            ValueType::Boolean => ValueType::Boolean,
            ValueType::StringEnum(allowed) => ValueType::StringEnum(copy_strings(allowed)),
            ValueType::Json => ValueType::Json,
        }
    }

    fn debug_text(&self) -> (s: String)
        ensures
            s@ == type_debug_text(self@),
    {
        match self {
            ValueType::String => "String".to_owned(),
            ValueType::Integer => "Integer".to_owned(),
            ValueType::Number => "Number".to_owned(),
            ValueType::Boolean => "Boolean".to_owned(),
            ValueType::StringEnum(allowed) => concat3("StringEnum(", &strings_debug(allowed), ")"),
            ValueType::Json => "Json".to_owned(),
        }
    }

    /// This type as a JSON Schema fragment.
    pub fn json_schema(&self) -> (r: JsonMap)
        ensures
            map_view(r) == type_schema(self@),
    {
        let mut m = JsonMap::new();
        match self {
            ValueType::String => m.insert("type".to_owned(), Json::String("string".to_owned())),
            ValueType::Integer => m.insert("type".to_owned(), Json::String("integer".to_owned())),
            ValueType::Number => m.insert("type".to_owned(), Json::String("number".to_owned())),
            ValueType::Boolean => m.insert("type".to_owned(), Json::String("boolean".to_owned())),
            ValueType::StringEnum(allowed) => {
                m.insert("type".to_owned(), Json::String("string".to_owned()));
                m.insert("enum".to_owned(), Json::Array(string_items(allowed)));
            },
            ValueType::Json => {},
        }
        m
    }

    /// Whether `value` has this type.
    pub fn accepts(&self, value: &Json) -> (r: bool)
        ensures
            r == type_accepts(self@, json_view(*value)),
    {
        match self {
            ValueType::String => matches!(value, Json::String(_)),
            ValueType::Integer => match value {
                Json::Number(crate::json::JsonNumber::PosInt(_)) | Json::Number(crate::json::JsonNumber::NegInt(_)) => true,
                _ => false,
            },
            ValueType::Number => matches!(value, Json::Number(_)),
            ValueType::Boolean => matches!(value, Json::Bool(_)),
            ValueType::StringEnum(allowed) => match value {
                Json::String(s) => {
                    let mut i: usize = 0;
                    while i < allowed.len()
                        invariant
                            i <= allowed.len(),
                            json_view(*value) == JsonV::String(s@),
                            self@ == TypeV::StringEnum(strs_view(allowed@)),
                            forall|j: int| 0 <= j < i ==> allowed[j]@ != s@,
                        decreases allowed.len() - i,
                    {
                        if str_eq(allowed[i].as_str(), s.as_str()) {
                            assert(strs_view(allowed@)[i as int] == s@);
                            assert(strs_view(allowed@).contains(s@));
                            return true;
                        }
                        i = i + 1;
                    }
                    assert(!strs_view(allowed@).contains(s@));
                    false
                },
                _ => false,
            },
            ValueType::Json => true,
        }
    }

    /// Checks a value against this type; the error describes the mismatch.
    pub fn check(&self, value: &Json) -> (r: Result<(), String>)
        ensures
            r is Ok <==> type_accepts(self@, json_view(*value)),
            r matches Err(reason) ==> reason@ == type_mismatch_text(self@, json_view(*value)),
    {
        if self.accepts(value) {
            Ok(())
        } else {
            let mut s = concat3("expected ", &self.debug_text(), ", got `");
            push_str(&mut s, &to_json_text(value));
            push_str(&mut s, "`");
            Err(s)
        }
    }
}

/// A list of strings as JSON string values.
pub open spec fn string_values(v: Seq<Seq<char>>) -> Seq<JsonV> {
    v.map_values(|x: Seq<char>| JsonV::String(x))
}

/// The JSON Schema object of a value type: `{"type": ...}`, plus the
/// allowed values under `enum` for a string enum; any JSON value is `{}`.
pub open spec fn type_schema(t: TypeV) -> Seq<(Seq<char>, JsonV)> {
    let e = Seq::<(Seq<char>, JsonV)>::empty();
    match t {
        TypeV::String => entries_insert(e, "type"@, JsonV::String("string"@)),
        TypeV::Integer => entries_insert(e, "type"@, JsonV::String("integer"@)),
        TypeV::Number => entries_insert(e, "type"@, JsonV::String("number"@)),
        TypeV::Boolean => entries_insert(e, "type"@, JsonV::String("boolean"@)),
        TypeV::StringEnum(allowed) => entries_insert(
            entries_insert(e, "type"@, JsonV::String("string"@)),
            "enum"@,
            JsonV::Array(string_values(allowed)),
        ),
        TypeV::Json => e,
    }
}

/// The strings as JSON string values.
pub fn string_items(v: &Vec<String>) -> (r: Vec<Json>)
    ensures
        array_view(r) == string_values(strs_view(v@)),
{
    let mut r: Vec<Json> = Vec::new();
    let mut i: usize = 0;
    while i < v.len()
        invariant
            i <= v.len(),
            r.len() == i,
            forall|j: int| 0 <= j < i ==> json_view(#[trigger] r[j]) == JsonV::String(v[j]@),
        decreases v.len() - i,
    {
        r.push(Json::String(v[i].clone()));
        i = i + 1;
    }
    assert(array_view(r) =~= string_values(strs_view(v@)));
    r
}

/// Model of a [`ParamSpec`].
pub struct ParamSpecV {
    pub name: Seq<char>,
    pub description: Seq<char>,
    pub ty: TypeV,
    pub source: ParamSource,
    pub required: bool,
}

/// One parameter of an action.
#[derive(Debug, PartialEq)]
pub struct ParamSpec {
    /// Parameter name.
    pub name: String,
    /// Model-facing description (utterance params only).
    pub description: String,
    /// Value type.
    pub ty: ValueType,
    /// Where the value comes from.
    pub source: ParamSource,
    /// Whether the param must be present.
    pub required: bool,
}

impl View for ParamSpec {
    type V = ParamSpecV;

    open spec fn view(&self) -> ParamSpecV {
        ParamSpecV { name: self.name@, description: self.description@, ty: self.ty@, source: self.source, required: self.required }
    }
}

impl ParamSpec {
    /// A copy of this spec.
    pub fn copy(&self) -> (r: ParamSpec)
        ensures
            r@ == self@,
    {
        ParamSpec {
            name: self.name.clone(),
            description: self.description.clone(),
            ty: self.ty.copy(),
            source: self.source,
            required: self.required,
        }
    }
}

/// Model of a [`SlotSpec`].
pub struct SlotSpecV {
    pub name: Seq<char>,
    pub ty: TypeV,
    pub required: bool,
}

/// One slot of a block type.
#[derive(Debug, PartialEq)]
pub struct SlotSpec {
    /// Slot name.
    pub name: String,
    /// Value type.
    pub ty: ValueType,
    /// Whether the slot must be filled.
    pub required: bool,
}

impl View for SlotSpec {
    type V = SlotSpecV;

    open spec fn view(&self) -> SlotSpecV {
        SlotSpecV { name: self.name@, ty: self.ty@, required: self.required }
    }
}

/// Model of a [`BlockDef`].
pub struct BlockDefV {
    pub block_type: Seq<char>,
    pub slots: Seq<SlotSpecV>,
}

/// A registered UI block type with its slot schema.
#[derive(Debug, PartialEq)]
pub struct BlockDef {
    /// The closed-enum identifier the frontend routes on.
    pub block_type: String,
    /// Slot schema.
    pub slots: Vec<SlotSpec>,
}

impl View for BlockDef {
    type V = BlockDefV;

    open spec fn view(&self) -> BlockDefV {
        BlockDefV { block_type: self.block_type@, slots: self.slots@.map_values(|s: SlotSpec| s@) }
    }
}

/// How a slot map fails a block's slot schema, if it does.
pub enum SlotProblem {
    /// The named slot holds a value of the wrong type.
    Mistyped(Seq<char>, TypeV, JsonV),
    /// The named required slot is absent.
    Missing(Seq<char>),
    /// The named slot is not in the schema.
    Unknown(Seq<char>),
}

pub open spec fn slot_declared(specs: Seq<SlotSpecV>, name: Seq<char>) -> bool {
    exists|i: int| 0 <= i < specs.len() && specs[i].name == name
}

/// The first slot-schema violation, checking schema slots from position
/// `k` on in schema order, then undeclared slots in key order.
pub open spec fn slot_problem_from(specs: Seq<SlotSpecV>, slots: Seq<(Seq<char>, JsonV)>, k: int) -> Option<SlotProblem>
    decreases specs.len() - k,
{
    if 0 <= k < specs.len() {
        let spec = specs[k];
        match crate::json::entry_get(slots, spec.name) {
            Some(v) => if !type_accepts(spec.ty, v) {
                Some(SlotProblem::Mistyped(spec.name, spec.ty, v))
            } else {
                slot_problem_from(specs, slots, k + 1)
            },
            None => if spec.required {
                Some(SlotProblem::Missing(spec.name))
            } else {
                slot_problem_from(specs, slots, k + 1)
            },
        }
    } else {
        unknown_slot_problem(specs, slots)
    }
}

/// The first slot (in key order) that the schema does not declare.
pub open spec fn unknown_slot_problem(specs: Seq<SlotSpecV>, slots: Seq<(Seq<char>, JsonV)>) -> Option<SlotProblem> {
    if exists|i: int| 0 <= i < slots.len() && !slot_declared(specs, slots[i].0) && (forall|j: int| 0 <= j < i ==> slot_declared(specs, slots[j].0)) {
        let i = choose|i: int| 0 <= i < slots.len() && !slot_declared(specs, slots[i].0) && (forall|j: int| 0 <= j < i ==> slot_declared(specs, slots[j].0));
        Some(SlotProblem::Unknown(slots[i].0))
    } else {
        None
    }
}

/// The first violation of a block's slot schema by a slot map.
pub open spec fn slot_problem(block: BlockDefV, slots: Seq<(Seq<char>, JsonV)>) -> Option<SlotProblem> {
    slot_problem_from(block.slots, slots, 0)
}

/// The validation failure that reports a slot problem.
pub open spec fn slot_failure_matches(f: ValidationFailure, p: SlotProblem) -> bool {
    match p {
        SlotProblem::Mistyped(name, t, v) => f matches ValidationFailure::InvalidSlot { slot, reason } && slot@ == name
            && reason@ == type_mismatch_text(t, v),
        SlotProblem::Missing(name) => f matches ValidationFailure::InvalidSlot { slot, reason } && slot@ == name
            && reason@ == "missing required slot"@,
        SlotProblem::Unknown(name) => f matches ValidationFailure::InvalidSlot { slot, reason } && slot@ == name
            && reason@ == "unknown slot"@,
    }
}

impl BlockDef {
    /// Validates a slot map against this block's schema: every schema slot
    /// in order (mistyped, or missing when required), then any undeclared
    /// slot in key order.
    pub fn check_slots(&self, slots: &JsonMap) -> (r: Result<(), ValidationFailure>)
        ensures
            r is Ok <==> slot_problem(self@, map_view(*slots)) is None,
            r matches Err(f) ==> slot_failure_matches(f, slot_problem(self@, map_view(*slots))->0),
    {
        let ghost specs = self@.slots;
        let ghost sv = map_view(*slots);
        let mut k: usize = 0;
        while k < self.slots.len()
            invariant
                k <= self.slots.len(),
                specs == self@.slots,
                sv == map_view(*slots),
                slot_problem(self@, sv) == slot_problem_from(specs, sv, k as int),
            decreases self.slots.len() - k,
        {
            let spec = &self.slots[k];
            assert(specs[k as int] == spec@);
            match slots.get(spec.name.as_str()) {
                Some(value) => {
                    match spec.ty.check(value) {
                        Ok(()) => {},
                        Err(reason) => {
                            return Err(ValidationFailure::InvalidSlot { slot: spec.name.clone(), reason });
                        },
                    }
                },
                None => {
                    if spec.required {
                        return Err(ValidationFailure::InvalidSlot {
                            slot: spec.name.clone(),
                            reason: "missing required slot".to_owned(),
                        });
                    }
                },
            }
            k = k + 1;
        }
        assert(slot_problem(self@, sv) == unknown_slot_problem(specs, sv));
        let n = slots.len();
        let mut i: usize = 0;
        while i < n
            invariant
                i <= n,
                n == sv.len(),
                specs == self@.slots,
                sv == map_view(*slots),
                slot_problem(self@, sv) == unknown_slot_problem(specs, sv),
                forall|j: int| 0 <= j < i ==> slot_declared(specs, sv[j].0),
            decreases n - i,
        {
            let key = slots.key_at(i);
            let mut declared = false;
            let mut m: usize = 0;
            while m < self.slots.len()
                invariant
                    m <= self.slots.len(),
                    specs == self@.slots,
                    declared ==> slot_declared(specs, key@),
                    !declared ==> forall|q: int| 0 <= q < m ==> specs[q].name != key@,
                decreases self.slots.len() - m,
            {
                if str_eq(self.slots[m].name.as_str(), key.as_str()) {
                    assert(specs[m as int].name == key@);
                    declared = true;
                }
                m = m + 1;
            }
            if !declared {
                proof {
                    assert(!slot_declared(specs, sv[i as int].0));
                    let w = choose|w: int| 0 <= w < sv.len() && !slot_declared(specs, sv[w].0) && (forall|j: int| 0 <= j < w ==> slot_declared(specs, sv[j].0));
                    if w < i {
                        assert(slot_declared(specs, sv[w].0));
                    }
                    if i < w {
                        assert(slot_declared(specs, sv[i as int].0));
                    }
                }
                return Err(ValidationFailure::InvalidSlot { slot: key.clone(), reason: "unknown slot".to_owned() });
            }
            i = i + 1;
        }
        Ok(())
    }
}


impl SlotSpec {
    /// A copy of this spec.
    pub fn copy(&self) -> (r: SlotSpec)
        ensures
            r@ == self@,
    {
        SlotSpec { name: self.name.clone(), ty: self.ty.copy(), required: self.required }
    }
}

impl BlockDef {
    /// A copy of this block definition.
    pub fn copy(&self) -> (r: BlockDef)
        ensures
            r@ == self@,
    {
        let mut slots: Vec<SlotSpec> = Vec::new();
        let mut i: usize = 0;
        while i < self.slots.len()
            invariant
                i <= self.slots.len(),
                slots.len() == i,
                forall|j: int| 0 <= j < i ==> (#[trigger] slots[j])@ == self.slots[j]@,
            decreases self.slots.len() - i,
        {
            slots.push(self.slots[i].copy());
            i = i + 1;
        }
        let r = BlockDef { block_type: self.block_type.clone(), slots };
        assert(r@.slots =~= self@.slots);
        r
    }
}

/// Model of a [`DisplayDef`].
pub struct DisplayV {
    pub title: Seq<char>,
    pub keywords: Seq<Seq<char>>,
}

/// User-facing palette metadata of an action.
#[derive(Debug, PartialEq)]
pub struct DisplayDef {
    /// Title shown in the command palette.
    pub title: String,
    /// Extra search words.
    pub keywords: Vec<String>,
}

impl View for DisplayDef {
    type V = DisplayV;

    open spec fn view(&self) -> DisplayV {
        DisplayV { title: self.title@, keywords: strs_view(self.keywords@) }
    }
}

pub open spec fn opt_display_view(d: Option<DisplayDef>) -> Option<DisplayV> {
    match d {
        Some(d) => Some(d@),
        None => None,
    }
}

/// Model of an [`ActionDef`].
pub struct ActionDefV {
    pub id: Seq<char>,
    pub description: Seq<char>,
    pub params: Seq<ParamSpecV>,
    pub block_type: Seq<char>,
    pub mutates: bool,
    pub authz_key: Seq<char>,
    pub display: Option<DisplayV>,
}

/// The wire-visible metadata of one action.
#[derive(Debug, PartialEq)]
pub struct ActionDef {
    /// Inert, hand-authored, opaque key.
    pub id: String,
    /// Intent-matching surface presented to the model.
    pub description: String,
    /// Parameter schema.
    pub params: Vec<ParamSpec>,
    /// Which registered block renders proposals for this action.
    pub block_type: String,
    /// Forces dry-run and explicit confirmation.
    pub mutates: bool,
    /// Opaque permission key handed to the app's authz resolver.
    pub authz_key: String,
    /// Palette metadata; absent means absent from the palette.
    pub display: Option<DisplayDef>,
}

pub open spec fn params_view(p: Seq<ParamSpec>) -> Seq<ParamSpecV> {
    p.map_values(|x: ParamSpec| x@)
}

impl View for ActionDef {
    type V = ActionDefV;

    open spec fn view(&self) -> ActionDefV {
        ActionDefV {
            id: self.id@,
            description: self.description@,
            params: params_view(self.params@),
            block_type: self.block_type@,
            mutates: self.mutates,
            authz_key: self.authz_key@,
            display: opt_display_view(self.display),
        }
    }
}

impl ActionDef {
    /// A copy of this definition.
    pub fn copy(&self) -> (r: ActionDef)
        ensures
            r@ == self@,
    {
        let mut params: Vec<ParamSpec> = Vec::new();
        let mut i: usize = 0;
        while i < self.params.len()
            invariant
                i <= self.params.len(),
                params.len() == i,
                forall|j: int| 0 <= j < i ==> (#[trigger] params[j])@ == self.params[j]@,
            decreases self.params.len() - i,
        {
            params.push(self.params[i].copy());
            i = i + 1;
        }
        let display = match &self.display {
            Some(d) => Some(DisplayDef { title: d.title.clone(), keywords: copy_strings(&d.keywords) }),
            None => None,
        };
        let r = ActionDef {
            id: self.id.clone(),
            description: self.description.clone(),
            params,
            block_type: self.block_type.clone(),
            mutates: self.mutates,
            authz_key: self.authz_key.clone(),
            display,
        };
        assert(r@.params =~= self@.params);
        r
    }
}

/// The schema of one exposed param: its type schema with its description.
pub open spec fn param_schema(p: ParamSpecV) -> JsonV {
    JsonV::Object(entries_insert(type_schema(p.ty), "description"@, JsonV::String(p.description)))
}

/// The `properties` object: each utterance-sourced param's schema under its
/// name, in declaration order (a repeated name keeps the last schema).
pub open spec fn properties_of(ps: Seq<ParamSpecV>) -> Seq<(Seq<char>, JsonV)>
    decreases ps.len(),
{
    if ps.len() == 0 {
        Seq::empty()
    } else {
        let rest = properties_of(ps.drop_last());
        let p = ps.last();
        if p.source == ParamSource::Utterance {
            entries_insert(rest, p.name, param_schema(p))
        } else {
            rest
        }
    }
}

pub open spec fn exposed_required(p: ParamSpecV) -> bool {
    p.source == ParamSource::Utterance && p.required
}

/// The names of the required utterance-sourced params, in order.
pub open spec fn required_of(ps: Seq<ParamSpecV>) -> Seq<JsonV> {
    ps.filter(|p: ParamSpecV| exposed_required(p)).map_values(|p: ParamSpecV| JsonV::String(p.name))
}

/// The tool's parameter schema: an object schema over the exposed params.
pub open spec fn tool_parameters(ps: Seq<ParamSpecV>) -> JsonV {
    JsonV::Object(
        entries_insert(
            entries_insert(
                entries_insert(Seq::empty(), "type"@, JsonV::String("object"@)),
                "properties"@,
                JsonV::Object(properties_of(ps)),
            ),
            "required"@,
            JsonV::Array(required_of(ps)),
        ),
    )
}

/// The model-facing tool of an action.
pub open spec fn tool_def_of(d: ActionDefV) -> ToolDefV {
    ToolDefV { name: d.id, description: d.description, parameters: tool_parameters(d.params) }
}

pub open spec fn params_seq(v: Seq<ParamSpec>) -> Seq<ParamSpecV> {
    v.map_values(|p: ParamSpec| p@)
}

fn tool_parameters_json(params: &Vec<ParamSpec>) -> (r: Json)
    ensures
        json_view(r) == tool_parameters(params_seq(params@)),
{
    let ghost ps = params_seq(params@);
    let mut properties = JsonMap::new();
    let mut required: Vec<Json> = Vec::new();
    let mut i: usize = 0;
    while i < params.len()
        invariant
            i <= params.len(),
            ps == params_seq(params@),
            map_view(properties) == properties_of(ps.take(i as int)),
            array_view(required) == required_of(ps.take(i as int)),
        decreases params.len() - i,
    {
        let p = &params[i];
        let ghost t = ps.take(i + 1);
        let ghost before_req = array_view(required);
        proof {
            reveal(Seq::filter);
            assert(t.drop_last() =~= ps.take(i as int));
            assert(t.last() == p@);
        }
        if p.source == ParamSource::Utterance {
            let mut schema = p.ty.json_schema();
            schema.insert("description".to_owned(), Json::String(p.description.clone()));
            properties.insert(p.name.clone(), Json::Object(schema));
            if p.required {
                required.push(Json::String(p.name.clone()));
                assert(array_view(required) =~= before_req.push(JsonV::String(p.name@)));
            }
        }
        proof {
            let f = |q: ParamSpecV| exposed_required(q);
            assert(t.filter(f) == if f(t.last()) { t.drop_last().filter(f).push(t.last()) } else { t.drop_last().filter(f) });
            assert(required_of(t) =~= array_view(required));
        }
        i = i + 1;
    }
    assert(ps.take(i as int) =~= ps);
    let mut obj = JsonMap::new();
    obj.insert("type".to_owned(), Json::String("object".to_owned()));
    obj.insert("properties".to_owned(), Json::Object(properties));
    obj.insert("required".to_owned(), Json::Array(required));
    Json::Object(obj)
}

/// Model of an [`ActionRegistration`]: its definition and which handlers it
/// carries besides the mandatory one.
pub struct RegV {
    pub def: ActionDefV,
    pub has_dry_run: bool,
    pub has_slot_builder: bool,
}

/// A registered action: wire-visible definition plus the backend-private
/// handlers, which never cross the envelope. `H`, `D` and `S` are the
/// app's handler, dry-run and slot-builder types.
pub struct ActionRegistration<H, D, S> {
    /// Wire-visible metadata.
    pub def: ActionDef,
    /// The app's execution path.
    pub handler: H,
    /// Preview computation; present iff `def.mutates` (enforced at build).
    pub dry_run: Option<D>,
    /// Slot content builder; `None` renders empty slots.
    pub slot_builder: Option<S>,
}

impl<H, D, S> View for ActionRegistration<H, D, S> {
    type V = RegV;

    open spec fn view(&self) -> RegV {
        RegV { def: self.def@, has_dry_run: self.dry_run is Some, has_slot_builder: self.slot_builder is Some }
    }
}

pub open spec fn regs_view<H, D, S>(v: Seq<ActionRegistration<H, D, S>>) -> Seq<RegV> {
    v.map_values(|r: ActionRegistration<H, D, S>| r@)
}

/// What a registration binds: the action ID together with the very handler,
/// dry-run and slot builder values it carries.
pub type Binding<H, D, S> = (Seq<char>, H, Option<D>, Option<S>);

pub open spec fn reg_binding<H, D, S>(r: ActionRegistration<H, D, S>) -> Binding<H, D, S> {
    (r.def.id@, r.handler, r.dry_run, r.slot_builder)
}

pub open spec fn reg_bindings<H, D, S>(v: Seq<ActionRegistration<H, D, S>>) -> Seq<Binding<H, D, S>> {
    v.map_values(|r: ActionRegistration<H, D, S>| reg_binding(r))
}

pub open spec fn blocks_view(v: Seq<BlockDef>) -> Seq<BlockDefV> {
    v.map_values(|b: BlockDef| b@)
}

pub open spec fn defs_view(v: Seq<ActionDef>) -> Seq<ActionDefV> {
    v.map_values(|d: ActionDef| d@)
}

pub open spec fn regs_sorted(v: Seq<RegV>) -> bool {
    forall|i: int, j: int| 0 <= i < j < v.len() ==> lex_lt(#[trigger] v[i].def.id, #[trigger] v[j].def.id)
}

pub open spec fn blocks_sorted(v: Seq<BlockDefV>) -> bool {
    forall|i: int, j: int| 0 <= i < j < v.len() ==> lex_lt(#[trigger] v[i].block_type, #[trigger] v[j].block_type)
}

/// `a` and `b` hold the same elements (each list's elements occur in the
/// other).
pub open spec fn same_elements<T>(a: Seq<T>, b: Seq<T>) -> bool {
    &&& a.len() == b.len()
    &&& forall|i: int| 0 <= i < a.len() ==> b.contains(#[trigger] a[i])
    &&& forall|i: int| 0 <= i < b.len() ==> a.contains(#[trigger] b[i])
}

/// Model of an attachment: handlers bound to a pending schema action.
pub struct AttachV {
    pub id: Seq<char>,
    pub has_dry_run: bool,
    pub has_slot_builder: bool,
}

struct Attachment<H, D, S> {
    id: String,
    handler: H,
    dry_run: Option<D>,
    slot_builder: Option<S>,
}

impl<H, D, S> View for Attachment<H, D, S> {
    type V = AttachV;

    closed spec fn view(&self) -> AttachV {
        AttachV { id: self.id@, has_dry_run: self.dry_run is Some, has_slot_builder: self.slot_builder is Some }
    }
}

/// The first pending definition with the given ID.
pub open spec fn first_def_index(pending: Seq<ActionDefV>, id: Seq<char>) -> Option<int> {
    if exists|i: int| 0 <= i < pending.len() && pending[i].id == id && (forall|j: int| 0 <= j < i ==> pending[j].id != id) {
        Some(choose|i: int| 0 <= i < pending.len() && pending[i].id == id && (forall|j: int| 0 <= j < i ==> pending[j].id != id))
    } else {
        None
    }
}

/// Resolves attachments in order against the pending schema definitions:
/// each binds to the first pending definition with its ID, which then
/// becomes a registration. An attachment with no pending definition is a
/// duplicate when its ID is already registered, otherwise unknown.
pub open spec fn resolve_attachments(actions: Seq<RegV>, pending: Seq<ActionDefV>, atts: Seq<AttachV>) -> Result<(Seq<RegV>, Seq<ActionDefV>), RegErrV>
    decreases atts.len(),
{
    if atts.len() == 0 {
        Ok((actions, pending))
    } else {
        let a = atts[0];
        match first_def_index(pending, a.id) {
            None => Err(
                if exists|i: int| 0 <= i < actions.len() && actions[i].def.id == a.id {
                    RegErrV::DuplicateAttachment(a.id)
                } else {
                    RegErrV::UnknownAttachment(a.id)
                },
            ),
            Some(at) => resolve_attachments(
                actions.push(RegV { def: pending[at], has_dry_run: a.has_dry_run, has_slot_builder: a.has_slot_builder }),
                pending.remove(at),
                atts.drop_first(),
            ),
        }
    }
}

/// The first block (from position `k`) whose type repeats an earlier one.
pub open spec fn dup_block_from(blocks: Seq<BlockDefV>, k: int) -> Option<int>
    decreases blocks.len() - k,
{
    if 0 <= k < blocks.len() {
        if exists|j: int| 0 <= j < k && blocks[j].block_type == blocks[k].block_type {
            Some(k)
        } else {
            dup_block_from(blocks, k + 1)
        }
    } else {
        None
    }
}

pub open spec fn block_registered(blocks: Seq<BlockDefV>, t: Seq<char>) -> bool {
    exists|i: int| 0 <= i < blocks.len() && blocks[i].block_type == t
}

/// The first registration (from position `k`) that breaks the registry
/// invariants: unregistered block type, a mutating action without a
/// dry-run, a non-mutating one with a dry-run, or a repeated ID.
pub open spec fn action_problem_from(acts: Seq<RegV>, blocks: Seq<BlockDefV>, k: int) -> Option<RegErrV>
    decreases acts.len() - k,
{
    if 0 <= k < acts.len() {
        let r = acts[k];
        if !block_registered(blocks, r.def.block_type) {
            Some(RegErrV::UnknownBlockType(r.def.id, r.def.block_type))
        } else if r.def.mutates && !r.has_dry_run {
            Some(RegErrV::MissingDryRun(r.def.id))
        } else if !r.def.mutates && r.has_dry_run {
            Some(RegErrV::UnexpectedDryRun(r.def.id))
        } else if exists|j: int| 0 <= j < k && acts[j].def.id == r.def.id {
            Some(RegErrV::DuplicateAction(r.def.id))
        } else {
            action_problem_from(acts, blocks, k + 1)
        }
    } else {
        None
    }
}

/// The outcome of building: the registrations (in resolution order), or
/// the first error.
pub open spec fn build_outcome(actions: Seq<RegV>, blocks: Seq<BlockDefV>, pending: Seq<ActionDefV>, atts: Seq<AttachV>) -> Result<Seq<RegV>, RegErrV> {
    match resolve_attachments(actions, pending, atts) {
        Err(e) => Err(e),
        Ok((acts, rest)) => if rest.len() > 0 {
            Err(RegErrV::UnattachedAction(rest[0].id))
        } else {
            match dup_block_from(blocks, 0) {
                Some(i) => Err(RegErrV::DuplicateBlock(blocks[i].block_type)),
                None => match action_problem_from(acts, blocks, 0) {
                    Some(e) => Err(e),
                    None => Ok(acts),
                },
            }
        },
    }
}

/// The definitions of a registration list.
pub open spec fn reg_defs(acts: Seq<RegV>) -> Seq<ActionDefV> {
    acts.map_values(|r: RegV| r.def)
}

proof fn lemma_resolution_keeps_defs(actions: Seq<RegV>, pending: Seq<ActionDefV>, atts: Seq<AttachV>)
    ensures
        resolve_attachments(actions, pending, atts) matches Ok((acts, rest)) ==> reg_defs(acts).to_multiset().add(
            rest.to_multiset(),
        ) == reg_defs(actions).to_multiset().add(pending.to_multiset()),
    decreases atts.len(),
{
    broadcast use vstd::seq_lib::group_to_multiset_ensures, vstd::multiset::group_multiset_axioms;

    if atts.len() > 0 {
        let a = atts[0];
        if let Some(at) = first_def_index(pending, a.id) {
            let d = pending[at];
            let next = actions.push(RegV { def: d, has_dry_run: a.has_dry_run, has_slot_builder: a.has_slot_builder });
            lemma_resolution_keeps_defs(next, pending.remove(at), atts.drop_first());
            assert(reg_defs(next) =~= reg_defs(actions).push(d));
            assert(pending.to_multiset().count(d) > 0) by {
                assert(pending.contains(d));
            }
            assert(reg_defs(next).to_multiset().add(pending.remove(at).to_multiset()) =~= reg_defs(actions).to_multiset().add(
                pending.to_multiset(),
            ));
        }
    }
}

/// The first `k` elements of two lists, strictly ascending by `key` and
/// holding the same elements, agree.
proof fn lemma_sorted_prefix_equal<T>(a: Seq<T>, b: Seq<T>, key: spec_fn(T) -> Seq<char>, k: int)
    requires
        0 <= k <= a.len(),
        same_elements(a, b),
        forall|i: int, j: int| 0 <= i < j < a.len() ==> lex_lt(key(#[trigger] a[i]), key(#[trigger] a[j])),
        forall|i: int, j: int| 0 <= i < j < b.len() ==> lex_lt(key(#[trigger] b[i]), key(#[trigger] b[j])),
    ensures
        forall|i: int| 0 <= i < k ==> a[i] == b[i],
    decreases k,
{
    if k > 0 {
        let q = k - 1;
        lemma_sorted_prefix_equal(a, b, key, q);
        assert(b.contains(a[q]));
        let j = choose|j: int| 0 <= j < b.len() && b[j] == a[q];
        assert(a.contains(b[q]));
        let m = choose|m: int| 0 <= m < a.len() && a[m] == b[q];
        if j < q {
            assert(a[j] == b[j]);
            crate::text::lemma_lex_irreflexive(key(a[q]));
        } else if j > q {
            if m < q {
                assert(a[m] == b[m]);
                crate::text::lemma_lex_irreflexive(key(b[q]));
            } else if m > q {
                assert(lex_lt(key(a[q]), key(a[m])));
                assert(lex_lt(key(b[q]), key(b[j])));
                lemma_lex_total(key(a[q]), key(a[m]));
            }
        }
    }
}

/// Two lists strictly ascending by `key` that hold the same elements are
/// equal.
proof fn lemma_sorted_same_elements_equal<T>(a: Seq<T>, b: Seq<T>, key: spec_fn(T) -> Seq<char>)
    requires
        same_elements(a, b),
        forall|i: int, j: int| 0 <= i < j < a.len() ==> lex_lt(key(#[trigger] a[i]), key(#[trigger] a[j])),
        forall|i: int, j: int| 0 <= i < j < b.len() ==> lex_lt(key(#[trigger] b[i]), key(#[trigger] b[j])),
    ensures
        a == b,
{
    lemma_sorted_prefix_equal(a, b, key, a.len() as int);
    assert(a =~= b);
}

/// A document's actions ascend strictly by ID.
pub open spec fn defs_sorted(v: Seq<ActionDefV>) -> bool {
    forall|i: int, j: int| 0 <= i < j < v.len() ==> lex_lt(#[trigger] v[i].id, #[trigger] v[j].id)
}

/// Reading back the document of a registry built from a document gives the
/// document's actions again, in ID order rather than document order: each
/// definition once, nothing else. `built` is what [`RegistryBuilder::build`]
/// gives for a builder seeded by [`RegistryBuilder::from_schema`] with
/// `defs` and then given the attachments `atts`; [`Registry::schema`] lists
/// the definitions of `built`, and `built_blocks` its blocks (both sorted,
/// as [`Registry::ordered_proof`] shows). A document already in the
/// registry's order (actions by ID, blocks by type) reads back exactly.
pub proof fn law_schema_round_trip(
    blocks: Seq<BlockDefV>,
    defs: Seq<ActionDefV>,
    atts: Seq<AttachV>,
    built_blocks: Seq<BlockDefV>,
    built: Seq<RegV>,
)
    requires
        build_outcome(Seq::empty(), blocks, defs, atts) matches Ok(acts) && same_elements(built, acts),
        same_elements(built_blocks, blocks),
        regs_sorted(built),
        blocks_sorted(built_blocks),
    ensures
        same_elements(reg_defs(built), defs),
        defs_sorted(defs) ==> reg_defs(built) == defs,
        blocks_sorted(blocks) ==> built_blocks == blocks,
{
    lemma_round_trip_elements(blocks, defs, atts, built);
    let bd = reg_defs(built);
    let id_of = |d: ActionDefV| d.id;
    if defs_sorted(defs) {
        assert forall|i: int, j: int| 0 <= i < j < bd.len() implies lex_lt(id_of(#[trigger] bd[i]), id_of(#[trigger] bd[j])) by {
            assert(lex_lt(built[i].def.id, built[j].def.id));
        }
        assert forall|i: int, j: int| 0 <= i < j < defs.len() implies lex_lt(id_of(#[trigger] defs[i]), id_of(#[trigger] defs[j])) by {
            assert(lex_lt(defs[i].id, defs[j].id));
        }
        lemma_sorted_same_elements_equal(bd, defs, id_of);
    }
    if blocks_sorted(blocks) {
        let type_of = |b: BlockDefV| b.block_type;
        assert forall|i: int, j: int| 0 <= i < j < built_blocks.len() implies lex_lt(type_of(#[trigger] built_blocks[i]), type_of(#[trigger] built_blocks[j])) by {
            assert(lex_lt(built_blocks[i].block_type, built_blocks[j].block_type));
        }
        assert forall|i: int, j: int| 0 <= i < j < blocks.len() implies lex_lt(type_of(#[trigger] blocks[i]), type_of(#[trigger] blocks[j])) by {
            assert(lex_lt(blocks[i].block_type, blocks[j].block_type));
        }
        lemma_sorted_same_elements_equal(built_blocks, blocks, type_of);
    }
}

proof fn lemma_round_trip_elements(blocks: Seq<BlockDefV>, defs: Seq<ActionDefV>, atts: Seq<AttachV>, built: Seq<RegV>)
    requires
        build_outcome(Seq::empty(), blocks, defs, atts) matches Ok(acts) && same_elements(built, acts),
    ensures
        same_elements(reg_defs(built), defs),
{
    broadcast use vstd::seq_lib::group_to_multiset_ensures, vstd::multiset::group_multiset_axioms;

    let acts = build_outcome(Seq::empty(), blocks, defs, atts)->Ok_0;
    let (racts, rest) = resolve_attachments(Seq::empty(), defs, atts)->Ok_0;
    assert(racts == acts);
    assert(rest.len() == 0);
    lemma_resolution_keeps_defs(Seq::empty(), defs, atts);
    assert(rest.to_multiset() =~= vstd::multiset::Multiset::empty());
    assert(reg_defs(Seq::<RegV>::empty()).to_multiset() =~= vstd::multiset::Multiset::empty());
    let ma = reg_defs(acts).to_multiset();
    let md = defs.to_multiset();
    assert(ma.add(rest.to_multiset()) == reg_defs(Seq::<RegV>::empty()).to_multiset().add(md));
    assert forall|v: ActionDefV| ma.count(v) == md.count(v) by {
        assert(ma.add(rest.to_multiset()).count(v) == ma.count(v) + rest.to_multiset().count(v));
        assert(reg_defs(Seq::<RegV>::empty()).to_multiset().add(md).count(v) == reg_defs(
            Seq::<RegV>::empty(),
        ).to_multiset().count(v) + md.count(v));
    }
    assert(ma =~= md);
    let bd = reg_defs(built);
    assert forall|i: int| 0 <= i < bd.len() implies defs.contains(#[trigger] bd[i]) by {
        assert(acts.contains(built[i]));
        let j = choose|j: int| 0 <= j < acts.len() && acts[j] == built[i];
        assert(reg_defs(acts)[j] == bd[i]);
        assert(reg_defs(acts).contains(bd[i]));
        assert(reg_defs(acts).to_multiset().count(bd[i]) > 0);
    }
    assert forall|k: int| 0 <= k < defs.len() implies bd.contains(#[trigger] defs[k]) by {
        assert(defs.contains(defs[k]));
        assert(defs.to_multiset().count(defs[k]) > 0);
        assert(reg_defs(acts).contains(defs[k]));
        let j = choose|j: int| 0 <= j < reg_defs(acts).len() && reg_defs(acts)[j] == defs[k];
        assert(built.contains(acts[j]));
        let m = choose|m: int| 0 <= m < built.len() && built[m] == acts[j];
        assert(bd[m] == defs[k]);
    }
    assert(reg_defs(acts).len() == defs.len()) by {
        assert(reg_defs(acts).to_multiset().len() == defs.to_multiset().len());
    }
}

/// The registration with the given ID, if any (IDs are unique in a built
/// registry).
pub open spec fn registration_for(acts: Seq<RegV>, id: Seq<char>) -> Option<RegV> {
    if exists|i: int| 0 <= i < acts.len() && acts[i].def.id == id {
        Some(acts[choose|i: int| 0 <= i < acts.len() && acts[i].def.id == id])
    } else {
        None
    }
}

/// The block definition with the given type, if any.
pub open spec fn block_for(blocks: Seq<BlockDefV>, t: Seq<char>) -> Option<BlockDefV> {
    if exists|i: int| 0 <= i < blocks.len() && blocks[i].block_type == t {
        Some(blocks[choose|i: int| 0 <= i < blocks.len() && blocks[i].block_type == t])
    } else {
        None
    }
}

/// The closed action/block enumeration, read-only once built; actions and
/// blocks are kept in ascending ID/type order.
pub struct Registry<H, D, S> {
    actions: Vec<ActionRegistration<H, D, S>>,
    blocks: Vec<BlockDef>,
    context_params: StrMap,
}

/// Accumulates registrations, then validates the whole contract at
/// [`RegistryBuilder::build`].
pub struct RegistryBuilder<H, D, S> {
    actions: Vec<ActionRegistration<H, D, S>>,
    blocks: Vec<BlockDef>,
    pending: Vec<ActionDef>,
    attachments: Vec<Attachment<H, D, S>>,
    context_params: StrMap,
}

fn insert_block_sorted(v: &mut Vec<BlockDef>, b: BlockDef)
    requires
        blocks_sorted(blocks_view(old(v)@)),
        forall|i: int| 0 <= i < old(v).len() ==> old(v)[i].block_type@ != b.block_type@,
    ensures
        blocks_sorted(blocks_view(final(v)@)),
        final(v).len() == old(v).len() + 1,
        blocks_view(final(v)@).contains(b@),
        forall|i: int| 0 <= i < old(v).len() ==> blocks_view(final(v)@).contains(#[trigger] blocks_view(old(v)@)[i]),
        forall|i: int| 0 <= i < final(v).len() ==> (#[trigger] blocks_view(final(v)@)[i] == b@ || blocks_view(old(v)@).contains(blocks_view(final(v)@)[i])),
{
    let ghost old_v = blocks_view(v@);
    let ghost key = b.block_type@;
    let mut p: usize = v.len();
    while p > 0 && str_lt(b.block_type.as_str(), v[p - 1].block_type.as_str())
        invariant
            p <= v.len(),
            old_v == blocks_view(v@),
            blocks_sorted(old_v),
            key == b.block_type@,
            forall|j: int| p <= j < v.len() ==> lex_lt(key, #[trigger] v[j].block_type@),
        decreases p,
    {
        p = p - 1;
    }
    assert forall|j: int| 0 <= j < p implies lex_lt(#[trigger] old_v[j].block_type, key) by {
        let q = p - 1;
        assert(old_v[q as int].block_type == v[q as int].block_type@);
        lemma_lex_total(key, old_v[q as int].block_type);
        if j < q {
            lemma_lex_transitive(old_v[j].block_type, old_v[q as int].block_type, key);
        }
    }
    let ghost bv = b@;
    v.insert(p, b);
    let ghost nv = blocks_view(v@);
    assert(nv =~= old_v.take(p as int).push(bv) + old_v.skip(p as int));
    assert forall|i: int, j: int| 0 <= i < j < nv.len() implies lex_lt(#[trigger] nv[i].block_type, #[trigger] nv[j].block_type) by {
        if j < p {
        } else if j == p {
        } else if i < p {
            assert(lex_lt(old_v[i].block_type, key));
            assert(lex_lt(key, old_v[j - 1].block_type));
            lemma_lex_transitive(old_v[i].block_type, key, old_v[j - 1].block_type);
        } else if i == p {
        } else {
        }
    }
    assert(nv[p as int] == bv);
    assert forall|i: int| 0 <= i < old_v.len() implies nv.contains(#[trigger] old_v[i]) by {
        if i < p {
            assert(nv[i] == old_v[i]);
        } else {
            assert(nv[i + 1] == old_v[i]);
        }
    }
    assert forall|i: int| 0 <= i < nv.len() implies (#[trigger] nv[i] == bv || old_v.contains(nv[i])) by {
        if i < p {
            assert(nv[i] == old_v[i]);
        } else if i > p {
            assert(nv[i] == old_v[i - 1]);
        }
    }
}

fn insert_reg_sorted<H, D, S>(v: &mut Vec<ActionRegistration<H, D, S>>, r: ActionRegistration<H, D, S>)
    requires
        regs_sorted(regs_view(old(v)@)),
        forall|i: int| 0 <= i < old(v).len() ==> old(v)[i].def.id@ != r.def.id@,
    ensures
        regs_sorted(regs_view(final(v)@)),
        final(v).len() == old(v).len() + 1,
        regs_view(final(v)@).contains(r@),
        forall|i: int| 0 <= i < old(v).len() ==> regs_view(final(v)@).contains(#[trigger] regs_view(old(v)@)[i]),
        forall|i: int| 0 <= i < final(v).len() ==> (#[trigger] regs_view(final(v)@)[i] == r@ || regs_view(old(v)@).contains(regs_view(final(v)@)[i])),
        forall|i: int| 0 <= i < final(v).len() ==> (#[trigger] final(v)@[i] == r || old(v)@.contains(final(v)@[i])),
{
    let ghost old_v = regs_view(v@);
    let ghost old_raw = v@;
    let ghost key = r.def.id@;
    let mut p: usize = v.len();
    while p > 0 && str_lt(r.def.id.as_str(), v[p - 1].def.id.as_str())
        invariant
            p <= v.len(),
            old_v == regs_view(v@),
            regs_sorted(old_v),
            key == r.def.id@,
            forall|j: int| p <= j < v.len() ==> lex_lt(key, #[trigger] v[j].def.id@),
        decreases p,
    {
        p = p - 1;
    }
    assert forall|j: int| 0 <= j < p implies lex_lt(#[trigger] old_v[j].def.id, key) by {
        let q = p - 1;
        assert(old_v[q as int].def.id == v[q as int].def.id@);
        lemma_lex_total(key, old_v[q as int].def.id);
        if j < q {
            lemma_lex_transitive(old_v[j].def.id, old_v[q as int].def.id, key);
        }
    }
    let ghost rv = r@;
    let ghost rr = r;
    v.insert(p, r);
    assert forall|i: int| 0 <= i < v.len() implies (#[trigger] v@[i] == rr || old_raw.contains(v@[i])) by {
        if i < p {
            assert(v@[i] == old_raw[i]);
        } else if i > p {
            assert(v@[i] == old_raw[i - 1]);
        }
    }
    let ghost nv = regs_view(v@);
    assert(nv =~= old_v.take(p as int).push(rv) + old_v.skip(p as int));
    assert forall|i: int, j: int| 0 <= i < j < nv.len() implies lex_lt(#[trigger] nv[i].def.id, #[trigger] nv[j].def.id) by {
        if i < p && j > p {
            assert(lex_lt(old_v[i].def.id, key));
            assert(lex_lt(key, old_v[j - 1].def.id));
            lemma_lex_transitive(old_v[i].def.id, key, old_v[j - 1].def.id);
        }
    }
    assert(nv[p as int] == rv);
    assert forall|i: int| 0 <= i < old_v.len() implies nv.contains(#[trigger] old_v[i]) by {
        if i < p {
            assert(nv[i] == old_v[i]);
        } else {
            assert(nv[i + 1] == old_v[i]);
        }
    }
    assert forall|i: int| 0 <= i < nv.len() implies (#[trigger] nv[i] == rv || old_v.contains(nv[i])) by {
        if i < p {
            assert(nv[i] == old_v[i]);
        } else if i > p {
            assert(nv[i] == old_v[i - 1]);
        }
    }
}

spec fn atts_view<H, D, S>(v: Seq<Attachment<H, D, S>>) -> Seq<AttachV> {
    v.map_values(|a: Attachment<H, D, S>| a@)
}

spec fn att_binding<H, D, S>(a: Attachment<H, D, S>) -> Binding<H, D, S> {
    (a.id@, a.handler, a.dry_run, a.slot_builder)
}

spec fn att_bindings<H, D, S>(v: Seq<Attachment<H, D, S>>) -> Seq<Binding<H, D, S>> {
    v.map_values(|a: Attachment<H, D, S>| att_binding(a))
}

impl<H, D, S> Registry<H, D, S> {
    #[verifier::type_invariant]
    spec fn ordered(self) -> bool {
        regs_sorted(regs_view(self.actions@)) && blocks_sorted(blocks_view(self.blocks@))
    }

    /// The registered actions, in ascending ID order.
    pub closed spec fn actions_view(self) -> Seq<RegV> {
        regs_view(self.actions@)
    }

    /// The registered blocks, in ascending type order.
    pub closed spec fn blocks_list(self) -> Seq<BlockDefV> {
        blocks_view(self.blocks@)
    }

    /// The declared context-param mapping.
    pub closed spec fn context_view(self) -> Seq<(Seq<char>, Seq<char>)> {
        self.context_params.view_pairs()
    }

    /// The handlers each registration carries, aligned with
    /// [`Registry::actions_view`].
    pub closed spec fn bindings(self) -> Seq<Binding<H, D, S>> {
        reg_bindings(self.actions@)
    }

    /// Starts an empty builder.
    pub fn builder() -> (b: RegistryBuilder<H, D, S>)
        ensures
            b.actions_view().len() == 0,
            b.blocks_list().len() == 0,
            b.pending_view().len() == 0,
            b.attachments_view().len() == 0,
            b.context_view().len() == 0,
            b.action_bindings().len() == 0,
            b.attached_bindings().len() == 0,
    {
        let b = RegistryBuilder {
            actions: Vec::new(),
            blocks: Vec::new(),
            pending: Vec::new(),
            attachments: Vec::new(),
            context_params: StrMap::new(),
        };
        assert(regs_view(b.actions@).len() == 0);
        assert(blocks_view(b.blocks@).len() == 0);
        assert(defs_view(b.pending@).len() == 0);
        assert(atts_view(b.attachments@).len() == 0);
        b
    }

    /// Actions and blocks are in ascending order, each ID / type once.
    pub fn ordered_proof(&self) -> (r: bool)
        ensures
            r,
            regs_sorted(self.actions_view()),
            blocks_sorted(self.blocks_list()),
    {
        proof {
            use_type_invariant(self);
        }
        true
    }

    /// Number of registered actions.
    pub fn action_count(&self) -> (n: usize)
        ensures
            n == self.actions_view().len(),
            n == self.bindings().len(),
    {
        self.actions.len()
    }

    /// The `i`th registration in ID order.
    pub fn action_at(&self, i: usize) -> (r: &ActionRegistration<H, D, S>)
        requires
            i < self.actions_view().len(),
        ensures
            r@ == self.actions_view()[i as int],
            reg_binding(*r) == self.bindings()[i as int],
    {
        &self.actions[i]
    }

    /// Looks up an action registration by ID.
    pub fn action(&self, id: &str) -> (r: Option<&ActionRegistration<H, D, S>>)
        ensures
            r matches Some(x) ==> registration_for(self.actions_view(), id@) == Some(x@),
            r matches Some(x) ==> self.bindings().contains(reg_binding(*x)),
            r is None ==> registration_for(self.actions_view(), id@) is None,
    {
        proof {
            use_type_invariant(self);
        }
        let ghost acts = self.actions_view();
        let mut i: usize = 0;
        while i < self.actions.len()
            invariant
                i <= self.actions.len(),
                acts == self.actions_view(),
                regs_sorted(acts),
                forall|j: int| 0 <= j < i ==> acts[j].def.id != id@,
            decreases self.actions.len() - i,
        {
            if str_eq(self.actions[i].def.id.as_str(), id) {
                proof {
                    assert(acts[i as int] == self.actions[i as int]@);
                    let w = choose|w: int| 0 <= w < acts.len() && acts[w].def.id == id@;
                    if w != i {
                        if w < i {
                            assert(lex_lt(acts[w].def.id, acts[i as int].def.id));
                        } else {
                            assert(lex_lt(acts[i as int].def.id, acts[w].def.id));
                        }
                        crate::text::lemma_lex_irreflexive(id@);
                    }
                    assert(self.bindings()[i as int] == reg_binding(self.actions@[i as int]));
                }
                return Some(&self.actions[i]);
            }
            i = i + 1;
        }
        None
    }

    /// Looks up a block definition by type.
    pub fn block(&self, block_type: &str) -> (r: Option<&BlockDef>)
        ensures
            r matches Some(x) ==> block_for(self.blocks_list(), block_type@) == Some(x@),
            r is None ==> block_for(self.blocks_list(), block_type@) is None,
    {
        proof {
            use_type_invariant(self);
        }
        let ghost bs = self.blocks_list();
        let mut i: usize = 0;
        while i < self.blocks.len()
            invariant
                i <= self.blocks.len(),
                bs == self.blocks_list(),
                blocks_sorted(bs),
                forall|j: int| 0 <= j < i ==> bs[j].block_type != block_type@,
            decreases self.blocks.len() - i,
        {
            if str_eq(self.blocks[i].block_type.as_str(), block_type) {
                proof {
                    assert(bs[i as int] == self.blocks[i as int]@);
                    let w = choose|w: int| 0 <= w < bs.len() && bs[w].block_type == block_type@;
                    if w != i {
                        if w < i {
                            assert(lex_lt(bs[w].block_type, bs[i as int].block_type));
                        } else {
                            assert(lex_lt(bs[i as int].block_type, bs[w].block_type));
                        }
                        crate::text::lemma_lex_irreflexive(block_type@);
                    }
                }
                return Some(&self.blocks[i]);
            }
            i = i + 1;
        }
        None
    }

    /// All registered action definitions, in ID order (wire-visible
    /// metadata only: handlers stay private).
    pub fn action_defs(&self) -> (r: Vec<&ActionDef>)
        ensures
            r.len() == self.actions_view().len(),
            forall|i: int| 0 <= i < r.len() ==> (#[trigger] r[i])@ == self.actions_view()[i].def,
    {
        let mut r: Vec<&ActionDef> = Vec::new();
        let mut i: usize = 0;
        while i < self.actions.len()
            invariant
                i <= self.actions.len(),
                r.len() == i,
                forall|j: int| 0 <= j < i ==> (#[trigger] r[j])@ == self.actions_view()[j].def,
            decreases self.actions.len() - i,
        {
            r.push(&self.actions[i].def);
            i = i + 1;
        }
        r
    }

    /// All registered block definitions, in type order.
    pub fn block_defs(&self) -> (r: Vec<&BlockDef>)
        ensures
            r.len() == self.blocks_list().len(),
            forall|i: int| 0 <= i < r.len() ==> (#[trigger] r[i])@ == self.blocks_list()[i],
    {
        let mut r: Vec<&BlockDef> = Vec::new();
        let mut i: usize = 0;
        while i < self.blocks.len()
            invariant
                i <= self.blocks.len(),
                r.len() == i,
                forall|j: int| 0 <= j < i ==> (#[trigger] r[j])@ == self.blocks_list()[j],
            decreases self.blocks.len() - i,
        {
            r.push(&self.blocks[i]);
            i = i + 1;
        }
        r
    }

    /// The registry as model-facing tool definitions, in ID order. Only
    /// utterance-sourced params are exposed.
    pub fn tool_defs(&self) -> (r: Vec<ToolDef>)
        ensures
            tools_view(r@) == self.actions_view().map_values(|x: RegV| tool_def_of(x.def)),
    {
        let mut out: Vec<ToolDef> = Vec::new();
        let mut i: usize = 0;
        while i < self.actions.len()
            invariant
                i <= self.actions.len(),
                out.len() == i,
                forall|j: int| 0 <= j < i ==> (#[trigger] out[j])@ == tool_def_of(self.actions[j].def@),
            decreases self.actions.len() - i,
        {
            let def = &self.actions[i].def;
            out.push(ToolDef {
                name: def.id.clone(),
                description: def.description.clone(),
                parameters: tool_parameters_json(&def.params),
            });
            i = i + 1;
        }
        assert(tools_view(out@) =~= self.actions_view().map_values(|x: RegV| tool_def_of(x.def)));
        out
    }

    /// The wire-visible registry as a versioned document: ID-sorted
    /// actions, type-sorted blocks, the context mapping, and
    /// [`crate::SPEC_VERSION`].
    pub fn schema(&self) -> (s: RegistrySchema)
        ensures
            s@.spec_version == crate::SPEC_VERSION@,
            s@.blocks == self.blocks_list(),
            s@.actions == self.actions_view().map_values(|r: RegV| r.def),
            s@.context_params == self.context_view(),
    {
        let mut blocks: Vec<BlockDef> = Vec::new();
        let mut i: usize = 0;
        while i < self.blocks.len()
            invariant
                i <= self.blocks.len(),
                blocks.len() == i,
                forall|j: int| 0 <= j < i ==> (#[trigger] blocks[j])@ == self.blocks[j]@,
            decreases self.blocks.len() - i,
        {
            blocks.push(self.blocks[i].copy());
            i = i + 1;
        }
        let mut actions: Vec<ActionDef> = Vec::new();
        let mut k: usize = 0;
        while k < self.actions.len()
            invariant
                k <= self.actions.len(),
                actions.len() == k,
                forall|j: int| 0 <= j < k ==> (#[trigger] actions[j])@ == self.actions[j].def@,
            decreases self.actions.len() - k,
        {
            actions.push(self.actions[k].def.copy());
            k = k + 1;
        }
        let s = RegistrySchema {
            spec_version: crate::SPEC_VERSION.to_owned(),
            blocks,
            actions,
            context_params: self.context_params.copy(),
        };
        assert(blocks_view(s.blocks@) =~= self.blocks_list());
        assert(defs_view(s.actions@) =~= self.actions_view().map_values(|r: RegV| r.def));
        s
    }
}

impl<H, D, S> RegistryBuilder<H, D, S> {
    pub closed spec fn actions_view(self) -> Seq<RegV> {
        regs_view(self.actions@)
    }

    pub closed spec fn blocks_list(self) -> Seq<BlockDefV> {
        blocks_view(self.blocks@)
    }

    pub closed spec fn pending_view(self) -> Seq<ActionDefV> {
        defs_view(self.pending@)
    }

    pub closed spec fn attachments_view(self) -> Seq<AttachV> {
        atts_view(self.attachments@)
    }

    pub closed spec fn context_view(self) -> Seq<(Seq<char>, Seq<char>)> {
        self.context_params.view_pairs()
    }

    /// The handlers given to [`RegistryBuilder::action`], in call order.
    pub closed spec fn action_bindings(self) -> Seq<Binding<H, D, S>> {
        reg_bindings(self.actions@)
    }

    /// The handlers given to [`RegistryBuilder::attach`], in call order.
    pub closed spec fn attached_bindings(self) -> Seq<Binding<H, D, S>> {
        att_bindings(self.attachments@)
    }

    /// Seeds a builder from a declarative document: blocks are registered,
    /// action definitions stay pending until [`RegistryBuilder::attach`]
    /// binds their handlers.
    pub fn from_schema(schema: RegistrySchema) -> (b: RegistryBuilder<H, D, S>)
        ensures
            b.actions_view().len() == 0,
            b.blocks_list() == schema@.blocks,
            b.pending_view() == schema@.actions,
            b.attachments_view().len() == 0,
            b.context_view() == schema@.context_params,
            b.action_bindings().len() == 0,
            b.attached_bindings().len() == 0,
    {
        let b = RegistryBuilder {
            actions: Vec::new(),
            blocks: schema.blocks,
            pending: schema.actions,
            attachments: Vec::new(),
            context_params: schema.context_params,
        };
        assert(regs_view(b.actions@).len() == 0);
        assert(atts_view(b.attachments@).len() == 0);
        assert(reg_bindings(b.actions@).len() == 0);
        assert(att_bindings(b.attachments@).len() == 0);
        b
    }

    /// Binds handlers to a pending schema definition by action ID; unknown,
    /// duplicate, or never-attached IDs are reported at build.
    pub fn attach(self, id: String, handler: H, dry_run: Option<D>, slot_builder: Option<S>) -> (b: RegistryBuilder<H, D, S>)
        ensures
            b.actions_view() == self.actions_view(),
            b.blocks_list() == self.blocks_list(),
            b.pending_view() == self.pending_view(),
            b.attachments_view() == self.attachments_view().push(
                AttachV { id: id@, has_dry_run: dry_run is Some, has_slot_builder: slot_builder is Some },
            ),
            b.context_view() == self.context_view(),
            b.action_bindings() == self.action_bindings(),
            b.attached_bindings() == self.attached_bindings().push((id@, handler, dry_run, slot_builder)),
    {
        let mut b = self;
        let ghost old_a = atts_view(b.attachments@);
        let ghost old_ab = att_bindings(b.attachments@);
        let a = Attachment { id, handler, dry_run, slot_builder };
        let ghost av = a@;
        let ghost ab = att_binding(a);
        b.attachments.push(a);
        assert(atts_view(b.attachments@) =~= old_a.push(av));
        assert(att_bindings(b.attachments@) =~= old_ab.push(ab));
        b
    }

    /// Declares a context-param mapping (param name to context path).
    pub fn context_param(self, param: String, path: String) -> (b: RegistryBuilder<H, D, S>)
        ensures
            b.actions_view() == self.actions_view(),
            b.blocks_list() == self.blocks_list(),
            b.pending_view() == self.pending_view(),
            b.attachments_view() == self.attachments_view(),
            b.context_view() == crate::strmap::key_insert(self.context_view(), param@, path@),
            b.action_bindings() == self.action_bindings(),
            b.attached_bindings() == self.attached_bindings(),
    {
        let mut b = self;
        b.context_params.insert(param, path);
        b
    }

    /// Registers a block type.
    pub fn block(self, def: BlockDef) -> (b: RegistryBuilder<H, D, S>)
        ensures
            b.actions_view() == self.actions_view(),
            b.blocks_list() == self.blocks_list().push(def@),
            b.pending_view() == self.pending_view(),
            b.attachments_view() == self.attachments_view(),
            b.context_view() == self.context_view(),
            b.action_bindings() == self.action_bindings(),
            b.attached_bindings() == self.attached_bindings(),
    {
        let mut b = self;
        let ghost old_b = blocks_view(b.blocks@);
        let ghost dv = def@;
        b.blocks.push(def);
        assert(blocks_view(b.blocks@) =~= old_b.push(dv));
        b
    }

    /// Registers an action with its handlers.
    pub fn action(self, def: ActionDef, handler: H, dry_run: Option<D>, slot_builder: Option<S>) -> (b: RegistryBuilder<H, D, S>)
        ensures
            b.actions_view() == self.actions_view().push(
                RegV { def: def@, has_dry_run: dry_run is Some, has_slot_builder: slot_builder is Some },
            ),
            b.blocks_list() == self.blocks_list(),
            b.pending_view() == self.pending_view(),
            b.attachments_view() == self.attachments_view(),
            b.context_view() == self.context_view(),
            b.action_bindings() == self.action_bindings().push((def.id@, handler, dry_run, slot_builder)),
            b.attached_bindings() == self.attached_bindings(),
    {
        let mut b = self;
        let ghost old_r = regs_view(b.actions@);
        let ghost old_rb = reg_bindings(b.actions@);
        let r = ActionRegistration { def, handler, dry_run, slot_builder };
        let ghost rv = r@;
        let ghost rb = reg_binding(r);
        b.actions.push(r);
        assert(regs_view(b.actions@) =~= old_r.push(rv));
        assert(reg_bindings(b.actions@) =~= old_rb.push(rb));
        b
    }

    /// Validates and freezes the registry: attachments are resolved against
    /// the pending definitions, then every block type must be unique, and
    /// every registration must name a registered block, carry a dry-run iff
    /// it mutates, and have a unique ID. The first failure is returned.
    pub fn build(self) -> (r: Result<Registry<H, D, S>, RegistryError>)
        ensures
            match build_outcome(self.actions_view(), self.blocks_list(), self.pending_view(), self.attachments_view()) {
                Ok(acts) => r matches Ok(reg) && same_elements(reg.actions_view(), acts)
                    && same_elements(reg.blocks_list(), self.blocks_list())
                    && reg.context_view() == self.context_view(),
                Err(e) => r matches Err(x) && x@ == e,
            },
            r matches Ok(reg) ==> forall|i: int| 0 <= i < reg.bindings().len() ==>
                self.action_bindings().contains(#[trigger] reg.bindings()[i]) || self.attached_bindings().contains(reg.bindings()[i]),
    {
        let ghost rb0 = self.action_bindings();
        let ghost ab0 = self.attached_bindings();
        let RegistryBuilder { actions, blocks, pending, attachments, context_params } = self;
        let ghost b0 = blocks_view(blocks@);
        let actions = match resolve_all(actions, pending, attachments) {
            Ok(a) => a,
            Err(e) => return Err(e),
        };
        let ghost acts = regs_view(actions@);
        let sorted_blocks = match sort_blocks(blocks) {
            Ok(b) => b,
            Err(e) => return Err(e),
        };
        let ghost resolved = actions@;
        let sorted = match sort_registrations(actions, &sorted_blocks, Ghost(b0)) {
            Ok(a) => a,
            Err(e) => return Err(e),
        };
        let reg = Registry { actions: sorted, blocks: sorted_blocks, context_params };
        assert forall|i: int| 0 <= i < reg.bindings().len() implies
            rb0.contains(#[trigger] reg.bindings()[i]) || ab0.contains(reg.bindings()[i]) by {
            assert(reg.bindings()[i] == reg_binding(reg.actions@[i]));
            assert(resolved.contains(reg.actions@[i]));
            let j = choose|j: int| 0 <= j < resolved.len() && resolved[j] == reg.actions@[i];
            assert(rb0.contains(reg_binding(resolved[j])) || ab0.contains(reg_binding(resolved[j])));
        }
        Ok(reg)
    }
}

/// Resolves every attachment (see [`resolve_attachments`]) and checks that
/// no pending definition is left unattached.
fn resolve_all<H, D, S>(
    actions0: Vec<ActionRegistration<H, D, S>>,
    pending0: Vec<ActionDef>,
    attachments0: Vec<Attachment<H, D, S>>,
) -> (r: Result<Vec<ActionRegistration<H, D, S>>, RegistryError>)
    ensures
        match resolve_attachments(regs_view(actions0@), defs_view(pending0@), atts_view(attachments0@)) {
            Err(e) => r matches Err(x) && x@ == e,
            Ok((acts, rest)) => if rest.len() > 0 {
                r matches Err(x) && x@ == RegErrV::UnattachedAction(rest[0].id)
            } else {
                r matches Ok(v) && regs_view(v@) == acts
            },
        },
        r matches Ok(v) ==> forall|i: int| 0 <= i < v.len() ==>
            reg_bindings(actions0@).contains(#[trigger] reg_binding(v@[i])) || att_bindings(attachments0@).contains(reg_binding(v@[i])),
{
    let mut actions = actions0;
    let mut pending = pending0;
    let mut attachments = attachments0;
    let ghost rb0 = reg_bindings(actions0@);
    let ghost ab0 = att_bindings(attachments0@);
    let ghost resolved = resolve_attachments(regs_view(actions@), defs_view(pending@), atts_view(attachments@));
    assert forall|i: int| 0 <= i < actions.len() implies rb0.contains(#[trigger] reg_binding(actions@[i])) by {
        assert(rb0[i] == reg_binding(actions@[i]));
    }
    assert forall|j: int| 0 <= j < attachments.len() implies ab0.contains(#[trigger] att_binding(attachments@[j])) by {
        assert(ab0[j] == att_binding(attachments@[j]));
    }
    while attachments.len() > 0
        invariant
            resolved == resolve_attachments(regs_view(actions@), defs_view(pending@), atts_view(attachments@)),
            resolved == resolve_attachments(regs_view(actions0@), defs_view(pending0@), atts_view(attachments0@)),
            rb0 == reg_bindings(actions0@),
            ab0 == att_bindings(attachments0@),
            forall|i: int| 0 <= i < actions.len() ==> rb0.contains(#[trigger] reg_binding(actions@[i])) || ab0.contains(reg_binding(actions@[i])),
            forall|j: int| 0 <= j < attachments.len() ==> ab0.contains(#[trigger] att_binding(attachments@[j])),
        decreases attachments.len(),
    {
        let ghost av = atts_view(attachments@);
        let ghost raw = attachments@;
        let att = attachments.remove(0);
        proof {
            assert(att == raw[0]);
            assert(av[0] == att@);
            assert(atts_view(attachments@) =~= av.drop_first());
            assert(ab0.contains(att_binding(raw[0])));
            assert forall|j: int| 0 <= j < attachments.len() implies ab0.contains(#[trigger] att_binding(attachments@[j])) by {
                assert(attachments@[j] == raw[j + 1]);
            }
        }
        let ghost ab = att_binding(att);
        let ghost pv = defs_view(pending@);
        let at = find_pending(&pending, att.id.as_str());
        if at == pending.len() {
            let k = find_registration(&actions, att.id.as_str());
            if k < actions.len() {
                assert(resolved == Err::<(Seq<RegV>, Seq<ActionDefV>), RegErrV>(RegErrV::DuplicateAttachment(att.id@)));
                return Err(RegistryError::DuplicateAttachment(att.id));
            }
            assert(resolved == Err::<(Seq<RegV>, Seq<ActionDefV>), RegErrV>(RegErrV::UnknownAttachment(att.id@)));
            return Err(RegistryError::UnknownAttachment(att.id));
        }
        let ghost old_r = regs_view(actions@);
        let ghost old_raw = actions@;
        let def = pending.remove(at);
        assert(defs_view(pending@) =~= pv.remove(at as int));
        assert(def.id@ == att.id@);
        let Attachment { id: _, handler, dry_run, slot_builder } = att;
        let reg = ActionRegistration { def, handler, dry_run, slot_builder };
        let ghost regv = reg@;
        assert(reg_binding(reg) == ab);
        actions.push(reg);
        assert(regs_view(actions@) =~= old_r.push(regv));
        assert forall|i: int| 0 <= i < actions.len() implies rb0.contains(#[trigger] reg_binding(actions@[i])) || ab0.contains(reg_binding(actions@[i])) by {
            if i < old_raw.len() {
                assert(actions@[i] == old_raw[i]);
            }
        }
    }
    assert(atts_view(attachments@) =~= Seq::<AttachV>::empty());
    if pending.len() > 0 {
        assert(defs_view(pending@)[0] == pending[0]@);
        return Err(RegistryError::UnattachedAction(pending[0].id.clone()));
    }
    Ok(actions)
}

/// Index of the first pending definition with the given ID, or the length.
fn find_pending(pending: &Vec<ActionDef>, id: &str) -> (at: usize)
    ensures
        at <= pending.len(),
        at == pending.len() ==> first_def_index(defs_view(pending@), id@) is None,
        at < pending.len() ==> first_def_index(defs_view(pending@), id@) == Some(at as int),
{
    let ghost pv = defs_view(pending@);
    let mut at: usize = 0;
    while at < pending.len() && !str_eq(pending[at].id.as_str(), id)
        invariant
            at <= pending.len(),
            pv == defs_view(pending@),
            forall|j: int| 0 <= j < at ==> pv[j].id != id@,
        decreases pending.len() - at,
    {
        at = at + 1;
    }
    proof {
        if at == pending.len() {
            if first_def_index(pv, id@) is Some {
                let w = choose|w: int| 0 <= w < pv.len() && pv[w].id == id@ && (forall|j: int| 0 <= j < w ==> pv[j].id != id@);
                assert(pv[w].id != id@);
            }
        } else {
            assert(pv[at as int].id == id@);
            let w = choose|w: int| 0 <= w < pv.len() && pv[w].id == id@ && (forall|j: int| 0 <= j < w ==> pv[j].id != id@);
            assert(0 <= at < pv.len() && pv[at as int].id == id@ && (forall|j: int| 0 <= j < at ==> pv[j].id != id@));
            if w < at {
                assert(pv[w].id != id@);
            }
            if at < w {
                assert(pv[at as int].id != id@);
            }
        }
    }
    at
}

/// Index of the first registration with the given ID, or the length.
fn find_registration<H, D, S>(actions: &Vec<ActionRegistration<H, D, S>>, id: &str) -> (k: usize)
    ensures
        k <= actions.len(),
        k < actions.len() ==> regs_view(actions@)[k as int].def.id == id@,
        k == actions.len() ==> !(exists|i: int| 0 <= i < actions.len() && regs_view(actions@)[i].def.id == id@),
{
    let ghost rv = regs_view(actions@);
    let mut k: usize = 0;
    while k < actions.len() && !str_eq(actions[k].def.id.as_str(), id)
        invariant
            k <= actions.len(),
            rv == regs_view(actions@),
            forall|j: int| 0 <= j < k ==> rv[j].def.id != id@,
        decreases actions.len() - k,
    {
        k = k + 1;
    }
    k
}

/// Index of the first block with the given type, or the length.
fn find_block(blocks: &Vec<BlockDef>, block_type: &str) -> (q: usize)
    ensures
        q <= blocks.len(),
        q < blocks.len() ==> blocks_view(blocks@)[q as int].block_type == block_type@,
        q == blocks.len() ==> !block_registered(blocks_view(blocks@), block_type@),
{
    let ghost bv = blocks_view(blocks@);
    let mut q: usize = 0;
    while q < blocks.len() && !str_eq(blocks[q].block_type.as_str(), block_type)
        invariant
            q <= blocks.len(),
            bv == blocks_view(blocks@),
            forall|j: int| 0 <= j < q ==> bv[j].block_type != block_type@,
        decreases blocks.len() - q,
    {
        q = q + 1;
    }
    q
}

/// Sorts the blocks by type, failing on the first repeated type.
fn sort_blocks(input: Vec<BlockDef>) -> (r: Result<Vec<BlockDef>, RegistryError>)
    ensures
        match dup_block_from(blocks_view(input@), 0) {
            Some(i) => r matches Err(x) && x@ == RegErrV::DuplicateBlock(blocks_view(input@)[i].block_type),
            None => r matches Ok(s) && blocks_sorted(blocks_view(s@)) && same_elements(blocks_view(s@), blocks_view(input@)),
        },
{
    let ghost b0 = blocks_view(input@);
    let mut blocks = input;
    let mut sorted_blocks: Vec<BlockDef> = Vec::new();
    let mut n: usize = 0;
    let ghost nb = b0.len();
    while blocks.len() > 0
        invariant
            n <= nb,
            n + blocks.len() == nb,
            b0.len() == nb,
            b0 == blocks_view(input@),
            blocks_view(blocks@) == b0.skip(n as int),
            blocks_sorted(blocks_view(sorted_blocks@)),
            same_elements(blocks_view(sorted_blocks@), b0.take(n as int)),
            dup_block_from(b0, 0) == dup_block_from(b0, n as int),
        decreases blocks.len(),
    {
        let ghost sv = blocks_view(sorted_blocks@);
        let ghost raw = blocks@;
        let b = blocks.remove(0);
        proof {
            assert(b == raw[0]);
            assert(blocks_view(raw)[0] == b@);
            assert(b0.skip(n as int)[0] == b0[n as int]);
            assert(blocks_view(blocks@) =~= blocks_view(raw).drop_first());
            assert(b0.skip(n as int).drop_first() =~= b0.skip(n + 1));
        }
        let q = find_block(&sorted_blocks, b.block_type.as_str());
        if q < sorted_blocks.len() {
            proof {
                assert(b0.take(n as int).contains(sv[q as int]));
                let j = choose|j: int| 0 <= j < n && b0.take(n as int)[j] == sv[q as int];
                assert(b0[j].block_type == b0[n as int].block_type);
                assert(dup_block_from(b0, n as int) == Some(n as int));
                assert(dup_block_from(b0, 0) == Some(n as int));
                assert(b0[n as int].block_type == b.block_type@);
            }
            return Err(RegistryError::DuplicateBlock(b.block_type));
        }
        proof {
            assert forall|j: int| 0 <= j < n implies b0[j].block_type != b0[n as int].block_type by {
                assert(b0.take(n as int)[j] == b0[j]);
                assert(sv.contains(b0[j]));
                let q2 = choose|q2: int| 0 <= q2 < sv.len() && sv[q2] == b0[j];
                assert(!block_registered(sv, b.block_type@));
            }
            assert(dup_block_from(b0, n as int) == dup_block_from(b0, n + 1));
            assert forall|i: int| 0 <= i < sorted_blocks.len() implies sorted_blocks[i].block_type@ != b.block_type@ by {
                assert(sv[i] == sorted_blocks[i]@);
            }
        }
        let ghost bvv = b@;
        insert_block_sorted(&mut sorted_blocks, b);
        proof {
            let nv = blocks_view(sorted_blocks@);
            let pre = b0.take(n + 1);
            assert(pre =~= b0.take(n as int).push(bvv));
            assert forall|i: int| 0 <= i < nv.len() implies pre.contains(#[trigger] nv[i]) by {
                if nv[i] == bvv {
                    assert(pre[n as int] == bvv);
                } else {
                    let j = choose|j: int| 0 <= j < sv.len() && sv[j] == nv[i];
                    let m = choose|m: int| 0 <= m < n && b0.take(n as int)[m] == sv[j];
                    assert(pre[m] == nv[i]);
                }
            }
            assert forall|i: int| 0 <= i < pre.len() implies nv.contains(#[trigger] pre[i]) by {
                if i < n {
                    assert(pre[i] == b0.take(n as int)[i]);
                    let j = choose|j: int| 0 <= j < sv.len() && sv[j] == pre[i];
                    assert(nv.contains(sv[j]));
                }
            }
        }
        n = n + 1;
    }
    assert(b0.take(nb as int) =~= b0);
    assert(dup_block_from(b0, nb as int) is None);
    Ok(sorted_blocks)
}

/// Sorts the registrations by ID, checking each against the registry
/// invariants (see [`action_problem_from`]) in order.
fn sort_registrations<H, D, S>(
    input: Vec<ActionRegistration<H, D, S>>,
    sorted_blocks: &Vec<BlockDef>,
    Ghost(b0): Ghost<Seq<BlockDefV>>,
) -> (r: Result<Vec<ActionRegistration<H, D, S>>, RegistryError>)
    requires
        same_elements(blocks_view(sorted_blocks@), b0),
    ensures
        match action_problem_from(regs_view(input@), b0, 0) {
            Some(e) => r matches Err(x) && x@ == e,
            None => r matches Ok(s) && regs_sorted(regs_view(s@)) && same_elements(regs_view(s@), regs_view(input@)),
        },
        r matches Ok(s) ==> forall|i: int| 0 <= i < s.len() ==> input@.contains(#[trigger] s@[i]),
{
    let ghost acts = regs_view(input@);
    let mut actions = input;
    let mut sorted: Vec<ActionRegistration<H, D, S>> = Vec::new();
    let mut k: usize = 0;
    let ghost na = acts.len();
    let ghost sb = blocks_view(sorted_blocks@);
    while actions.len() > 0
        invariant
            k <= na,
            k + actions.len() == na,
            acts.len() == na,
            acts == regs_view(input@),
            sb == blocks_view(sorted_blocks@),
            same_elements(sb, b0),
            regs_view(actions@) == acts.skip(k as int),
            regs_sorted(regs_view(sorted@)),
            same_elements(regs_view(sorted@), acts.take(k as int)),
            action_problem_from(acts, b0, 0) == action_problem_from(acts, b0, k as int),
            actions@ == input@.skip(k as int),
            forall|i: int| 0 <= i < sorted.len() ==> input@.contains(#[trigger] sorted@[i]),
        decreases actions.len(),
    {
        let ghost sv = regs_view(sorted@);
        let ghost sraw = sorted@;
        let ghost raw = actions@;
        let reg = actions.remove(0);
        proof {
            assert(reg == raw[0]);
            assert(raw[0] == input@[k as int]);
            assert(actions@ =~= input@.skip(k + 1));
            assert(regs_view(raw)[0] == reg@);
            assert(acts.skip(k as int)[0] == acts[k as int]);
            assert(regs_view(actions@) =~= regs_view(raw).drop_first());
            assert(acts.skip(k as int).drop_first() =~= acts.skip(k + 1));
        }
        let q = find_block(sorted_blocks, reg.def.block_type.as_str());
        if q == sorted_blocks.len() {
            proof {
                if block_registered(b0, reg.def.block_type@) {
                    let w = choose|w: int| 0 <= w < b0.len() && b0[w].block_type == reg.def.block_type@;
                    assert(sb.contains(b0[w]));
                    let z = choose|z: int| 0 <= z < sb.len() && sb[z] == b0[w];
                }
            }
            assert(!block_registered(b0, acts[k as int].def.block_type));
            assert(action_problem_from(acts, b0, k as int) == Some(RegErrV::UnknownBlockType(reg.def.id@, reg.def.block_type@)));
            return Err(RegistryError::UnknownBlockType { action_id: reg.def.id, block_type: reg.def.block_type });
        }
        proof {
            assert(b0.contains(sb[q as int]));
        }
        if reg.def.mutates && reg.dry_run.is_none() {
            return Err(RegistryError::MissingDryRun(reg.def.id));
        }
        if !reg.def.mutates && reg.dry_run.is_some() {
            return Err(RegistryError::UnexpectedDryRun(reg.def.id));
        }
        let z = find_registration(&sorted, reg.def.id.as_str());
        if z < sorted.len() {
            proof {
                assert(acts.take(k as int).contains(sv[z as int]));
                let j = choose|j: int| 0 <= j < k && acts.take(k as int)[j] == sv[z as int];
                assert(acts[j].def.id == acts[k as int].def.id);
                assert(action_problem_from(acts, b0, k as int) == Some(RegErrV::DuplicateAction(reg.def.id@)));
            }
            return Err(RegistryError::DuplicateAction(reg.def.id));
        }
        proof {
            assert forall|j: int| 0 <= j < k implies acts[j].def.id != acts[k as int].def.id by {
                assert(acts.take(k as int)[j] == acts[j]);
                assert(sv.contains(acts[j]));
                let q2 = choose|q2: int| 0 <= q2 < sv.len() && sv[q2] == acts[j];
            }
            assert(action_problem_from(acts, b0, k as int) == action_problem_from(acts, b0, k + 1));
            assert forall|i: int| 0 <= i < sorted.len() implies sorted[i].def.id@ != reg.def.id@ by {
                assert(sv[i] == sorted[i]@);
            }
        }
        let ghost rvv = reg@;
        let ghost rraw = reg;
        insert_reg_sorted(&mut sorted, reg);
        proof {
            assert forall|i: int| 0 <= i < sorted.len() implies input@.contains(#[trigger] sorted@[i]) by {
                if sorted@[i] == rraw {
                    assert(input@[k as int] == rraw);
                } else {
                    let j = choose|j: int| 0 <= j < sraw.len() && sraw[j] == sorted@[i];
                    assert(input@.contains(sraw[j]));
                }
            }
            let nv = regs_view(sorted@);
            let pre = acts.take(k + 1);
            assert(pre =~= acts.take(k as int).push(rvv));
            assert forall|i: int| 0 <= i < nv.len() implies pre.contains(#[trigger] nv[i]) by {
                if nv[i] == rvv {
                    assert(pre[k as int] == rvv);
                } else {
                    let j = choose|j: int| 0 <= j < sv.len() && sv[j] == nv[i];
                    let m = choose|m: int| 0 <= m < k && acts.take(k as int)[m] == sv[j];
                    assert(pre[m] == nv[i]);
                }
            }
            assert forall|i: int| 0 <= i < pre.len() implies nv.contains(#[trigger] pre[i]) by {
                if i < k {
                    assert(pre[i] == acts.take(k as int)[i]);
                    let j = choose|j: int| 0 <= j < sv.len() && sv[j] == pre[i];
                    assert(nv.contains(sv[j]));
                }
            }
        }
        k = k + 1;
    }
    assert(acts.take(na as int) =~= acts);
    assert(action_problem_from(acts, b0, na as int) is None);
    Ok(sorted)
}
} // verus!
