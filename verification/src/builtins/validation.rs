//! The validation handler: an optional JSON-Schema check plus an
//! independent rule set (required fields, forbidden fields, field types,
//! value constraints).  Failures come back as a structured `Error` result;
//! the handler itself never fails.

use crate::config::BuiltInConfig;
use crate::json::{
    fields_view, json_text, json_to_string, make_obj, obj_lookup, Json, JsonV,
};
use crate::strutil::{dec_digits, dec_digits_signed, i64_to_string, str_eq, u64_to_string};
use crate::types::{ExecutionResult, ResultV};
use vstd::prelude::*;

verus! {

broadcast use vstd::std_specs::vec::group_vec_axioms, vstd::seq::group_seq_axioms;

/// Whether `regex::Regex::new` accepts the pattern: a function of the
/// pattern alone.
pub uninterp spec fn regex_valid(pattern: Seq<char>) -> bool;

/// What `regex::Regex::is_match` returns: a function of the pattern and
/// the text alone.
pub uninterp spec fn regex_match(pattern: Seq<char>, text: Seq<char>) -> bool;

/// Relies on `regex::Regex::new` and `regex::Regex::is_match`: whether
/// `text` matches `pattern`, or `None` where the pattern does not compile.
#[verifier::external_body]
fn match_pattern(pattern: &str, text: &str) -> (r: Option<bool>)
    ensures
        r is Some <==> regex_valid(pattern@),
        r matches Some(b) ==> b == regex_match(pattern@, text@),
{
    match regex::Regex::new(pattern) {
        Ok(re) => Some(re.is_match(text)),
        Err(_) => None,
    }
}

/// Whether the draft-7 compiler accepts the schema text: a function of the
/// text alone.
pub uninterp spec fn schema_compiles(schema: Seq<char>) -> bool;

/// The draft-7 validation errors of a document against a schema, each as
/// `instance-path: message`: a function of the two texts alone.
pub uninterp spec fn schema_errors(schema: Seq<char>, data: Seq<char>) -> Seq<Seq<char>>;

/// Relies on `serde_json::from_str` and `jsonschema::JSONSchema::options`
/// with draft 7: whether the schema text parses and compiles.
#[verifier::external_body]
fn schema_accepts(schema: &str) -> (r: bool)
    ensures
        r == schema_compiles(schema@),
{
    match serde_json::from_str::<serde_json::Value>(schema) {
        Ok(v) => jsonschema::JSONSchema::options().with_draft(jsonschema::Draft::Draft7).compile(
            &v,
        ).is_ok(),
        Err(_) => false,
    }
}

/// Relies on `serde_json::from_str`, `jsonschema::JSONSchema` (draft 7)
/// and its `validate`: the error list of `data` against `schema`, empty
/// when the document conforms or the schema text cannot be compiled.
#[verifier::external_body]
fn schema_error_list(schema: &str, data: &str) -> (r: Vec<String>)
    ensures
        errors_view(r@) == schema_errors(schema@, data@),
{
    let sv = serde_json::from_str::<serde_json::Value>(schema).ok();
    let dv = serde_json::from_str::<serde_json::Value>(data).ok();
    let out: Vec<String> = match (&sv, &dv) {
        (Some(s), Some(d)) => match jsonschema::JSONSchema::options().with_draft(
            jsonschema::Draft::Draft7,
        ).compile(s) {
            Ok(c) => match c.validate(d) {
                Ok(()) => Vec::new(),
                Err(errors) => errors.map(|e| format!("{}: {}", e.instance_path, e)).collect(),
            },
            Err(_) => Vec::new(),
        },
        _ => Vec::new(),
    };
    out
}

/// The model of an error list.
pub open spec fn errors_view(v: Seq<String>) -> Seq<Seq<char>> {
    Seq::new(v.len(), |i: int| v[i]@)
}

/// Reading a field of possibly-non-object data: objects look the field
/// up, anything else has no fields.
pub open spec fn data_get(data: JsonV, key: Seq<char>) -> Option<JsonV> {
    match data {
        JsonV::Obj(fields) => obj_lookup(fields, key),
        _ => None,
    }
}

/// The JSON type name of a value.
pub open spec fn type_name_of(v: JsonV) -> Seq<char> {
    match v {
        JsonV::Null => "null"@,
        JsonV::Bool(_) => "boolean"@,
        JsonV::Num(_) => "number"@,
        JsonV::Str(_) => "string"@,
        JsonV::Arr(_) => "array"@,
        JsonV::Obj(_) => "object"@,
    }
}

/// The errors of the `required_fields` rule: one per listed name the data
/// lacks.  Entries that are not strings are ignored.
pub open spec fn required_errors(req: Seq<JsonV>, data: JsonV) -> Seq<Seq<char>>
    decreases req.len(),
{
    if req.len() == 0 {
        Seq::empty()
    } else {
        let head: Seq<Seq<char>> = match req[0] {
            JsonV::Str(f) => if data_get(data, f) is None {
                seq!["Missing required field: "@ + f]
            } else {
                Seq::empty()
            },
            _ => Seq::empty(),
        };
        head + required_errors(req.skip(1), data)
    }
}

/// The errors of the `forbidden_fields` rule: one per listed name the
/// data carries.
pub open spec fn forbidden_errors(forb: Seq<JsonV>, data: JsonV) -> Seq<Seq<char>>
    decreases forb.len(),
{
    if forb.len() == 0 {
        Seq::empty()
    } else {
        let head: Seq<Seq<char>> = match forb[0] {
            JsonV::Str(f) => if data_get(data, f) is Some {
                seq!["Forbidden field present: "@ + f]
            } else {
                Seq::empty()
            },
            _ => Seq::empty(),
        };
        head + forbidden_errors(forb.skip(1), data)
    }
}

/// The errors of the `field_types` rule: one per present field whose JSON
/// type differs from the expected name.
pub open spec fn type_errors(types: Seq<(Seq<char>, JsonV)>, data: JsonV) -> Seq<Seq<char>>
    decreases types.len(),
{
    if types.len() == 0 {
        Seq::empty()
    } else {
        let head: Seq<Seq<char>> = match (data_get(data, types[0].0), types[0].1) {
            (Some(v), JsonV::Str(expected)) => if type_name_of(v) != expected {
                seq![
                    "Field '"@ + types[0].0 + "' has wrong type: expected "@ + expected + ", got "@
                        + type_name_of(v),
                ]
            } else {
                Seq::empty()
            },
            _ => Seq::empty(),
        };
        head + type_errors(types.skip(1), data)
    }
}

/// The length a constraint applies to: character count of strings,
/// element count of arrays, nothing else.
pub open spec fn constrained_len(v: JsonV) -> Option<int> {
    match v {
        JsonV::Str(s) => Some(s.len() as int),
        JsonV::Arr(a) => Some(a.len() as int),
        _ => None,
    }
}

/// The errors one field's constraint object produces against its value.
pub open spec fn one_constraint_errors(field: Seq<char>, c: Seq<(Seq<char>, JsonV)>, v: JsonV) -> Seq<
    Seq<char>,
> {
    let min_errs: Seq<Seq<char>> = match (v, obj_lookup(c, "min"@)) {
        (JsonV::Num(n), Some(JsonV::Num(min))) => if n < min {
            seq![
                "Field '"@ + field + "' below minimum: "@ + dec_digits_signed(n) + " < "@
                    + dec_digits_signed(min),
            ]
        } else {
            Seq::empty()
        },
        _ => Seq::empty(),
    };
    let max_errs: Seq<Seq<char>> = match (v, obj_lookup(c, "max"@)) {
        (JsonV::Num(n), Some(JsonV::Num(max))) => if n > max {
            seq![
                "Field '"@ + field + "' above maximum: "@ + dec_digits_signed(n) + " > "@
                    + dec_digits_signed(max),
            ]
        } else {
            Seq::empty()
        },
        _ => Seq::empty(),
    };
    let minlen_errs: Seq<Seq<char>> = match (constrained_len(v), obj_lookup(c, "min_length"@)) {
        (Some(len), Some(JsonV::Num(m))) => if m >= 0 && len < m {
            seq![
                "Field '"@ + field + "' too short: "@ + dec_digits(len as nat) + " < "@
                    + dec_digits(m as nat),
            ]
        } else {
            Seq::empty()
        },
        _ => Seq::empty(),
    };
    let maxlen_errs: Seq<Seq<char>> = match (constrained_len(v), obj_lookup(c, "max_length"@)) {
        (Some(len), Some(JsonV::Num(m))) => if m >= 0 && len > m {
            seq![
                "Field '"@ + field + "' too long: "@ + dec_digits(len as nat) + " > "@ + dec_digits(
                    m as nat,
                ),
            ]
        } else {
            Seq::empty()
        },
        _ => Seq::empty(),
    };
    let pattern_errs: Seq<Seq<char>> = match (v, obj_lookup(c, "pattern"@)) {
        (JsonV::Str(s), Some(JsonV::Str(p))) => if regex_valid(p) && !regex_match(p, s) {
            seq!["Field '"@ + field + "' doesn't match pattern: "@ + p]
        } else {
            Seq::empty()
        },
        _ => Seq::empty(),
    };
    min_errs + max_errs + minlen_errs + maxlen_errs + pattern_errs
}

/// The errors of the `constraints` rule, per configured field present in
/// the data, in configuration order.
pub open spec fn constraint_errors(cons: Seq<(Seq<char>, JsonV)>, data: JsonV) -> Seq<Seq<char>>
    decreases cons.len(),
{
    if cons.len() == 0 {
        Seq::empty()
    } else {
        let head: Seq<Seq<char>> = match (data_get(data, cons[0].0), cons[0].1) {
            (Some(v), JsonV::Obj(c)) => one_constraint_errors(cons[0].0, c, v),
            _ => Seq::empty(),
        };
        head + constraint_errors(cons.skip(1), data)
    }
}

/// Every rule error of a configuration against the data, in rule order.
pub open spec fn rule_errors(config: Seq<(Seq<char>, JsonV)>, data: JsonV) -> Seq<Seq<char>> {
    let req: Seq<Seq<char>> = match obj_lookup(config, "required_fields"@) {
        Some(JsonV::Arr(items)) => required_errors(items, data),
        _ => Seq::empty(),
    };
    let forb: Seq<Seq<char>> = match obj_lookup(config, "forbidden_fields"@) {
        Some(JsonV::Arr(items)) => forbidden_errors(items, data),
        _ => Seq::empty(),
    };
    let types: Seq<Seq<char>> = match obj_lookup(config, "field_types"@) {
        Some(JsonV::Obj(pairs)) => type_errors(pairs, data),
        _ => Seq::empty(),
    };
    let cons: Seq<Seq<char>> = match obj_lookup(config, "constraints"@) {
        Some(JsonV::Obj(pairs)) => constraint_errors(pairs, data),
        _ => Seq::empty(),
    };
    req + forb + types + cons
}

/// The error strings joined with `", "`.
pub open spec fn joined_errors(errs: Seq<Seq<char>>) -> Seq<char>
    decreases errs.len(),
{
    if errs.len() == 0 {
        Seq::empty()
    } else if errs.len() == 1 {
        errs[0]
    } else {
        errs[0] + ", "@ + joined_errors(errs.skip(1))
    }
}

/// Whether the configuration asks for the payload to be validated; on by
/// default.
pub open spec fn validate_payload_of(config: Seq<(Seq<char>, JsonV)>) -> bool {
    match obj_lookup(config, "validate_payload"@) {
        Some(JsonV::Bool(b)) => b,
        _ => true,
    }
}

/// Whether the configuration asks for a `_validated` stamp on success.
pub open spec fn add_status_of(config: Seq<(Seq<char>, JsonV)>) -> bool {
    match obj_lookup(config, "add_validation_status"@) {
        Some(JsonV::Bool(b)) => b,
        _ => false,
    }
}

/// Error strings as JSON values.
pub open spec fn strs_of(errs: Seq<Seq<char>>) -> Seq<JsonV> {
    Seq::new(errs.len(), |i: int| JsonV::Str(errs[i]))
}

/// The `_validated` stamp: handler name, timestamp, whether a schema ran.
pub open spec fn validated_stamp(name: Seq<char>, now: int, schema_used: bool) -> JsonV {
    JsonV::Obj(
        seq![
            ("handler"@, JsonV::Str(name)),
            ("timestamp"@, JsonV::Num(now)),
            ("schema_used"@, JsonV::Bool(schema_used)),
        ],
    )
}

/// What one invocation of a validation handler returns: schema errors
/// first, then rule errors, then the optional stamp, else `Continue`.
pub open spec fn validation_outcome(
    config: Seq<(Seq<char>, JsonV)>,
    schema: Option<Seq<char>>,
    name: Seq<char>,
    data: JsonV,
    now: int,
) -> ResultV {
    let target = if validate_payload_of(config) {
        data
    } else {
        JsonV::Null
    };
    let serrs = match schema {
        Some(st) => schema_errors(st, json_text(target)),
        None => Seq::empty(),
    };
    if serrs.len() > 0 {
        ResultV::Error {
            message: "Schema validation failed: "@ + joined_errors(serrs),
            details: Some(
                JsonV::Obj(
                    seq![
                        ("code"@, JsonV::Str("SCHEMA_VALIDATION_FAILED"@)),
                        ("errors"@, JsonV::Arr(strs_of(serrs))),
                    ],
                ),
            ),
        }
    } else {
        let rerrs = rule_errors(config, target);
        if rerrs.len() > 0 {
            ResultV::Error {
                message: "Validation failed: "@ + joined_errors(rerrs),
                details: Some(
                    JsonV::Obj(
                        seq![
                            ("code"@, JsonV::Str("VALIDATION_FAILED"@)),
                            ("errors"@, JsonV::Arr(strs_of(rerrs))),
                        ],
                    ),
                ),
            }
        } else if add_status_of(config) {
            match data {
                JsonV::Obj(fields) => ResultV::Replace(
                    JsonV::Obj(
                        crate::json::obj_set(
                            fields,
                            "_validated"@,
                            validated_stamp(name, now, schema is Some),
                        ),
                    ),
                ),
                _ => ResultV::Replace(data),
            }
        } else {
            ResultV::Continue
        }
    }
}

/// The built-in validation handler.
#[derive(Debug)]
pub struct ValidationHandler {
    name: String,
    config: BuiltInConfig,
    schema_text: Option<String>,
}

impl ValidationHandler {
    /// The handler's name.
    pub closed spec fn spec_name(&self) -> Seq<char> {
        self.name@
    }

    /// The handler's configuration map.
    pub closed spec fn config_map(&self) -> Seq<(Seq<char>, JsonV)> {
        fields_view(self.config.config@)
    }

    /// The compiled schema's text, where the configuration carries a
    /// schema that the draft-7 compiler accepts.
    pub closed spec fn schema(&self) -> Option<Seq<char>> {
        match self.schema_text {
            Some(ref s) => Some(s@),
            None => None,
        }
    }

    /// A validation handler.  A `schema` value in the configuration is
    /// kept exactly when it compiles as draft 7; as in the rule checks, a
    /// schema that cannot be used is ignored rather than an error.
    pub fn new(name: String, config: BuiltInConfig) -> (r: Self)
        ensures
            r.spec_name() == name@,
            r.config_map() == fields_view(config.config@),
            match obj_lookup(fields_view(config.config@), "schema"@) {
                Some(schema) => {
                    if schema_compiles(json_text(schema)) {
                        r.schema() == Some(json_text(schema))
                    } else {
                        r.schema() is None
                    }
                },
                None => r.schema() is None,
            },
    {
        let schema_text = match crate::json::fields_get(&config.config, "schema") {
            Some(v) => {
                let text = json_to_string(v);
                if schema_accepts(text.as_str()) {
                    Some(text)
                } else {
                    None
                }
            },
            None => None,
        };
        ValidationHandler { name, config, schema_text }
    }

    /// The handler's name.
    pub fn name(&self) -> (r: &str)
        ensures
            r@ == self.spec_name(),
    {
        self.name.as_str()
    }

    /// The rule errors of this handler's configuration against the data.
    pub fn validate_rules(&self, data: &Json) -> (r: Vec<String>)
        ensures
            errors_view(r@) == rule_errors(self.config_map(), data@),
    {
        let mut errors = required_group(&self.config.config, data);
        let forb = forbidden_group(&self.config.config, data);
        let types = types_group(&self.config.config, data);
        let cons = constraints_group(&self.config.config, data);
        let ghost e0 = errors_view(errors@);
        let ghost e1 = errors_view(forb@);
        let ghost e2 = errors_view(types@);
        let ghost e3 = errors_view(cons@);
        let errors = append_all(errors, forb);
        let errors = append_all(errors, types);
        let errors = append_all(errors, cons);
        proof {
            assert(errors_view(errors@) =~= e0 + e1 + e2 + e3);
        }
        errors
    }

    /// One invocation: schema errors abort with
    /// `SCHEMA_VALIDATION_FAILED`, rule errors with `VALIDATION_FAILED`;
    /// on success the data is stamped where configured, else untouched.
    pub fn execute(&self, data: &Json, now_ms: u64) -> (r: ExecutionResult)
        requires
            now_ms <= 0x7fffffffffffffff,
        ensures
            r@ == validation_outcome(
                self.config_map(),
                self.schema(),
                self.spec_name(),
                data@,
                now_ms as int,
            ),
    {
        let validate_payload = match crate::json::fields_get_bool(
            &self.config.config,
            "validate_payload",
        ) {
            Some(b) => b,
            None => true,
        };
        let target = if validate_payload {
            data.clone()
        } else {
            Json::Null
        };
        let schema_errs: Vec<String> = match &self.schema_text {
            Some(st) => {
                let text = json_to_string(&target);
                schema_error_list(st.as_str(), text.as_str())
            },
            None => Vec::new(),
        };
        proof {
            if self.schema_text is None {
                assert(errors_view(schema_errs@) =~= Seq::<Seq<char>>::empty());
            }
        }
        if schema_errs.len() > 0 {
            let mut msg = String::from_str("Schema validation failed: ");
            msg.append(join_comma(&schema_errs).as_str());
            let details = error_details("SCHEMA_VALIDATION_FAILED", &schema_errs);
            return ExecutionResult::Error { message: msg, details: Some(details) };
        }
        let rule_errs = self.validate_rules(&target);
        if rule_errs.len() > 0 {
            let mut msg = String::from_str("Validation failed: ");
            msg.append(join_comma(&rule_errs).as_str());
            let details = error_details("VALIDATION_FAILED", &rule_errs);
            return ExecutionResult::Error { message: msg, details: Some(details) };
        }
        let add_status = match crate::json::fields_get_bool(
            &self.config.config,
            "add_validation_status",
        ) {
            Some(b) => b,
            None => false,
        };
        if add_status {
            match data.clone() {
                Json::Obj(fields) => {
                    proof {
                        crate::json::lemma_obj_view(Json::Obj(fields));
                    }
                    let schema_used = match &self.schema_text {
                        Some(_) => true,
                        None => false,
                    };
                    let mut stamp: Vec<(String, Json)> = Vec::new();
                    stamp.push((String::from_str("handler"), Json::Str(self.name.clone())));
                    stamp.push((String::from_str("timestamp"), num_of_u64(now_ms)));
                    stamp.push((String::from_str("schema_used"), Json::Bool(schema_used)));
                    let ghost gstamp = stamp@;
                    let stamp_obj = make_obj(stamp);
                    proof {
                        assert(fields_view(gstamp) =~= seq![
                            ("handler"@, JsonV::Str(self.spec_name())),
                            ("timestamp"@, JsonV::Num(now_ms as int)),
                            ("schema_used"@, JsonV::Bool(schema_used)),
                        ]);
                        assert(stamp_obj@ == validated_stamp(
                            self.spec_name(),
                            now_ms as int,
                            self.schema() is Some,
                        ));
                    }
                    let set = crate::json::fields_set(
                        fields,
                        String::from_str("_validated"),
                        stamp_obj,
                    );
                    ExecutionResult::Replace(make_obj(set))
                },
                other => {
                    proof {
                        crate::json::lemma_view_variant(other);
                    }
                    ExecutionResult::Replace(other)
                },
            }
        } else {
            ExecutionResult::Continue
        }
    }
}

/// A 64-bit timestamp as a JSON number.
fn num_of_u64(n: u64) -> (r: Json)
    requires
        n <= 0x7fffffffffffffff,
    ensures
        r@ == JsonV::Num(n as int),
{
    Json::Num(n as i64)
}

/// The `{code, errors}` detail object of a validation failure.
fn error_details(code: &str, errs: &Vec<String>) -> (r: Json)
    ensures
        r@ == JsonV::Obj(
            seq![
                ("code"@, JsonV::Str(code@)),
                ("errors"@, JsonV::Arr(strs_of(errors_view(errs@)))),
            ],
        ),
{
    let mut arr: Vec<Json> = Vec::new();
    let n = errs.len();
    for i in 0..n
        invariant
            n == errs@.len(),
            arr@.len() == i,
            forall|k: int| 0 <= k < i ==> arr@[k]@ == JsonV::Str(errs@[k]@),
    {
        arr.push(Json::Str(errs[i].clone()));
    }
    let errors_json = crate::json::make_arr(arr);
    proof {
        assert(errors_json@->Arr_0 =~= strs_of(errors_view(errs@)));
    }
    let mut fields: Vec<(String, Json)> = Vec::new();
    fields.push((String::from_str("code"), Json::Str(String::from_str(code))));
    fields.push((String::from_str("errors"), errors_json));
    let r = make_obj(fields);
    proof {
        assert(r@->Obj_0 =~= seq![
            ("code"@, JsonV::Str(code@)),
            ("errors"@, JsonV::Arr(strs_of(errors_view(errs@)))),
        ]);
    }
    r
}

/// Two error lists, one after the other.
fn append_all(mut base: Vec<String>, extra: Vec<String>) -> (r: Vec<String>)
    ensures
        errors_view(r@) == errors_view(base@) + errors_view(extra@),
{
    let ghost gbase = errors_view(base@);
    let ghost gextra = errors_view(extra@);
    let mut rest = extra;
    loop
        invariant_except_break
            gbase + gextra == errors_view(base@) + errors_view(rest@),
        ensures
            gbase + gextra == errors_view(base@),
        decreases rest@.len(),
    {
        if rest.len() == 0 {
            assert(errors_view(rest@) =~= Seq::<Seq<char>>::empty());
            assert(errors_view(base@) + errors_view(rest@) =~= errors_view(base@));
            break;
        }
        let ghost gb = errors_view(base@);
        let ghost gr = errors_view(rest@);
        assert(gr[0] == rest@[0]@);
        let head = rest.remove(0);
        assert(errors_view(rest@) =~= gr.skip(1));
        base.push(head);
        assert(errors_view(base@) =~= gb + seq![gr[0]]);
        assert(gr =~= seq![gr[0]] + gr.skip(1));
        assert(gb + gr =~= errors_view(base@) + gr.skip(1));
    }
    base
}

/// The error strings joined with `", "`.
pub fn join_comma(errs: &Vec<String>) -> (r: String)
    ensures
        r@ == joined_errors(errors_view(errs@)),
{
    let ghost gerrs = errors_view(errs@);
    assert(gerrs.skip(0) =~= gerrs);
    let mut out = String::new();
    let n = errs.len();
    for i in 0..n
        invariant
            n == errs@.len(),
            gerrs == errors_view(errs@),
            joined_errors(gerrs) == out@ + joined_errors(gerrs.skip(i as int)),
    {
        assert(gerrs.skip(i as int)[0] == gerrs[i as int]);
        assert(gerrs.skip(i as int).skip(1) =~= gerrs.skip(i as int + 1));
        let ghost before = out@;
        out.append(errs[i].as_str());
        if i + 1 < n {
            out.append(", ");
            assert(out@ =~= before + (gerrs[i as int] + ", "@));
            assert(before + (gerrs[i as int] + ", "@ + joined_errors(gerrs.skip(i as int + 1)))
                =~= out@ + joined_errors(gerrs.skip(i as int + 1)));
        } else {
            assert(joined_errors(gerrs.skip(i as int)) == gerrs[i as int]);
            assert(before + joined_errors(gerrs.skip(i as int)) =~= out@);
        }
    }
    proof {
        if n == 0 {
            assert(joined_errors(gerrs) =~= Seq::<char>::empty());
        } else {
            assert(gerrs.skip(n as int) =~= Seq::<Seq<char>>::empty());
        }
    }
    out
}

/// Reading a field of possibly-non-object data.
fn data_get_exec<'a>(data: &'a Json, key: &str) -> (r: Option<&'a Json>)
    ensures
        match r {
            Some(v) => data_get(data@, key@) == Some(v@),
            None => data_get(data@, key@) is None,
        },
{
    match data {
        Json::Obj(_) => data.get(key),
        other => {
            proof {
                crate::json::lemma_view_variant(*other);
            }
            None
        },
    }
}

/// The `required_fields` errors of a configuration.
fn required_group(config: &Vec<(String, Json)>, data: &Json) -> (r: Vec<String>)
    ensures
        errors_view(r@) == (match obj_lookup(fields_view(config@), "required_fields"@) {
            Some(JsonV::Arr(items)) => required_errors(items, data@),
            _ => Seq::<Seq<char>>::empty(),
        }),
{
    let mut errors: Vec<String> = Vec::new();
    match crate::json::fields_get(config, "required_fields") {
        Some(v) => match v {
            Json::Arr(items) => {
                proof {
                    crate::json::lemma_arr_view(*v);
                }
                let ghost gitems = crate::json::elems_view(items@);
                assert(gitems.skip(0) =~= gitems);
                let n = items.len();
                for i in 0..n
                    invariant
                        n == items@.len(),
                        gitems == crate::json::elems_view(items@),
                        required_errors(gitems, data@) == errors_view(errors@) + required_errors(
                            gitems.skip(i as int),
                            data@,
                        ),
                {
                    assert(gitems.skip(i as int)[0] == gitems[i as int]);
                    assert(gitems.skip(i as int).skip(1) =~= gitems.skip(i as int + 1));
                    let ghost before = errors_view(errors@);
                    let ghost tail = required_errors(gitems.skip(i as int + 1), data@);
                    match &items[i] {
                        Json::Str(f) => {
                            if data_get_exec(data, f.as_str()).is_none() {
                                let mut msg = String::from_str("Missing required field: ");
                                msg.append(f.as_str());
                                errors.push(msg);
                                assert(errors_view(errors@) =~= before + seq![
                                    "Missing required field: "@ + f@,
                                ]);
                                assert(before + (seq!["Missing required field: "@ + f@] + tail)
                                    =~= errors_view(errors@) + tail);
                            } else {
                                assert(before + (Seq::<Seq<char>>::empty() + tail) =~= errors_view(
                                    errors@,
                                ) + tail);
                            }
                        },
                        other => {
                            proof {
                                crate::json::lemma_view_variant(*other);
                            }
                            assert(before + (Seq::<Seq<char>>::empty() + tail) =~= errors_view(
                                errors@,
                            ) + tail);
                        },
                    }
                }
                assert(required_errors(gitems.skip(n as int), data@) =~= Seq::<Seq<char>>::empty());
                assert(errors_view(errors@) + required_errors(gitems.skip(n as int), data@)
                    =~= errors_view(errors@));
            },
            other => {
                proof {
                    crate::json::lemma_view_variant(*other);
                }
                assert(errors_view(errors@) =~= Seq::<Seq<char>>::empty());
            },
        },
        None => {
            assert(errors_view(errors@) =~= Seq::<Seq<char>>::empty());
        },
    }
    errors
}

/// The `forbidden_fields` errors of a configuration.
fn forbidden_group(config: &Vec<(String, Json)>, data: &Json) -> (r: Vec<String>)
    ensures
        errors_view(r@) == (match obj_lookup(fields_view(config@), "forbidden_fields"@) {
            Some(JsonV::Arr(items)) => forbidden_errors(items, data@),
            _ => Seq::<Seq<char>>::empty(),
        }),
{
    let mut errors: Vec<String> = Vec::new();
    match crate::json::fields_get(config, "forbidden_fields") {
        Some(v) => match v {
            Json::Arr(items) => {
                proof {
                    crate::json::lemma_arr_view(*v);
                }
                let ghost gitems = crate::json::elems_view(items@);
                assert(gitems.skip(0) =~= gitems);
                let n = items.len();
                for i in 0..n
                    invariant
                        n == items@.len(),
                        gitems == crate::json::elems_view(items@),
                        forbidden_errors(gitems, data@) == errors_view(errors@) + forbidden_errors(
                            gitems.skip(i as int),
                            data@,
                        ),
                {
                    assert(gitems.skip(i as int)[0] == gitems[i as int]);
                    assert(gitems.skip(i as int).skip(1) =~= gitems.skip(i as int + 1));
                    let ghost before = errors_view(errors@);
                    let ghost tail = forbidden_errors(gitems.skip(i as int + 1), data@);
                    match &items[i] {
                        Json::Str(f) => {
                            if data_get_exec(data, f.as_str()).is_some() {
                                let mut msg = String::from_str("Forbidden field present: ");
                                msg.append(f.as_str());
                                errors.push(msg);
                                assert(errors_view(errors@) =~= before + seq![
                                    "Forbidden field present: "@ + f@,
                                ]);
                                assert(before + (seq!["Forbidden field present: "@ + f@] + tail)
                                    =~= errors_view(errors@) + tail);
                            } else {
                                assert(before + (Seq::<Seq<char>>::empty() + tail) =~= errors_view(
                                    errors@,
                                ) + tail);
                            }
                        },
                        other => {
                            proof {
                                crate::json::lemma_view_variant(*other);
                            }
                            assert(before + (Seq::<Seq<char>>::empty() + tail) =~= errors_view(
                                errors@,
                            ) + tail);
                        },
                    }
                }
                assert(forbidden_errors(gitems.skip(n as int), data@) =~= Seq::<
                    Seq<char>,
                >::empty());
                assert(errors_view(errors@) + forbidden_errors(gitems.skip(n as int), data@)
                    =~= errors_view(errors@));
            },
            other => {
                proof {
                    crate::json::lemma_view_variant(*other);
                }
                assert(errors_view(errors@) =~= Seq::<Seq<char>>::empty());
            },
        },
        None => {
            assert(errors_view(errors@) =~= Seq::<Seq<char>>::empty());
        },
    }
    errors
}

/// The JSON type name of a value.
fn type_name_exec(v: &Json) -> (r: &str)
    ensures
        r@ == type_name_of(v@),
{
    proof {
        crate::json::lemma_view_variant(*v);
    }
    match v {
        Json::Null => "null",
        Json::Bool(_) => "boolean",
        Json::Num(_) => "number",
        Json::Str(_) => "string",
        Json::Arr(_) => "array",
        Json::Obj(_) => "object",
    }
}

/// The `field_types` errors of a configuration.
fn types_group(config: &Vec<(String, Json)>, data: &Json) -> (r: Vec<String>)
    ensures
        errors_view(r@) == (match obj_lookup(fields_view(config@), "field_types"@) {
            Some(JsonV::Obj(pairs)) => type_errors(pairs, data@),
            _ => Seq::<Seq<char>>::empty(),
        }),
{
    let mut errors: Vec<String> = Vec::new();
    match crate::json::fields_get(config, "field_types") {
        Some(v) => match v {
            Json::Obj(pairs) => {
                proof {
                    crate::json::lemma_obj_view(*v);
                }
                let ghost gpairs = fields_view(pairs@);
                assert(gpairs.skip(0) =~= gpairs);
                let n = pairs.len();
                for i in 0..n
                    invariant
                        n == pairs@.len(),
                        gpairs == fields_view(pairs@),
                        type_errors(gpairs, data@) == errors_view(errors@) + type_errors(
                            gpairs.skip(i as int),
                            data@,
                        ),
                {
                    assert(gpairs.skip(i as int)[0] == gpairs[i as int]);
                    assert(gpairs.skip(i as int).skip(1) =~= gpairs.skip(i as int + 1));
                    let ghost before = errors_view(errors@);
                    let ghost tail = type_errors(gpairs.skip(i as int + 1), data@);
                    let fname = &pairs[i].0;
                    let expected = &pairs[i].1;
                    let mut pushed = false;
                    match data_get_exec(data, fname.as_str()) {
                        Some(actual) => match expected {
                            Json::Str(e) => {
                                let actual_name = type_name_exec(actual);
                                if !str_eq(actual_name, e.as_str()) {
                                    let mut msg = String::from_str("Field '");
                                    msg.append(fname.as_str());
                                    msg.append("' has wrong type: expected ");
                                    msg.append(e.as_str());
                                    msg.append(", got ");
                                    msg.append(actual_name);
                                    errors.push(msg);
                                    pushed = true;
                                    assert(errors_view(errors@) =~= before + seq![
                                        "Field '"@ + fname@ + "' has wrong type: expected "@ + e@
                                            + ", got "@ + type_name_of(actual@),
                                    ]);
                                    assert(before + (seq![
                                        "Field '"@ + fname@ + "' has wrong type: expected "@ + e@
                                            + ", got "@ + type_name_of(actual@),
                                    ] + tail) =~= errors_view(errors@) + tail);
                                }
                            },
                            other => {
                                proof {
                                    crate::json::lemma_view_variant(*other);
                                }
                            },
                        },
                        None => {},
                    }
                    if !pushed {
                        assert(errors_view(errors@) == before);
                        assert(before + (Seq::<Seq<char>>::empty() + tail) =~= errors_view(errors@)
                            + tail);
                    }
                }
                assert(type_errors(gpairs.skip(n as int), data@) =~= Seq::<Seq<char>>::empty());
                assert(errors_view(errors@) + type_errors(gpairs.skip(n as int), data@)
                    =~= errors_view(errors@));
            },
            other => {
                proof {
                    crate::json::lemma_view_variant(*other);
                }
                assert(errors_view(errors@) =~= Seq::<Seq<char>>::empty());
            },
        },
        None => {
            assert(errors_view(errors@) =~= Seq::<Seq<char>>::empty());
        },
    }
    errors
}

/// The `constraints` errors of a configuration.
fn constraints_group(config: &Vec<(String, Json)>, data: &Json) -> (r: Vec<String>)
    ensures
        errors_view(r@) == (match obj_lookup(fields_view(config@), "constraints"@) {
            Some(JsonV::Obj(pairs)) => constraint_errors(pairs, data@),
            _ => Seq::<Seq<char>>::empty(),
        }),
{
    let mut errors: Vec<String> = Vec::new();
    match crate::json::fields_get(config, "constraints") {
        Some(v) => match v {
            Json::Obj(pairs) => {
                proof {
                    crate::json::lemma_obj_view(*v);
                }
                let ghost gpairs = fields_view(pairs@);
                assert(gpairs.skip(0) =~= gpairs);
                let n = pairs.len();
                for i in 0..n
                    invariant
                        n == pairs@.len(),
                        gpairs == fields_view(pairs@),
                        constraint_errors(gpairs, data@) == errors_view(errors@)
                            + constraint_errors(gpairs.skip(i as int), data@),
                {
                    assert(gpairs.skip(i as int)[0] == gpairs[i as int]);
                    assert(gpairs.skip(i as int).skip(1) =~= gpairs.skip(i as int + 1));
                    let ghost before = errors_view(errors@);
                    let ghost tail = constraint_errors(gpairs.skip(i as int + 1), data@);
                    let fname = &pairs[i].0;
                    let cobj = &pairs[i].1;
                    let mut contributed = false;
                    match data_get_exec(data, fname.as_str()) {
                        Some(value) => match cobj {
                            Json::Obj(cfields) => {
                                proof {
                                    crate::json::lemma_obj_view(*cobj);
                                }
                                let part = one_constraint(fname.as_str(), cfields, value);
                                let ghost gpart = errors_view(part@);
                                let merged = append_all(errors, part);
                                errors = merged;
                                contributed = true;
                                assert(errors_view(errors@) == before + gpart);
                                assert(before + (gpart + tail) =~= errors_view(errors@) + tail);
                            },
                            other => {
                                proof {
                                    crate::json::lemma_view_variant(*other);
                                }
                            },
                        },
                        None => {},
                    }
                    if !contributed {
                        assert(errors_view(errors@) == before);
                        assert(before + (Seq::<Seq<char>>::empty() + tail) =~= errors_view(errors@)
                            + tail);
                    }
                }
                assert(constraint_errors(gpairs.skip(n as int), data@) =~= Seq::<
                    Seq<char>,
                >::empty());
                assert(errors_view(errors@) + constraint_errors(gpairs.skip(n as int), data@)
                    =~= errors_view(errors@));
            },
            other => {
                proof {
                    crate::json::lemma_view_variant(*other);
                }
                assert(errors_view(errors@) =~= Seq::<Seq<char>>::empty());
            },
        },
        None => {
            assert(errors_view(errors@) =~= Seq::<Seq<char>>::empty());
        },
    }
    errors
}

/// The errors of one field's constraint object against its value.
fn one_constraint(field: &str, c: &Vec<(String, Json)>, v: &Json) -> (r: Vec<String>)
    ensures
        errors_view(r@) == one_constraint_errors(field@, fields_view(c@), v@),
{
    let ghost gc = fields_view(c@);
    let mut errors: Vec<String> = Vec::new();
    let ghost min_errs = (match (v@, obj_lookup(gc, "min"@)) {
        (JsonV::Num(n), Some(JsonV::Num(min))) => if n < min {
            seq![
                "Field '"@ + field@ + "' below minimum: "@ + dec_digits_signed(n) + " < "@
                    + dec_digits_signed(min),
            ]
        } else {
            Seq::<Seq<char>>::empty()
        },
        _ => Seq::<Seq<char>>::empty(),
    });
    match (v, crate::json::fields_get_num(c, "min")) {
        (Json::Num(n), Some(min)) => {
            if *n < min {
                let mut msg = String::from_str("Field '");
                msg.append(field);
                msg.append("' below minimum: ");
                msg.append(i64_to_string(*n).as_str());
                msg.append(" < ");
                msg.append(i64_to_string(min).as_str());
                errors.push(msg);
            }
        },
        (other, _) => {
            proof {
                crate::json::lemma_view_variant(*other);
            }
        },
    }
    assert(errors_view(errors@) =~= min_errs);
    let ghost max_errs = (match (v@, obj_lookup(gc, "max"@)) {
        (JsonV::Num(n), Some(JsonV::Num(max))) => if n > max {
            seq![
                "Field '"@ + field@ + "' above maximum: "@ + dec_digits_signed(n) + " > "@
                    + dec_digits_signed(max),
            ]
        } else {
            Seq::<Seq<char>>::empty()
        },
        _ => Seq::<Seq<char>>::empty(),
    });
    let ghost before_max = errors_view(errors@);
    match (v, crate::json::fields_get_num(c, "max")) {
        (Json::Num(n), Some(max)) => {
            if *n > max {
                let mut msg = String::from_str("Field '");
                msg.append(field);
                msg.append("' above maximum: ");
                msg.append(i64_to_string(*n).as_str());
                msg.append(" > ");
                msg.append(i64_to_string(max).as_str());
                errors.push(msg);
            }
        },
        (other, _) => {
            proof {
                crate::json::lemma_view_variant(*other);
            }
        },
    }
    assert(errors_view(errors@) =~= before_max + max_errs);
    let length: Option<usize> = match v {
        Json::Str(s) => Some(s.as_str().unicode_len()),
        Json::Arr(a) => Some(a.len()),
        other => {
            proof {
                crate::json::lemma_view_variant(*other);
            }
            None
        },
    };
    proof {
        if v@ is Str {
            crate::json::lemma_view_variant(*v);
        }
        if v@ is Arr {
            crate::json::lemma_arr_view(*v);
        }
    }
    let ghost minlen_errs = (match (constrained_len(v@), obj_lookup(gc, "min_length"@)) {
        (Some(len), Some(JsonV::Num(m))) => if m >= 0 && len < m {
            seq![
                "Field '"@ + field@ + "' too short: "@ + dec_digits(len as nat) + " < "@
                    + dec_digits(m as nat),
            ]
        } else {
            Seq::<Seq<char>>::empty()
        },
        _ => Seq::<Seq<char>>::empty(),
    });
    let ghost before_minlen = errors_view(errors@);
    match (length, crate::json::fields_get_num(c, "min_length")) {
        (Some(len), Some(m)) => {
            if m >= 0 && (len as u64) < (m as u64) {
                let mut msg = String::from_str("Field '");
                msg.append(field);
                msg.append("' too short: ");
                msg.append(u64_to_string(len as u64).as_str());
                msg.append(" < ");
                msg.append(u64_to_string(m as u64).as_str());
                errors.push(msg);
            }
        },
        _ => {},
    }
    assert(errors_view(errors@) =~= before_minlen + minlen_errs);
    let ghost maxlen_errs = (match (constrained_len(v@), obj_lookup(gc, "max_length"@)) {
        (Some(len), Some(JsonV::Num(m))) => if m >= 0 && len > m {
            seq![
                "Field '"@ + field@ + "' too long: "@ + dec_digits(len as nat) + " > "@
                    + dec_digits(m as nat),
            ]
        } else {
            Seq::<Seq<char>>::empty()
        },
        _ => Seq::<Seq<char>>::empty(),
    });
    let ghost before_maxlen = errors_view(errors@);
    match (length, crate::json::fields_get_num(c, "max_length")) {
        (Some(len), Some(m)) => {
            if m >= 0 && (len as u64) > (m as u64) {
                let mut msg = String::from_str("Field '");
                msg.append(field);
                msg.append("' too long: ");
                msg.append(u64_to_string(len as u64).as_str());
                msg.append(" > ");
                msg.append(u64_to_string(m as u64).as_str());
                errors.push(msg);
            }
        },
        _ => {},
    }
    assert(errors_view(errors@) =~= before_maxlen + maxlen_errs);
    let ghost pattern_errs = (match (v@, obj_lookup(gc, "pattern"@)) {
        (JsonV::Str(s), Some(JsonV::Str(p))) => if regex_valid(p) && !regex_match(p, s) {
            seq!["Field '"@ + field@ + "' doesn't match pattern: "@ + p]
        } else {
            Seq::<Seq<char>>::empty()
        },
        _ => Seq::<Seq<char>>::empty(),
    });
    let ghost before_pattern = errors_view(errors@);
    match (v, crate::json::fields_get_str(c, "pattern")) {
        (Json::Str(s), Some(p)) => {
            match match_pattern(p.as_str(), s.as_str()) {
                Some(matched) => {
                    if !matched {
                        let mut msg = String::from_str("Field '");
                        msg.append(field);
                        msg.append("' doesn't match pattern: ");
                        msg.append(p.as_str());
                        errors.push(msg);
                    }
                },
                None => {},
            }
        },
        (other, _) => {
            proof {
                crate::json::lemma_view_variant(*other);
            }
        },
    }
    assert(errors_view(errors@) =~= before_pattern + pattern_errs);
    proof {
        assert(errors_view(errors@) =~= min_errs + max_errs + minlen_errs + maxlen_errs
            + pattern_errs);
    }
    errors
}

} // verus!
