//! The transform handler: an ordered pipeline of field rewrites applied to
//! object payloads.  Unknown operation types are skipped; non-object data
//! passes through untouched.

use base64::Engine;
use crate::config::BuiltInConfig;
use crate::json::{
    fields_remove, fields_set, fields_view, json_view, lemma_obj_view, obj_lookup, obj_remove,
    obj_set, Json, JsonV,
};
use crate::strutil::{lower_of, to_lowercase, to_uppercase, upper_of};
use crate::types::ExecutionResult;
use vstd::prelude::*;

verus! {

broadcast use vstd::std_specs::vec::group_vec_axioms, vstd::seq::group_seq_axioms;

/// What the standard base64 alphabet encodes a string's bytes to:
/// a function of the characters alone.
pub uninterp spec fn base64_of(s: Seq<char>) -> Seq<char>;

/// What standard base64 decoding followed by a UTF-8 read yields:
/// `None` where the text is not valid base64 or the bytes are not UTF-8.
pub uninterp spec fn base64_text_of(s: Seq<char>) -> Option<Seq<char>>;

/// Relies on `base64::engine::general_purpose::STANDARD.encode`: the
/// result depends on the input bytes alone.
#[verifier::external_body]
fn base64_encode_str(s: &str) -> (r: String)
    ensures
        r@ == base64_of(s@),
{
    base64::engine::general_purpose::STANDARD.encode(s)
}

/// Relies on `base64::engine::general_purpose::STANDARD.decode` and
/// `String::from_utf8`: the decoded text where the input is valid base64
/// holding UTF-8 bytes, and `None` otherwise.
#[verifier::external_body]
fn base64_decode_text(s: &str) -> (r: Option<String>)
    ensures
        r is Some <==> base64_text_of(s@) is Some,
        r matches Some(t) ==> base64_text_of(s@) == Some(t@),
{
    match base64::engine::general_purpose::STANDARD.decode(s) {
        Ok(bytes) => String::from_utf8(bytes).ok(),
        Err(_) => None,
    }
}

/// The replacement text `redact` uses when none is configured.
pub open spec fn default_redaction() -> Seq<char> {
    "***REDACTED***"@
}

/// Object fields after a shallow merge: every source field is set over the
/// target, source winning.
pub open spec fn merge_fields(
    target: Seq<(Seq<char>, JsonV)>,
    source: Seq<(Seq<char>, JsonV)>,
) -> Seq<(Seq<char>, JsonV)>
    decreases source.len(),
{
    if source.len() == 0 {
        target
    } else {
        merge_fields(obj_set(target, source[0].0, source[0].1), source.skip(1))
    }
}

/// One pipeline operation applied to the data.  `op` is the operation's
/// configuration object; data that is not an object passes through, as
/// does any operation whose configuration does not fit it.
pub open spec fn apply_op(op: JsonV, data: JsonV) -> JsonV {
    match (op, data) {
        (JsonV::Obj(opf), JsonV::Obj(fields)) => {
            match obj_lookup(opf, "type"@) {
                Some(JsonV::Str(ty)) => apply_typed_op(ty, opf, fields),
                _ => data,
            }
        },
        _ => data,
    }
}

/// The operation named `ty` applied to an object's fields.
pub open spec fn apply_typed_op(
    ty: Seq<char>,
    opf: Seq<(Seq<char>, JsonV)>,
    fields: Seq<(Seq<char>, JsonV)>,
) -> JsonV {
    if ty == "rename_field"@ {
        match (obj_lookup(opf, "from"@), obj_lookup(opf, "to"@)) {
            (Some(JsonV::Str(from)), Some(JsonV::Str(to))) => match obj_lookup(fields, from) {
                Some(v) => JsonV::Obj(obj_set(obj_remove(fields, from), to, v)),
                None => JsonV::Obj(fields),
            },
            _ => JsonV::Obj(fields),
        }
    } else if ty == "remove_field"@ {
        match obj_lookup(opf, "field"@) {
            Some(JsonV::Str(f)) => JsonV::Obj(obj_remove(fields, f)),
            _ => JsonV::Obj(fields),
        }
    } else if ty == "add_field"@ {
        match (obj_lookup(opf, "field"@), obj_lookup(opf, "value"@)) {
            (Some(JsonV::Str(f)), Some(v)) => JsonV::Obj(obj_set(fields, f, v)),
            _ => JsonV::Obj(fields),
        }
    } else if ty == "base64_encode"@ {
        match obj_lookup(opf, "field"@) {
            Some(JsonV::Str(f)) => match obj_lookup(fields, f) {
                Some(JsonV::Str(s)) => JsonV::Obj(obj_set(fields, f, JsonV::Str(base64_of(s)))),
                _ => JsonV::Obj(fields),
            },
            _ => JsonV::Obj(fields),
        }
    } else if ty == "base64_decode"@ {
        match obj_lookup(opf, "field"@) {
            Some(JsonV::Str(f)) => match obj_lookup(fields, f) {
                Some(JsonV::Str(s)) => match base64_text_of(s) {
                    Some(t) => JsonV::Obj(obj_set(fields, f, JsonV::Str(t))),
                    None => JsonV::Obj(fields),
                },
                _ => JsonV::Obj(fields),
            },
            _ => JsonV::Obj(fields),
        }
    } else if ty == "lowercase"@ {
        match obj_lookup(opf, "field"@) {
            Some(JsonV::Str(f)) => match obj_lookup(fields, f) {
                Some(JsonV::Str(s)) => JsonV::Obj(obj_set(fields, f, JsonV::Str(lower_of(s)))),
                _ => JsonV::Obj(fields),
            },
            _ => JsonV::Obj(fields),
        }
    } else if ty == "uppercase"@ {
        match obj_lookup(opf, "field"@) {
            Some(JsonV::Str(f)) => match obj_lookup(fields, f) {
                Some(JsonV::Str(s)) => JsonV::Obj(obj_set(fields, f, JsonV::Str(upper_of(s)))),
                _ => JsonV::Obj(fields),
            },
            _ => JsonV::Obj(fields),
        }
    } else if ty == "truncate"@ {
        match (obj_lookup(opf, "field"@), obj_lookup(opf, "length"@)) {
            (Some(JsonV::Str(f)), Some(JsonV::Num(len))) => match obj_lookup(fields, f) {
                Some(JsonV::Str(s)) => if 0 <= len < s.len() {
                    JsonV::Obj(obj_set(fields, f, JsonV::Str(s.take(len))))
                } else {
                    JsonV::Obj(fields)
                },
                _ => JsonV::Obj(fields),
            },
            _ => JsonV::Obj(fields),
        }
    } else if ty == "redact"@ {
        match obj_lookup(opf, "field"@) {
            Some(JsonV::Str(f)) => {
                let replacement = match obj_lookup(opf, "replacement"@) {
                    Some(JsonV::Str(r)) => r,
                    _ => default_redaction(),
                };
                match obj_lookup(fields, f) {
                    Some(_) => JsonV::Obj(obj_set(fields, f, JsonV::Str(replacement))),
                    None => JsonV::Obj(fields),
                }
            },
            _ => JsonV::Obj(fields),
        }
    } else if ty == "merge"@ {
        match obj_lookup(opf, "data"@) {
            Some(JsonV::Obj(src)) => JsonV::Obj(merge_fields(fields, src)),
            _ => JsonV::Obj(fields),
        }
    } else {
        JsonV::Obj(fields)
    }
}

/// The whole pipeline applied in order.
pub open spec fn apply_transforms(ops: Seq<JsonV>, data: JsonV) -> JsonV
    decreases ops.len(),
{
    if ops.len() == 0 {
        data
    } else {
        apply_transforms(ops.skip(1), apply_op(ops[0], data))
    }
}

/// The pipeline a configuration describes: the `transforms` array, or
/// nothing where the key is missing or not an array.
pub open spec fn config_transforms(config: Seq<(Seq<char>, JsonV)>) -> Seq<JsonV> {
    match obj_lookup(config, "transforms"@) {
        Some(JsonV::Arr(ops)) => ops,
        _ => Seq::empty(),
    }
}

/// What one invocation of a transform handler returns: the data with the
/// configured pipeline applied, as a `Replace`.
pub open spec fn transform_outcome(config: Seq<(Seq<char>, JsonV)>, data: JsonV) -> JsonV {
    apply_transforms(config_transforms(config), data)
}

/// The built-in transform handler.
#[derive(Debug)]
pub struct TransformHandler {
    name: String,
    config: BuiltInConfig,
}

impl TransformHandler {
    /// The handler's name.
    pub closed spec fn spec_name(&self) -> Seq<char> {
        self.name@
    }

    /// The handler's configuration map.
    pub closed spec fn config_map(&self) -> Seq<(Seq<char>, JsonV)> {
        fields_view(self.config.config@)
    }

    /// A transform handler with the given pipeline configuration.
    pub fn new(name: String, config: BuiltInConfig) -> (r: Self)
        ensures
            r.spec_name() == name@,
            r.config_map() == fields_view(config.config@),
    {
        TransformHandler { name, config }
    }

    /// The handler's name.
    pub fn name(&self) -> (r: &str)
        ensures
            r@ == self.spec_name(),
    {
        self.name.as_str()
    }

    /// Apply the configured pipeline to `data`.
    pub fn transform(&self, data: Json) -> (r: Json)
        ensures
            r@ == transform_outcome(self.config_map(), data@),
    {
        let ops = match crate::json::fields_get(&self.config.config, "transforms") {
            Some(v) => match v {
                Json::Arr(items) => {
                    proof {
                        crate::json::lemma_arr_view(*v);
                    }
                    Some(items)
                },
                other => {
                    proof {
                        crate::json::lemma_view_variant(*other);
                    }
                    None
                },
            },
            None => None,
        };
        match ops {
            Some(items) => {
                let ghost gops = config_transforms(self.config_map());
                assert(gops.skip(0) =~= gops);
                let n = items.len();
                let mut current = data;
                for i in 0..n
                    invariant
                        n == items@.len(),
                        gops == crate::json::elems_view(items@),
                        apply_transforms(gops, data@) == apply_transforms(
                            gops.skip(i as int),
                            current@,
                        ),
                {
                    assert(gops.skip(i as int)[0] == gops[i as int]);
                    assert(gops.skip(i as int).skip(1) =~= gops.skip(i as int + 1));
                    current = apply_one(&items[i], current);
                }
                assert(apply_transforms(gops.skip(n as int), current@) == current@);
                current
            },
            None => {
                assert(config_transforms(self.config_map()) =~= Seq::<JsonV>::empty());
                data
            },
        }
    }

    /// One invocation: the transformed data, as a `Replace`.
    pub fn execute(&self, data: &Json) -> (r: ExecutionResult)
        ensures
            r@ == crate::types::ResultV::Replace(transform_outcome(self.config_map(), data@)),
    {
        ExecutionResult::Replace(self.transform(data.clone()))
    }
}

/// Apply one operation to the data.
fn apply_one(op: &Json, data: Json) -> (r: Json)
    ensures
        r@ == apply_op(op@, data@),
{
    let ghost gdata = data;
    let op_fields = match op {
        Json::Obj(f) => f,
        _ => {
            proof {
                crate::json::lemma_view_variant(*op);
            }
            return data;
        },
    };
    proof {
        lemma_obj_view(*op);
    }
    let data_fields = match data {
        Json::Obj(f) => f,
        other => {
            proof {
                crate::json::lemma_view_variant(other);
            }
            return other;
        },
    };
    proof {
        lemma_obj_view(gdata);
    }
    match crate::json::fields_get_str(op_fields, "type") {
        Some(t) => {
            let ty = t.clone();
            apply_typed(ty.as_str(), op_fields, data_fields)
        },
        None => crate::json::make_obj(data_fields),
    }
}

/// Apply the operation named `ty` to an object's fields.
fn apply_typed(ty: &str, opf: &Vec<(String, Json)>, fields: Vec<(String, Json)>) -> (r: Json)
    ensures
        r@ == apply_typed_op(ty@, fields_view(opf@), fields_view(fields@)),
{
    let ghost gopf = fields_view(opf@);
    let ghost gfields = fields_view(fields@);
    if crate::strutil::str_eq(ty, "rename_field") {
        let from = match crate::json::fields_get_str(opf, "from") {
            Some(s) => s.clone(),
            None => {
                return crate::json::make_obj(fields);
            },
        };
        let to = match crate::json::fields_get_str(opf, "to") {
            Some(s) => s.clone(),
            None => {
                return crate::json::make_obj(fields);
            },
        };
        let value = match crate::json::fields_get(&fields, from.as_str()) {
            Some(v) => v.clone(),
            None => {
                return crate::json::make_obj(fields);
            },
        };
        let removed = fields_remove(fields, from.as_str());
        let set = fields_set(removed, to, value);
        crate::json::make_obj(set)
    } else if crate::strutil::str_eq(ty, "remove_field") {
        let field = match crate::json::fields_get_str(opf, "field") {
            Some(s) => s.clone(),
            None => {
                return crate::json::make_obj(fields);
            },
        };
        crate::json::make_obj(fields_remove(fields, field.as_str()))
    } else if crate::strutil::str_eq(ty, "add_field") {
        let field = match crate::json::fields_get_str(opf, "field") {
            Some(s) => s.clone(),
            None => {
                return crate::json::make_obj(fields);
            },
        };
        let value = match crate::json::fields_get(opf, "value") {
            Some(v) => v.clone(),
            None => {
                return crate::json::make_obj(fields);
            },
        };
        crate::json::make_obj(fields_set(fields, field, value))
    } else if crate::strutil::str_eq(ty, "base64_encode") {
        let field = match crate::json::fields_get_str(opf, "field") {
            Some(s) => s.clone(),
            None => {
                return crate::json::make_obj(fields);
            },
        };
        let value = match crate::json::fields_get_str(&fields, field.as_str()) {
            Some(s) => s.clone(),
            None => {
                return crate::json::make_obj(fields);
            },
        };
        let encoded = base64_encode_str(value.as_str());
        crate::json::make_obj(fields_set(fields, field, Json::Str(encoded)))
    } else if crate::strutil::str_eq(ty, "base64_decode") {
        let field = match crate::json::fields_get_str(opf, "field") {
            Some(s) => s.clone(),
            None => {
                return crate::json::make_obj(fields);
            },
        };
        let value = match crate::json::fields_get_str(&fields, field.as_str()) {
            Some(s) => s.clone(),
            None => {
                return crate::json::make_obj(fields);
            },
        };
        match base64_decode_text(value.as_str()) {
            Some(text) => crate::json::make_obj(fields_set(fields, field, Json::Str(text))),
            None => crate::json::make_obj(fields),
        }
    } else if crate::strutil::str_eq(ty, "lowercase") {
        let field = match crate::json::fields_get_str(opf, "field") {
            Some(s) => s.clone(),
            None => {
                return crate::json::make_obj(fields);
            },
        };
        let value = match crate::json::fields_get_str(&fields, field.as_str()) {
            Some(s) => s.clone(),
            None => {
                return crate::json::make_obj(fields);
            },
        };
        let lowered = to_lowercase(value.as_str());
        crate::json::make_obj(fields_set(fields, field, Json::Str(lowered)))
    } else if crate::strutil::str_eq(ty, "uppercase") {
        let field = match crate::json::fields_get_str(opf, "field") {
            Some(s) => s.clone(),
            None => {
                return crate::json::make_obj(fields);
            },
        };
        let value = match crate::json::fields_get_str(&fields, field.as_str()) {
            Some(s) => s.clone(),
            None => {
                return crate::json::make_obj(fields);
            },
        };
        let raised = to_uppercase(value.as_str());
        crate::json::make_obj(fields_set(fields, field, Json::Str(raised)))
    } else if crate::strutil::str_eq(ty, "truncate") {
        let field = match crate::json::fields_get_str(opf, "field") {
            Some(s) => s.clone(),
            None => {
                return crate::json::make_obj(fields);
            },
        };
        let len = match crate::json::fields_get_num(opf, "length") {
            Some(n) => n,
            None => {
                return crate::json::make_obj(fields);
            },
        };
        let value = match crate::json::fields_get_str(&fields, field.as_str()) {
            Some(s) => s.clone(),
            None => {
                return crate::json::make_obj(fields);
            },
        };
        let chars = value.as_str().unicode_len();
        if 0 <= len && (len as u64) < (chars as u64) {
            let prefix = value.as_str().substring_char(0, len as usize);
            assert(prefix@ =~= value@.take(len as int));
            crate::json::make_obj(fields_set(fields, field, Json::Str(String::from_str(prefix))))
        } else {
            crate::json::make_obj(fields)
        }
    } else if crate::strutil::str_eq(ty, "redact") {
        let field = match crate::json::fields_get_str(opf, "field") {
            Some(s) => s.clone(),
            None => {
                return crate::json::make_obj(fields);
            },
        };
        let replacement = match crate::json::fields_get_str(opf, "replacement") {
            Some(s) => s.clone(),
            None => String::from_str("***REDACTED***"),
        };
        match crate::json::fields_get(&fields, field.as_str()) {
            Some(_) => crate::json::make_obj(fields_set(fields, field, Json::Str(replacement))),
            None => crate::json::make_obj(fields),
        }
    } else if crate::strutil::str_eq(ty, "merge") {
        let src = match crate::json::fields_get(opf, "data") {
            Some(v) => match v {
                Json::Obj(srcf) => {
                    proof {
                        lemma_obj_view(*v);
                    }
                    srcf
                },
                other => {
                    proof {
                        crate::json::lemma_view_variant(*other);
                    }
                    return crate::json::make_obj(fields);
                },
            },
            None => {
                return crate::json::make_obj(fields);
            },
        };
        let ghost gsrc = fields_view(src@);
        assert(gsrc.skip(0) =~= gsrc);
        let n = src.len();
        let mut acc = fields;
        for i in 0..n
            invariant
                n == src@.len(),
                gsrc == fields_view(src@),
                merge_fields(gfields, gsrc) == merge_fields(
                    fields_view(acc@),
                    gsrc.skip(i as int),
                ),
        {
            assert(gsrc.skip(i as int)[0] == gsrc[i as int]);
            assert(gsrc.skip(i as int).skip(1) =~= gsrc.skip(i as int + 1));
            let pair = &src[i];
            acc = fields_set(acc, pair.0.clone(), pair.1.clone());
        }
        assert(merge_fields(fields_view(acc@), gsrc.skip(n as int)) == fields_view(acc@));
        crate::json::make_obj(acc)
    } else {
        crate::json::make_obj(fields)
    }
}

} // verus!
