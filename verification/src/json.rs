//! The JSON tree that payloads, handler configuration and handler results
//! are made of.
//!
//! Dispatch never imposes a schema on the data it carries, so the engine
//! keeps payloads as a tree of plain values.  Numbers are 64-bit signed
//! integers.  Objects keep their fields in insertion order; setting an
//! existing field updates it in place.

use crate::strutil::{dec_digits_signed, i64_to_string, push_char, str_eq};
use vstd::prelude::*;

verus! {

broadcast use vstd::std_specs::vec::group_vec_axioms, vstd::seq::group_seq_axioms;

/// The mathematical model of a JSON tree: what a [`Json`] value denotes.
pub ghost enum JsonV {
    Null,
    Bool(bool),
    Num(int),
    Str(Seq<char>),
    Arr(Seq<JsonV>),
    Obj(Seq<(Seq<char>, JsonV)>),
}

/// A JSON value as the engine stores and hands it around.
#[derive(Debug)]
pub enum Json {
    Null,
    Bool(bool),
    Num(i64),
    Str(String),
    Arr(Vec<Json>),
    Obj(Vec<(String, Json)>),
}

/// What a [`Json`] value denotes.
pub open spec fn json_view(j: Json) -> JsonV
    decreases j,
{
    match j {
        Json::Null => JsonV::Null,
        Json::Bool(b) => JsonV::Bool(b),
        Json::Num(n) => JsonV::Num(n as int),
        Json::Str(s) => JsonV::Str(s@),
        Json::Arr(v) => JsonV::Arr(
            Seq::new(
                v@.len(),
                |i: int|
                    if 0 <= i < v@.len() {
                        json_view(v@[i])
                    } else {
                        JsonV::Null
                    },
            ),
        ),
        Json::Obj(v) => JsonV::Obj(
            Seq::new(
                v@.len(),
                |i: int|
                    if 0 <= i < v@.len() {
                        (v@[i].0@, json_view(v@[i].1))
                    } else {
                        (Seq::empty(), JsonV::Null)
                    },
            ),
        ),
    }
}

impl View for Json {
    type V = JsonV;

    open spec fn view(&self) -> JsonV {
        json_view(*self)
    }
}

/// The model of an object's field vector.
pub open spec fn fields_view(v: Seq<(String, Json)>) -> Seq<(Seq<char>, JsonV)> {
    Seq::new(v.len(), |i: int| (v[i].0@, v[i].1@))
}

/// The model of an array's element vector.
pub open spec fn elems_view(v: Seq<Json>) -> Seq<JsonV> {
    Seq::new(v.len(), |i: int| v[i]@)
}

/// An object value denotes its field vector's model.
pub proof fn lemma_obj_view(j: Json)
    requires
        j is Obj,
    ensures
        j@ == JsonV::Obj(fields_view(j->Obj_0@)),
{
    let v = j->Obj_0;
    assert(j@->Obj_0 =~= fields_view(v@));
}

/// An array value denotes its element vector's model.
pub proof fn lemma_arr_view(j: Json)
    requires
        j is Arr,
    ensures
        j@ == JsonV::Arr(elems_view(j->Arr_0@)),
{
    let v = j->Arr_0;
    assert(j@->Arr_0 =~= elems_view(v@));
}

/// The value of field `key` in an object's field list, or `None` where no
/// field carries that name.  The first occurrence decides (field names are
/// unique in every object the engine builds).
pub open spec fn obj_lookup(fields: Seq<(Seq<char>, JsonV)>, key: Seq<char>) -> Option<JsonV>
    decreases fields.len(),
{
    if fields.len() == 0 {
        None
    } else if fields[0].0 == key {
        Some(fields[0].1)
    } else {
        obj_lookup(fields.skip(1), key)
    }
}

/// The field list after setting `key` to `value`: an existing field is
/// updated in place, a new one is appended.
pub open spec fn obj_set(fields: Seq<(Seq<char>, JsonV)>, key: Seq<char>, value: JsonV) -> Seq<
    (Seq<char>, JsonV),
>
    decreases fields.len(),
{
    if fields.len() == 0 {
        seq![(key, value)]
    } else if fields[0].0 == key {
        seq![(key, value)] + fields.skip(1)
    } else {
        seq![fields[0]] + obj_set(fields.skip(1), key, value)
    }
}

/// The field list with every field named `key` removed.
pub open spec fn obj_remove(fields: Seq<(Seq<char>, JsonV)>, key: Seq<char>) -> Seq<
    (Seq<char>, JsonV),
>
    decreases fields.len(),
{
    if fields.len() == 0 {
        Seq::empty()
    } else if fields[0].0 == key {
        obj_remove(fields.skip(1), key)
    } else {
        seq![fields[0]] + obj_remove(fields.skip(1), key)
    }
}

impl Json {
    /// Whether this value is an object.
    pub fn is_object(&self) -> (r: bool)
        ensures
            r == (self@ is Obj),
    {
        match self {
            Json::Obj(_) => true,
            _ => false,
        }
    }

    /// The field named `key`, where this value is an object that has one.
    pub fn get<'a>(&'a self, key: &str) -> (r: Option<&'a Json>)
        ensures
            match self@ {
                JsonV::Obj(fields) => match r {
                    Some(v) => obj_lookup(fields, key@) == Some(v@),
                    None => obj_lookup(fields, key@) is None,
                },
                _ => r is None,
            },
    {
        match self {
            Json::Obj(fields) => {
                proof {
                    lemma_obj_view(*self);
                }
                match fields_get(fields, key) {
                    Some(v) => Some(v),
                    None => None,
                }
            },
            _ => None,
        }
    }
}

/// The field named `key` in a field vector, where one carries that name.
pub fn fields_get<'a>(fields: &'a Vec<(String, Json)>, key: &str) -> (r: Option<&'a Json>)
    ensures
        match r {
            Some(v) => obj_lookup(fields_view(fields@), key@) == Some(v@),
            None => obj_lookup(fields_view(fields@), key@) is None,
        },
{
    let ghost gfields = fields_view(fields@);
    assert(gfields.skip(0) =~= gfields);
    let n = fields.len();
    for i in 0..n
        invariant
            n == fields@.len(),
            gfields == fields_view(fields@),
            obj_lookup(gfields, key@) == obj_lookup(gfields.skip(i as int), key@),
    {
        assert(gfields.skip(i as int)[0] == gfields[i as int]);
        assert(gfields.skip(i as int).skip(1) =~= gfields.skip(i as int + 1));
        if crate::strutil::str_eq(fields[i].0.as_str(), key) {
            return Some(&fields[i].1);
        }
    }
    assert(gfields.skip(n as int) =~= Seq::<(Seq<char>, JsonV)>::empty());
    None
}

/// The string value of field `key`, where the object has one.
pub fn fields_get_str<'a>(fields: &'a Vec<(String, Json)>, key: &str) -> (r: Option<&'a String>)
    ensures
        match r {
            Some(s) => obj_lookup(fields_view(fields@), key@) == Some(JsonV::Str(s@)),
            None => !(obj_lookup(fields_view(fields@), key@) matches Some(JsonV::Str(_))),
        },
{
    match fields_get(fields, key) {
        Some(v) => match v {
            Json::Str(s) => Some(s),
            other => {
                proof {
                    lemma_view_variant(*other);
                }
                None
            },
        },
        None => None,
    }
}

/// The numeric value of field `key`, where the object has one.
pub fn fields_get_num(fields: &Vec<(String, Json)>, key: &str) -> (r: Option<i64>)
    ensures
        match r {
            Some(n) => obj_lookup(fields_view(fields@), key@) == Some(JsonV::Num(n as int)),
            None => !(obj_lookup(fields_view(fields@), key@) matches Some(JsonV::Num(_))),
        },
{
    match fields_get(fields, key) {
        Some(v) => match v {
            Json::Num(n) => Some(*n),
            other => {
                proof {
                    lemma_view_variant(*other);
                }
                None
            },
        },
        None => None,
    }
}

/// The boolean value of field `key`, where the object has one.
pub fn fields_get_bool(fields: &Vec<(String, Json)>, key: &str) -> (r: Option<bool>)
    ensures
        match r {
            Some(b) => obj_lookup(fields_view(fields@), key@) == Some(JsonV::Bool(b)),
            None => !(obj_lookup(fields_view(fields@), key@) matches Some(JsonV::Bool(_))),
        },
{
    match fields_get(fields, key) {
        Some(v) => match v {
            Json::Bool(b) => Some(*b),
            other => {
                proof {
                    lemma_view_variant(*other);
                }
                None
            },
        },
        None => None,
    }
}

/// The field vector after setting `key` to `value`.
pub fn fields_set(fields: Vec<(String, Json)>, key: String, value: Json) -> (r: Vec<
    (String, Json),
>)
    ensures
        fields_view(r@) == obj_set(fields_view(fields@), key@, value@),
{
    let ghost gfields = fields_view(fields@);
    let ghost gkey = key@;
    let ghost gval = value@;
    let mut out: Vec<(String, Json)> = Vec::new();
    let mut rest = fields;
    let mut placed = false;
    assert(gfields.skip(0) =~= gfields);
    loop
        invariant_except_break
            gkey == key@,
            gval == value@,
            fields_view(rest@) == gfields.skip(gfields.len() - rest@.len()),
            rest@.len() <= gfields.len(),
            !placed ==> obj_set(gfields, gkey, gval) == fields_view(out@) + obj_set(
                fields_view(rest@),
                gkey,
                gval,
            ),
            placed ==> obj_set(gfields, gkey, gval) == fields_view(out@) + fields_view(rest@),
        ensures
            placed ==> obj_set(gfields, gkey, gval) == fields_view(out@) + fields_view(rest@),
            !placed ==> rest@.len() == 0 && obj_set(gfields, gkey, gval) == fields_view(out@)
                + obj_set(Seq::empty(), gkey, gval),
        decreases rest@.len(),
    {
        if rest.len() == 0 {
            assert(fields_view(rest@) =~= Seq::<(Seq<char>, JsonV)>::empty());
            break;
        }
        let ghost grest = fields_view(rest@);
        assert(grest[0] == (rest@[0].0@, rest@[0].1@));
        let head = rest.remove(0);
        assert(fields_view(rest@) =~= grest.skip(1));
        if !placed && crate::strutil::str_eq(head.0.as_str(), key.as_str()) {
            let ghost gout = fields_view(out@);
            out.push((key.clone(), value.clone()));
            assert(fields_view(out@) =~= gout + seq![(gkey, gval)]);
            assert(obj_set(grest, gkey, gval) == seq![(gkey, gval)] + grest.skip(1));
            assert(gout + obj_set(grest, gkey, gval) =~= fields_view(out@) + grest.skip(1));
            placed = true;
        } else {
            let ghost gout = fields_view(out@);
            let ghost ghead = (head.0@, head.1@);
            out.push(head);
            assert(fields_view(out@) =~= gout + seq![ghead]);
            if !placed {
                assert(obj_set(grest, gkey, gval) == seq![ghead] + obj_set(
                    grest.skip(1),
                    gkey,
                    gval,
                ));
                assert(gout + obj_set(grest, gkey, gval) =~= fields_view(out@) + obj_set(
                    grest.skip(1),
                    gkey,
                    gval,
                ));
            } else {
                assert(grest =~= seq![ghead] + grest.skip(1));
                assert(gout + grest =~= fields_view(out@) + grest.skip(1));
            }
        }
    }
    if !placed {
        let ghost gout = fields_view(out@);
        out.push((key, value));
        assert(fields_view(out@) =~= gout + seq![(gkey, gval)]);
        assert(obj_set(Seq::empty(), gkey, gval) == seq![(gkey, gval)]);
    } else {
        loop
            invariant_except_break
                obj_set(gfields, gkey, gval) == fields_view(out@) + fields_view(rest@),
            ensures
                obj_set(gfields, gkey, gval) == fields_view(out@),
            decreases rest@.len(),
        {
            if rest.len() == 0 {
                assert(fields_view(rest@) =~= Seq::<(Seq<char>, JsonV)>::empty());
                assert(fields_view(out@) + fields_view(rest@) =~= fields_view(out@));
                break;
            }
            let ghost gout = fields_view(out@);
            let ghost grest = fields_view(rest@);
            assert(grest[0] == (rest@[0].0@, rest@[0].1@));
            let head = rest.remove(0);
            assert(fields_view(rest@) =~= grest.skip(1));
            out.push(head);
            assert(fields_view(out@) =~= gout + seq![grest[0]]);
            assert(gout + grest =~= fields_view(out@) + grest.skip(1));
        }
    }
    out
}

/// The field vector with every field named `key` removed.
pub fn fields_remove(fields: Vec<(String, Json)>, key: &str) -> (r: Vec<(String, Json)>)
    ensures
        fields_view(r@) == obj_remove(fields_view(fields@), key@),
{
    let ghost gfields = fields_view(fields@);
    let mut out: Vec<(String, Json)> = Vec::new();
    let mut rest = fields;
    loop
        invariant_except_break
            obj_remove(gfields, key@) == fields_view(out@) + obj_remove(fields_view(rest@), key@),
        ensures
            obj_remove(gfields, key@) == fields_view(out@),
        decreases rest@.len(),
    {
        if rest.len() == 0 {
            assert(fields_view(rest@) =~= Seq::<(Seq<char>, JsonV)>::empty());
            assert(fields_view(out@) + obj_remove(fields_view(rest@), key@) =~= fields_view(out@));
            break;
        }
        let ghost gout = fields_view(out@);
        let ghost grest = fields_view(rest@);
        assert(grest[0] == (rest@[0].0@, rest@[0].1@));
        let head = rest.remove(0);
        assert(fields_view(rest@) =~= grest.skip(1));
        if crate::strutil::str_eq(head.0.as_str(), key) {
            assert(obj_remove(grest, key@) == obj_remove(grest.skip(1), key@));
        } else {
            let ghost ghead = (head.0@, head.1@);
            out.push(head);
            assert(fields_view(out@) =~= gout + seq![ghead]);
            assert(obj_remove(grest, key@) == seq![ghead] + obj_remove(grest.skip(1), key@));
            assert(gout + obj_remove(grest, key@) =~= fields_view(out@) + obj_remove(
                grest.skip(1),
                key@,
            ));
        }
    }
    out
}

/// Deep-copy elements `i..` of an array onto `out`.
fn clone_elems(v: &Vec<Json>, i: usize, out: Vec<Json>) -> (r: Vec<Json>)
    requires
        i <= v@.len(),
        out@.len() == i,
        forall|k: int| 0 <= k < i ==> out@[k]@ == v@[k]@,
    ensures
        r@.len() == v@.len(),
        forall|k: int| 0 <= k < v@.len() ==> r@[k]@ == v@[k]@,
    decreases v, v@.len() - i + 1,
{
    if i == v.len() {
        out
    } else {
        let mut out = out;
        out.push(v[i].clone());
        clone_elems(v, i + 1, out)
    }
}

/// Deep-copy fields `i..` of an object onto `out`.
fn clone_fields(v: &Vec<(String, Json)>, i: usize, out: Vec<(String, Json)>) -> (r: Vec<
    (String, Json),
>)
    requires
        i <= v@.len(),
        out@.len() == i,
        forall|k: int| 0 <= k < i ==> out@[k].0@ == v@[k].0@ && out@[k].1@ == v@[k].1@,
    ensures
        r@.len() == v@.len(),
        forall|k: int| 0 <= k < v@.len() ==> r@[k].0@ == v@[k].0@ && r@[k].1@ == v@[k].1@,
    decreases v, v@.len() - i + 1,
{
    if i == v.len() {
        out
    } else {
        let mut out = out;
        let pair = &v[i];
        out.push((pair.0.clone(), pair.1.clone()));
        clone_fields(v, i + 1, out)
    }
}

/// An object value from a field vector.
pub fn make_obj(fields: Vec<(String, Json)>) -> (r: Json)
    ensures
        r@ == JsonV::Obj(fields_view(fields@)),
{
    let r = Json::Obj(fields);
    proof {
        lemma_obj_view(r);
    }
    r
}

/// An array value from an element vector.
pub fn make_arr(elems: Vec<Json>) -> (r: Json)
    ensures
        r@ == JsonV::Arr(elems_view(elems@)),
{
    let r = Json::Arr(elems);
    proof {
        lemma_arr_view(r);
    }
    r
}


/// The length of a pointer segment: the characters before the next `/`.
pub open spec fn seg_end(s: Seq<char>) -> int
    decreases s.len(),
{
    if s.len() == 0 {
        0
    } else if s[0] == '/' {
        0
    } else {
        1 + seg_end(s.skip(1))
    }
}

/// A segment never reaches past its string.
pub proof fn lemma_seg_end_bounds(s: Seq<char>)
    ensures
        0 <= seg_end(s) <= s.len(),
    decreases s.len(),
{
    if s.len() > 0 && s[0] != '/' {
        lemma_seg_end_bounds(s.skip(1));
    }
}

/// A pointer segment with its escapes resolved: `~1` reads as `/` and
/// `~0` as `~`.
pub open spec fn unescaped(s: Seq<char>) -> Seq<char>
    decreases s.len(),
{
    if s.len() == 0 {
        Seq::empty()
    } else if s.len() >= 2 && s[0] == '~' && s[1] == '1' {
        seq!['/'] + unescaped(s.skip(2))
    } else if s.len() >= 2 && s[0] == '~' && s[1] == '0' {
        seq!['~'] + unescaped(s.skip(2))
    } else {
        seq![s[0]] + unescaped(s.skip(1))
    }
}

/// The number a digit string denotes, most significant digit first.
pub open spec fn digits_value(s: Seq<char>) -> int
    decreases s.len(),
{
    if s.len() == 0 {
        0
    } else {
        digits_value(s.take(s.len() - 1)) * 10 + (s.last() as int - 48)
    }
}

/// An array index per the pointer grammar: decimal digits without a
/// leading zero.
pub open spec fn parse_index(s: Seq<char>) -> Option<int> {
    if s.len() == 0 {
        None
    } else if s.len() > 1 && s[0] == '0' {
        None
    } else if forall|k: int| 0 <= k < s.len() ==> '0' <= #[trigger] s[k] <= '9' {
        Some(digits_value(s))
    } else {
        None
    }
}

/// JSON-pointer resolution: an empty pointer is the value itself; each
/// `/`-led segment steps into an object field (after unescaping) or an
/// array element by decimal index.
pub open spec fn pointer_lookup(v: JsonV, path: Seq<char>) -> Option<JsonV>
    decreases path.len(),
    via pointer_lookup_decreases
{
    if path.len() == 0 {
        Some(v)
    } else if path[0] != '/' {
        None
    } else {
        let rest = path.skip(1);
        let n = seg_end(rest);
        let seg = rest.take(n);
        let child = match v {
            JsonV::Obj(fields) => obj_lookup(fields, unescaped(seg)),
            JsonV::Arr(elems) => match parse_index(seg) {
                Some(i) => if 0 <= i < elems.len() {
                    Some(elems[i])
                } else {
                    None
                },
                None => None,
            },
            _ => None,
        };
        match child {
            Some(c) => pointer_lookup(c, rest.skip(n)),
            None => None,
        }
    }
}

#[via_fn]
proof fn pointer_lookup_decreases(v: JsonV, path: Seq<char>) {
    if path.len() > 0 && path[0] == '/' {
        lemma_seg_end_bounds(path.skip(1));
    }
}

/// One pointer segment unescaped, as a fresh string.
fn unescape_segment(s: &str) -> (r: String)
    ensures
        r@ == unescaped(s@),
{
    let ghost gs = s@;
    assert(gs.skip(0) =~= gs);
    let mut out = String::new();
    let n = s.unicode_len();
    let mut i: usize = 0;
    while i < n
        invariant
            n == gs.len(),
            gs == s@,
            i <= n,
            unescaped(gs) == out@ + unescaped(gs.skip(i as int)),
        decreases n - i,
    {
        assert(gs.skip(i as int)[0] == gs[i as int]);
        let c = s.get_char(i);
        let ghost before = out@;
        if c == '~' && i + 1 < n && s.get_char(i + 1) == '1' {
            assert(gs.skip(i as int)[1] == gs[i as int + 1]);
            assert(gs.skip(i as int).skip(2) =~= gs.skip(i as int + 2));
            push_char(&mut out, '/');
            assert(out@ =~= before + seq!['/']);
            assert(before + (seq!['/'] + unescaped(gs.skip(i as int + 2))) =~= out@ + unescaped(
                gs.skip(i as int + 2),
            ));
            i = i + 2;
        } else if c == '~' && i + 1 < n && s.get_char(i + 1) == '0' {
            assert(gs.skip(i as int)[1] == gs[i as int + 1]);
            assert(gs.skip(i as int).skip(2) =~= gs.skip(i as int + 2));
            push_char(&mut out, '~');
            assert(out@ =~= before + seq!['~']);
            assert(before + (seq!['~'] + unescaped(gs.skip(i as int + 2))) =~= out@ + unescaped(
                gs.skip(i as int + 2),
            ));
            i = i + 2;
        } else {
            assert(gs.skip(i as int).len() >= 2 ==> gs.skip(i as int)[1] == gs[i as int + 1]);
            assert(gs.skip(i as int).skip(1) =~= gs.skip(i as int + 1));
            push_char(&mut out, c);
            assert(out@ =~= before + seq![c]);
            assert(before + (seq![c] + unescaped(gs.skip(i as int + 1))) =~= out@ + unescaped(
                gs.skip(i as int + 1),
            ));
            i = i + 1;
        }
    }
    assert(gs.skip(n as int) =~= Seq::<char>::empty());
    assert(out@ + unescaped(gs.skip(n as int)) =~= out@);
    out
}

/// The element a segment indexes in an array, where the segment is a
/// valid in-range decimal index.
fn arr_index_lookup<'a>(elems: &'a Vec<Json>, seg: &str) -> (r: Option<&'a Json>)
    ensures
        match r {
            Some(c) => (match parse_index(seg@) {
                Some(i) => 0 <= i < elems_view(elems@).len() && elems_view(elems@)[parse_index(
                    seg@,
                )->0] == c@,
                None => false,
            }),
            None => (match parse_index(seg@) {
                Some(i) => !(0 <= i < elems_view(elems@).len()),
                None => true,
            }),
        },
{
    let ghost gs = seg@;
    let elem_count = elems.len();
    let n = seg.unicode_len();
    if n == 0 {
        return None;
    }
    if n > 1 && seg.get_char(0) == '0' {
        return None;
    }
    let mut value: u128 = 0;
    let mut saturated = false;
    let mut i: usize = 0;
    while i < n
        invariant
            n == gs.len(),
            gs == seg@,
            i <= n,
            forall|k: int| 0 <= k < i ==> '0' <= #[trigger] gs[k] <= '9',
            !saturated ==> value < 0x10000000000000000 && value as int == digits_value(
                gs.take(i as int),
            ),
            saturated ==> digits_value(gs.take(i as int)) >= 0x10000000000000000,
        decreases n - i,
    {
        let c = seg.get_char(i);
        if c < '0' || c > '9' {
            return None;
        }
        let d = (c as u32 - 48) as u128;
        proof {
            assert(gs.take(i as int + 1).take(i as int) =~= gs.take(i as int));
            assert(gs.take(i as int + 1).last() == gs[i as int]);
        }
        if saturated {
            proof {
                assert(digits_value(gs.take(i as int)) * 10 >= digits_value(gs.take(i as int)))
                    by (nonlinear_arith)
                    requires
                        digits_value(gs.take(i as int)) >= 0,
                ;
            }
        } else {
            let next = value * 10 + d;
            if next >= 0x10000000000000000 {
                saturated = true;
            } else {
                value = next;
            }
        }
        i = i + 1;
    }
    assert(gs.take(n as int) =~= gs);
    if saturated {
        proof {
            assert(parse_index(gs) == Some(digits_value(gs)));
            assert(elems_view(elems@).len() == elem_count as int);
            assert(digits_value(gs) >= elems_view(elems@).len());
        }
        return None;
    }
    if value >= elem_count as u128 {
        return None;
    }
    let idx = value as usize;
    Some(&elems[idx])
}

/// The value a JSON pointer addresses in this tree, where it resolves.
pub fn json_pointer<'a>(v: &'a Json, path: &str) -> (r: Option<&'a Json>)
    ensures
        match r {
            Some(c) => pointer_lookup(v@, path@) == Some(c@),
            None => pointer_lookup(v@, path@) is None,
        },
    decreases path@.len(),
{
    let ghost gpath = path@;
    let n = path.unicode_len();
    if n == 0 {
        return Some(v);
    }
    if path.get_char(0) != '/' {
        return None;
    }
    let rest = path.substring_char(1, n);
    let ghost grest = gpath.skip(1);
    assert(rest@ =~= grest);
    let ghost gn = seg_end(grest);
    proof {
        lemma_seg_end_bounds(grest);
    }
    let seg_len = find_seg_end(rest);
    let seg = rest.substring_char(0, seg_len);
    let remainder = rest.substring_char(seg_len, rest.unicode_len());
    assert(seg@ =~= grest.take(gn));
    assert(remainder@ =~= grest.skip(gn));
    let child: Option<&Json> = match v {
        Json::Obj(fields) => {
            proof {
                lemma_obj_view(*v);
            }
            let key = unescape_segment(seg);
            fields_get(fields, key.as_str())
        },
        Json::Arr(elems) => {
            proof {
                lemma_arr_view(*v);
            }
            arr_index_lookup(elems, seg)
        },
        other => {
            proof {
                lemma_view_variant(*other);
            }
            None
        },
    };
    match child {
        Some(c) => json_pointer(c, remainder),
        None => None,
    }
}

/// The first `/` in a segment-led string, or its end.
fn find_seg_end(s: &str) -> (r: usize)
    ensures
        r as int == seg_end(s@),
        r <= s@.len(),
{
    let ghost gs = s@;
    assert(gs.skip(0) =~= gs);
    let n = s.unicode_len();
    let mut i: usize = 0;
    while i < n
        invariant
            n == gs.len(),
            gs == s@,
            i <= n,
            seg_end(gs) == i + seg_end(gs.skip(i as int)),
        decreases n - i,
    {
        assert(gs.skip(i as int)[0] == gs[i as int]);
        assert(gs.skip(i as int).skip(1) =~= gs.skip(i as int + 1));
        if s.get_char(i) == '/' {
            assert(seg_end(gs.skip(i as int)) == 0);
            return i;
        }
        i = i + 1;
    }
    assert(gs.skip(n as int) =~= Seq::<char>::empty());
    n
}

impl Clone for Json {
    /// A deep copy that denotes the same tree.
    fn clone(&self) -> (res: Json)
        ensures
            res@ == self@,
        decreases self, 0int,
    {
        match self {
            Json::Null => Json::Null,
            Json::Bool(b) => Json::Bool(*b),
            Json::Num(n) => Json::Num(*n),
            Json::Str(s) => Json::Str(s.clone()),
            Json::Arr(v) => {
                let out = clone_elems(v, 0, Vec::new());
                let r = Json::Arr(out);
                proof {
                    lemma_arr_view(r);
                    lemma_arr_view(*self);
                    assert(elems_view(r->Arr_0@) =~= elems_view(v@));
                }
                r
            },
            Json::Obj(v) => {
                let out = clone_fields(v, 0, Vec::new());
                let r = Json::Obj(out);
                proof {
                    lemma_obj_view(r);
                    lemma_obj_view(*self);
                    assert(fields_view(r->Obj_0@) =~= fields_view(v@));
                }
                r
            },
        }
    }
}

/// Whether two values denote the same tree.
pub fn json_eq(a: &Json, b: &Json) -> (r: bool)
    ensures
        r == (a@ == b@),
    decreases a, 0int,
{
    match (a, b) {
        (Json::Null, Json::Null) => {
            assert(a@ == b@);
            true
        },
        (Json::Bool(x), Json::Bool(y)) => {
            let r = *x == *y;
            assert(r == (a@ == b@));
            r
        },
        (Json::Num(x), Json::Num(y)) => {
            let r = *x == *y;
            assert(r == (a@ == b@));
            r
        },
        (Json::Str(x), Json::Str(y)) => {
            let r = str_eq(x.as_str(), y.as_str());
            assert(r == (a@ == b@));
            r
        },
        (Json::Arr(x), Json::Arr(y)) => {
            proof {
                assert(*a is Arr);
                assert((*a)->Arr_0 == *x);
                assert(*b is Arr);
                assert((*b)->Arr_0 == *y);
                lemma_arr_view(*a);
                lemma_arr_view(*b);
            }
            if x.len() != y.len() {
                assert(elems_view(x@).len() != elems_view(y@).len());
                assert(a@ != b@);
                return false;
            }
            let r = eq_elems(x, y, 0);
            proof {
                if r {
                    assert(elems_view(x@) =~= elems_view(y@));
                    assert(a@ == b@);
                } else {
                    let k = choose|k: int| 0 <= k < x@.len() && x@[k]@ != y@[k]@;
                    assert(elems_view(x@)[k] != elems_view(y@)[k]);
                    assert(a@ != b@);
                }
            }
            r
        },
        (Json::Obj(x), Json::Obj(y)) => {
            proof {
                lemma_obj_view(*a);
                lemma_obj_view(*b);
            }
            if x.len() != y.len() {
                assert(fields_view(x@).len() != fields_view(y@).len());
                assert(a@ != b@);
                return false;
            }
            let r = eq_fields(x, y, 0);
            proof {
                if r {
                    assert(fields_view(x@) =~= fields_view(y@));
                    assert(a@ == b@);
                } else {
                    let k = choose|k: int|
                        0 <= k < x@.len() && !(x@[k].0@ == y@[k].0@ && x@[k].1@ == y@[k].1@);
                    assert(fields_view(x@)[k] != fields_view(y@)[k]);
                    assert(a@ != b@);
                }
            }
            r
        },
        _ => {
            proof {
                lemma_view_variant(*a);
                lemma_view_variant(*b);
                assert(a@ != b@);
            }
            false
        },
    }
}

/// A value and its model always sit in matching variants.
pub proof fn lemma_view_variant(j: Json)
    ensures
        j is Null <==> j@ is Null,
        j is Bool <==> j@ is Bool,
        j is Num <==> j@ is Num,
        j is Str <==> j@ is Str,
        j is Arr <==> j@ is Arr,
        j is Obj <==> j@ is Obj,
{
}

/// Whether elements `i..` of two equally long arrays denote the same trees.
fn eq_elems(x: &Vec<Json>, y: &Vec<Json>, i: usize) -> (r: bool)
    requires
        i <= x@.len(),
        x@.len() == y@.len(),
    ensures
        r == (forall|k: int| i <= k < x@.len() ==> x@[k]@ == y@[k]@),
    decreases x, x@.len() - i + 1,
{
    if i == x.len() {
        true
    } else {
        if !json_eq(&x[i], &y[i]) {
            false
        } else {
            eq_elems(x, y, i + 1)
        }
    }
}

/// Whether fields `i..` of two equally long objects carry the same names
/// and denote the same trees.
fn eq_fields(x: &Vec<(String, Json)>, y: &Vec<(String, Json)>, i: usize) -> (r: bool)
    requires
        i <= x@.len(),
        x@.len() == y@.len(),
    ensures
        r == (forall|k: int|
            i <= k < x@.len() ==> x@[k].0@ == y@[k].0@ && x@[k].1@ == y@[k].1@),
    decreases x, x@.len() - i + 1,
{
    if i == x.len() {
        true
    } else {
        if !str_eq(x[i].0.as_str(), y[i].0.as_str()) {
            false
        } else if !json_eq(&x[i].1, &y[i].1) {
            false
        } else {
            eq_fields(x, y, i + 1)
        }
    }
}

impl PartialEq for Json {
    fn eq(&self, other: &Json) -> bool {
        json_eq(self, other)
    }
}

impl vstd::std_specs::cmp::PartialEqSpecImpl for Json {
    open spec fn obeys_eq_spec() -> bool {
        true
    }

    open spec fn eq_spec(&self, other: &Json) -> bool {
        self@ == other@
    }
}

/// One character of a string rendered inside JSON quotes.
pub open spec fn escaped_char(c: char) -> Seq<char> {
    if c == '"' {
        seq!['\\', '"']
    } else if c == '\\' {
        seq!['\\', '\\']
    } else if c == '\n' {
        seq!['\\', 'n']
    } else if c == '\t' {
        seq!['\\', 't']
    } else if c == '\r' {
        seq!['\\', 'r']
    } else {
        seq![c]
    }
}

/// A string's characters rendered inside JSON quotes.
pub open spec fn escaped(s: Seq<char>) -> Seq<char>
    decreases s.len(),
{
    if s.len() == 0 {
        Seq::empty()
    } else {
        escaped_char(s[0]) + escaped(s.skip(1))
    }
}

/// The JSON text of a value: the canonical rendering this crate emits.
pub open spec fn json_text(v: JsonV) -> Seq<char>
    decreases v, 0int,
{
    match v {
        JsonV::Null => "null"@,
        JsonV::Bool(b) => if b {
            "true"@
        } else {
            "false"@
        },
        JsonV::Num(n) => dec_digits_signed(n),
        JsonV::Str(s) => seq!['"'] + escaped(s) + seq!['"'],
        JsonV::Arr(elems) => seq!['['] + items_text(elems) + seq![']'],
        JsonV::Obj(fields) => seq!['{'] + entries_text(fields) + seq!['}'],
    }
}

/// The comma-separated texts of an array's elements.
pub open spec fn items_text(elems: Seq<JsonV>) -> Seq<char>
    decreases elems, elems.len() + 1,
{
    if elems.len() == 0 {
        Seq::empty()
    } else if elems.len() == 1 {
        json_text(elems[0])
    } else {
        json_text(elems[0]) + seq![','] + items_text(elems.skip(1))
    }
}

/// The comma-separated `"key":value` texts of an object's fields.
pub open spec fn entries_text(fields: Seq<(Seq<char>, JsonV)>) -> Seq<char>
    decreases fields, fields.len() + 1,
{
    if fields.len() == 0 {
        Seq::empty()
    } else {
        let entry = seq!['"'] + escaped(fields[0].0) + seq!['"'] + seq![':'] + json_text(
            fields[0].1,
        );
        if fields.len() == 1 {
            entry
        } else {
            entry + seq![','] + entries_text(fields.skip(1))
        }
    }
}

/// Append a string's escaped characters to `out`.
fn append_escaped(out: &mut String, s: &str)
    ensures
        final(out)@ == old(out)@ + escaped(s@),
{
    let n = s.unicode_len();
    let ghost gs = s@;
    assert(gs.skip(0) =~= gs);
    let ghost base = old(out)@;
    for i in 0..n
        invariant
            n == gs.len(),
            gs == s@,
            base + escaped(gs) == out@ + escaped(gs.skip(i as int)),
    {
        let ghost before = out@;
        assert(gs.skip(i as int)[0] == gs[i as int]);
        assert(gs.skip(i as int).skip(1) =~= gs.skip(i as int + 1));
        let c = s.get_char(i);
        if c == '"' {
            push_char(out, '\\');
            push_char(out, '"');
        } else if c == '\\' {
            push_char(out, '\\');
            push_char(out, '\\');
        } else if c == '\n' {
            push_char(out, '\\');
            push_char(out, 'n');
        } else if c == '\t' {
            push_char(out, '\\');
            push_char(out, 't');
        } else if c == '\r' {
            push_char(out, '\\');
            push_char(out, 'r');
        } else {
            push_char(out, c);
        }
        assert(out@ =~= before + escaped_char(c));
        assert(before + (escaped_char(c) + escaped(gs.skip(i as int + 1))) =~= (before
            + escaped_char(c)) + escaped(gs.skip(i as int + 1)));
    }
    assert(escaped(gs.skip(n as int)) =~= Seq::<char>::empty());
    assert(base + escaped(gs) =~= out@ + escaped(gs.skip(n as int)));
}

/// The JSON text of a value, as this crate renders it.
pub fn json_to_string(j: &Json) -> (r: String)
    ensures
        r@ == json_text(j@),
    decreases j, 0int,
{
    match j {
        Json::Null => {
            proof {
                reveal_strlit("null");
            }
            String::from_str("null")
        },
        Json::Bool(b) => {
            proof {
                reveal_strlit("true");
                reveal_strlit("false");
            }
            if *b {
                String::from_str("true")
            } else {
                String::from_str("false")
            }
        },
        Json::Num(n) => i64_to_string(*n),
        Json::Str(s) => {
            let mut out = String::new();
            push_char(&mut out, '"');
            append_escaped(&mut out, s.as_str());
            push_char(&mut out, '"');
            assert(out@ =~= seq!['"'] + escaped(s@) + seq!['"']);
            out
        },
        Json::Arr(v) => {
            proof {
                lemma_arr_view(*j);
            }
            let mut out = String::new();
            push_char(&mut out, '[');
            assert(out@ =~= seq!['[']);
            let r = items_to_string(v, 0, out);
            proof {
                assert(elems_view(v@).skip(0) =~= elems_view(v@));
                assert(r@ =~= seq!['['] + items_text(elems_view(v@)) + seq![']']);
            }
            r
        },
        Json::Obj(v) => {
            proof {
                lemma_obj_view(*j);
            }
            let mut out = String::new();
            push_char(&mut out, '{');
            assert(out@ =~= seq!['{']);
            let r = entries_to_string(v, 0, out);
            proof {
                assert(fields_view(v@).skip(0) =~= fields_view(v@));
                assert(r@ =~= seq!['{'] + entries_text(fields_view(v@)) + seq!['}']);
            }
            r
        },
    }
}

/// Render elements `i..` of an array into `out` and close the bracket.
fn items_to_string(v: &Vec<Json>, i: usize, out: String) -> (r: String)
    requires
        i <= v@.len(),
        i == 0 || i < v@.len(),
    ensures
        r@ == out@ + items_text(elems_view(v@).skip(i as int)) + seq![']'],
    decreases v, v@.len() - i + 1,
{
    let ghost whole = elems_view(v@);
    let ghost base = out@;
    if v.len() == i {
        let mut out = out;
        push_char(&mut out, ']');
        assert(items_text(whole.skip(i as int)) =~= Seq::<char>::empty());
        assert(out@ =~= base + items_text(whole.skip(i as int)) + seq![']']);
        out
    } else {
        assert(whole.skip(i as int)[0] == whole[i as int]);
        assert(whole.skip(i as int).skip(1) =~= whole.skip(i as int + 1));
        let mut out = out;
        let piece = json_to_string(&v[i]);
        out.append(piece.as_str());
        if i + 1 < v.len() {
            push_char(&mut out, ',');
            let r = items_to_string(v, i + 1, out);
            assert(r@ =~= base + items_text(whole.skip(i as int)) + seq![']']);
            r
        } else {
            push_char(&mut out, ']');
            assert(items_text(whole.skip(i as int)) == json_text(whole[i as int]));
            assert(out@ =~= base + items_text(whole.skip(i as int)) + seq![']']);
            out
        }
    }
}

/// Render fields `i..` of an object into `out` and close the brace.
fn entries_to_string(v: &Vec<(String, Json)>, i: usize, out: String) -> (r: String)
    requires
        i <= v@.len(),
        i == 0 || i < v@.len(),
    ensures
        r@ == out@ + entries_text(fields_view(v@).skip(i as int)) + seq!['}'],
    decreases v, v@.len() - i + 1,
{
    let ghost whole = fields_view(v@);
    let ghost base = out@;
    if v.len() == i {
        let mut out = out;
        push_char(&mut out, '}');
        assert(entries_text(whole.skip(i as int)) =~= Seq::<char>::empty());
        assert(out@ =~= base + entries_text(whole.skip(i as int)) + seq!['}']);
        out
    } else {
        assert(whole.skip(i as int)[0] == whole[i as int]);
        assert(whole.skip(i as int).skip(1) =~= whole.skip(i as int + 1));
        let mut out = out;
        push_char(&mut out, '"');
        append_escaped(&mut out, v[i].0.as_str());
        push_char(&mut out, '"');
        push_char(&mut out, ':');
        let piece = json_to_string(&v[i].1);
        out.append(piece.as_str());
        let ghost entry = seq!['"'] + escaped(whole[i as int].0) + seq!['"'] + seq![':']
            + json_text(whole[i as int].1);
        assert(out@ =~= base + entry);
        if i + 1 < v.len() {
            push_char(&mut out, ',');
            let r = entries_to_string(v, i + 1, out);
            assert(r@ =~= base + entries_text(whole.skip(i as int)) + seq!['}']);
            r
        } else {
            push_char(&mut out, '}');
            assert(entries_text(whole.skip(i as int)) == entry);
            assert(out@ =~= base + entries_text(whole.skip(i as int)) + seq!['}']);
            out
        }
    }
}

} // verus!
