//! A JSON value as the decoders read it, and typed readers of its members.

use vstd::prelude::*;
use vstd::string::StringSliceAdditionalSpecFns;
use vstd::utf8::encode_utf8_decode_utf8;

verus! {

/// A JSON value.
#[derive(Debug)]
pub enum Json {
    Null,
    Bool(bool),
    /// An integer that fits in 64 bits.
    Int(i64),
    /// Any other number, in its textual form.
    OtherNumber(String),
    Str(String),
    Array(Vec<Json>),
    Object(Vec<Member>),
}

/// One `"key": value` member of a JSON object.
#[derive(Debug)]
pub struct Member {
    pub key: String,
    pub value: Json,
}

/// A member that is missing, or whose value has the wrong shape.
#[derive(Debug, Clone)]
pub struct DecodeError {
    pub field: String,
}

/// The value of the first member named `key`.
pub open spec fn lookup(ms: Seq<Member>, key: Seq<char>) -> Option<Json>
    decreases ms.len(),
{
    if ms.len() == 0 {
        None
    } else if ms[0].key@ == key {
        Some(ms[0].value)
    } else {
        lookup(ms.drop_first(), key)
    }
}

/// The member `key` of an object; `None` for a missing member or a non-object.
pub open spec fn member(j: Json, key: Seq<char>) -> Option<Json> {
    match j {
        Json::Object(ms) => lookup(ms@, key),
        _ => None,
    }
}

pub open spec fn str_of(v: Option<Json>) -> Option<Seq<char>> {
    match v {
        Some(Json::Str(s)) => Some(s@),
        _ => None,
    }
}

pub open spec fn bool_of(v: Option<Json>) -> Option<bool> {
    match v {
        Some(Json::Bool(b)) => Some(b),
        _ => None,
    }
}

pub open spec fn u32_of(v: Option<Json>) -> Option<u32> {
    match v {
        Some(Json::Int(n)) => if 0 <= n <= u32::MAX {
            Some(n as u32)
        } else {
            None
        },
        _ => None,
    }
}

pub open spec fn u16_of(v: Option<Json>) -> Option<u16> {
    match v {
        Some(Json::Int(n)) => if 0 <= n <= u16::MAX {
            Some(n as u16)
        } else {
            None
        },
        _ => None,
    }
}

/// An optional member: missing or `null` is `None`; a present value is read
/// by the inner reader.
pub open spec fn is_absent(v: Option<Json>) -> bool {
    v is None || v == Some(Json::Null)
}

/// An optional string member: `Some(None)` when absent, `None` on a wrong shape.
pub open spec fn opt_str_of(v: Option<Json>) -> Option<Option<Seq<char>>> {
    if is_absent(v) {
        Some(None)
    } else {
        match str_of(v) {
            Some(s) => Some(Some(s)),
            None => None,
        }
    }
}

pub open spec fn items_of(v: Option<Json>) -> Option<Seq<Json>> {
    match v {
        Some(Json::Array(a)) => Some(a@),
        _ => None,
    }
}

pub open spec fn opt_string_view(o: Option<String>) -> Option<Seq<char>> {
    match o {
        Some(s) => Some(s@),
        None => None,
    }
}

/// Whether two strings are equal.
pub fn str_eq(a: &str, b: &str) -> (r: bool)
    ensures
        r == (a@ == b@),
{
    let x = a.as_bytes();
    let y = b.as_bytes();
    proof {
        encode_utf8_decode_utf8(a@);
        encode_utf8_decode_utf8(b@);
        assert(x@ == vstd::utf8::encode_utf8(a@));
        assert(y@ == vstd::utf8::encode_utf8(b@));
    }
    if x.len() != y.len() {
        return false;
    }
    let mut i: usize = 0;
    while i < x.len()
        invariant
            i <= x.len(),
            x@.len() == y@.len(),
            x@ == vstd::utf8::encode_utf8(a@),
            y@ == vstd::utf8::encode_utf8(b@),
            forall|k: int| 0 <= k < i ==> x@[k] == y@[k],
        decreases x.len() - i,
    {
        if x[i] != y[i] {
            assert(x@[i as int] != y@[i as int]);
            assert(x@ != y@);
            return false;
        }
        i = i + 1;
    }
    assert(x@ =~= y@);
    true
}

/// The member `key` of `j`.
pub fn get_member<'a>(j: &'a Json, key: &str) -> (r: Option<&'a Json>)
    ensures
        match r {
            Some(v) => member(*j, key@) == Some(*v),
            None => member(*j, key@) is None,
        },
{
    match j {
        Json::Object(ms) => {
            let mut i: usize = 0;
            assert(ms@.subrange(0, ms.len() as int) =~= ms@);
            while i < ms.len()
                invariant
                    i <= ms.len(),
                    member(*j, key@) == lookup(ms@, key@),
                    lookup(ms@, key@) == lookup(ms@.subrange(i as int, ms.len() as int), key@),
                decreases ms.len() - i,
            {
                let ghost rest = ms@.subrange(i as int, ms.len() as int);
                assert(rest[0] == ms@[i as int]);
                assert(rest.drop_first() =~= ms@.subrange(i + 1, ms.len() as int));
                if str_eq(ms[i].key.as_str(), key) {
                    assert(rest[0].key@ == key@);
                    assert(lookup(rest, key@) == Some(rest[0].value));
                    return Some(&ms[i].value);
                }
                i = i + 1;
            }
            None
        },
        _ => None,
    }
}

pub fn field_error(key: &str) -> (e: DecodeError)
    ensures
        e.field@ == key@,
{
    DecodeError { field: key.to_owned() }
}

/// A string member.
pub fn read_string(j: &Json, key: &str) -> (r: Result<String, DecodeError>)
    ensures
        r is Ok <==> str_of(member(*j, key@)) is Some,
        r is Ok ==> r->Ok_0@ == str_of(member(*j, key@))->0,
{
    match get_member(j, key) {
        Some(Json::Str(s)) => Ok(s.clone()),
        _ => Err(field_error(key)),
    }
}

/// An optional string member.
pub fn read_opt_string(j: &Json, key: &str) -> (r: Result<Option<String>, DecodeError>)
    ensures
        r is Ok <==> opt_str_of(member(*j, key@)) is Some,
        r is Ok ==> opt_string_view(r->Ok_0) == opt_str_of(member(*j, key@))->0,
{
    match get_member(j, key) {
        None => Ok(None),
        Some(Json::Null) => Ok(None),
        Some(Json::Str(s)) => Ok(Some(s.clone())),
        _ => Err(field_error(key)),
    }
}

/// A boolean member.
pub fn read_bool(j: &Json, key: &str) -> (r: Result<bool, DecodeError>)
    ensures
        r is Ok <==> bool_of(member(*j, key@)) is Some,
        r is Ok ==> r->Ok_0 == bool_of(member(*j, key@))->0,
{
    match get_member(j, key) {
        Some(Json::Bool(b)) => Ok(*b),
        _ => Err(field_error(key)),
    }
}

/// A member holding an integer in the range of `u32`.
pub fn read_u32(j: &Json, key: &str) -> (r: Result<u32, DecodeError>)
    ensures
        r is Ok <==> u32_of(member(*j, key@)) is Some,
        r is Ok ==> r->Ok_0 == u32_of(member(*j, key@))->0,
{
    match get_member(j, key) {
        Some(Json::Int(n)) => if 0 <= *n && *n <= u32::MAX as i64 {
            Ok(*n as u32)
        } else {
            Err(field_error(key))
        },
        _ => Err(field_error(key)),
    }
}

/// A member holding an integer in the range of `u16`.
pub fn read_u16(j: &Json, key: &str) -> (r: Result<u16, DecodeError>)
    ensures
        r is Ok <==> u16_of(member(*j, key@)) is Some,
        r is Ok ==> r->Ok_0 == u16_of(member(*j, key@))->0,
{
    match get_member(j, key) {
        Some(Json::Int(n)) => if 0 <= *n && *n <= u16::MAX as i64 {
            Ok(*n as u16)
        } else {
            Err(field_error(key))
        },
        _ => Err(field_error(key)),
    }
}

/// The items of an array member.
pub fn read_items<'a>(j: &'a Json, key: &str) -> (r: Result<&'a Vec<Json>, DecodeError>)
    ensures
        r is Ok <==> items_of(member(*j, key@)) is Some,
        r is Ok ==> r->Ok_0@ == items_of(member(*j, key@))->0,
{
    match get_member(j, key) {
        Some(Json::Array(a)) => Ok(a),
        _ => Err(field_error(key)),
    }
}

} // verus!
