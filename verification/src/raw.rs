use vstd::prelude::*;
use crate::address::Address;

verus! {

/// A primitive value read from one recognized field of a raw dataset record:
/// a string, an integer, an explicit null, an absent key, or any other shape.
#[derive(Debug, PartialEq)]
pub enum RawField {
    Text(String),
    Number(i64),
    Null,
    Missing,
    Other,
}

impl Clone for RawField {
    fn clone(&self) -> (res: Self)
        ensures
            res == *self,
    {
        match self {
            RawField::Text(s) => RawField::Text(s.clone()),
            RawField::Number(n) => RawField::Number(*n),
            RawField::Null => RawField::Null,
            RawField::Missing => RawField::Missing,
            RawField::Other => RawField::Other,
        }
    }
}

/// The recognized fields of one raw dataset record, keyed by field name in the
/// dataset format; unrecognized keys of the source object are already ignored.
#[derive(Debug, PartialEq)]
pub struct RawRecord {
    pub postcode: RawField,
    pub prefecture: RawField,
    pub prefecture_kana: RawField,
    pub prefecture_code: RawField,
    pub city: RawField,
    pub city_kana: RawField,
    pub town: RawField,
    pub town_kana: RawField,
    pub street: RawField,
    pub office_name: RawField,
    pub office_name_kana: RawField,
}

impl Clone for RawRecord {
    fn clone(&self) -> (res: Self)
        ensures
            res == *self,
    {
        RawRecord {
            postcode: self.postcode.clone(),
            prefecture: self.prefecture.clone(),
            prefecture_kana: self.prefecture_kana.clone(),
            prefecture_code: self.prefecture_code.clone(),
            city: self.city.clone(),
            city_kana: self.city_kana.clone(),
            town: self.town.clone(),
            town_kana: self.town_kana.clone(),
            street: self.street.clone(),
            office_name: self.office_name.clone(),
            office_name_kana: self.office_name_kana.clone(),
        }
    }
}

/// One raw dataset entry: the value stored under a postcode key is a single
/// record object, a list of record objects, or some other JSON shape.
#[derive(Debug)]
pub enum RawEntry {
    One(RawRecord),
    Many(Vec<RawRecord>),
    Other,
}

/// What a required string field yields: its text, or nothing if the field is
/// absent or not a string.
pub open spec fn required_text(f: RawField) -> Option<String> {
    match f {
        RawField::Text(s) => Some(s),
        _ => None,
    }
}

/// What the required prefecture-code field yields: the integer, if present and
/// within `i32` range.
pub open spec fn required_code(f: RawField) -> Option<i32> {
    match f {
        RawField::Number(n) => if i32::MIN <= n <= i32::MAX {
            Some(n as i32)
        } else {
            None
        },
        _ => None,
    }
}

/// An optional string field parses when it is text, null or absent.
pub open spec fn optional_text_ok(f: RawField) -> bool {
    match f {
        RawField::Text(_) => true,
        RawField::Null => true,
        RawField::Missing => true,
        _ => false,
    }
}

/// The value of an optional string field: text when present, otherwise none.
pub open spec fn optional_text(f: RawField) -> Option<String> {
    match f {
        RawField::Text(s) => Some(s),
        _ => None,
    }
}

/// A raw record parses when every required field is present with the right
/// type and every optional field is text, null or absent.
pub open spec fn record_ok(r: RawRecord) -> bool {
    &&& required_text(r.postcode) is Some
    &&& required_text(r.prefecture) is Some
    &&& required_text(r.prefecture_kana) is Some
    &&& required_code(r.prefecture_code) is Some
    &&& required_text(r.city) is Some
    &&& required_text(r.city_kana) is Some
    &&& required_text(r.town) is Some
    &&& required_text(r.town_kana) is Some
    &&& optional_text_ok(r.street)
    &&& optional_text_ok(r.office_name)
    &&& optional_text_ok(r.office_name_kana)
}

/// The record a raw dataset record parses to, or nothing when it is malformed
/// and must be dropped.
pub open spec fn parse_record_spec(r: RawRecord) -> Option<Address> {
    if record_ok(r) {
        Some(
            Address {
                postcode: required_text(r.postcode)->0,
                prefecture: required_text(r.prefecture)->0,
                prefecture_kana: required_text(r.prefecture_kana)->0,
                prefecture_code: required_code(r.prefecture_code)->0,
                city: required_text(r.city)->0,
                city_kana: required_text(r.city_kana)->0,
                town: required_text(r.town)->0,
                town_kana: required_text(r.town_kana)->0,
                street: optional_text(r.street),
                office_name: optional_text(r.office_name),
                office_name_kana: optional_text(r.office_name_kana),
            },
        )
    } else {
        None
    }
}

/// An owned copy of a required string field, or nothing.
fn take_required_text(f: &RawField) -> (res: Option<String>)
    ensures
        res == required_text(*f),
{
    match f {
        RawField::Text(s) => Some(s.clone()),
        _ => None,
    }
}

/// An optional string field's value; fails on a wrong-typed present value.
fn take_optional_text(f: &RawField) -> (res: Option<Option<String>>)
    ensures
        res is Some <==> optional_text_ok(*f),
        res is Some ==> res->0 == optional_text(*f),
{
    match f {
        RawField::Text(s) => Some(Some(s.clone())),
        RawField::Null => Some(None),
        RawField::Missing => Some(None),
        _ => None,
    }
}

/// The dataset loader's record parser: checks presence and type of every
/// recognized field and yields the address record, silently rejecting a
/// malformed raw record.
pub fn parse_record(r: &RawRecord) -> (res: Option<Address>)
    ensures
        res == parse_record_spec(*r),
{
    let postcode = match take_required_text(&r.postcode) {
        Some(s) => s,
        None => {
            return None;
        },
    };
    let prefecture = match take_required_text(&r.prefecture) {
        Some(s) => s,
        None => {
            return None;
        },
    };
    let prefecture_kana = match take_required_text(&r.prefecture_kana) {
        Some(s) => s,
        None => {
            return None;
        },
    };
    let prefecture_code: i32 = match &r.prefecture_code {
        RawField::Number(n) => {
            if *n < i32::MIN as i64 || *n > i32::MAX as i64 {
                return None;
            }
            *n as i32
        },
        _ => {
            return None;
        },
    };
    let city = match take_required_text(&r.city) {
        Some(s) => s,
        None => {
            return None;
        },
    };
    let city_kana = match take_required_text(&r.city_kana) {
        Some(s) => s,
        None => {
            return None;
        },
    };
    let town = match take_required_text(&r.town) {
        Some(s) => s,
        None => {
            return None;
        },
    };
    let town_kana = match take_required_text(&r.town_kana) {
        Some(s) => s,
        None => {
            return None;
        },
    };
    let street = match take_optional_text(&r.street) {
        Some(v) => v,
        None => {
            return None;
        },
    };
    let office_name = match take_optional_text(&r.office_name) {
        Some(v) => v,
        None => {
            return None;
        },
    };
    let office_name_kana = match take_optional_text(&r.office_name_kana) {
        Some(v) => v,
        None => {
            return None;
        },
    };
    Some(
        Address {
            postcode,
            prefecture,
            prefecture_kana,
            prefecture_code,
            city,
            city_kana,
            town,
            town_kana,
            street,
            office_name,
            office_name_kana,
        },
    )
}

/// Renders a record back into the raw field shape the dataset loader reads;
/// absent optional fields stay absent. Parsing the result recovers the record
/// field for field, which is the loader side of the serialization round trip.
pub fn record_to_raw(a: &Address) -> (r: RawRecord)
    ensures
        parse_record_spec(r) == Some(*a),
{
    RawRecord {
        postcode: RawField::Text(a.postcode.clone()),
        prefecture: RawField::Text(a.prefecture.clone()),
        prefecture_kana: RawField::Text(a.prefecture_kana.clone()),
        prefecture_code: RawField::Number(a.prefecture_code as i64),
        city: RawField::Text(a.city.clone()),
        city_kana: RawField::Text(a.city_kana.clone()),
        town: RawField::Text(a.town.clone()),
        town_kana: RawField::Text(a.town_kana.clone()),
        street: optional_to_raw(&a.street),
        office_name: optional_to_raw(&a.office_name),
        office_name_kana: optional_to_raw(&a.office_name_kana),
    }
}

/// An optional string rendered back as a raw field: absent stays absent.
fn optional_to_raw(s: &Option<String>) -> (f: RawField)
    ensures
        optional_text_ok(f),
        optional_text(f) == *s,
{
    match s {
        Some(v) => RawField::Text(v.clone()),
        None => RawField::Missing,
    }
}

} // verus!
