use jpostcode::{parse_record, record_to_raw, Address, RawField, RawRecord};
use serde_json::{Number, Value};

fn sample_plain() -> Address {
    Address {
        postcode: "0280052".to_string(),
        prefecture: "岩手県".to_string(),
        prefecture_kana: "イワテケン".to_string(),
        prefecture_code: 3,
        city: "久慈市".to_string(),
        city_kana: "クジシ".to_string(),
        town: "本町".to_string(),
        town_kana: "ホンチョウ".to_string(),
        street: None,
        office_name: None,
        office_name_kana: None,
    }
}

fn sample_office() -> Address {
    Address {
        postcode: "1000004".to_string(),
        prefecture: "東京都".to_string(),
        prefecture_kana: "トウキョウト".to_string(),
        prefecture_code: 13,
        city: "千代田区".to_string(),
        city_kana: "チヨダク".to_string(),
        town: "大手町".to_string(),
        town_kana: "オオテマチ".to_string(),
        street: Some("1-1-1".to_string()),
        office_name: Some("経済産業省".to_string()),
        office_name_kana: Some("ケイザイサンギョウショウ".to_string()),
    }
}

fn address_to_json(a: &Address) -> Value {
    let mut m = serde_json::Map::new();
    m.insert("postcode".to_string(), Value::String(a.postcode.clone()));
    m.insert("prefecture".to_string(), Value::String(a.prefecture.clone()));
    m.insert(
        "prefecture_kana".to_string(),
        Value::String(a.prefecture_kana.clone()),
    );
    m.insert(
        "prefecture_code".to_string(),
        Value::Number(Number::from(a.prefecture_code)),
    );
    m.insert("city".to_string(), Value::String(a.city.clone()));
    m.insert("city_kana".to_string(), Value::String(a.city_kana.clone()));
    m.insert("town".to_string(), Value::String(a.town.clone()));
    m.insert("town_kana".to_string(), Value::String(a.town_kana.clone()));
    if let Some(s) = &a.street {
        m.insert("street".to_string(), Value::String(s.clone()));
    }
    if let Some(s) = &a.office_name {
        m.insert("office_name".to_string(), Value::String(s.clone()));
    }
    if let Some(s) = &a.office_name_kana {
        m.insert("office_name_kana".to_string(), Value::String(s.clone()));
    }
    Value::Object(m)
}

fn field_of(m: &serde_json::Map<String, Value>, key: &str) -> RawField {
    match m.get(key) {
        None => RawField::Missing,
        Some(Value::String(s)) => RawField::Text(s.clone()),
        Some(Value::Number(n)) => match n.as_i64() {
            Some(v) => RawField::Number(v),
            None => RawField::Other,
        },
        Some(Value::Null) => RawField::Null,
        Some(_) => RawField::Other,
    }
}

fn json_to_raw(v: &Value) -> Option<RawRecord> {
    let m = v.as_object()?;
    Some(RawRecord {
        postcode: field_of(m, "postcode"),
        prefecture: field_of(m, "prefecture"),
        prefecture_kana: field_of(m, "prefecture_kana"),
        prefecture_code: field_of(m, "prefecture_code"),
        city: field_of(m, "city"),
        city_kana: field_of(m, "city_kana"),
        town: field_of(m, "town"),
        town_kana: field_of(m, "town_kana"),
        street: field_of(m, "street"),
        office_name: field_of(m, "office_name"),
        office_name_kana: field_of(m, "office_name_kana"),
    })
}

#[test]
fn test_json_list_round_trip() {
    let records = vec![sample_plain(), sample_office()];
    let json = Value::Array(records.iter().map(address_to_json).collect());
    let encoded = serde_json::to_string(&json).unwrap();

    let decoded: Value = serde_json::from_str(&encoded).unwrap();
    let entries = decoded.as_array().unwrap();
    assert_eq!(entries.len(), records.len());
    for (value, original) in entries.iter().zip(records.iter()) {
        let raw = json_to_raw(value).unwrap();
        let parsed = parse_record(&raw).unwrap();
        assert_eq!(parsed, *original);
    }
}

#[test]
fn test_raw_record_round_trip() {
    for original in [sample_plain(), sample_office()] {
        let raw = record_to_raw(&original);
        let parsed = parse_record(&raw).unwrap();
        assert_eq!(parsed, original);
    }
}

#[test]
fn test_parse_record_rejects_missing_required_field() {
    let json = address_to_json(&sample_plain());
    let mut m = json.as_object().unwrap().clone();
    m.remove("town_kana");
    let raw = json_to_raw(&Value::Object(m)).unwrap();
    assert_eq!(parse_record(&raw), None);
}
