use jpostcode::{
    lookup_address, lookup_addresses, search_by_address, valid_postal_code, Address,
    AddressDirectory, JPostError, RawEntry, RawField, RawRecord,
};

fn text(s: &str) -> RawField {
    RawField::Text(s.to_string())
}

fn raw_record(
    postcode: &str,
    prefecture: &str,
    prefecture_kana: &str,
    prefecture_code: i64,
    city: &str,
    city_kana: &str,
    town: &str,
    town_kana: &str,
) -> RawRecord {
    RawRecord {
        postcode: text(postcode),
        prefecture: text(prefecture),
        prefecture_kana: text(prefecture_kana),
        prefecture_code: RawField::Number(prefecture_code),
        city: text(city),
        city_kana: text(city_kana),
        town: text(town),
        town_kana: text(town_kana),
        street: RawField::Missing,
        office_name: RawField::Missing,
        office_name_kana: RawField::Missing,
    }
}

fn kuji_honcho() -> RawRecord {
    raw_record(
        "0280052",
        "岩手県",
        "イワテケン",
        3,
        "久慈市",
        "クジシ",
        "本町",
        "ホンチョウ",
    )
}

fn kuji_office() -> RawRecord {
    let mut r = kuji_honcho();
    r.street = text("1-1");
    r.office_name = text("久慈市役所");
    r.office_name_kana = text("クジシヤクショ");
    r
}

fn kuji_uchimaru() -> RawRecord {
    raw_record(
        "0280051",
        "岩手県",
        "イワテケン",
        3,
        "久慈市",
        "クジシ",
        "川崎町",
        "カワサキチョウ",
    )
}

fn tokyo_chiyoda() -> RawRecord {
    raw_record(
        "1000001",
        "東京都",
        "トウキョウト",
        13,
        "千代田区",
        "チヨダク",
        "千代田",
        "チヨダ",
    )
}

fn sample_directory() -> AddressDirectory {
    AddressDirectory::build(vec![
        ("0280052".to_string(), RawEntry::Many(vec![kuji_honcho(), kuji_office()])),
        ("0280051".to_string(), RawEntry::One(kuji_uchimaru())),
        ("1000001".to_string(), RawEntry::One(tokyo_chiyoda())),
    ])
}

#[test]
fn test_lookup_address_multiple() {
    let dir = sample_directory();
    let results = lookup_address(&dir, "0280052").unwrap();
    assert!(!results.is_empty());
    assert!(results.iter().all(|addr| addr.postcode == "0280052"));
}

#[test]
fn test_lookup_addresses() {
    let dir = sample_directory();
    let results = lookup_addresses(&dir, "028").unwrap();
    assert!(!results.is_empty());
    assert!(results.iter().all(|addr| addr.postcode.starts_with("028")));
}

#[test]
fn test_invalid_format() {
    let dir = sample_directory();
    assert!(matches!(
        lookup_address(&dir, "123"),
        Err(JPostError::InvalidFormat)
    ));
}

#[test]
fn test_search_by_address() {
    let dir = sample_directory();
    let results = search_by_address(&dir, "岩手県");
    assert!(!results.is_empty());
    assert!(results.iter().all(|addr| addr.prefecture == "岩手県"));
}

#[test]
fn test_address_formatting() {
    let addr = Address {
        postcode: "0280052".to_string(),
        prefecture: "岩手県".to_string(),
        prefecture_kana: "イワテケン".to_string(),
        prefecture_code: 3,
        city: "久慈市".to_string(),
        city_kana: "クジシ".to_string(),
        town: "本町".to_string(),
        town_kana: "ホンチョウ".to_string(),
        street: None,
        office_name: None,
        office_name_kana: None,
    };

    assert_eq!(addr.full_address(), "岩手県久慈市本町");
    assert_eq!(addr.full_address_kana(), "イワテケンクジシホンチョウ");
    assert_eq!(addr.formatted(), "〒0280052 岩手県久慈市本町");
}

#[test]
fn test_formatted_with_kana_three_lines() {
    let dir = sample_directory();
    let results = lookup_address(&dir, "0280051").unwrap();
    assert_eq!(results.len(), 1);
    assert_eq!(
        results[0].formatted_with_kana(),
        "〒0280051\n岩手県久慈市川崎町\nイワテケンクジシカワサキチョウ"
    );
}

#[test]
fn test_lookup_address_not_found() {
    let dir = sample_directory();
    assert!(matches!(
        lookup_address(&dir, "9999999"),
        Err(JPostError::NotFound)
    ));
}

#[test]
fn test_lookup_address_rejects_non_digits() {
    let dir = sample_directory();
    assert!(matches!(
        lookup_address(&dir, "028005a"),
        Err(JPostError::InvalidFormat)
    ));
    assert!(matches!(
        lookup_address(&dir, "12345678"),
        Err(JPostError::InvalidFormat)
    ));
    assert!(matches!(
        lookup_address(&dir, ""),
        Err(JPostError::InvalidFormat)
    ));
}

#[test]
fn test_lookup_addresses_invalid_prefix() {
    let dir = sample_directory();
    assert!(matches!(
        lookup_addresses(&dir, "12"),
        Err(JPostError::InvalidFormat)
    ));
    assert!(matches!(
        lookup_addresses(&dir, "12345678"),
        Err(JPostError::InvalidFormat)
    ));
    assert!(matches!(
        lookup_addresses(&dir, "02a"),
        Err(JPostError::InvalidFormat)
    ));
}

#[test]
fn test_lookup_addresses_not_found() {
    let dir = sample_directory();
    assert!(matches!(
        lookup_addresses(&dir, "555"),
        Err(JPostError::NotFound)
    ));
}

#[test]
fn test_lookup_addresses_full_code_prefix() {
    let dir = sample_directory();
    let results = lookup_addresses(&dir, "0280052").unwrap();
    assert_eq!(results.len(), 2);
    assert!(results.iter().all(|addr| addr.postcode == "0280052"));
}

#[test]
fn test_search_by_kana_reading() {
    let dir = sample_directory();
    let results = search_by_address(&dir, "ホンチョウ");
    assert_eq!(results.len(), 2);
    assert!(results.iter().all(|addr| addr.town_kana == "ホンチョウ"));
}

#[test]
fn test_search_no_match_is_empty() {
    let dir = sample_directory();
    let results = search_by_address(&dir, "大阪");
    assert!(results.is_empty());
}

#[test]
fn test_search_empty_query_returns_everything() {
    let dir = sample_directory();
    let results = search_by_address(&dir, "");
    assert_eq!(results.len(), 4);
}

#[test]
fn test_valid_postal_code() {
    assert!(valid_postal_code("0280052"));
    assert!(!valid_postal_code("123"));
    assert!(!valid_postal_code("12345678"));
    assert!(!valid_postal_code("028005a"));
    assert!(!valid_postal_code("０２８００５２"));
}

#[test]
fn test_build_drops_malformed_records() {
    let mut missing_city = kuji_honcho();
    missing_city.city = RawField::Missing;
    let mut wrong_type = tokyo_chiyoda();
    wrong_type.prefecture_code = text("13");
    let dir = AddressDirectory::build(vec![
        ("0280052".to_string(), RawEntry::Many(vec![missing_city, kuji_office()])),
        ("1000001".to_string(), RawEntry::One(wrong_type)),
        ("0280051".to_string(), RawEntry::Other),
    ]);
    let results = lookup_address(&dir, "0280052").unwrap();
    assert_eq!(results.len(), 1);
    assert_eq!(results[0].office_name.as_deref(), Some("久慈市役所"));
    assert!(matches!(
        lookup_address(&dir, "1000001"),
        Err(JPostError::NotFound)
    ));
    assert!(matches!(
        lookup_address(&dir, "0280051"),
        Err(JPostError::NotFound)
    ));
}

#[test]
fn test_build_drops_empty_and_overflowing_entries() {
    let mut huge_code = kuji_honcho();
    huge_code.prefecture_code = RawField::Number(i64::MAX);
    let dir = AddressDirectory::build(vec![
        ("0280052".to_string(), RawEntry::Many(vec![])),
        ("0280051".to_string(), RawEntry::One(huge_code)),
        ("1000001".to_string(), RawEntry::One(tokyo_chiyoda())),
    ]);
    assert!(matches!(
        lookup_address(&dir, "0280052"),
        Err(JPostError::NotFound)
    ));
    assert!(matches!(
        lookup_address(&dir, "0280051"),
        Err(JPostError::NotFound)
    ));
    assert!(lookup_address(&dir, "1000001").is_ok());
}

#[test]
fn test_optional_fields_null_and_text() {
    let mut r = kuji_honcho();
    r.street = RawField::Null;
    r.office_name = text("合同庁舎");
    let dir = AddressDirectory::build(vec![("0280052".to_string(), RawEntry::One(r))]);
    let results = lookup_address(&dir, "0280052").unwrap();
    assert_eq!(results.len(), 1);
    assert_eq!(results[0].street, None);
    assert_eq!(results[0].office_name.as_deref(), Some("合同庁舎"));
    assert_eq!(results[0].office_name_kana, None);
}

#[test]
fn test_optional_field_wrong_type_drops_record() {
    let mut r = kuji_honcho();
    r.street = RawField::Number(5);
    let dir = AddressDirectory::build(vec![("0280052".to_string(), RawEntry::One(r))]);
    assert!(matches!(
        lookup_address(&dir, "0280052"),
        Err(JPostError::NotFound)
    ));
}
