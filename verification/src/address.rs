use vstd::prelude::*;
use vstd::string::*;

verus! {

/// One postal address unit. `postcode` is the record's key (7 ASCII digits for
/// any record reachable through the exact-lookup gate). The three plain
/// segments and their kana readings are required; `street`, `office_name` and
/// `office_name_kana` appear only on office-specific postal codes.
#[derive(Debug, PartialEq)]
pub struct Address {
    pub postcode: String,
    pub prefecture: String,
    pub prefecture_kana: String,
    pub prefecture_code: i32,
    pub city: String,
    pub city_kana: String,
    pub town: String,
    pub town_kana: String,
    pub street: Option<String>,
    pub office_name: Option<String>,
    pub office_name_kana: Option<String>,
}

/// The characters of `prefecture + city + town`, with no separators.
pub open spec fn full_address_chars(a: Address) -> Seq<char> {
    a.prefecture@ + a.city@ + a.town@
}

/// The characters of the three kana segments, concatenated.
pub open spec fn full_address_kana_chars(a: Address) -> Seq<char> {
    a.prefecture_kana@ + a.city_kana@ + a.town_kana@
}

impl Clone for Address {
    fn clone(&self) -> (res: Self)
        ensures
            res == *self,
    {
        Address {
            postcode: self.postcode.clone(),
            prefecture: self.prefecture.clone(),
            prefecture_kana: self.prefecture_kana.clone(),
            prefecture_code: self.prefecture_code,
            city: self.city.clone(),
            city_kana: self.city_kana.clone(),
            town: self.town.clone(),
            town_kana: self.town_kana.clone(),
            street: clone_optional(&self.street),
            office_name: clone_optional(&self.office_name),
            office_name_kana: clone_optional(&self.office_name_kana),
        }
    }
}

/// An owned copy of an optional string.
fn clone_optional(s: &Option<String>) -> (res: Option<String>)
    ensures
        res == *s,
{
    match s {
        Some(v) => Some(v.clone()),
        None => None,
    }
}

impl Address {
    /// The full human-readable address: prefecture, city and town run together.
    pub fn full_address(&self) -> (res: String)
        ensures
            res@ == full_address_chars(*self),
    {
        let mut s = self.prefecture.clone();
        s.append(self.city.as_str());
        s.append(self.town.as_str());
        s
    }

    /// The full kana reading: the three kana segments run together.
    pub fn full_address_kana(&self) -> (res: String)
        ensures
            res@ == full_address_kana_chars(*self),
    {
        let mut s = self.prefecture_kana.clone();
        s.append(self.city_kana.as_str());
        s.append(self.town_kana.as_str());
        s
    }

    /// One line: the postal mark, the postcode, a space and the full address.
    pub fn formatted(&self) -> (res: String)
        ensures
            res@ == "〒"@ + self.postcode@ + " "@ + full_address_chars(*self),
    {
        let mut s = "〒".to_owned();
        s.append(self.postcode.as_str());
        s.append(" ");
        let fa = self.full_address();
        s.append(fa.as_str());
        proof {
            assert(s@ =~= "〒"@ + self.postcode@ + " "@ + full_address_chars(*self));
        }
        s
    }

    /// Three lines: the postal-mark line, the full address, the kana reading.
    pub fn formatted_with_kana(&self) -> (res: String)
        ensures
            res@ == "〒"@ + self.postcode@ + "\n"@ + full_address_chars(*self) + "\n"@
                + full_address_kana_chars(*self),
    {
        let mut s = "〒".to_owned();
        s.append(self.postcode.as_str());
        s.append("\n");
        let fa = self.full_address();
        s.append(fa.as_str());
        s.append("\n");
        let fk = self.full_address_kana();
        s.append(fk.as_str());
        proof {
            assert(s@ =~= "〒"@ + self.postcode@ + "\n"@ + full_address_chars(*self) + "\n"@
                + full_address_kana_chars(*self));
        }
        s
    }
}

} // verus!
