//! A country or country-like entity (e.g. Hong Kong).

use vstd::prelude::*;
use crate::coerce::vec_string_from_string;
use crate::errors::{ConvertError, ErrorModel};
use crate::json::{jlist, jlist_exec, jstr, jstr_exec, obj, obj_exec};
use crate::records::{enc_keywords, enc_keywords_exec, keywords_clean, lemma_keywords_round_trip};
use crate::tokens::keywords_of;

verus! {

/// The number of columns of a country row.
pub const COUNTRY_ARITY: usize = 6;

/// The mathematical value of a country record.
pub struct CountryView {
    pub id: Seq<char>,
    pub code: Seq<char>,
    pub name: Seq<char>,
    pub continent: Seq<char>,
    pub wikipedia_link: Seq<char>,
    pub keywords: Seq<Seq<char>>,
}

/// Represents a country or country-like entity.
#[derive(Debug, Clone)]
pub struct Country {
    /// Internal OurAirports integer identifier for the country.
    /// This will stay persistent, even if the country name or code changes.
    pub id: String,
    /// The two-character ISO 3166:1-alpha2 code for the country.
    /// A handful of unofficial, non-ISO codes are also in use, such as "XK"
    /// for Kosovo. The airport `iso_country` field points into this field.
    pub code: String,
    /// The common English-language name for the country. Other variations
    /// of the name may appear in the `keywords` field to assist with search.
    pub name: String,
    /// The code for the continent where the country is (primarily) located.
    pub continent: String,
    /// Link to the Wikipedia article about the country.
    pub wikipedia_link: String,
    /// A list of search keywords/phrases related to the country.
    pub keywords: Vec<String>,
}

impl View for Country {
    type V = CountryView;

    open spec fn view(&self) -> CountryView {
        CountryView {
            id: self.id@,
            code: self.code@,
            name: self.name@,
            continent: self.continent@,
            wikipedia_link: self.wikipedia_link@,
            keywords: self.keywords.deep_view(),
        }
    }
}

/// The record a country row decodes to, or the failure that aborts the run:
/// only a wrong column count can fail here, the keywords coercion never does.
pub open spec fn spec_decode_country(row: Seq<Seq<char>>) -> Result<CountryView, ErrorModel> {
    if row.len() != COUNTRY_ARITY {
        Err(ErrorModel::Schema { expected: COUNTRY_ARITY as nat, actual: row.len() })
    } else {
        Ok(
            CountryView {
                id: row[0],
                code: row[1],
                name: row[2],
                continent: row[3],
                wikipedia_link: row[4],
                keywords: keywords_of(row[5]),
            },
        )
    }
}

/// The raw row of column text a country record re-serializes to.
pub open spec fn spec_encode_country(a: CountryView) -> Seq<Seq<char>> {
    seq![a.id, a.code, a.name, a.continent, a.wikipedia_link, enc_keywords(a.keywords)]
}

/// The key/value pairs of a country record's JSON object, in field order.
pub open spec fn country_pairs(a: CountryView, pretty: bool) -> Seq<(Seq<char>, Seq<char>)> {
    seq![
        ("id"@, jstr(a.id)),
        ("code"@, jstr(a.code)),
        ("name"@, jstr(a.name)),
        ("continent"@, jstr(a.continent)),
        ("wikipedia_link"@, jstr(a.wikipedia_link)),
        ("keywords"@, jlist(a.keywords, pretty)),
    ]
}

/// A country record as a JSON object.
pub open spec fn country_json(a: CountryView, pretty: bool) -> Seq<char> {
    obj(country_pairs(a, pretty), pretty)
}

impl Country {
    /// Decodes one raw row into a country record, checking the arity and
    /// splitting the keywords column.
    pub fn decode(row: &Vec<String>) -> (r: Result<Country, ConvertError>)
        ensures
            spec_decode_country(row.deep_view()) matches Ok(a) ==> (r matches Ok(rec) && rec@ == a),
            spec_decode_country(row.deep_view()) matches Err(e) ==> (r matches Err(err) && err@
                == e),
    {
        proof {
            assert(row.deep_view().len() == row@.len());
            assert(forall|j: int|
                0 <= j < row@.len() ==> #[trigger] row.deep_view()[j] == row@[j]@);
        }
        if row.len() != COUNTRY_ARITY {
            return Err(ConvertError::Schema { expected: COUNTRY_ARITY, actual: row.len() });
        }
        let rec = Country {
            id: row[0].clone(),
            code: row[1].clone(),
            name: row[2].clone(),
            continent: row[3].clone(),
            wikipedia_link: row[4].clone(),
            keywords: vec_string_from_string(row[5].as_str()),
        };
        Ok(rec)
    }

    /// Re-serializes the record as its raw row of column text.
    pub fn to_row(&self) -> (r: Vec<String>)
        ensures
            r.deep_view() == spec_encode_country(self@),
    {
        let mut r: Vec<String> = Vec::new();
        r.push(self.id.clone());
        r.push(self.code.clone());
        r.push(self.name.clone());
        r.push(self.continent.clone());
        r.push(self.wikipedia_link.clone());
        r.push(enc_keywords_exec(&self.keywords));
        proof {
            assert(forall|j: int| 0 <= j < r@.len() ==> #[trigger] r.deep_view()[j] == r@[j]@);
            assert(r.deep_view() =~= spec_encode_country(self@));
        }
        r
    }

    /// Renders the record as a JSON object.
    pub fn to_json(&self, pretty: bool) -> (r: String)
        ensures
            r@ == country_json(self@, pretty),
    {
        let mut pairs: Vec<(String, String)> = Vec::new();
        pairs.push((String::from_str("id"), jstr_exec(self.id.as_str())));
        pairs.push((String::from_str("code"), jstr_exec(self.code.as_str())));
        pairs.push((String::from_str("name"), jstr_exec(self.name.as_str())));
        pairs.push((String::from_str("continent"), jstr_exec(self.continent.as_str())));
        pairs.push((String::from_str("wikipedia_link"), jstr_exec(self.wikipedia_link.as_str())));
        pairs.push((String::from_str("keywords"), jlist_exec(&self.keywords, pretty)));
        proof {
            assert(forall|j: int|
                0 <= j < pairs@.len() ==> #[trigger] pairs.deep_view()[j] == (
                pairs@[j].0@,
                pairs@[j].1@,
                ));
            assert(pairs.deep_view() =~~= country_pairs(self@, pretty));
        }
        obj_exec(&pairs, pretty)
    }
}

/// Decoding the re-serialized row of a country record with clean keywords
/// gives the record back in all fields.
pub proof fn lemma_country_round_trip(a: CountryView)
    requires
        keywords_clean(a.keywords),
    ensures
        spec_decode_country(spec_encode_country(a)) == Ok::<CountryView, ErrorModel>(a),
{
    lemma_keywords_round_trip(a.keywords);
}

} // verus!
