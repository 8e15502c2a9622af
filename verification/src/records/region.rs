//! A high-level administrative subdivision of a country.

use vstd::prelude::*;
use crate::coerce::vec_string_from_string;
use crate::errors::{ConvertError, ErrorModel};
use crate::json::{jlist, jlist_exec, jstr, jstr_exec, obj, obj_exec};
use crate::records::{enc_keywords, enc_keywords_exec, keywords_clean, lemma_keywords_round_trip};
use crate::tokens::keywords_of;

verus! {

/// The number of columns of a region row.
pub const REGION_ARITY: usize = 8;

/// The mathematical value of a region record.
pub struct RegionView {
    pub id: Seq<char>,
    pub code: Seq<char>,
    pub local_code: Seq<char>,
    pub name: Seq<char>,
    pub continent: Seq<char>,
    pub iso_country: Seq<char>,
    pub wikipedia_link: Seq<char>,
    pub keywords: Seq<Seq<char>>,
}

/// Represents a high-level administrative subdivision of a country.
#[derive(Debug, Clone)]
pub struct Region {
    /// Internal OurAirports integer identifier for the region. This will
    /// stay persistent, even if the region code changes.
    pub id: String,
    /// `local_code` prefixed with the country code to make a globally
    /// unique identifier.
    pub code: String,
    /// The local code for the administrative subdivision. Whenever possible
    /// these are official ISO 3166:2 codes, at the highest level available;
    /// the pseudo code "U-A" stands for airports not yet assigned a region.
    pub local_code: String,
    /// The common English-language name for the administrative subdivision.
    /// Names in local languages may appear in the `keywords` field.
    pub name: String,
    /// A code for the continent to which the region belongs.
    pub continent: String,
    /// The two-character ISO 3166:1-alpha2 code for the country containing
    /// the administrative subdivision.
    pub iso_country: String,
    /// A link to the Wikipedia article describing the subdivision.
    pub wikipedia_link: String,
    /// A list of keywords to assist with search. May include former names
    /// for the region, and/or the region name in other languages.
    pub keywords: Vec<String>,
}

impl View for Region {
    type V = RegionView;

    open spec fn view(&self) -> RegionView {
        RegionView {
            id: self.id@,
            code: self.code@,
            local_code: self.local_code@,
            name: self.name@,
            continent: self.continent@,
            iso_country: self.iso_country@,
            wikipedia_link: self.wikipedia_link@,
            keywords: self.keywords.deep_view(),
        }
    }
}

/// The record a region row decodes to, or the failure that aborts the run:
/// only a wrong column count can fail here.
pub open spec fn spec_decode_region(row: Seq<Seq<char>>) -> Result<RegionView, ErrorModel> {
    if row.len() != REGION_ARITY {
        Err(ErrorModel::Schema { expected: REGION_ARITY as nat, actual: row.len() })
    } else {
        Ok(
            RegionView {
                id: row[0],
                code: row[1],
                local_code: row[2],
                name: row[3],
                continent: row[4],
                iso_country: row[5],
                wikipedia_link: row[6],
                keywords: keywords_of(row[7]),
            },
        )
    }
}

/// The raw row of column text a region record re-serializes to.
pub open spec fn spec_encode_region(a: RegionView) -> Seq<Seq<char>> {
    seq![
        a.id,
        a.code,
        a.local_code,
        a.name,
        a.continent,
        a.iso_country,
        a.wikipedia_link,
        enc_keywords(a.keywords),
    ]
}

/// The key/value pairs of a region record's JSON object, in field order.
pub open spec fn region_pairs(a: RegionView, pretty: bool) -> Seq<(Seq<char>, Seq<char>)> {
    seq![
        ("id"@, jstr(a.id)),
        ("code"@, jstr(a.code)),
        ("local_code"@, jstr(a.local_code)),
        ("name"@, jstr(a.name)),
        ("continent"@, jstr(a.continent)),
        ("iso_country"@, jstr(a.iso_country)),
        ("wikipedia_link"@, jstr(a.wikipedia_link)),
        ("keywords"@, jlist(a.keywords, pretty)),
    ]
}

/// A region record as a JSON object.
pub open spec fn region_json(a: RegionView, pretty: bool) -> Seq<char> {
    obj(region_pairs(a, pretty), pretty)
}

impl Region {
    /// Decodes one raw row into a region record, checking the arity and
    /// splitting the keywords column.
    pub fn decode(row: &Vec<String>) -> (r: Result<Region, ConvertError>)
        ensures
            spec_decode_region(row.deep_view()) matches Ok(a) ==> (r matches Ok(rec) && rec@ == a),
            spec_decode_region(row.deep_view()) matches Err(e) ==> (r matches Err(err) && err@
                == e),
    {
        proof {
            assert(row.deep_view().len() == row@.len());
            assert(forall|j: int|
                0 <= j < row@.len() ==> #[trigger] row.deep_view()[j] == row@[j]@);
        }
        if row.len() != REGION_ARITY {
            return Err(ConvertError::Schema { expected: REGION_ARITY, actual: row.len() });
        }
        let rec = Region {
            id: row[0].clone(),
            code: row[1].clone(),
            local_code: row[2].clone(),
            name: row[3].clone(),
            continent: row[4].clone(),
            iso_country: row[5].clone(),
            wikipedia_link: row[6].clone(),
            keywords: vec_string_from_string(row[7].as_str()),
        };
        Ok(rec)
    }

    /// Re-serializes the record as its raw row of column text.
    pub fn to_row(&self) -> (r: Vec<String>)
        ensures
            r.deep_view() == spec_encode_region(self@),
    {
        let mut r: Vec<String> = Vec::new();
        r.push(self.id.clone());
        r.push(self.code.clone());
        r.push(self.local_code.clone());
        r.push(self.name.clone());
        r.push(self.continent.clone());
        r.push(self.iso_country.clone());
        r.push(self.wikipedia_link.clone());
        r.push(enc_keywords_exec(&self.keywords));
        proof {
            assert(forall|j: int| 0 <= j < r@.len() ==> #[trigger] r.deep_view()[j] == r@[j]@);
            assert(r.deep_view() =~= spec_encode_region(self@));
        }
        r
    }

    /// Renders the record as a JSON object.
    pub fn to_json(&self, pretty: bool) -> (r: String)
        ensures
            r@ == region_json(self@, pretty),
    {
        let mut pairs: Vec<(String, String)> = Vec::new();
        pairs.push((String::from_str("id"), jstr_exec(self.id.as_str())));
        pairs.push((String::from_str("code"), jstr_exec(self.code.as_str())));
        pairs.push((String::from_str("local_code"), jstr_exec(self.local_code.as_str())));
        pairs.push((String::from_str("name"), jstr_exec(self.name.as_str())));
        pairs.push((String::from_str("continent"), jstr_exec(self.continent.as_str())));
        pairs.push((String::from_str("iso_country"), jstr_exec(self.iso_country.as_str())));
        pairs.push((String::from_str("wikipedia_link"), jstr_exec(self.wikipedia_link.as_str())));
        pairs.push((String::from_str("keywords"), jlist_exec(&self.keywords, pretty)));
        proof {
            assert(forall|j: int|
                0 <= j < pairs@.len() ==> #[trigger] pairs.deep_view()[j] == (
                pairs@[j].0@,
                pairs@[j].1@,
                ));
            assert(pairs.deep_view() =~~= region_pairs(self@, pretty));
        }
        obj_exec(&pairs, pretty)
    }
}

/// Decoding the re-serialized row of a region record with clean keywords
/// gives the record back in all fields.
pub proof fn lemma_region_round_trip(a: RegionView)
    requires
        keywords_clean(a.keywords),
    ensures
        spec_decode_region(spec_encode_region(a)) == Ok::<RegionView, ErrorModel>(a),
{
    lemma_keywords_round_trip(a.keywords);
}

} // verus!
