//! A record of a single airport.

use vstd::prelude::*;
use crate::coerce::{
    bool_from_str, decimal_from_str, opt_i32_from_str, spec_opt_i32, vec_string_from_string,
};
use crate::errors::{ConvertError, ErrorModel};
use crate::json::{jbool, jbool_exec, jlist, jlist_exec, jopt_int, jopt_int_exec, jstr, jstr_exec,
    obj, obj_exec};
use crate::numbers::is_decimal;
use crate::records::{
    enc_bool, enc_bool_exec, enc_keywords, enc_keywords_exec, enc_opt_int, enc_opt_i32_exec,
    keywords_clean, lemma_bool_round, lemma_keywords_round_trip, lemma_opt_i32_round, opt_in_i32,
    opt_i32_view,
};
use crate::tokens::{keywords_of, spec_bool_token};

verus! {

/// The number of columns of an airport row.
pub const AIRPORT_ARITY: usize = 18;

/// The mathematical value of an airport record.
pub struct AirportView {
    pub id: Seq<char>,
    pub ident: Seq<char>,
    pub airport_type: Seq<char>,
    pub name: Seq<char>,
    pub latitude_deg: Seq<char>,
    pub longitude_deg: Seq<char>,
    pub elevation_ft: Option<int>,
    pub continent: Seq<char>,
    pub iso_country: Seq<char>,
    pub iso_region: Seq<char>,
    pub municipality: Seq<char>,
    pub scheduled_service: bool,
    pub gps_code: Seq<char>,
    pub iata_code: Seq<char>,
    pub local_code: Seq<char>,
    pub home_link: Seq<char>,
    pub wikipedia_link: Seq<char>,
    pub keywords: Seq<Seq<char>>,
}

/// Contains a record of a single airport.
#[derive(Debug, Clone)]
pub struct Airport {
    /// Internal OurAirports integer identifier for the airport.
    /// This will stay persistent, even if the airport code changes.
    pub id: String,
    /// The text identifier used in the OurAirports URL: the ICAO code if
    /// available, otherwise a local code or an internally-generated one.
    pub ident: String,
    /// The type of the airport: "closed_airport", "heliport",
    /// "large_airport", "medium_airport", "seaplane_base" or "small_airport".
    pub airport_type: String,
    /// The official airport name, including "Airport", "Airstrip", etc.
    pub name: String,
    /// The airport latitude in decimal degrees (positive for north), kept
    /// as the validated decimal text of the source column.
    pub latitude_deg: String,
    /// The airport longitude in decimal degrees (positive for east), kept
    /// as the validated decimal text of the source column.
    pub longitude_deg: String,
    /// The airport elevation MSL in feet (not metres). `None` if unavailable.
    pub elevation_ft: Option<i32>,
    /// The code for the continent where the airport is (primarily) located:
    /// "AF", "AN", "AS", "EU", "NA", "OC" or "SA".
    pub continent: String,
    /// The two-character ISO 3166:1-alpha2 code for the country where the
    /// airport is (primarily) located; a few non-ISO codes such as "XK" occur.
    pub iso_country: String,
    /// An alphanumeric code for the high-level administrative subdivision
    /// of a country where the airport is primarily located.
    pub iso_region: String,
    /// The primary municipality that the airport serves (when available),
    /// not necessarily where the airport is physically located.
    pub municipality: String,
    /// True if the airport currently has scheduled airline service.
    pub scheduled_service: bool,
    /// The code an aviation GPS database would normally use for the
    /// airport; always the ICAO code if one exists. Not guaranteed unique.
    pub gps_code: String,
    /// The three-letter IATA code for the airport, if it has one.
    pub iata_code: String,
    /// The local country code for the airport, if different from the
    /// `gps_code` and `iata_code` fields (used mainly for US airports).
    pub local_code: String,
    /// URL of the airport's official home page on the web, if one exists.
    pub home_link: String,
    /// URL of the airport's page on Wikipedia, if one exists.
    pub wikipedia_link: String,
    /// Extra keywords/phrases to assist with search: former names,
    /// alternate codes, names in other languages, nearby destinations.
    pub keywords: Vec<String>,
}

impl View for Airport {
    type V = AirportView;

    open spec fn view(&self) -> AirportView {
        AirportView {
            id: self.id@,
            ident: self.ident@,
            airport_type: self.airport_type@,
            name: self.name@,
            latitude_deg: self.latitude_deg@,
            longitude_deg: self.longitude_deg@,
            elevation_ft: opt_i32_view(self.elevation_ft),
            continent: self.continent@,
            iso_country: self.iso_country@,
            iso_region: self.iso_region@,
            municipality: self.municipality@,
            scheduled_service: self.scheduled_service,
            gps_code: self.gps_code@,
            iata_code: self.iata_code@,
            local_code: self.local_code@,
            home_link: self.home_link@,
            wikipedia_link: self.wikipedia_link@,
            keywords: self.keywords.deep_view(),
        }
    }
}

/// A well-formed airport record: the mandatory coordinates hold
/// decimal-number text and the optional elevation fits its column type.
pub open spec fn airport_wf(a: AirportView) -> bool {
    &&& is_decimal(a.latitude_deg)
    &&& is_decimal(a.longitude_deg)
    &&& opt_in_i32(a.elevation_ft)
}

/// The record an airport row decodes to, or the first failure in column
/// order that aborts the run: a wrong column count, a coordinate that is
/// not decimal-number text, or a bad boolean token.
pub open spec fn spec_decode_airport(row: Seq<Seq<char>>) -> Result<AirportView, ErrorModel> {
    if row.len() != AIRPORT_ARITY {
        Err(ErrorModel::Schema { expected: AIRPORT_ARITY as nat, actual: row.len() })
    } else if !is_decimal(row[4]) {
        Err(ErrorModel::BadNumber(row[4]))
    } else if !is_decimal(row[5]) {
        Err(ErrorModel::BadNumber(row[5]))
    } else if spec_bool_token(row[11]) is None {
        Err(ErrorModel::BadBool(row[11]))
    } else {
        Ok(
            AirportView {
                id: row[0],
                ident: row[1],
                airport_type: row[2],
                name: row[3],
                latitude_deg: row[4],
                longitude_deg: row[5],
                elevation_ft: spec_opt_i32(row[6]),
                continent: row[7],
                iso_country: row[8],
                iso_region: row[9],
                municipality: row[10],
                scheduled_service: spec_bool_token(row[11])->0,
                gps_code: row[12],
                iata_code: row[13],
                local_code: row[14],
                home_link: row[15],
                wikipedia_link: row[16],
                keywords: keywords_of(row[17]),
            },
        )
    }
}

/// The raw row of column text an airport record re-serializes to.
pub open spec fn spec_encode_airport(a: AirportView) -> Seq<Seq<char>> {
    seq![
        a.id,
        a.ident,
        a.airport_type,
        a.name,
        a.latitude_deg,
        a.longitude_deg,
        enc_opt_int(a.elevation_ft),
        a.continent,
        a.iso_country,
        a.iso_region,
        a.municipality,
        enc_bool(a.scheduled_service),
        a.gps_code,
        a.iata_code,
        a.local_code,
        a.home_link,
        a.wikipedia_link,
        enc_keywords(a.keywords),
    ]
}

/// The key/value pairs of an airport record's JSON object, in field order.
pub open spec fn airport_pairs(a: AirportView, pretty: bool) -> Seq<(Seq<char>, Seq<char>)> {
    seq![
        ("id"@, jstr(a.id)),
        ("ident"@, jstr(a.ident)),
        ("type"@, jstr(a.airport_type)),
        ("name"@, jstr(a.name)),
        ("latitude_deg"@, a.latitude_deg),
        ("longitude_deg"@, a.longitude_deg),
        ("elevation_ft"@, jopt_int(a.elevation_ft)),
        ("continent"@, jstr(a.continent)),
        ("iso_country"@, jstr(a.iso_country)),
        ("iso_region"@, jstr(a.iso_region)),
        ("municipality"@, jstr(a.municipality)),
        ("scheduled_service"@, jbool(a.scheduled_service)),
        ("gps_code"@, jstr(a.gps_code)),
        ("iata_code"@, jstr(a.iata_code)),
        ("local_code"@, jstr(a.local_code)),
        ("home_link"@, jstr(a.home_link)),
        ("wikipedia_link"@, jstr(a.wikipedia_link)),
        ("keywords"@, jlist(a.keywords, pretty)),
    ]
}

/// An airport record as a JSON object; the coordinate columns render as
/// bare JSON numbers, their text preserved verbatim.
pub open spec fn airport_json(a: AirportView, pretty: bool) -> Seq<char> {
    obj(airport_pairs(a, pretty), pretty)
}

impl Airport {
    /// Decodes one raw row into an airport record: checks the arity, then
    /// coerces each column in schema order.
    pub fn decode(row: &Vec<String>) -> (r: Result<Airport, ConvertError>)
        ensures
            spec_decode_airport(row.deep_view()) matches Ok(a) ==> (r matches Ok(rec) && rec@ == a),
            spec_decode_airport(row.deep_view()) matches Err(e) ==> (r matches Err(err) && err@
                == e),
    {
        proof {
            assert(row.deep_view().len() == row@.len());
            assert(forall|j: int|
                0 <= j < row@.len() ==> #[trigger] row.deep_view()[j] == row@[j]@);
        }
        if row.len() != AIRPORT_ARITY {
            return Err(ConvertError::Schema { expected: AIRPORT_ARITY, actual: row.len() });
        }
        let latitude_deg = match decimal_from_str(row[4].as_str()) {
            Ok(t) => t,
            Err(e) => {
                return Err(e);
            },
        };
        let longitude_deg = match decimal_from_str(row[5].as_str()) {
            Ok(t) => t,
            Err(e) => {
                return Err(e);
            },
        };
        let scheduled_service = match bool_from_str(row[11].as_str()) {
            Ok(b) => b,
            Err(e) => {
                return Err(e);
            },
        };
        let rec = Airport {
            id: row[0].clone(),
            ident: row[1].clone(),
            airport_type: row[2].clone(),
            name: row[3].clone(),
            latitude_deg,
            longitude_deg,
            elevation_ft: opt_i32_from_str(row[6].as_str()),
            continent: row[7].clone(),
            iso_country: row[8].clone(),
            iso_region: row[9].clone(),
            municipality: row[10].clone(),
            scheduled_service,
            gps_code: row[12].clone(),
            iata_code: row[13].clone(),
            local_code: row[14].clone(),
            home_link: row[15].clone(),
            wikipedia_link: row[16].clone(),
            keywords: vec_string_from_string(row[17].as_str()),
        };
        Ok(rec)
    }

    /// Re-serializes the record as its raw row of column text.
    pub fn to_row(&self) -> (r: Vec<String>)
        ensures
            r.deep_view() == spec_encode_airport(self@),
    {
        let mut r: Vec<String> = Vec::new();
        r.push(self.id.clone());
        r.push(self.ident.clone());
        r.push(self.airport_type.clone());
        r.push(self.name.clone());
        r.push(self.latitude_deg.clone());
        r.push(self.longitude_deg.clone());
        r.push(enc_opt_i32_exec(self.elevation_ft));
        r.push(self.continent.clone());
        r.push(self.iso_country.clone());
        r.push(self.iso_region.clone());
        r.push(self.municipality.clone());
        r.push(enc_bool_exec(self.scheduled_service));
        r.push(self.gps_code.clone());
        r.push(self.iata_code.clone());
        r.push(self.local_code.clone());
        r.push(self.home_link.clone());
        r.push(self.wikipedia_link.clone());
        r.push(enc_keywords_exec(&self.keywords));
        proof {
            assert(forall|j: int| 0 <= j < r@.len() ==> #[trigger] r.deep_view()[j] == r@[j]@);
            assert(r.deep_view() =~= spec_encode_airport(self@));
        }
        r
    }

    /// Renders the record as a JSON object.
    pub fn to_json(&self, pretty: bool) -> (r: String)
        ensures
            r@ == airport_json(self@, pretty),
    {
        let mut pairs: Vec<(String, String)> = Vec::new();
        pairs.push((String::from_str("id"), jstr_exec(self.id.as_str())));
        pairs.push((String::from_str("ident"), jstr_exec(self.ident.as_str())));
        pairs.push((String::from_str("type"), jstr_exec(self.airport_type.as_str())));
        pairs.push((String::from_str("name"), jstr_exec(self.name.as_str())));
        pairs.push((String::from_str("latitude_deg"), self.latitude_deg.clone()));
        pairs.push((String::from_str("longitude_deg"), self.longitude_deg.clone()));
        pairs.push((String::from_str("elevation_ft"), jopt_int_exec(
            match self.elevation_ft {
                Some(n) => Some(n as i64),
                None => None,
            },
        )));
        pairs.push((String::from_str("continent"), jstr_exec(self.continent.as_str())));
        pairs.push((String::from_str("iso_country"), jstr_exec(self.iso_country.as_str())));
        pairs.push((String::from_str("iso_region"), jstr_exec(self.iso_region.as_str())));
        pairs.push((String::from_str("municipality"), jstr_exec(self.municipality.as_str())));
        pairs.push((String::from_str("scheduled_service"), jbool_exec(self.scheduled_service)));
        pairs.push((String::from_str("gps_code"), jstr_exec(self.gps_code.as_str())));
        pairs.push((String::from_str("iata_code"), jstr_exec(self.iata_code.as_str())));
        pairs.push((String::from_str("local_code"), jstr_exec(self.local_code.as_str())));
        pairs.push((String::from_str("home_link"), jstr_exec(self.home_link.as_str())));
        pairs.push((String::from_str("wikipedia_link"), jstr_exec(self.wikipedia_link.as_str())));
        pairs.push((String::from_str("keywords"), jlist_exec(&self.keywords, pretty)));
        proof {
            assert(forall|j: int|
                0 <= j < pairs@.len() ==> #[trigger] pairs.deep_view()[j] == (
                pairs@[j].0@,
                pairs@[j].1@,
                ));
            assert(pairs.deep_view() =~~= airport_pairs(self@, pretty));
        }
        obj_exec(&pairs, pretty)
    }
}

/// Every successfully decoded airport record is well-formed.
pub proof fn lemma_decode_airport_wf(row: Seq<Seq<char>>)
    ensures
        spec_decode_airport(row) matches Ok(a) ==> airport_wf(a),
{
}

/// Decoding the re-serialized row of a well-formed airport record with
/// clean keywords gives the record back in all fields.
pub proof fn lemma_airport_round_trip(a: AirportView)
    requires
        airport_wf(a),
        keywords_clean(a.keywords),
    ensures
        spec_decode_airport(spec_encode_airport(a)) == Ok::<AirportView, ErrorModel>(a),
{
    lemma_opt_i32_round(a.elevation_ft);
    lemma_bool_round(a.scheduled_service);
    lemma_keywords_round_trip(a.keywords);
}

} // verus!
