//! A single radio navigation aid.

use vstd::prelude::*;
use crate::coerce::{opt_decimal_from_str, opt_i32_from_str, spec_opt_decimal, spec_opt_i32};
use crate::errors::{ConvertError, ErrorModel};
use crate::json::{jopt_int, jopt_int_exec, jopt_num, jopt_num_exec, jstr, jstr_exec, obj,
    obj_exec};
use crate::records::{
    enc_opt_int, enc_opt_i32_exec, enc_opt_num, enc_opt_num_exec, lemma_opt_i32_round,
    lemma_opt_num_round, opt_in_i32, opt_i32_view,
};
use crate::records::runway::opt_num_wf;

verus! {

/// The number of columns of a navaid row.
pub const NAVAID_ARITY: usize = 20;

/// The mathematical value of a navaid record.
pub struct NavaidView {
    pub id: Seq<char>,
    pub filename: Seq<char>,
    pub ident: Seq<char>,
    pub name: Seq<char>,
    pub navaid_type: Seq<char>,
    pub frequency_khz: Seq<char>,
    pub latitude_deg: Option<Seq<char>>,
    pub longitude_deg: Option<Seq<char>>,
    pub elevation_ft: Option<int>,
    pub iso_country: Seq<char>,
    pub dme_frequency_khz: Seq<char>,
    pub dme_channel: Seq<char>,
    pub dme_latitude_deg: Option<Seq<char>>,
    pub dme_longitude_deg: Option<Seq<char>>,
    pub dme_elevation_ft: Option<int>,
    pub slaved_variation_deg: Option<Seq<char>>,
    pub magnetic_variation_deg: Option<Seq<char>>,
    pub usage_type: Seq<char>,
    pub power: Seq<char>,
    pub associated_airport: Seq<char>,
}

/// Represents a single radio navigation aid.
#[derive(Debug, Clone)]
pub struct Navaid {
    /// Internal OurAirports integer identifier for the navaid. This will
    /// stay persistent, even if the navaid identifier or frequency changes.
    pub id: String,
    /// A unique string identifier constructed from the navaid name and
    /// country, used in the OurAirports URL.
    pub filename: String,
    /// The 1-3 character identifier that the navaid transmits.
    pub ident: String,
    /// The name of the navaid, excluding its type.
    pub name: String,
    /// The type of the navaid: "DME", "NDB", "NDB-DME", "TACAN", "VOR",
    /// "VOR-DME" or "VORTAC".
    pub navaid_type: String,
    /// The frequency of the navaid in kilohertz, kept as text. For the VHF
    /// band divide by 1,000 to get megahertz; for an NDB use it directly.
    pub frequency_khz: String,
    /// The latitude of the navaid in decimal degrees (negative for south),
    /// kept as decimal text.
    pub latitude_deg: Option<String>,
    /// The longitude of the navaid in decimal degrees (negative for west),
    /// kept as decimal text.
    pub longitude_deg: Option<String>,
    /// The navaid's elevation MSL in feet (not metres).
    pub elevation_ft: Option<i32>,
    /// The two-character ISO 3166:1-alpha2 code for the country that
    /// operates the navaid; a few non-ISO codes such as "XK" occur.
    pub iso_country: String,
    /// The paired VHF frequency for the DME (or TACAN) in kilohertz, kept
    /// as text; divide by 1,000 for megahertz.
    pub dme_frequency_khz: String,
    /// The DME channel, an alternative way of tuning distance-measuring
    /// equipment.
    pub dme_channel: String,
    /// The latitude of the associated DME in decimal degrees (negative for
    /// south); if missing, assume it equals `latitude_deg`.
    pub dme_latitude_deg: Option<String>,
    /// The longitude of the associated DME in decimal degrees (negative
    /// for west); if missing, assume it equals `longitude_deg`.
    pub dme_longitude_deg: Option<String>,
    /// The associated DME transmitter's elevation MSL in feet; if missing,
    /// assume it equals `elevation_ft`.
    pub dme_elevation_ft: Option<i32>,
    /// The magnetic variation adjustment built into a VOR's, VOR-DME's or
    /// TACAN's radials, in degrees; positive means east, kept as text.
    pub slaved_variation_deg: Option<String>,
    /// The actual magnetic variation at the navaid's location, in degrees;
    /// positive means east, kept as text.
    pub magnetic_variation_deg: Option<String>,
    /// The primary function of the navaid in the airspace system: "HI",
    /// "LO", "BOTH", "TERM" or "RNAV".
    pub usage_type: String,
    /// The power-output level of the navaid: "HIGH", "MEDIUM", "LOW" or
    /// "UNKNOWN".
    pub power: String,
    /// The OurAirports text identifier (usually the ICAO code) for an
    /// airport associated with the navaid.
    pub associated_airport: String,
}

impl View for Navaid {
    type V = NavaidView;

    open spec fn view(&self) -> NavaidView {
        NavaidView {
            id: self.id@,
            filename: self.filename@,
            ident: self.ident@,
            name: self.name@,
            navaid_type: self.navaid_type@,
            frequency_khz: self.frequency_khz@,
            latitude_deg: self.latitude_deg.deep_view(),
            longitude_deg: self.longitude_deg.deep_view(),
            elevation_ft: opt_i32_view(self.elevation_ft),
            iso_country: self.iso_country@,
            dme_frequency_khz: self.dme_frequency_khz@,
            dme_channel: self.dme_channel@,
            dme_latitude_deg: self.dme_latitude_deg.deep_view(),
            dme_longitude_deg: self.dme_longitude_deg.deep_view(),
            dme_elevation_ft: opt_i32_view(self.dme_elevation_ft),
            slaved_variation_deg: self.slaved_variation_deg.deep_view(),
            magnetic_variation_deg: self.magnetic_variation_deg.deep_view(),
            usage_type: self.usage_type@,
            power: self.power@,
            associated_airport: self.associated_airport@,
        }
    }
}

/// A well-formed navaid record: every present optional number holds
/// decimal text and every present optional integer fits its column type.
pub open spec fn navaid_wf(a: NavaidView) -> bool {
    &&& opt_num_wf(a.latitude_deg)
    &&& opt_num_wf(a.longitude_deg)
    &&& opt_in_i32(a.elevation_ft)
    &&& opt_num_wf(a.dme_latitude_deg)
    &&& opt_num_wf(a.dme_longitude_deg)
    &&& opt_in_i32(a.dme_elevation_ft)
    &&& opt_num_wf(a.slaved_variation_deg)
    &&& opt_num_wf(a.magnetic_variation_deg)
}

/// The record a navaid row decodes to, or the failure that aborts the run:
/// only a wrong column count can fail here, every numeric column being
/// optional.
pub open spec fn spec_decode_navaid(row: Seq<Seq<char>>) -> Result<NavaidView, ErrorModel> {
    if row.len() != NAVAID_ARITY {
        Err(ErrorModel::Schema { expected: NAVAID_ARITY as nat, actual: row.len() })
    } else {
        Ok(
            NavaidView {
                id: row[0],
                filename: row[1],
                ident: row[2],
                name: row[3],
                navaid_type: row[4],
                frequency_khz: row[5],
                latitude_deg: spec_opt_decimal(row[6]),
                longitude_deg: spec_opt_decimal(row[7]),
                elevation_ft: spec_opt_i32(row[8]),
                iso_country: row[9],
                dme_frequency_khz: row[10],
                dme_channel: row[11],
                dme_latitude_deg: spec_opt_decimal(row[12]),
                dme_longitude_deg: spec_opt_decimal(row[13]),
                dme_elevation_ft: spec_opt_i32(row[14]),
                slaved_variation_deg: spec_opt_decimal(row[15]),
                magnetic_variation_deg: spec_opt_decimal(row[16]),
                usage_type: row[17],
                power: row[18],
                associated_airport: row[19],
            },
        )
    }
}

/// The raw row of column text a navaid record re-serializes to.
pub open spec fn spec_encode_navaid(a: NavaidView) -> Seq<Seq<char>> {
    seq![
        a.id,
        a.filename,
        a.ident,
        a.name,
        a.navaid_type,
        a.frequency_khz,
        enc_opt_num(a.latitude_deg),
        enc_opt_num(a.longitude_deg),
        enc_opt_int(a.elevation_ft),
        a.iso_country,
        a.dme_frequency_khz,
        a.dme_channel,
        enc_opt_num(a.dme_latitude_deg),
        enc_opt_num(a.dme_longitude_deg),
        enc_opt_int(a.dme_elevation_ft),
        enc_opt_num(a.slaved_variation_deg),
        enc_opt_num(a.magnetic_variation_deg),
        a.usage_type,
        a.power,
        a.associated_airport,
    ]
}

/// The key/value pairs of a navaid record's JSON object, in field order;
/// the usage column keeps its source name `usageType`.
pub open spec fn navaid_pairs(a: NavaidView) -> Seq<(Seq<char>, Seq<char>)> {
    seq![
        ("id"@, jstr(a.id)),
        ("filename"@, jstr(a.filename)),
        ("ident"@, jstr(a.ident)),
        ("name"@, jstr(a.name)),
        ("type"@, jstr(a.navaid_type)),
        ("frequency_khz"@, jstr(a.frequency_khz)),
        ("latitude_deg"@, jopt_num(a.latitude_deg)),
        ("longitude_deg"@, jopt_num(a.longitude_deg)),
        ("elevation_ft"@, jopt_int(a.elevation_ft)),
        ("iso_country"@, jstr(a.iso_country)),
        ("dme_frequency_khz"@, jstr(a.dme_frequency_khz)),
        ("dme_channel"@, jstr(a.dme_channel)),
        ("dme_latitude_deg"@, jopt_num(a.dme_latitude_deg)),
        ("dme_longitude_deg"@, jopt_num(a.dme_longitude_deg)),
        ("dme_elevation_ft"@, jopt_int(a.dme_elevation_ft)),
        ("slaved_variation_deg"@, jopt_num(a.slaved_variation_deg)),
        ("magnetic_variation_deg"@, jopt_num(a.magnetic_variation_deg)),
        ("usageType"@, jstr(a.usage_type)),
        ("power"@, jstr(a.power)),
        ("associated_airport"@, jstr(a.associated_airport)),
    ]
}

/// A navaid record as a JSON object.
pub open spec fn navaid_json(a: NavaidView, pretty: bool) -> Seq<char> {
    obj(navaid_pairs(a), pretty)
}

impl Navaid {
    /// Decodes one raw row into a navaid record: checks the arity, then
    /// coerces each column in schema order.
    pub fn decode(row: &Vec<String>) -> (r: Result<Navaid, ConvertError>)
        ensures
            spec_decode_navaid(row.deep_view()) matches Ok(a) ==> (r matches Ok(rec) && rec@ == a),
            spec_decode_navaid(row.deep_view()) matches Err(e) ==> (r matches Err(err) && err@
                == e),
    {
        proof {
            assert(row.deep_view().len() == row@.len());
            assert(forall|j: int|
                0 <= j < row@.len() ==> #[trigger] row.deep_view()[j] == row@[j]@);
        }
        if row.len() != NAVAID_ARITY {
            return Err(ConvertError::Schema { expected: NAVAID_ARITY, actual: row.len() });
        }
        let rec = Navaid {
            id: row[0].clone(),
            filename: row[1].clone(),
            ident: row[2].clone(),
            name: row[3].clone(),
            navaid_type: row[4].clone(),
            frequency_khz: row[5].clone(),
            latitude_deg: opt_decimal_from_str(row[6].as_str()),
            longitude_deg: opt_decimal_from_str(row[7].as_str()),
            elevation_ft: opt_i32_from_str(row[8].as_str()),
            iso_country: row[9].clone(),
            dme_frequency_khz: row[10].clone(),
            dme_channel: row[11].clone(),
            dme_latitude_deg: opt_decimal_from_str(row[12].as_str()),
            dme_longitude_deg: opt_decimal_from_str(row[13].as_str()),
            dme_elevation_ft: opt_i32_from_str(row[14].as_str()),
            slaved_variation_deg: opt_decimal_from_str(row[15].as_str()),
            magnetic_variation_deg: opt_decimal_from_str(row[16].as_str()),
            usage_type: row[17].clone(),
            power: row[18].clone(),
            associated_airport: row[19].clone(),
        };
        Ok(rec)
    }

    /// Re-serializes the record as its raw row of column text.
    pub fn to_row(&self) -> (r: Vec<String>)
        ensures
            r.deep_view() == spec_encode_navaid(self@),
    {
        let mut r: Vec<String> = Vec::new();
        r.push(self.id.clone());
        r.push(self.filename.clone());
        r.push(self.ident.clone());
        r.push(self.name.clone());
        r.push(self.navaid_type.clone());
        r.push(self.frequency_khz.clone());
        r.push(enc_opt_num_exec(&self.latitude_deg));
        r.push(enc_opt_num_exec(&self.longitude_deg));
        r.push(enc_opt_i32_exec(self.elevation_ft));
        r.push(self.iso_country.clone());
        r.push(self.dme_frequency_khz.clone());
        r.push(self.dme_channel.clone());
        r.push(enc_opt_num_exec(&self.dme_latitude_deg));
        r.push(enc_opt_num_exec(&self.dme_longitude_deg));
        r.push(enc_opt_i32_exec(self.dme_elevation_ft));
        r.push(enc_opt_num_exec(&self.slaved_variation_deg));
        r.push(enc_opt_num_exec(&self.magnetic_variation_deg));
        r.push(self.usage_type.clone());
        r.push(self.power.clone());
        r.push(self.associated_airport.clone());
        proof {
            assert(forall|j: int| 0 <= j < r@.len() ==> #[trigger] r.deep_view()[j] == r@[j]@);
            assert(r.deep_view() =~= spec_encode_navaid(self@));
        }
        r
    }

    /// Renders the record as a JSON object.
    pub fn to_json(&self, pretty: bool) -> (r: String)
        ensures
            r@ == navaid_json(self@, pretty),
    {
        let mut pairs: Vec<(String, String)> = Vec::new();
        pairs.push((String::from_str("id"), jstr_exec(self.id.as_str())));
        pairs.push((String::from_str("filename"), jstr_exec(self.filename.as_str())));
        pairs.push((String::from_str("ident"), jstr_exec(self.ident.as_str())));
        pairs.push((String::from_str("name"), jstr_exec(self.name.as_str())));
        pairs.push((String::from_str("type"), jstr_exec(self.navaid_type.as_str())));
        pairs.push((String::from_str("frequency_khz"), jstr_exec(self.frequency_khz.as_str())));
        pairs.push((String::from_str("latitude_deg"), jopt_num_exec(&self.latitude_deg)));
        pairs.push((String::from_str("longitude_deg"), jopt_num_exec(&self.longitude_deg)));
        pairs.push((String::from_str("elevation_ft"), jopt_int_exec(
            match self.elevation_ft {
                Some(n) => Some(n as i64),
                None => None,
            },
        )));
        pairs.push((String::from_str("iso_country"), jstr_exec(self.iso_country.as_str())));
        pairs.push((String::from_str("dme_frequency_khz"), jstr_exec(
            self.dme_frequency_khz.as_str(),
        )));
        pairs.push((String::from_str("dme_channel"), jstr_exec(self.dme_channel.as_str())));
        pairs.push((String::from_str("dme_latitude_deg"), jopt_num_exec(&self.dme_latitude_deg)));
        pairs.push((String::from_str("dme_longitude_deg"), jopt_num_exec(
            &self.dme_longitude_deg,
        )));
        pairs.push((String::from_str("dme_elevation_ft"), jopt_int_exec(
            match self.dme_elevation_ft {
                Some(n) => Some(n as i64),
                None => None,
            },
        )));
        pairs.push((String::from_str("slaved_variation_deg"), jopt_num_exec(
            &self.slaved_variation_deg,
        )));
        pairs.push((String::from_str("magnetic_variation_deg"), jopt_num_exec(
            &self.magnetic_variation_deg,
        )));
        pairs.push((String::from_str("usageType"), jstr_exec(self.usage_type.as_str())));
        pairs.push((String::from_str("power"), jstr_exec(self.power.as_str())));
        pairs.push((String::from_str("associated_airport"), jstr_exec(
            self.associated_airport.as_str(),
        )));
        proof {
            assert(forall|j: int|
                0 <= j < pairs@.len() ==> #[trigger] pairs.deep_view()[j] == (
                pairs@[j].0@,
                pairs@[j].1@,
                ));
            assert(pairs.deep_view() =~~= navaid_pairs(self@));
        }
        obj_exec(&pairs, pretty)
    }
}

/// Every successfully decoded navaid record is well-formed.
pub proof fn lemma_decode_navaid_wf(row: Seq<Seq<char>>)
    ensures
        spec_decode_navaid(row) matches Ok(a) ==> navaid_wf(a),
{
}

/// Decoding the re-serialized row of a well-formed navaid record gives the
/// record back in all fields: the kilohertz columns and every optional
/// number are preserved verbatim.
pub proof fn lemma_navaid_round_trip(a: NavaidView)
    requires
        navaid_wf(a),
    ensures
        spec_decode_navaid(spec_encode_navaid(a)) == Ok::<NavaidView, ErrorModel>(a),
{
    lemma_opt_num_round(a.latitude_deg);
    lemma_opt_num_round(a.longitude_deg);
    lemma_opt_i32_round(a.elevation_ft);
    lemma_opt_num_round(a.dme_latitude_deg);
    lemma_opt_num_round(a.dme_longitude_deg);
    lemma_opt_i32_round(a.dme_elevation_ft);
    lemma_opt_num_round(a.slaved_variation_deg);
    lemma_opt_num_round(a.magnetic_variation_deg);
}

} // verus!
