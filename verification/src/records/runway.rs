//! Information about a single landing surface.

use vstd::prelude::*;
use crate::coerce::{
    bool_from_str, opt_decimal_from_str, opt_i32_from_str, opt_u32_from_str, spec_opt_decimal,
    spec_opt_i32, spec_opt_u32,
};
use crate::errors::{ConvertError, ErrorModel};
use crate::json::{jbool, jbool_exec, jopt_int, jopt_int_exec, jopt_num, jopt_num_exec, jstr,
    jstr_exec, obj, obj_exec};
use crate::numbers::is_decimal;
use crate::records::{
    enc_bool, enc_bool_exec, enc_opt_int, enc_opt_i32_exec, enc_opt_num, enc_opt_num_exec,
    enc_opt_u32_exec, lemma_bool_round, lemma_opt_i32_round, lemma_opt_num_round,
    lemma_opt_u32_round, opt_in_i32, opt_in_u32, opt_i32_view, opt_u32_view,
};
use crate::tokens::spec_bool_token;

verus! {

/// The number of columns of a runway row.
pub const RUNWAY_ARITY: usize = 20;

/// The mathematical value of a runway record.
pub struct RunwayView {
    pub id: Seq<char>,
    pub airport_ref: Seq<char>,
    pub airport_ident: Seq<char>,
    pub length_ft: Option<int>,
    pub width_ft: Option<int>,
    pub surface: Seq<char>,
    pub lighted: bool,
    pub closed: bool,
    pub le_ident: Seq<char>,
    pub le_latitude_deg: Option<Seq<char>>,
    pub le_longitude_deg: Option<Seq<char>>,
    pub le_elevation_ft: Option<int>,
    pub le_heading_deg_true: Option<Seq<char>>,
    pub le_displaced_threshold_ft: Option<int>,
    pub he_ident: Seq<char>,
    pub he_latitude_deg: Option<Seq<char>>,
    pub he_longitude_deg: Option<Seq<char>>,
    pub he_elevation_ft: Option<int>,
    pub he_heading_deg_true: Option<Seq<char>>,
    pub he_displaced_threshold_ft: Option<int>,
}

/// Contains information about a single landing surface.
#[derive(Debug, Clone)]
pub struct Runway {
    /// Internal OurAirports integer identifier for the runway.
    /// This will stay persistent, even if the runway numbering changes.
    pub id: String,
    /// Internal integer foreign key matching the `id` column of the
    /// associated airport record (`airport_ident` is a better alternative).
    pub airport_ref: String,
    /// Externally-visible string foreign key matching the `ident` column of
    /// the associated airport record.
    pub airport_ident: String,
    /// Length of the full runway surface (including displaced thresholds
    /// and overrun areas) in feet.
    pub length_ft: Option<u32>,
    /// Width of the runway surface in feet.
    pub width_ft: Option<u32>,
    /// Code for the runway surface type, such as "ASP" (asphalt), "TURF"
    /// (turf), "CON" (concrete) or "UNK" (unknown).
    pub surface: String,
    /// True if the surface is lighted at night.
    pub lighted: bool,
    /// True if the runway surface is currently closed.
    pub closed: bool,
    /// Identifier for the low-numbered end of the runway.
    pub le_ident: String,
    /// Latitude of the centre of the low-numbered end of the runway, in
    /// decimal degrees (positive is north), kept as decimal text.
    pub le_latitude_deg: Option<String>,
    /// Longitude of the centre of the low-numbered end of the runway, in
    /// decimal degrees (positive is east), kept as decimal text.
    pub le_longitude_deg: Option<String>,
    /// Elevation above MSL of the low-numbered end of the runway in feet.
    pub le_elevation_ft: Option<i32>,
    /// Heading of the low-numbered end of the runway in degrees true (not
    /// magnetic), kept as decimal text.
    pub le_heading_deg_true: Option<String>,
    /// Length of the displaced threshold (if any) for the low-numbered end
    /// of the runway, in feet.
    pub le_displaced_threshold_ft: Option<i32>,
    /// Identifier for the high-numbered end of the runway.
    pub he_ident: String,
    /// Latitude of the centre of the high-numbered end of the runway, in
    /// decimal degrees (positive is north), kept as decimal text.
    pub he_latitude_deg: Option<String>,
    /// Longitude of the centre of the high-numbered end of the runway, in
    /// decimal degrees (positive is east), kept as decimal text.
    pub he_longitude_deg: Option<String>,
    /// Elevation above MSL of the high-numbered end of the runway in feet.
    pub he_elevation_ft: Option<i32>,
    /// Heading of the high-numbered end of the runway in degrees true (not
    /// magnetic), kept as decimal text.
    pub he_heading_deg_true: Option<String>,
    /// Length of the displaced threshold (if any) for the high-numbered
    /// end of the runway, in feet.
    pub he_displaced_threshold_ft: Option<i32>,
}

impl View for Runway {
    type V = RunwayView;

    open spec fn view(&self) -> RunwayView {
        RunwayView {
            id: self.id@,
            airport_ref: self.airport_ref@,
            airport_ident: self.airport_ident@,
            length_ft: opt_u32_view(self.length_ft),
            width_ft: opt_u32_view(self.width_ft),
            surface: self.surface@,
            lighted: self.lighted,
            closed: self.closed,
            le_ident: self.le_ident@,
            le_latitude_deg: self.le_latitude_deg.deep_view(),
            le_longitude_deg: self.le_longitude_deg.deep_view(),
            le_elevation_ft: opt_i32_view(self.le_elevation_ft),
            le_heading_deg_true: self.le_heading_deg_true.deep_view(),
            le_displaced_threshold_ft: opt_i32_view(self.le_displaced_threshold_ft),
            he_ident: self.he_ident@,
            he_latitude_deg: self.he_latitude_deg.deep_view(),
            he_longitude_deg: self.he_longitude_deg.deep_view(),
            he_elevation_ft: opt_i32_view(self.he_elevation_ft),
            he_heading_deg_true: self.he_heading_deg_true.deep_view(),
            he_displaced_threshold_ft: opt_i32_view(self.he_displaced_threshold_ft),
        }
    }
}

/// Whether an optional text-preserved number holds decimal text when
/// present.
pub open spec fn opt_num_wf(o: Option<Seq<char>>) -> bool {
    match o {
        Some(t) => is_decimal(t),
        None => true,
    }
}

/// A well-formed runway record: every present optional number holds
/// decimal text and every present optional integer fits its column type.
pub open spec fn runway_wf(a: RunwayView) -> bool {
    &&& opt_in_u32(a.length_ft)
    &&& opt_in_u32(a.width_ft)
    &&& opt_num_wf(a.le_latitude_deg)
    &&& opt_num_wf(a.le_longitude_deg)
    &&& opt_in_i32(a.le_elevation_ft)
    &&& opt_num_wf(a.le_heading_deg_true)
    &&& opt_in_i32(a.le_displaced_threshold_ft)
    &&& opt_num_wf(a.he_latitude_deg)
    &&& opt_num_wf(a.he_longitude_deg)
    &&& opt_in_i32(a.he_elevation_ft)
    &&& opt_num_wf(a.he_heading_deg_true)
    &&& opt_in_i32(a.he_displaced_threshold_ft)
}

/// The record a runway row decodes to, or the first failure in column
/// order that aborts the run: a wrong column count or a bad boolean token;
/// every numeric column here is optional and falls back to absent.
pub open spec fn spec_decode_runway(row: Seq<Seq<char>>) -> Result<RunwayView, ErrorModel> {
    if row.len() != RUNWAY_ARITY {
        Err(ErrorModel::Schema { expected: RUNWAY_ARITY as nat, actual: row.len() })
    } else if spec_bool_token(row[6]) is None {
        Err(ErrorModel::BadBool(row[6]))
    } else if spec_bool_token(row[7]) is None {
        Err(ErrorModel::BadBool(row[7]))
    } else {
        Ok(
            RunwayView {
                id: row[0],
                airport_ref: row[1],
                airport_ident: row[2],
                length_ft: spec_opt_u32(row[3]),
                width_ft: spec_opt_u32(row[4]),
                surface: row[5],
                lighted: spec_bool_token(row[6])->0,
                closed: spec_bool_token(row[7])->0,
                le_ident: row[8],
                le_latitude_deg: spec_opt_decimal(row[9]),
                le_longitude_deg: spec_opt_decimal(row[10]),
                le_elevation_ft: spec_opt_i32(row[11]),
                le_heading_deg_true: spec_opt_decimal(row[12]),
                le_displaced_threshold_ft: spec_opt_i32(row[13]),
                he_ident: row[14],
                he_latitude_deg: spec_opt_decimal(row[15]),
                he_longitude_deg: spec_opt_decimal(row[16]),
                he_elevation_ft: spec_opt_i32(row[17]),
                he_heading_deg_true: spec_opt_decimal(row[18]),
                he_displaced_threshold_ft: spec_opt_i32(row[19]),
            },
        )
    }
}

/// The raw row of column text a runway record re-serializes to.
pub open spec fn spec_encode_runway(a: RunwayView) -> Seq<Seq<char>> {
    seq![
        a.id,
        a.airport_ref,
        a.airport_ident,
        enc_opt_int(a.length_ft),
        enc_opt_int(a.width_ft),
        a.surface,
        enc_bool(a.lighted),
        enc_bool(a.closed),
        a.le_ident,
        enc_opt_num(a.le_latitude_deg),
        enc_opt_num(a.le_longitude_deg),
        enc_opt_int(a.le_elevation_ft),
        enc_opt_num(a.le_heading_deg_true),
        enc_opt_int(a.le_displaced_threshold_ft),
        a.he_ident,
        enc_opt_num(a.he_latitude_deg),
        enc_opt_num(a.he_longitude_deg),
        enc_opt_int(a.he_elevation_ft),
        enc_opt_num(a.he_heading_deg_true),
        enc_opt_int(a.he_displaced_threshold_ft),
    ]
}

/// The key/value pairs of a runway record's JSON object, in field order;
/// the per-end heading columns keep their source names with the trailing
/// capital T.
pub open spec fn runway_pairs(a: RunwayView) -> Seq<(Seq<char>, Seq<char>)> {
    seq![
        ("id"@, jstr(a.id)),
        ("airport_ref"@, jstr(a.airport_ref)),
        ("airport_ident"@, jstr(a.airport_ident)),
        ("length_ft"@, jopt_int(a.length_ft)),
        ("width_ft"@, jopt_int(a.width_ft)),
        ("surface"@, jstr(a.surface)),
        ("lighted"@, jbool(a.lighted)),
        ("closed"@, jbool(a.closed)),
        ("le_ident"@, jstr(a.le_ident)),
        ("le_latitude_deg"@, jopt_num(a.le_latitude_deg)),
        ("le_longitude_deg"@, jopt_num(a.le_longitude_deg)),
        ("le_elevation_ft"@, jopt_int(a.le_elevation_ft)),
        ("le_heading_degT"@, jopt_num(a.le_heading_deg_true)),
        ("le_displaced_threshold_ft"@, jopt_int(a.le_displaced_threshold_ft)),
        ("he_ident"@, jstr(a.he_ident)),
        ("he_latitude_deg"@, jopt_num(a.he_latitude_deg)),
        ("he_longitude_deg"@, jopt_num(a.he_longitude_deg)),
        ("he_elevation_ft"@, jopt_int(a.he_elevation_ft)),
        ("he_heading_degT"@, jopt_num(a.he_heading_deg_true)),
        ("he_displaced_threshold_ft"@, jopt_int(a.he_displaced_threshold_ft)),
    ]
}

/// A runway record as a JSON object.
pub open spec fn runway_json(a: RunwayView, pretty: bool) -> Seq<char> {
    obj(runway_pairs(a), pretty)
}

impl Runway {
    /// Decodes one raw row into a runway record: checks the arity, then
    /// coerces each column in schema order.
    pub fn decode(row: &Vec<String>) -> (r: Result<Runway, ConvertError>)
        ensures
            spec_decode_runway(row.deep_view()) matches Ok(a) ==> (r matches Ok(rec) && rec@ == a),
            spec_decode_runway(row.deep_view()) matches Err(e) ==> (r matches Err(err) && err@
                == e),
    {
        proof {
            assert(row.deep_view().len() == row@.len());
            assert(forall|j: int|
                0 <= j < row@.len() ==> #[trigger] row.deep_view()[j] == row@[j]@);
        }
        if row.len() != RUNWAY_ARITY {
            return Err(ConvertError::Schema { expected: RUNWAY_ARITY, actual: row.len() });
        }
        let lighted = match bool_from_str(row[6].as_str()) {
            Ok(b) => b,
            Err(e) => {
                return Err(e);
            },
        };
        let closed = match bool_from_str(row[7].as_str()) {
            Ok(b) => b,
            Err(e) => {
                return Err(e);
            },
        };
        let rec = Runway {
            id: row[0].clone(),
            airport_ref: row[1].clone(),
            airport_ident: row[2].clone(),
            length_ft: opt_u32_from_str(row[3].as_str()),
            width_ft: opt_u32_from_str(row[4].as_str()),
            surface: row[5].clone(),
            lighted,
            closed,
            le_ident: row[8].clone(),
            le_latitude_deg: opt_decimal_from_str(row[9].as_str()),
            le_longitude_deg: opt_decimal_from_str(row[10].as_str()),
            le_elevation_ft: opt_i32_from_str(row[11].as_str()),
            le_heading_deg_true: opt_decimal_from_str(row[12].as_str()),
            le_displaced_threshold_ft: opt_i32_from_str(row[13].as_str()),
            he_ident: row[14].clone(),
            he_latitude_deg: opt_decimal_from_str(row[15].as_str()),
            he_longitude_deg: opt_decimal_from_str(row[16].as_str()),
            he_elevation_ft: opt_i32_from_str(row[17].as_str()),
            he_heading_deg_true: opt_decimal_from_str(row[18].as_str()),
            he_displaced_threshold_ft: opt_i32_from_str(row[19].as_str()),
        };
        Ok(rec)
    }

    /// Re-serializes the record as its raw row of column text.
    pub fn to_row(&self) -> (r: Vec<String>)
        ensures
            r.deep_view() == spec_encode_runway(self@),
    {
        let mut r: Vec<String> = Vec::new();
        r.push(self.id.clone());
        r.push(self.airport_ref.clone());
        r.push(self.airport_ident.clone());
        r.push(enc_opt_u32_exec(self.length_ft));
        r.push(enc_opt_u32_exec(self.width_ft));
        r.push(self.surface.clone());
        r.push(enc_bool_exec(self.lighted));
        r.push(enc_bool_exec(self.closed));
        r.push(self.le_ident.clone());
        r.push(enc_opt_num_exec(&self.le_latitude_deg));
        r.push(enc_opt_num_exec(&self.le_longitude_deg));
        r.push(enc_opt_i32_exec(self.le_elevation_ft));
        r.push(enc_opt_num_exec(&self.le_heading_deg_true));
        r.push(enc_opt_i32_exec(self.le_displaced_threshold_ft));
        r.push(self.he_ident.clone());
        r.push(enc_opt_num_exec(&self.he_latitude_deg));
        r.push(enc_opt_num_exec(&self.he_longitude_deg));
        r.push(enc_opt_i32_exec(self.he_elevation_ft));
        r.push(enc_opt_num_exec(&self.he_heading_deg_true));
        r.push(enc_opt_i32_exec(self.he_displaced_threshold_ft));
        proof {
            assert(forall|j: int| 0 <= j < r@.len() ==> #[trigger] r.deep_view()[j] == r@[j]@);
            assert(r.deep_view() =~= spec_encode_runway(self@));
        }
        r
    }

    /// Renders the record as a JSON object.
    pub fn to_json(&self, pretty: bool) -> (r: String)
        ensures
            r@ == runway_json(self@, pretty),
    {
        let mut pairs: Vec<(String, String)> = Vec::new();
        pairs.push((String::from_str("id"), jstr_exec(self.id.as_str())));
        pairs.push((String::from_str("airport_ref"), jstr_exec(self.airport_ref.as_str())));
        pairs.push((String::from_str("airport_ident"), jstr_exec(self.airport_ident.as_str())));
        pairs.push((String::from_str("length_ft"), jopt_int_exec(opt_u32_to_i64(self.length_ft))));
        pairs.push((String::from_str("width_ft"), jopt_int_exec(opt_u32_to_i64(self.width_ft))));
        pairs.push((String::from_str("surface"), jstr_exec(self.surface.as_str())));
        pairs.push((String::from_str("lighted"), jbool_exec(self.lighted)));
        pairs.push((String::from_str("closed"), jbool_exec(self.closed)));
        pairs.push((String::from_str("le_ident"), jstr_exec(self.le_ident.as_str())));
        pairs.push((String::from_str("le_latitude_deg"), jopt_num_exec(&self.le_latitude_deg)));
        pairs.push((String::from_str("le_longitude_deg"), jopt_num_exec(&self.le_longitude_deg)));
        pairs.push((String::from_str("le_elevation_ft"), jopt_int_exec(
            opt_i32_to_i64(self.le_elevation_ft),
        )));
        pairs.push((String::from_str("le_heading_degT"), jopt_num_exec(
            &self.le_heading_deg_true,
        )));
        pairs.push((String::from_str("le_displaced_threshold_ft"), jopt_int_exec(
            opt_i32_to_i64(self.le_displaced_threshold_ft),
        )));
        pairs.push((String::from_str("he_ident"), jstr_exec(self.he_ident.as_str())));
        pairs.push((String::from_str("he_latitude_deg"), jopt_num_exec(&self.he_latitude_deg)));
        pairs.push((String::from_str("he_longitude_deg"), jopt_num_exec(&self.he_longitude_deg)));
        pairs.push((String::from_str("he_elevation_ft"), jopt_int_exec(
            opt_i32_to_i64(self.he_elevation_ft),
        )));
        pairs.push((String::from_str("he_heading_degT"), jopt_num_exec(
            &self.he_heading_deg_true,
        )));
        pairs.push((String::from_str("he_displaced_threshold_ft"), jopt_int_exec(
            opt_i32_to_i64(self.he_displaced_threshold_ft),
        )));
        proof {
            assert(forall|j: int|
                0 <= j < pairs@.len() ==> #[trigger] pairs.deep_view()[j] == (
                pairs@[j].0@,
                pairs@[j].1@,
                ));
            assert(pairs.deep_view() =~~= runway_pairs(self@));
        }
        obj_exec(&pairs, pretty)
    }
}

fn opt_i32_to_i64(o: Option<i32>) -> (r: Option<i64>)
    ensures
        (match r {
            Some(n) => Some(n as int),
            None => None,
        }) == opt_i32_view(o),
{
    match o {
        Some(n) => Some(n as i64),
        None => None,
    }
}

fn opt_u32_to_i64(o: Option<u32>) -> (r: Option<i64>)
    ensures
        (match r {
            Some(n) => Some(n as int),
            None => None,
        }) == opt_u32_view(o),
{
    match o {
        Some(n) => Some(n as i64),
        None => None,
    }
}

/// Every successfully decoded runway record is well-formed.
pub proof fn lemma_decode_runway_wf(row: Seq<Seq<char>>)
    ensures
        spec_decode_runway(row) matches Ok(a) ==> runway_wf(a),
{
}

/// Decoding the re-serialized row of a well-formed runway record gives the
/// record back in all fields: optional numbers are preserved verbatim.
pub proof fn lemma_runway_round_trip(a: RunwayView)
    requires
        runway_wf(a),
    ensures
        spec_decode_runway(spec_encode_runway(a)) == Ok::<RunwayView, ErrorModel>(a),
{
    lemma_opt_u32_round(a.length_ft);
    lemma_opt_u32_round(a.width_ft);
    lemma_bool_round(a.lighted);
    lemma_bool_round(a.closed);
    lemma_opt_num_round(a.le_latitude_deg);
    lemma_opt_num_round(a.le_longitude_deg);
    lemma_opt_i32_round(a.le_elevation_ft);
    lemma_opt_num_round(a.le_heading_deg_true);
    lemma_opt_i32_round(a.le_displaced_threshold_ft);
    lemma_opt_num_round(a.he_latitude_deg);
    lemma_opt_num_round(a.he_longitude_deg);
    lemma_opt_i32_round(a.he_elevation_ft);
    lemma_opt_num_round(a.he_heading_deg_true);
    lemma_opt_i32_round(a.he_displaced_threshold_ft);
}

} // verus!
