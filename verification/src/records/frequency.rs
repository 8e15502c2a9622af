//! A single airport radio frequency for voice communication (radio
//! navigation aids are navaid records).

use vstd::prelude::*;
use crate::errors::{ConvertError, ErrorModel};
use crate::json::{jstr, jstr_exec, obj, obj_exec};

verus! {

/// The number of columns of a frequency row.
pub const FREQUENCY_ARITY: usize = 6;

/// The mathematical value of a frequency record.
pub struct AirportFrequencyView {
    pub id: Seq<char>,
    pub airport_ref: Seq<char>,
    pub airport_ident: Seq<char>,
    pub frequency_type: Seq<char>,
    pub description: Seq<char>,
    pub frequency_mhz: Seq<char>,
}

/// Contains a record of a single airport radio frequency.
#[derive(Debug, Clone)]
pub struct AirportFrequency {
    /// Internal OurAirports integer identifier for the frequency.
    /// This will stay persistent, even if the radio frequency or description changes.
    pub id: String,
    /// Internal integer foreign key matching the `id` column for the
    /// associated airport record (`airport_ident` is a better alternative).
    pub airport_ref: String,
    /// Externally-visible string foreign key matching the `ident` column of
    /// the associated airport record.
    pub airport_ident: String,
    /// A code for the frequency type, such as "TWR" (tower), "GND" (ground
    /// control) or "ATIS" (automated weather).
    pub frequency_type: String,
    /// A description of the frequency, typically the way a pilot would open
    /// a call on it.
    pub description: String,
    /// Radio voice frequency in megahertz, kept as text; the same frequency
    /// may appear multiple times for an airport, serving different functions.
    pub frequency_mhz: String,
}

impl View for AirportFrequency {
    type V = AirportFrequencyView;

    open spec fn view(&self) -> AirportFrequencyView {
        AirportFrequencyView {
            id: self.id@,
            airport_ref: self.airport_ref@,
            airport_ident: self.airport_ident@,
            frequency_type: self.frequency_type@,
            description: self.description@,
            frequency_mhz: self.frequency_mhz@,
        }
    }
}

/// The record a frequency row decodes to, or the failure that aborts the
/// run: only a wrong column count can fail here.
pub open spec fn spec_decode_frequency(row: Seq<Seq<char>>) -> Result<
    AirportFrequencyView,
    ErrorModel,
> {
    if row.len() != FREQUENCY_ARITY {
        Err(ErrorModel::Schema { expected: FREQUENCY_ARITY as nat, actual: row.len() })
    } else {
        Ok(
            AirportFrequencyView {
                id: row[0],
                airport_ref: row[1],
                airport_ident: row[2],
                frequency_type: row[3],
                description: row[4],
                frequency_mhz: row[5],
            },
        )
    }
}

/// The raw row of column text a frequency record re-serializes to.
pub open spec fn spec_encode_frequency(a: AirportFrequencyView) -> Seq<Seq<char>> {
    seq![a.id, a.airport_ref, a.airport_ident, a.frequency_type, a.description, a.frequency_mhz]
}

/// The key/value pairs of a frequency record's JSON object, in field order.
pub open spec fn frequency_pairs(a: AirportFrequencyView) -> Seq<(Seq<char>, Seq<char>)> {
    seq![
        ("id"@, jstr(a.id)),
        ("airport_ref"@, jstr(a.airport_ref)),
        ("airport_ident"@, jstr(a.airport_ident)),
        ("type"@, jstr(a.frequency_type)),
        ("description"@, jstr(a.description)),
        ("frequency_mhz"@, jstr(a.frequency_mhz)),
    ]
}

/// A frequency record as a JSON object.
pub open spec fn frequency_json(a: AirportFrequencyView, pretty: bool) -> Seq<char> {
    obj(frequency_pairs(a), pretty)
}

impl AirportFrequency {
    /// Decodes one raw row into a frequency record, checking the arity.
    pub fn decode(row: &Vec<String>) -> (r: Result<AirportFrequency, ConvertError>)
        ensures
            spec_decode_frequency(row.deep_view()) matches Ok(a) ==> (r matches Ok(rec) && rec@
                == a),
            spec_decode_frequency(row.deep_view()) matches Err(e) ==> (r matches Err(err) && err@
                == e),
    {
        proof {
            assert(row.deep_view().len() == row@.len());
            assert(forall|j: int|
                0 <= j < row@.len() ==> #[trigger] row.deep_view()[j] == row@[j]@);
        }
        if row.len() != FREQUENCY_ARITY {
            return Err(ConvertError::Schema { expected: FREQUENCY_ARITY, actual: row.len() });
        }
        let rec = AirportFrequency {
            id: row[0].clone(),
            airport_ref: row[1].clone(),
            airport_ident: row[2].clone(),
            frequency_type: row[3].clone(),
            description: row[4].clone(),
            frequency_mhz: row[5].clone(),
        };
        Ok(rec)
    }

    /// Re-serializes the record as its raw row of column text.
    pub fn to_row(&self) -> (r: Vec<String>)
        ensures
            r.deep_view() == spec_encode_frequency(self@),
    {
        let mut r: Vec<String> = Vec::new();
        r.push(self.id.clone());
        r.push(self.airport_ref.clone());
        r.push(self.airport_ident.clone());
        r.push(self.frequency_type.clone());
        r.push(self.description.clone());
        r.push(self.frequency_mhz.clone());
        proof {
            assert(forall|j: int| 0 <= j < r@.len() ==> #[trigger] r.deep_view()[j] == r@[j]@);
            assert(r.deep_view() =~= spec_encode_frequency(self@));
        }
        r
    }

    /// Renders the record as a JSON object.
    pub fn to_json(&self, pretty: bool) -> (r: String)
        ensures
            r@ == frequency_json(self@, pretty),
    {
        let mut pairs: Vec<(String, String)> = Vec::new();
        pairs.push((String::from_str("id"), jstr_exec(self.id.as_str())));
        pairs.push((String::from_str("airport_ref"), jstr_exec(self.airport_ref.as_str())));
        pairs.push((String::from_str("airport_ident"), jstr_exec(self.airport_ident.as_str())));
        pairs.push((String::from_str("type"), jstr_exec(self.frequency_type.as_str())));
        pairs.push((String::from_str("description"), jstr_exec(self.description.as_str())));
        pairs.push((String::from_str("frequency_mhz"), jstr_exec(self.frequency_mhz.as_str())));
        proof {
            assert(forall|j: int|
                0 <= j < pairs@.len() ==> #[trigger] pairs.deep_view()[j] == (
                pairs@[j].0@,
                pairs@[j].1@,
                ));
            assert(pairs.deep_view() =~~= frequency_pairs(self@));
        }
        obj_exec(&pairs, pretty)
    }
}

/// Decoding the re-serialized row of any frequency record gives the record
/// back: the frequency text is preserved verbatim, not renormalized.
pub proof fn lemma_frequency_round_trip(a: AirportFrequencyView)
    ensures
        spec_decode_frequency(spec_encode_frequency(a)) == Ok::<AirportFrequencyView, ErrorModel>(
            a,
        ),
{
}

} // verus!
