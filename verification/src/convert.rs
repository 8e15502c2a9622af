//! Whole-table conversion: split the input text into rows, skip the
//! header row, decode every data row in order, and render the record list
//! as one JSON document. Any failure aborts the run with no output.

use vstd::prelude::*;
use crate::errors::{ConvertError, ErrorModel};
use crate::json::arr;
use crate::json::arr_exec;
use crate::records::airport::{airport_json, spec_decode_airport, Airport, AirportView};
use crate::records::country::{country_json, spec_decode_country, Country, CountryView};
use crate::records::frequency::{
    frequency_json, spec_decode_frequency, AirportFrequency, AirportFrequencyView,
};
use crate::records::navaid::{navaid_json, spec_decode_navaid, Navaid, NavaidView};
use crate::records::region::{region_json, spec_decode_region, Region, RegionView};
use crate::records::runway::{runway_json, spec_decode_runway, Runway, RunwayView};

verus! {

/// What the row splitter returns for given input text: every row of the
/// table as its list of fields, the header row included, or the message
/// of the splitter's failure.
pub uninterp spec fn csv_rows_of(s: Seq<char>) -> Result<Seq<Seq<Seq<char>>>, Seq<char>>;

/// Relies on csv::ReaderBuilder and Reader::records: the text is split
/// into one record per row, fields separated by commas with double-quote
/// quoting. With headers off and flexible rows on, every row comes
/// through with whatever field count it has; a failure is reported as the
/// error's rendered message.
#[verifier::external_body]
fn split_rows(text: &str) -> (r: Result<Vec<Vec<String>>, String>)
    ensures
        match r {
            Ok(rows) => csv_rows_of(text@) == Ok::<Seq<Seq<Seq<char>>>, Seq<char>>(
                rows.deep_view(),
            ),
            Err(e) => csv_rows_of(text@) == Err::<Seq<Seq<Seq<char>>>, Seq<char>>(e@),
        },
{
    let mut rdr = csv::ReaderBuilder::new().has_headers(false).flexible(true).from_reader(
        text.as_bytes(),
    );
    let mut rows: Vec<Vec<String>> = Vec::new();
    for rec in rdr.records() {
        match rec {
            Ok(rec) => rows.push(rec.iter().map(|f| f.to_string()).collect()),
            Err(e) => return Err(e.to_string()),
        }
    }
    Ok(rows)
}

/// The data rows of a table: the first row is the header and is skipped.
pub open spec fn data_rows(rows: Seq<Seq<Seq<char>>>) -> Seq<Seq<Seq<char>>> {
    if rows.len() == 0 {
        rows
    } else {
        rows.drop_first()
    }
}

/// The JSON document of a decoded airport list.
pub open spec fn airport_list_json(list: Seq<AirportView>, pretty: bool) -> Seq<char> {
    arr(Seq::new(list.len(), |i: int| airport_json(list[i], pretty)), pretty)
}

/// Converts a whole airport table: the first row is treated as the header
/// and skipped, each following row decodes to one airport record in input
/// order, and the record list renders as one JSON document. The first row
/// failure, or a failure to split the text at all, aborts the run.
pub fn convert_airport_data(text: &str, pretty_print: bool) -> (r: Result<String, ConvertError>)
    ensures
        csv_rows_of(text@) matches Err(m) ==> (r matches Err(e) && e@ == ErrorModel::Csv(m)),
        csv_rows_of(text@) matches Ok(rows) ==> ({
            let data = data_rows(rows);
            &&& (forall|i: int|
                0 <= i < data.len() ==> spec_decode_airport(#[trigger] data[i]) is Ok) ==> (
            r matches Ok(out) && out@ == airport_list_json(
                Seq::new(data.len(), |i: int| spec_decode_airport(data[i])->Ok_0),
                pretty_print,
            ))
            &&& !(forall|i: int|
                0 <= i < data.len() ==> spec_decode_airport(#[trigger] data[i]) is Ok) ==> (
            r matches Err(e) && exists|i: int|
                0 <= i < data.len() && (forall|j: int|
                    0 <= j < i ==> spec_decode_airport(#[trigger] data[j]) is Ok)
                    && spec_decode_airport(#[trigger] data[i]) == Err::<AirportView, ErrorModel>(
                    e@,
                ))
        }),
{
    let rows = match split_rows(text) {
        Ok(rows) => rows,
        Err(m) => {
            return Err(ConvertError::Csv(m));
        },
    };
    let ghost rowsv = rows.deep_view();
    let ghost data = data_rows(rowsv);
    proof {
        assert(rowsv.len() == rows@.len());
        assert(forall|j: int|
            0 <= j < rows@.len() ==> #[trigger] rowsv[j] == rows@[j].deep_view());
    }
    let start: usize = if rows.len() == 0 {
        0
    } else {
        1
    };
    let mut items: Vec<String> = Vec::new();
    let mut idx: usize = start;
    while idx < rows.len()
        invariant
            rows@.len() == 0 ==> start == 0,
            rows@.len() > 0 ==> start == 1,
            start <= idx <= rows@.len(),
            csv_rows_of(text@) == Ok::<Seq<Seq<Seq<char>>>, Seq<char>>(rowsv),
            rowsv == rows.deep_view(),
            data == data_rows(rowsv),
            data.len() == rows@.len() - start,
            forall|j: int| 0 <= j < data.len() ==> #[trigger] data[j] == rowsv[j + start],
            forall|j: int| 0 <= j < rows@.len() ==> #[trigger] rowsv[j] == rows@[j].deep_view(),
            forall|j: int| 0 <= j < idx - start ==> spec_decode_airport(#[trigger] data[j]) is Ok,
            items@.len() == idx - start,
            forall|j: int|
                0 <= j < idx - start ==> #[trigger] items@[j]@ == airport_json(
                    spec_decode_airport(data[j])->Ok_0,
                    pretty_print,
                ),
        decreases rows@.len() - idx,
    {
        let row = &rows[idx];
        proof {
            assert(row.deep_view() == data[idx - start]);
        }
        match Airport::decode(row) {
            Err(e) => {
                proof {
                    let w = idx - start;
                    assert(0 <= w < data.len() && (forall|j: int|
                        0 <= j < w ==> spec_decode_airport(#[trigger] data[j]) is Ok)
                        && spec_decode_airport(data[w]) == Err::<AirportView, ErrorModel>(e@));
                }
                return Err(e);
            },
            Ok(rec) => {
                let rendered = rec.to_json(pretty_print);
                items.push(rendered);
            },
        }
        idx = idx + 1;
    }
    let out = arr_exec(&items, pretty_print);
    proof {
        let list = Seq::new(data.len(), |i: int| spec_decode_airport(data[i])->Ok_0);
        assert(items.deep_view().len() == data.len());
        assert forall|j: int| 0 <= j < data.len() implies items.deep_view()[j] == airport_json(
            list[j],
            pretty_print,
        ) by {
            assert(items.deep_view()[j] =~= items@[j]@);
        }
        assert(items.deep_view() =~~= Seq::new(
            list.len(),
            |i: int| airport_json(list[i], pretty_print),
        ));
        assert(out@ == airport_list_json(list, pretty_print));
    }
    Ok(out)
}

/// The JSON document of a decoded frequency list.
pub open spec fn frequency_list_json(list: Seq<AirportFrequencyView>, pretty: bool) -> Seq<char> {
    arr(Seq::new(list.len(), |i: int| frequency_json(list[i], pretty)), pretty)
}

/// Converts a whole airport-frequency table, as `convert_airport_data`
/// does for airports.
pub fn convert_airport_frequency_data(text: &str, pretty_print: bool) -> (r: Result<
    String,
    ConvertError,
>)
    ensures
        csv_rows_of(text@) matches Err(m) ==> (r matches Err(e) && e@ == ErrorModel::Csv(m)),
        csv_rows_of(text@) matches Ok(rows) ==> ({
            let data = data_rows(rows);
            &&& (forall|i: int|
                0 <= i < data.len() ==> spec_decode_frequency(#[trigger] data[i]) is Ok) ==> (
            r matches Ok(out) && out@ == frequency_list_json(
                Seq::new(data.len(), |i: int| spec_decode_frequency(data[i])->Ok_0),
                pretty_print,
            ))
            &&& !(forall|i: int|
                0 <= i < data.len() ==> spec_decode_frequency(#[trigger] data[i]) is Ok) ==> (
            r matches Err(e) && exists|i: int|
                0 <= i < data.len() && (forall|j: int|
                    0 <= j < i ==> spec_decode_frequency(#[trigger] data[j]) is Ok)
                    && spec_decode_frequency(#[trigger] data[i]) == Err::<
                    AirportFrequencyView,
                    ErrorModel,
                >(e@))
        }),
{
    let rows = match split_rows(text) {
        Ok(rows) => rows,
        Err(m) => {
            return Err(ConvertError::Csv(m));
        },
    };
    let ghost rowsv = rows.deep_view();
    let ghost data = data_rows(rowsv);
    proof {
        assert(rowsv.len() == rows@.len());
        assert(forall|j: int|
            0 <= j < rows@.len() ==> #[trigger] rowsv[j] == rows@[j].deep_view());
    }
    let start: usize = if rows.len() == 0 {
        0
    } else {
        1
    };
    let mut items: Vec<String> = Vec::new();
    let mut idx: usize = start;
    while idx < rows.len()
        invariant
            rows@.len() == 0 ==> start == 0,
            rows@.len() > 0 ==> start == 1,
            start <= idx <= rows@.len(),
            csv_rows_of(text@) == Ok::<Seq<Seq<Seq<char>>>, Seq<char>>(rowsv),
            rowsv == rows.deep_view(),
            data == data_rows(rowsv),
            data.len() == rows@.len() - start,
            forall|j: int| 0 <= j < data.len() ==> #[trigger] data[j] == rowsv[j + start],
            forall|j: int| 0 <= j < rows@.len() ==> #[trigger] rowsv[j] == rows@[j].deep_view(),
            forall|j: int|
                0 <= j < idx - start ==> spec_decode_frequency(#[trigger] data[j]) is Ok,
            items@.len() == idx - start,
            forall|j: int|
                0 <= j < idx - start ==> #[trigger] items@[j]@ == frequency_json(
                    spec_decode_frequency(data[j])->Ok_0,
                    pretty_print,
                ),
        decreases rows@.len() - idx,
    {
        let row = &rows[idx];
        proof {
            assert(row.deep_view() == data[idx - start]);
        }
        match AirportFrequency::decode(row) {
            Err(e) => {
                proof {
                    let w = idx - start;
                    assert(0 <= w < data.len() && (forall|j: int|
                        0 <= j < w ==> spec_decode_frequency(#[trigger] data[j]) is Ok)
                        && spec_decode_frequency(data[w]) == Err::<
                        AirportFrequencyView,
                        ErrorModel,
                    >(e@));
                }
                return Err(e);
            },
            Ok(rec) => {
                let rendered = rec.to_json(pretty_print);
                items.push(rendered);
            },
        }
        idx = idx + 1;
    }
    let out = arr_exec(&items, pretty_print);
    proof {
        let list = Seq::new(data.len(), |i: int| spec_decode_frequency(data[i])->Ok_0);
        assert(items.deep_view().len() == data.len());
        assert forall|j: int| 0 <= j < data.len() implies items.deep_view()[j] == frequency_json(
            list[j],
            pretty_print,
        ) by {
            assert(items.deep_view()[j] =~= items@[j]@);
        }
        assert(items.deep_view() =~~= Seq::new(
            list.len(),
            |i: int| frequency_json(list[i], pretty_print),
        ));
        assert(out@ == frequency_list_json(list, pretty_print));
    }
    Ok(out)
}

/// The JSON document of a decoded runway list.
pub open spec fn runway_list_json(list: Seq<RunwayView>, pretty: bool) -> Seq<char> {
    arr(Seq::new(list.len(), |i: int| runway_json(list[i], pretty)), pretty)
}

/// Converts a whole runway table, as `convert_airport_data` does for
/// airports.
pub fn convert_runway_data(text: &str, pretty_print: bool) -> (r: Result<String, ConvertError>)
    ensures
        csv_rows_of(text@) matches Err(m) ==> (r matches Err(e) && e@ == ErrorModel::Csv(m)),
        csv_rows_of(text@) matches Ok(rows) ==> ({
            let data = data_rows(rows);
            &&& (forall|i: int|
                0 <= i < data.len() ==> spec_decode_runway(#[trigger] data[i]) is Ok) ==> (
            r matches Ok(out) && out@ == runway_list_json(
                Seq::new(data.len(), |i: int| spec_decode_runway(data[i])->Ok_0),
                pretty_print,
            ))
            &&& !(forall|i: int|
                0 <= i < data.len() ==> spec_decode_runway(#[trigger] data[i]) is Ok) ==> (
            r matches Err(e) && exists|i: int|
                0 <= i < data.len() && (forall|j: int|
                    0 <= j < i ==> spec_decode_runway(#[trigger] data[j]) is Ok)
                    && spec_decode_runway(#[trigger] data[i]) == Err::<RunwayView, ErrorModel>(e@))
        }),
{
    let rows = match split_rows(text) {
        Ok(rows) => rows,
        Err(m) => {
            return Err(ConvertError::Csv(m));
        },
    };
    let ghost rowsv = rows.deep_view();
    let ghost data = data_rows(rowsv);
    proof {
        assert(rowsv.len() == rows@.len());
        assert(forall|j: int|
            0 <= j < rows@.len() ==> #[trigger] rowsv[j] == rows@[j].deep_view());
    }
    let start: usize = if rows.len() == 0 {
        0
    } else {
        1
    };
    let mut items: Vec<String> = Vec::new();
    let mut idx: usize = start;
    while idx < rows.len()
        invariant
            rows@.len() == 0 ==> start == 0,
            rows@.len() > 0 ==> start == 1,
            start <= idx <= rows@.len(),
            csv_rows_of(text@) == Ok::<Seq<Seq<Seq<char>>>, Seq<char>>(rowsv),
            rowsv == rows.deep_view(),
            data == data_rows(rowsv),
            data.len() == rows@.len() - start,
            forall|j: int| 0 <= j < data.len() ==> #[trigger] data[j] == rowsv[j + start],
            forall|j: int| 0 <= j < rows@.len() ==> #[trigger] rowsv[j] == rows@[j].deep_view(),
            forall|j: int| 0 <= j < idx - start ==> spec_decode_runway(#[trigger] data[j]) is Ok,
            items@.len() == idx - start,
            forall|j: int|
                0 <= j < idx - start ==> #[trigger] items@[j]@ == runway_json(
                    spec_decode_runway(data[j])->Ok_0,
                    pretty_print,
                ),
        decreases rows@.len() - idx,
    {
        let row = &rows[idx];
        proof {
            assert(row.deep_view() == data[idx - start]);
        }
        match Runway::decode(row) {
            Err(e) => {
                proof {
                    let w = idx - start;
                    assert(0 <= w < data.len() && (forall|j: int|
                        0 <= j < w ==> spec_decode_runway(#[trigger] data[j]) is Ok)
                        && spec_decode_runway(data[w]) == Err::<RunwayView, ErrorModel>(e@));
                }
                return Err(e);
            },
            Ok(rec) => {
                let rendered = rec.to_json(pretty_print);
                items.push(rendered);
            },
        }
        idx = idx + 1;
    }
    let out = arr_exec(&items, pretty_print);
    proof {
        let list = Seq::new(data.len(), |i: int| spec_decode_runway(data[i])->Ok_0);
        assert(items.deep_view().len() == data.len());
        assert forall|j: int| 0 <= j < data.len() implies items.deep_view()[j] == runway_json(
            list[j],
            pretty_print,
        ) by {
            assert(items.deep_view()[j] =~= items@[j]@);
        }
        assert(items.deep_view() =~~= Seq::new(
            list.len(),
            |i: int| runway_json(list[i], pretty_print),
        ));
        assert(out@ == runway_list_json(list, pretty_print));
    }
    Ok(out)
}

/// The JSON document of a decoded navaid list.
pub open spec fn navaid_list_json(list: Seq<NavaidView>, pretty: bool) -> Seq<char> {
    arr(Seq::new(list.len(), |i: int| navaid_json(list[i], pretty)), pretty)
}

/// Converts a whole navaid table, as `convert_airport_data` does for
/// airports.
pub fn convert_navaid_data(text: &str, pretty_print: bool) -> (r: Result<String, ConvertError>)
    ensures
        csv_rows_of(text@) matches Err(m) ==> (r matches Err(e) && e@ == ErrorModel::Csv(m)),
        csv_rows_of(text@) matches Ok(rows) ==> ({
            let data = data_rows(rows);
            &&& (forall|i: int|
                0 <= i < data.len() ==> spec_decode_navaid(#[trigger] data[i]) is Ok) ==> (
            r matches Ok(out) && out@ == navaid_list_json(
                Seq::new(data.len(), |i: int| spec_decode_navaid(data[i])->Ok_0),
                pretty_print,
            ))
            &&& !(forall|i: int|
                0 <= i < data.len() ==> spec_decode_navaid(#[trigger] data[i]) is Ok) ==> (
            r matches Err(e) && exists|i: int|
                0 <= i < data.len() && (forall|j: int|
                    0 <= j < i ==> spec_decode_navaid(#[trigger] data[j]) is Ok)
                    && spec_decode_navaid(#[trigger] data[i]) == Err::<NavaidView, ErrorModel>(e@))
        }),
{
    let rows = match split_rows(text) {
        Ok(rows) => rows,
        Err(m) => {
            return Err(ConvertError::Csv(m));
        },
    };
    let ghost rowsv = rows.deep_view();
    let ghost data = data_rows(rowsv);
    proof {
        assert(rowsv.len() == rows@.len());
        assert(forall|j: int|
            0 <= j < rows@.len() ==> #[trigger] rowsv[j] == rows@[j].deep_view());
    }
    let start: usize = if rows.len() == 0 {
        0
    } else {
        1
    };
    let mut items: Vec<String> = Vec::new();
    let mut idx: usize = start;
    while idx < rows.len()
        invariant
            rows@.len() == 0 ==> start == 0,
            rows@.len() > 0 ==> start == 1,
            start <= idx <= rows@.len(),
            csv_rows_of(text@) == Ok::<Seq<Seq<Seq<char>>>, Seq<char>>(rowsv),
            rowsv == rows.deep_view(),
            data == data_rows(rowsv),
            data.len() == rows@.len() - start,
            forall|j: int| 0 <= j < data.len() ==> #[trigger] data[j] == rowsv[j + start],
            forall|j: int| 0 <= j < rows@.len() ==> #[trigger] rowsv[j] == rows@[j].deep_view(),
            forall|j: int| 0 <= j < idx - start ==> spec_decode_navaid(#[trigger] data[j]) is Ok,
            items@.len() == idx - start,
            forall|j: int|
                0 <= j < idx - start ==> #[trigger] items@[j]@ == navaid_json(
                    spec_decode_navaid(data[j])->Ok_0,
                    pretty_print,
                ),
        decreases rows@.len() - idx,
    {
        let row = &rows[idx];
        proof {
            assert(row.deep_view() == data[idx - start]);
        }
        match Navaid::decode(row) {
            Err(e) => {
                proof {
                    let w = idx - start;
                    assert(0 <= w < data.len() && (forall|j: int|
                        0 <= j < w ==> spec_decode_navaid(#[trigger] data[j]) is Ok)
                        && spec_decode_navaid(data[w]) == Err::<NavaidView, ErrorModel>(e@));
                }
                return Err(e);
            },
            Ok(rec) => {
                let rendered = rec.to_json(pretty_print);
                items.push(rendered);
            },
        }
        idx = idx + 1;
    }
    let out = arr_exec(&items, pretty_print);
    proof {
        let list = Seq::new(data.len(), |i: int| spec_decode_navaid(data[i])->Ok_0);
        assert(items.deep_view().len() == data.len());
        assert forall|j: int| 0 <= j < data.len() implies items.deep_view()[j] == navaid_json(
            list[j],
            pretty_print,
        ) by {
            assert(items.deep_view()[j] =~= items@[j]@);
        }
        assert(items.deep_view() =~~= Seq::new(
            list.len(),
            |i: int| navaid_json(list[i], pretty_print),
        ));
        assert(out@ == navaid_list_json(list, pretty_print));
    }
    Ok(out)
}

/// The JSON document of a decoded country list.
pub open spec fn country_list_json(list: Seq<CountryView>, pretty: bool) -> Seq<char> {
    arr(Seq::new(list.len(), |i: int| country_json(list[i], pretty)), pretty)
}

/// Converts a whole country table, as `convert_airport_data` does for
/// airports.
pub fn convert_country_data(text: &str, pretty_print: bool) -> (r: Result<String, ConvertError>)
    ensures
        csv_rows_of(text@) matches Err(m) ==> (r matches Err(e) && e@ == ErrorModel::Csv(m)),
        csv_rows_of(text@) matches Ok(rows) ==> ({
            let data = data_rows(rows);
            &&& (forall|i: int|
                0 <= i < data.len() ==> spec_decode_country(#[trigger] data[i]) is Ok) ==> (
            r matches Ok(out) && out@ == country_list_json(
                Seq::new(data.len(), |i: int| spec_decode_country(data[i])->Ok_0),
                pretty_print,
            ))
            &&& !(forall|i: int|
                0 <= i < data.len() ==> spec_decode_country(#[trigger] data[i]) is Ok) ==> (
            r matches Err(e) && exists|i: int|
                0 <= i < data.len() && (forall|j: int|
                    0 <= j < i ==> spec_decode_country(#[trigger] data[j]) is Ok)
                    && spec_decode_country(#[trigger] data[i]) == Err::<CountryView, ErrorModel>(
                    e@,
                ))
        }),
{
    let rows = match split_rows(text) {
        Ok(rows) => rows,
        Err(m) => {
            return Err(ConvertError::Csv(m));
        },
    };
    let ghost rowsv = rows.deep_view();
    let ghost data = data_rows(rowsv);
    proof {
        assert(rowsv.len() == rows@.len());
        assert(forall|j: int|
            0 <= j < rows@.len() ==> #[trigger] rowsv[j] == rows@[j].deep_view());
    }
    let start: usize = if rows.len() == 0 {
        0
    } else {
        1
    };
    let mut items: Vec<String> = Vec::new();
    let mut idx: usize = start;
    while idx < rows.len()
        invariant
            rows@.len() == 0 ==> start == 0,
            rows@.len() > 0 ==> start == 1,
            start <= idx <= rows@.len(),
            csv_rows_of(text@) == Ok::<Seq<Seq<Seq<char>>>, Seq<char>>(rowsv),
            rowsv == rows.deep_view(),
            data == data_rows(rowsv),
            data.len() == rows@.len() - start,
            forall|j: int| 0 <= j < data.len() ==> #[trigger] data[j] == rowsv[j + start],
            forall|j: int| 0 <= j < rows@.len() ==> #[trigger] rowsv[j] == rows@[j].deep_view(),
            forall|j: int| 0 <= j < idx - start ==> spec_decode_country(#[trigger] data[j]) is Ok,
            items@.len() == idx - start,
            forall|j: int|
                0 <= j < idx - start ==> #[trigger] items@[j]@ == country_json(
                    spec_decode_country(data[j])->Ok_0,
                    pretty_print,
                ),
        decreases rows@.len() - idx,
    {
        let row = &rows[idx];
        proof {
            assert(row.deep_view() == data[idx - start]);
        }
        match Country::decode(row) {
            Err(e) => {
                proof {
                    let w = idx - start;
                    assert(0 <= w < data.len() && (forall|j: int|
                        0 <= j < w ==> spec_decode_country(#[trigger] data[j]) is Ok)
                        && spec_decode_country(data[w]) == Err::<CountryView, ErrorModel>(e@));
                }
                return Err(e);
            },
            Ok(rec) => {
                let rendered = rec.to_json(pretty_print);
                items.push(rendered);
            },
        }
        idx = idx + 1;
    }
    let out = arr_exec(&items, pretty_print);
    proof {
        let list = Seq::new(data.len(), |i: int| spec_decode_country(data[i])->Ok_0);
        assert(items.deep_view().len() == data.len());
        assert forall|j: int| 0 <= j < data.len() implies items.deep_view()[j] == country_json(
            list[j],
            pretty_print,
        ) by {
            assert(items.deep_view()[j] =~= items@[j]@);
        }
        assert(items.deep_view() =~~= Seq::new(
            list.len(),
            |i: int| country_json(list[i], pretty_print),
        ));
        assert(out@ == country_list_json(list, pretty_print));
    }
    Ok(out)
}

/// The JSON document of a decoded region list.
pub open spec fn region_list_json(list: Seq<RegionView>, pretty: bool) -> Seq<char> {
    arr(Seq::new(list.len(), |i: int| region_json(list[i], pretty)), pretty)
}

/// Converts a whole region table, as `convert_airport_data` does for
/// airports.
pub fn convert_region_data(text: &str, pretty_print: bool) -> (r: Result<String, ConvertError>)
    ensures
        csv_rows_of(text@) matches Err(m) ==> (r matches Err(e) && e@ == ErrorModel::Csv(m)),
        csv_rows_of(text@) matches Ok(rows) ==> ({
            let data = data_rows(rows);
            &&& (forall|i: int|
                0 <= i < data.len() ==> spec_decode_region(#[trigger] data[i]) is Ok) ==> (
            r matches Ok(out) && out@ == region_list_json(
                Seq::new(data.len(), |i: int| spec_decode_region(data[i])->Ok_0),
                pretty_print,
            ))
            &&& !(forall|i: int|
                0 <= i < data.len() ==> spec_decode_region(#[trigger] data[i]) is Ok) ==> (
            r matches Err(e) && exists|i: int|
                0 <= i < data.len() && (forall|j: int|
                    0 <= j < i ==> spec_decode_region(#[trigger] data[j]) is Ok)
                    && spec_decode_region(#[trigger] data[i]) == Err::<RegionView, ErrorModel>(e@))
        }),
{
    let rows = match split_rows(text) {
        Ok(rows) => rows,
        Err(m) => {
            return Err(ConvertError::Csv(m));
        },
    };
    let ghost rowsv = rows.deep_view();
    let ghost data = data_rows(rowsv);
    proof {
        assert(rowsv.len() == rows@.len());
        assert(forall|j: int|
            0 <= j < rows@.len() ==> #[trigger] rowsv[j] == rows@[j].deep_view());
    }
    let start: usize = if rows.len() == 0 {
        0
    } else {
        1
    };
    let mut items: Vec<String> = Vec::new();
    let mut idx: usize = start;
    while idx < rows.len()
        invariant
            rows@.len() == 0 ==> start == 0,
            rows@.len() > 0 ==> start == 1,
            start <= idx <= rows@.len(),
            csv_rows_of(text@) == Ok::<Seq<Seq<Seq<char>>>, Seq<char>>(rowsv),
            rowsv == rows.deep_view(),
            data == data_rows(rowsv),
            data.len() == rows@.len() - start,
            forall|j: int| 0 <= j < data.len() ==> #[trigger] data[j] == rowsv[j + start],
            forall|j: int| 0 <= j < rows@.len() ==> #[trigger] rowsv[j] == rows@[j].deep_view(),
            forall|j: int| 0 <= j < idx - start ==> spec_decode_region(#[trigger] data[j]) is Ok,
            items@.len() == idx - start,
            forall|j: int|
                0 <= j < idx - start ==> #[trigger] items@[j]@ == region_json(
                    spec_decode_region(data[j])->Ok_0,
                    pretty_print,
                ),
        decreases rows@.len() - idx,
    {
        let row = &rows[idx];
        proof {
            assert(row.deep_view() == data[idx - start]);
        }
        match Region::decode(row) {
            Err(e) => {
                proof {
                    let w = idx - start;
                    assert(0 <= w < data.len() && (forall|j: int|
                        0 <= j < w ==> spec_decode_region(#[trigger] data[j]) is Ok)
                        && spec_decode_region(data[w]) == Err::<RegionView, ErrorModel>(e@));
                }
                return Err(e);
            },
            Ok(rec) => {
                let rendered = rec.to_json(pretty_print);
                items.push(rendered);
            },
        }
        idx = idx + 1;
    }
    let out = arr_exec(&items, pretty_print);
    proof {
        let list = Seq::new(data.len(), |i: int| spec_decode_region(data[i])->Ok_0);
        assert(items.deep_view().len() == data.len());
        assert forall|j: int| 0 <= j < data.len() implies items.deep_view()[j] == region_json(
            list[j],
            pretty_print,
        ) by {
            assert(items.deep_view()[j] =~= items@[j]@);
        }
        assert(items.deep_view() =~~= Seq::new(
            list.len(),
            |i: int| region_json(list[i], pretty_print),
        ));
        assert(out@ == region_list_json(list, pretty_print));
    }
    Ok(out)
}

} // verus!
