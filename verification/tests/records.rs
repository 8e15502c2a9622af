use ourairports::{Airport, AirportFrequency, Country, ConvertError, Navaid, Region, Runway};

fn airport_row() -> Vec<String> {
    vec![
        "2434".to_string(),
        "EGLL".to_string(),
        "large_airport".to_string(),
        "London Heathrow Airport".to_string(),
        "51.4706".to_string(),
        "-0.461941".to_string(),
        "83".to_string(),
        "EU".to_string(),
        "GB".to_string(),
        "GB-ENG".to_string(),
        "London".to_string(),
        "yes".to_string(),
        "EGLL".to_string(),
        "LHR".to_string(),
        "".to_string(),
        "http://www.heathrowairport.com/".to_string(),
        "https://en.wikipedia.org/wiki/Heathrow_Airport".to_string(),
        "LON, Londres".to_string(),
    ]
}

#[test]
fn airport_decode_populates_all_fields() {
    let a = Airport::decode(&airport_row()).unwrap();
    assert_eq!(a.id, "2434");
    assert_eq!(a.ident, "EGLL");
    assert_eq!(a.airport_type, "large_airport");
    assert_eq!(a.name, "London Heathrow Airport");
    assert_eq!(a.latitude_deg, "51.4706");
    assert_eq!(a.longitude_deg, "-0.461941");
    assert_eq!(a.elevation_ft, Some(83));
    assert_eq!(a.continent, "EU");
    assert_eq!(a.iso_country, "GB");
    assert_eq!(a.iso_region, "GB-ENG");
    assert_eq!(a.municipality, "London");
    assert_eq!(a.scheduled_service, true);
    assert_eq!(a.gps_code, "EGLL");
    assert_eq!(a.iata_code, "LHR");
    assert_eq!(a.local_code, "");
    assert_eq!(a.home_link, "http://www.heathrowairport.com/");
    assert_eq!(a.wikipedia_link, "https://en.wikipedia.org/wiki/Heathrow_Airport");
    assert_eq!(a.keywords, vec!["LON", "Londres"]);
}

#[test]
fn airport_wrong_arity_is_a_schema_error() {
    let mut row = airport_row();
    row.pop();
    match Airport::decode(&row) {
        Err(ConvertError::Schema { expected, actual }) => {
            assert_eq!(expected, 18);
            assert_eq!(actual, 17);
        },
        _ => panic!("expected a schema error"),
    }
    let err = Airport::decode(&row).unwrap_err();
    assert_eq!(err.message(), "expected 18 fields, found 17");
}

#[test]
fn airport_blank_elevation_is_absent() {
    let mut row = airport_row();
    row[6] = "".to_string();
    let a = Airport::decode(&row).unwrap();
    assert_eq!(a.elevation_ft, None);
    row[6] = "not-a-number".to_string();
    let a = Airport::decode(&row).unwrap();
    assert_eq!(a.elevation_ft, None);
}

#[test]
fn airport_bad_latitude_aborts() {
    let mut row = airport_row();
    row[4] = "51,47".to_string();
    match Airport::decode(&row) {
        Err(ConvertError::BadNumber(t)) => assert_eq!(t, "51,47"),
        _ => panic!("expected a number error"),
    }
}

#[test]
fn airport_bad_boolean_aborts() {
    let mut row = airport_row();
    row[11] = "sometimes".to_string();
    match Airport::decode(&row) {
        Err(ConvertError::BadBool(t)) => assert_eq!(t, "sometimes"),
        _ => panic!("expected a boolean error"),
    }
}

#[test]
fn airport_row_round_trip() {
    let a = Airport::decode(&airport_row()).unwrap();
    let row = a.to_row();
    let b = Airport::decode(&row).unwrap();
    assert_eq!(a.id, b.id);
    assert_eq!(a.latitude_deg, b.latitude_deg);
    assert_eq!(a.longitude_deg, b.longitude_deg);
    assert_eq!(a.elevation_ft, b.elevation_ft);
    assert_eq!(a.scheduled_service, b.scheduled_service);
    assert_eq!(a.keywords, b.keywords);
    assert_eq!(a.iata_code, b.iata_code);
}

#[test]
fn airport_compact_json_is_exact() {
    let mut row = airport_row();
    row[17] = "".to_string();
    let a = Airport::decode(&row).unwrap();
    let json = a.to_json(false);
    assert_eq!(
        json,
        "{\"id\":\"2434\",\"ident\":\"EGLL\",\"type\":\"large_airport\",\
         \"name\":\"London Heathrow Airport\",\"latitude_deg\":51.4706,\
         \"longitude_deg\":-0.461941,\"elevation_ft\":83,\"continent\":\"EU\",\
         \"iso_country\":\"GB\",\"iso_region\":\"GB-ENG\",\"municipality\":\"London\",\
         \"scheduled_service\":true,\"gps_code\":\"EGLL\",\"iata_code\":\"LHR\",\
         \"local_code\":\"\",\"home_link\":\"http://www.heathrowairport.com/\",\
         \"wikipedia_link\":\"https://en.wikipedia.org/wiki/Heathrow_Airport\",\
         \"keywords\":[]}"
    );
}

#[test]
fn frequency_decode_and_round_trip() {
    let row: Vec<String> = vec![
        "322".to_string(),
        "2434".to_string(),
        "EGLL".to_string(),
        "TWR".to_string(),
        "Heathrow Tower".to_string(),
        "118.5".to_string(),
    ];
    let f = AirportFrequency::decode(&row).unwrap();
    assert_eq!(f.frequency_type, "TWR");
    assert_eq!(f.frequency_mhz, "118.5");
    let back = AirportFrequency::decode(&f.to_row()).unwrap();
    assert_eq!(back.id, f.id);
    assert_eq!(back.frequency_mhz, "118.5");
    let json = f.to_json(false);
    assert_eq!(
        json,
        "{\"id\":\"322\",\"airport_ref\":\"2434\",\"airport_ident\":\"EGLL\",\
         \"type\":\"TWR\",\"description\":\"Heathrow Tower\",\"frequency_mhz\":\"118.5\"}"
    );
}

fn runway_row() -> Vec<String> {
    vec![
        "269408".to_string(),
        "2434".to_string(),
        "EGLL".to_string(),
        "12799".to_string(),
        "164".to_string(),
        "ASP".to_string(),
        "yes".to_string(),
        "no".to_string(),
        "09L".to_string(),
        "51.4775".to_string(),
        "-0.489428".to_string(),
        "79".to_string(),
        "89.6".to_string(),
        "1007".to_string(),
        "27R".to_string(),
        "51.4777".to_string(),
        "-0.433264".to_string(),
        "78".to_string(),
        "269.6".to_string(),
        "".to_string(),
    ]
}

#[test]
fn runway_decode_and_round_trip() {
    let r = Runway::decode(&runway_row()).unwrap();
    assert_eq!(r.length_ft, Some(12799));
    assert_eq!(r.width_ft, Some(164));
    assert_eq!(r.lighted, true);
    assert_eq!(r.closed, false);
    assert_eq!(r.le_heading_deg_true, Some("89.6".to_string()));
    assert_eq!(r.he_displaced_threshold_ft, None);
    let back = Runway::decode(&r.to_row()).unwrap();
    assert_eq!(back.length_ft, r.length_ft);
    assert_eq!(back.le_latitude_deg, r.le_latitude_deg);
    assert_eq!(back.he_displaced_threshold_ft, None);
}

#[test]
fn runway_wrong_arity_is_a_schema_error() {
    let mut row = runway_row();
    row.push("extra".to_string());
    match Runway::decode(&row) {
        Err(ConvertError::Schema { expected, actual }) => {
            assert_eq!(expected, 20);
            assert_eq!(actual, 21);
        },
        _ => panic!("expected a schema error"),
    }
}

fn navaid_row() -> Vec<String> {
    vec![
        "86738".to_string(),
        "BPK-Brookmans-Park-VOR-DME".to_string(),
        "BPK".to_string(),
        "Brookmans Park".to_string(),
        "VOR-DME".to_string(),
        "117500".to_string(),
        "51.74983".to_string(),
        "-0.106617".to_string(),
        "371".to_string(),
        "GB".to_string(),
        "117500".to_string(),
        "122X".to_string(),
        "".to_string(),
        "".to_string(),
        "".to_string(),
        "2.6".to_string(),
        "1.8".to_string(),
        "BOTH".to_string(),
        "MEDIUM".to_string(),
        "EGLL".to_string(),
    ]
}

#[test]
fn navaid_decode_and_round_trip() {
    let n = Navaid::decode(&navaid_row()).unwrap();
    assert_eq!(n.navaid_type, "VOR-DME");
    assert_eq!(n.frequency_khz, "117500");
    assert_eq!(n.elevation_ft, Some(371));
    assert_eq!(n.dme_latitude_deg, None);
    assert_eq!(n.slaved_variation_deg, Some("2.6".to_string()));
    let back = Navaid::decode(&n.to_row()).unwrap();
    assert_eq!(back.frequency_khz, n.frequency_khz);
    assert_eq!(back.magnetic_variation_deg, n.magnetic_variation_deg);
    assert_eq!(back.associated_airport, "EGLL");
}

#[test]
fn country_decode_and_round_trip() {
    let row: Vec<String> = vec![
        "302672".to_string(),
        "GB".to_string(),
        "United Kingdom".to_string(),
        "EU".to_string(),
        "https://en.wikipedia.org/wiki/United_Kingdom".to_string(),
        "England, Scotland, Wales, Northern Ireland".to_string(),
    ];
    let c = Country::decode(&row).unwrap();
    assert_eq!(c.code, "GB");
    assert_eq!(c.keywords, vec!["England", "Scotland", "Wales", "Northern Ireland"]);
    let back = Country::decode(&c.to_row()).unwrap();
    assert_eq!(back.keywords, c.keywords);
    assert_eq!(back.name, "United Kingdom");
}

#[test]
fn region_decode_and_round_trip() {
    let row: Vec<String> = vec![
        "306194".to_string(),
        "GB-ENG".to_string(),
        "ENG".to_string(),
        "England".to_string(),
        "EU".to_string(),
        "GB".to_string(),
        "https://en.wikipedia.org/wiki/England".to_string(),
        "".to_string(),
    ];
    let r = Region::decode(&row).unwrap();
    assert_eq!(r.code, "GB-ENG");
    assert_eq!(r.local_code, "ENG");
    assert!(r.keywords.is_empty());
    let back = Region::decode(&r.to_row()).unwrap();
    assert_eq!(back.code, r.code);
    assert!(back.keywords.is_empty());
}

#[test]
fn error_messages_name_the_cause() {
    assert_eq!(
        ConvertError::Csv("broken".to_string()).message(),
        "malformed input table: broken"
    );
    assert_eq!(
        ConvertError::BadNumber("north".to_string()).message(),
        "not a decimal number: north"
    );
}

#[test]
fn runway_boundary_integers() {
    let mut row = runway_row();
    row[3] = "4294967295".to_string();
    row[11] = "-2147483648".to_string();
    let r = Runway::decode(&row).unwrap();
    assert_eq!(r.length_ft, Some(u32::MAX));
    assert_eq!(r.le_elevation_ft, Some(i32::MIN));
    let back = Runway::decode(&r.to_row()).unwrap();
    assert_eq!(back.length_ft, Some(u32::MAX));
    assert_eq!(back.le_elevation_ft, Some(i32::MIN));
}

#[test]
fn json_escapes_special_characters() {
    let mut row = airport_row();
    row[3] = "Name with \"quotes\", a \\ and\nnewline".to_string();
    row[17] = "".to_string();
    let a = Airport::decode(&row).unwrap();
    let json = a.to_json(false);
    assert!(json.contains("\"name\":\"Name with \\\"quotes\\\", a \\\\ and\\nnewline\""));
    let v: serde_json::Value = serde_json::from_str(&json).unwrap();
    assert_eq!(v["name"], serde_json::Value::String(row[3].clone()));
}
