use ourairports::{
    convert_airport_data, convert_airport_frequency_data, convert_country_data,
    convert_navaid_data, convert_region_data, convert_runway_data, ConvertError,
};

const AIRPORT_HEADER: &str = "id,ident,type,name,latitude_deg,longitude_deg,elevation_ft,\
continent,iso_country,iso_region,municipality,scheduled_service,gps_code,iata_code,\
local_code,home_link,wikipedia_link,keywords";

fn airport_table() -> String {
    format!(
        "{}\n\
         2434,EGLL,large_airport,London Heathrow Airport,51.4706,-0.461941,83,EU,GB,GB-ENG,\
         London,yes,EGLL,LHR,,http://www.heathrowairport.com/,\
         https://en.wikipedia.org/wiki/Heathrow_Airport,\"LON, Londres\"\n\
         2513,EGSS,large_airport,London Stansted Airport,51.884998,0.235,,EU,GB,GB-ENG,\
         London,yes,EGSS,STN,,http://www.stanstedairport.com/,\
         https://en.wikipedia.org/wiki/London_Stansted_Airport,\n",
        AIRPORT_HEADER
    )
}

#[test]
fn two_row_airport_table_compact() {
    let out = convert_airport_data(&airport_table(), false).unwrap();
    let v: serde_json::Value = serde_json::from_str(&out).unwrap();
    let list = v.as_array().expect("a JSON array");
    assert_eq!(list.len(), 2);
    for entry in list {
        let obj = entry.as_object().expect("a JSON object");
        assert_eq!(obj.len(), 18);
    }
    assert_eq!(list[0]["ident"], "EGLL");
    assert_eq!(list[0]["elevation_ft"], 83);
    assert_eq!(list[0]["latitude_deg"], 51.4706);
    assert_eq!(list[0]["scheduled_service"], true);
    assert_eq!(list[0]["keywords"][0], "LON");
    assert_eq!(list[0]["keywords"][1], "Londres");
    assert_eq!(list[1]["ident"], "EGSS");
    assert_eq!(list[1]["elevation_ft"], serde_json::Value::Null);
    assert_eq!(list[1]["keywords"].as_array().unwrap().len(), 0);
}

#[test]
fn rows_keep_input_order() {
    let out = convert_airport_data(&airport_table(), false).unwrap();
    let v: serde_json::Value = serde_json::from_str(&out).unwrap();
    let idents: Vec<&str> = v.as_array()
        .unwrap()
        .iter()
        .map(|e| e["ident"].as_str().unwrap())
        .collect();
    assert_eq!(idents, vec!["EGLL", "EGSS"]);
}

#[test]
fn pretty_output_has_same_content_as_compact() {
    let compact = convert_airport_data(&airport_table(), false).unwrap();
    let pretty = convert_airport_data(&airport_table(), true).unwrap();
    assert_ne!(compact, pretty);
    assert!(pretty.contains('\n'));
    let a: serde_json::Value = serde_json::from_str(&compact).unwrap();
    let b: serde_json::Value = serde_json::from_str(&pretty).unwrap();
    assert_eq!(a, b);
}

#[test]
fn wrong_field_count_aborts_the_run() {
    let table = format!("{}\n2434,EGLL,large_airport\n", AIRPORT_HEADER);
    match convert_airport_data(&table, false) {
        Err(ConvertError::Schema { expected, actual }) => {
            assert_eq!(expected, 18);
            assert_eq!(actual, 3);
        },
        _ => panic!("expected a schema error"),
    }
}

#[test]
fn bad_row_after_good_rows_still_aborts() {
    let table = format!(
        "{}\n\
         2434,EGLL,large_airport,London Heathrow Airport,51.4706,-0.461941,83,EU,GB,GB-ENG,\
         London,yes,EGLL,LHR,,,,\n\
         bad,row\n",
        AIRPORT_HEADER
    );
    assert!(matches!(
        convert_airport_data(&table, false),
        Err(ConvertError::Schema { expected: 18, actual: 2 })
    ));
}

#[test]
fn bad_boolean_token_aborts_the_run() {
    let table = format!(
        "{}\n\
         2434,EGLL,large_airport,London Heathrow Airport,51.4706,-0.461941,83,EU,GB,GB-ENG,\
         London,probably,EGLL,LHR,,,,\n",
        AIRPORT_HEADER
    );
    match convert_airport_data(&table, false) {
        Err(ConvertError::BadBool(t)) => assert_eq!(t, "probably"),
        _ => panic!("expected a boolean error"),
    }
}

#[test]
fn bad_mandatory_number_aborts_the_run() {
    let table = format!(
        "{}\n\
         2434,EGLL,large_airport,London Heathrow Airport,north,-0.461941,83,EU,GB,GB-ENG,\
         London,yes,EGLL,LHR,,,,\n",
        AIRPORT_HEADER
    );
    match convert_airport_data(&table, false) {
        Err(ConvertError::BadNumber(t)) => assert_eq!(t, "north"),
        _ => panic!("expected a number error"),
    }
}

#[test]
fn header_only_table_gives_empty_list() {
    let out = convert_airport_data(&format!("{}\n", AIRPORT_HEADER), false).unwrap();
    assert_eq!(out, "[]");
    let out = convert_airport_data(&format!("{}\n", AIRPORT_HEADER), true).unwrap();
    assert_eq!(out, "[]");
}

#[test]
fn empty_input_gives_empty_list() {
    assert_eq!(convert_airport_data("", false).unwrap(), "[]");
}

#[test]
fn quoted_fields_keep_embedded_commas() {
    let table = "id,airport_ref,airport_ident,type,description,frequency_mhz\n\
                 322,2434,EGLL,TWR,\"Tower, primary\",118.5\n";
    let out = convert_airport_frequency_data(table, false).unwrap();
    let v: serde_json::Value = serde_json::from_str(&out).unwrap();
    assert_eq!(v[0]["description"], "Tower, primary");
    assert_eq!(v[0]["frequency_mhz"], "118.5");
}

#[test]
fn crlf_line_endings_are_accepted() {
    let table = "id,airport_ref,airport_ident,type,description,frequency_mhz\r\n\
                 322,2434,EGLL,TWR,Heathrow Tower,118.5\r\n";
    let out = convert_airport_frequency_data(table, false).unwrap();
    let v: serde_json::Value = serde_json::from_str(&out).unwrap();
    assert_eq!(v.as_array().unwrap().len(), 1);
    assert_eq!(v[0]["description"], "Heathrow Tower");
}

#[test]
fn doubled_quotes_inside_quoted_fields_are_unescaped() {
    let table = "id,airport_ref,airport_ident,type,description,frequency_mhz\n\
                 322,2434,EGLL,TWR,\"the \"\"primary\"\" tower\",118.5\n";
    let out = convert_airport_frequency_data(table, false).unwrap();
    let v: serde_json::Value = serde_json::from_str(&out).unwrap();
    assert_eq!(v[0]["description"], "the \"primary\" tower");
}

#[test]
fn frequency_text_is_not_renormalized() {
    let table = "id,airport_ref,airport_ident,type,description,frequency_mhz\n\
                 1,2,EGLL,TWR,Tower,118.50\n";
    let out = convert_airport_frequency_data(table, false).unwrap();
    assert!(out.contains("\"frequency_mhz\":\"118.50\""));
}

#[test]
fn runway_table_converts() {
    let table = "id,airport_ref,airport_ident,length_ft,width_ft,surface,lighted,closed,\
le_ident,le_latitude_deg,le_longitude_deg,le_elevation_ft,le_heading_degT,\
le_displaced_threshold_ft,he_ident,he_latitude_deg,he_longitude_deg,he_elevation_ft,\
he_heading_degT,he_displaced_threshold_ft\n\
269408,2434,EGLL,12799,164,ASP,yes,no,09L,51.4775,-0.489428,79,89.6,1007,27R,51.4777,\
-0.433264,78,269.6,\n";
    let out = convert_runway_data(table, false).unwrap();
    let v: serde_json::Value = serde_json::from_str(&out).unwrap();
    assert_eq!(v[0]["length_ft"], 12799);
    assert_eq!(v[0]["lighted"], true);
    assert_eq!(v[0]["closed"], false);
    assert_eq!(v[0]["le_heading_degT"], 89.6);
    assert_eq!(v[0]["he_displaced_threshold_ft"], serde_json::Value::Null);
    assert_eq!(v[0].as_object().unwrap().len(), 20);
}

#[test]
fn navaid_table_converts() {
    let table = "id,filename,ident,name,type,frequency_khz,latitude_deg,longitude_deg,\
elevation_ft,iso_country,dme_frequency_khz,dme_channel,dme_latitude_deg,dme_longitude_deg,\
dme_elevation_ft,slaved_variation_deg,magnetic_variation_deg,usageType,power,\
associated_airport\n\
86738,BPK-Brookmans-Park-VOR-DME,BPK,Brookmans Park,VOR-DME,117500,51.74983,-0.106617,371,\
GB,117500,122X,,,,2.6,1.8,BOTH,MEDIUM,EGLL\n";
    let out = convert_navaid_data(table, false).unwrap();
    let v: serde_json::Value = serde_json::from_str(&out).unwrap();
    assert_eq!(v[0]["type"], "VOR-DME");
    assert_eq!(v[0]["frequency_khz"], "117500");
    assert_eq!(v[0]["usageType"], "BOTH");
    assert_eq!(v[0]["dme_latitude_deg"], serde_json::Value::Null);
    assert_eq!(v[0].as_object().unwrap().len(), 20);
}

#[test]
fn country_table_converts() {
    let table = "id,code,name,continent,wikipedia_link,keywords\n\
                 302672,GB,United Kingdom,EU,https://en.wikipedia.org/wiki/United_Kingdom,\
                 \"England, Scotland\"\n";
    let out = convert_country_data(table, false).unwrap();
    let v: serde_json::Value = serde_json::from_str(&out).unwrap();
    assert_eq!(v[0]["code"], "GB");
    assert_eq!(v[0]["keywords"][1], "Scotland");
    assert_eq!(v[0].as_object().unwrap().len(), 6);
}

#[test]
fn region_table_converts() {
    let table = "id,code,local_code,name,continent,iso_country,wikipedia_link,keywords\n\
                 306194,GB-ENG,ENG,England,EU,GB,https://en.wikipedia.org/wiki/England,\n";
    let out = convert_region_data(table, false).unwrap();
    let v: serde_json::Value = serde_json::from_str(&out).unwrap();
    assert_eq!(v[0]["code"], "GB-ENG");
    assert_eq!(v[0]["keywords"].as_array().unwrap().len(), 0);
    assert_eq!(v[0].as_object().unwrap().len(), 8);
}

#[test]
fn pretty_airport_document_shape() {
    let table = format!(
        "{}\n2434,EGLL,large_airport,Heathrow,51.4706,-0.461941,83,EU,GB,GB-ENG,London,yes,\
         EGLL,LHR,,,,\"LON, Londres\"\n",
        AIRPORT_HEADER
    );
    let out = convert_airport_data(&table, true).unwrap();
    assert!(out.starts_with("[\n  {\n    \"id\": \"2434\",\n"));
    assert!(out.contains("    \"keywords\": [\n      \"LON\",\n      \"Londres\"\n    ]\n"));
    assert!(out.ends_with("  }\n]"));
}

#[test]
fn decode_of_serialized_output_matches_source_record() {
    let out = convert_airport_data(&airport_table(), false).unwrap();
    let v: serde_json::Value = serde_json::from_str(&out).unwrap();
    let first = v[0].as_object().unwrap();
    let row: Vec<String> = vec![
        first["id"].as_str().unwrap().to_string(),
        first["ident"].as_str().unwrap().to_string(),
        first["type"].as_str().unwrap().to_string(),
        first["name"].as_str().unwrap().to_string(),
        first["latitude_deg"].to_string(),
        first["longitude_deg"].to_string(),
        first["elevation_ft"].to_string(),
        first["continent"].as_str().unwrap().to_string(),
        first["iso_country"].as_str().unwrap().to_string(),
        first["iso_region"].as_str().unwrap().to_string(),
        first["municipality"].as_str().unwrap().to_string(),
        if first["scheduled_service"].as_bool().unwrap() { "yes" } else { "no" }.to_string(),
        first["gps_code"].as_str().unwrap().to_string(),
        first["iata_code"].as_str().unwrap().to_string(),
        first["local_code"].as_str().unwrap().to_string(),
        first["home_link"].as_str().unwrap().to_string(),
        first["wikipedia_link"].as_str().unwrap().to_string(),
        first["keywords"]
            .as_array()
            .unwrap()
            .iter()
            .map(|k| k.as_str().unwrap())
            .collect::<Vec<&str>>()
            .join(", "),
    ];
    let again = ourairports::Airport::decode(&row).unwrap();
    assert_eq!(again.ident, "EGLL");
    assert_eq!(again.latitude_deg, "51.4706");
    assert_eq!(again.elevation_ft, Some(83));
    assert_eq!(again.scheduled_service, true);
    assert_eq!(again.keywords, vec!["LON", "Londres"]);
}
