use tablekit::geocode::{
    check_index_file, geocode_record, needs_search, output_headers, parse_languages,
    replace_column_value, select_subcommand, CommandFlags, GeocodeError, GeocodeSubCmd,
};
use tablekit::pivot::{agg_from_name, parse_agg, plan_pivot, plan_with, PivotAgg, PivotError};
use tablekit::place::{
    finish_search, format_place, is_writable, pick_location, plan_search, wants_record, Admin1,
    CityData, Place, SearchOutcome, SearchRequest,
};
use tablekit::text::{decimal, ends_with, same_text, split_at_commas, trim};

fn row(fields: &[&str]) -> Vec<String> {
    fields.iter().map(|f| f.to_string()).collect()
}

fn no_flags() -> CommandFlags {
    CommandFlags {
        suggest: false,
        reverse: false,
        index_check: false,
        index_update: false,
        index_load: false,
        index_reset: false,
    }
}

#[test]
fn subcommand_of_each_switch() {
    let mut f = no_flags();
    f.suggest = true;
    assert_eq!(select_subcommand(&f), Ok(GeocodeSubCmd::Suggest));
    let mut f = no_flags();
    f.reverse = true;
    assert_eq!(select_subcommand(&f), Ok(GeocodeSubCmd::Reverse));
    let mut f = no_flags();
    f.index_check = true;
    assert_eq!(select_subcommand(&f), Ok(GeocodeSubCmd::IndexCheck));
    let mut f = no_flags();
    f.index_update = true;
    assert_eq!(select_subcommand(&f), Ok(GeocodeSubCmd::IndexUpdate));
    let mut f = no_flags();
    f.index_load = true;
    assert_eq!(select_subcommand(&f), Ok(GeocodeSubCmd::IndexLoad));
    let mut f = no_flags();
    f.index_reset = true;
    assert_eq!(select_subcommand(&f), Ok(GeocodeSubCmd::IndexReset));
}

#[test]
fn first_switch_wins_and_none_is_an_error() {
    let mut f = no_flags();
    f.reverse = true;
    f.index_load = true;
    assert_eq!(select_subcommand(&f), Ok(GeocodeSubCmd::Reverse));
    assert_eq!(select_subcommand(&no_flags()), Err(GeocodeError::UnknownSubcommand));
}

#[test]
fn index_commands_read_no_table() {
    assert!(!GeocodeSubCmd::Suggest.is_index_command());
    assert!(!GeocodeSubCmd::Reverse.is_index_command());
    assert!(GeocodeSubCmd::IndexCheck.is_index_command());
    assert!(GeocodeSubCmd::IndexUpdate.is_index_command());
    assert!(GeocodeSubCmd::IndexLoad.is_index_command());
    assert!(GeocodeSubCmd::IndexReset.is_index_command());
}

#[test]
fn languages_are_lowered_split_and_trimmed() {
    assert_eq!(parse_languages("en"), row(&["en"]));
    assert_eq!(parse_languages("EN, De ,\tfr\n"), row(&["en", "de", "fr"]));
    assert_eq!(parse_languages(""), row(&[""]));
    assert_eq!(parse_languages(" , "), row(&["", ""]));
    assert_eq!(parse_languages("\u{c9}N,pt BR"), row(&["\u{c9}n", "pt br"]));
}

#[test]
fn index_file_must_be_named_bincode() {
    assert_eq!(check_index_file(None), Err(GeocodeError::NoIndexFile));
    assert_eq!(check_index_file(Some("cities.bincode")), Ok(()));
    assert_eq!(check_index_file(Some(".bincode")), Ok(()));
    assert_eq!(check_index_file(Some("cities.BINCODE")), Err(GeocodeError::NotBincode));
    assert_eq!(check_index_file(Some("cities.bincode.bak")), Err(GeocodeError::NotBincode));
    assert_eq!(check_index_file(Some("bincode")), Err(GeocodeError::NotBincode));
    assert_eq!(check_index_file(Some("")), Err(GeocodeError::NotBincode));
}

#[test]
fn replace_column_value_changes_one_field() {
    let r = row(&["a", "b", "c"]);
    assert_eq!(replace_column_value(&r, 1, "X"), row(&["a", "X", "c"]));
    assert_eq!(replace_column_value(&r, 0, ""), row(&["", "b", "c"]));
    assert_eq!(replace_column_value(&r, 3, "X"), r);
    assert_eq!(replace_column_value(&Vec::new(), 0, "X"), Vec::<String>::new());
}

#[test]
fn headers_renamed_and_extended() {
    let h = row(&["Location", "Name"]);
    assert_eq!(output_headers(&h, &vec![0, 1], None, None), Ok(h.clone()));
    assert_eq!(
        output_headers(&h, &vec![0, 1], Some(&row(&["LatLong", "Who"])), None),
        Ok(row(&["LatLong", "Who"]))
    );
    assert_eq!(
        output_headers(&h, &vec![1], Some(&row(&["Who"])), Some("City")),
        Ok(row(&["Location", "Who", "City"]))
    );
    assert_eq!(output_headers(&h, &vec![0, 1], None, Some("City")), Ok(row(&[
        "Location", "Name", "City"
    ])));
    // a column named twice takes the later name
    assert_eq!(
        output_headers(&h, &vec![0, 0], Some(&row(&["x", "y"])), None),
        Ok(row(&["y", "Name"]))
    );
}

#[test]
fn rename_needs_a_name_for_each_column() {
    let h = row(&["Location", "Name"]);
    assert_eq!(
        output_headers(&h, &vec![0, 1], Some(&row(&["LatLong"])), None),
        Err(GeocodeError::RenameCountMismatch)
    );
    assert_eq!(
        output_headers(&h, &vec![0], Some(&Vec::new()), Some("City")),
        Err(GeocodeError::RenameCountMismatch)
    );
}

#[test]
fn record_takes_the_place_that_was_found() {
    let r = row(&["id7", "40.7, -74.0"]);
    assert!(needs_search(&r, 1));
    assert_eq!(geocode_record(&r, 1, Some("New York"), false), row(&["id7", "New York"]));
    assert_eq!(
        geocode_record(&r, 1, Some("New York"), true),
        row(&["id7", "40.7, -74.0", "New York"])
    );
    assert_eq!(geocode_record(&r, 1, None, false), r);
    assert_eq!(geocode_record(&r, 1, None, true), row(&["id7", "40.7, -74.0", "40.7, -74.0"]));
}

#[test]
fn empty_cell_is_not_searched() {
    let r = row(&["id7", ""]);
    assert!(!needs_search(&r, 1));
    assert_eq!(geocode_record(&r, 1, Some("New York"), false), r);
    assert_eq!(geocode_record(&r, 1, Some("New York"), true), row(&["id7", "", ""]));
}

fn reverse_of(cell: &str) -> Option<(String, String)> {
    match plan_search(GeocodeSubCmd::Reverse, cell) {
        Some(SearchRequest::Reverse { latitude, longitude }) => Some((latitude, longitude)),
        Some(SearchRequest::Suggest { .. }) => panic!("a reverse search suggests"),
        None => None,
    }
}

fn pair(a: &str, b: &str) -> Option<(String, String)> {
    Some((a.to_string(), b.to_string()))
}

#[test]
fn reverse_reads_a_location() {
    assert_eq!(reverse_of("40.71, -74.00"), pair("40.71", "-74.00"));
    assert_eq!(reverse_of("(40.71,-74.00)"), pair("40.71", "-74.00"));
    assert_eq!(reverse_of("at +5,   .5 north"), pair("+5", ".5"));
    assert_eq!(reverse_of("1.,2."), pair("1.", "2."));
    assert_eq!(reverse_of("95, 200"), pair("95", "200"));
}

#[test]
fn reverse_without_a_location_asks_nothing() {
    assert_eq!(reverse_of("Brooklyn"), None);
    assert_eq!(reverse_of(""), None);
    assert_eq!(reverse_of("40.71 -74.00"), None);
    assert_eq!(reverse_of("40.71,"), None);
}

#[test]
fn suggest_asks_for_the_cell() {
    match plan_search(GeocodeSubCmd::Suggest, "Brooklyn") {
        Some(SearchRequest::Suggest { pattern }) => assert_eq!(pattern, "Brooklyn"),
        _ => panic!("no suggestion"),
    }
}

#[test]
fn index_commands_ask_nothing() {
    assert!(plan_search(GeocodeSubCmd::IndexCheck, "40.71, -74.00").is_none());
    assert!(plan_search(GeocodeSubCmd::IndexUpdate, "Brooklyn").is_none());
    assert!(plan_search(GeocodeSubCmd::IndexLoad, "Brooklyn").is_none());
    assert!(plan_search(GeocodeSubCmd::IndexReset, "Brooklyn").is_none());
}

#[test]
fn location_is_taken_from_groups_one_and_two() {
    let g = |v: &[Option<&str>]| -> Option<Option<Vec<Option<String>>>> {
        Some(Some(v.iter().map(|o| o.map(|s| s.to_string())).collect()))
    };
    assert_eq!(pick_location(&g(&[Some("1,2"), Some("1"), Some("2")])), pair("1", "2"));
    assert_eq!(pick_location(&g(&[Some("1,2"), Some("1"), Some("2"), Some("3")])), pair("1", "2"));
    assert_eq!(pick_location(&g(&[Some("1,2"), None, Some("2")])), None);
    assert_eq!(pick_location(&g(&[Some("1,2"), Some("1"), None])), None);
    assert_eq!(pick_location(&g(&[Some("1,2"), Some("1")])), None);
    assert_eq!(pick_location(&Some(None)), None);
    assert_eq!(pick_location(&None), None);
}

fn brooklyn() -> Place {
    Place {
        id: 5110302,
        name: "Brooklyn".to_string(),
        country: "US".to_string(),
        admin1: "New York".to_string(),
        latitude: "40.6501".to_string(),
        longitude: "-73.94958".to_string(),
        population: 2300664,
        timezone: "America/New_York".to_string(),
        record: "CitiesRecord { id: 5110302 }".to_string(),
    }
}

#[test]
fn place_in_each_format() {
    let p = brooklyn();
    assert_eq!(format_place(&p, "%+"), "Brooklyn, New York");
    assert_eq!(format_place(&p, "city-state"), "Brooklyn, New York");
    assert_eq!(format_place(&p, "lat-long"), "40.6501, -73.94958");
    assert_eq!(format_place(&p, "location"), "(40.6501, -73.94958)");
    assert_eq!(format_place(&p, "city-country"), "Brooklyn, US");
    assert_eq!(format_place(&p, "city"), "Brooklyn");
    assert_eq!(format_place(&p, "state"), "New York");
    assert_eq!(format_place(&p, "country"), "US");
    assert_eq!(format_place(&p, "id"), "5110302");
    assert_eq!(format_place(&p, "population"), "2300664");
    assert_eq!(format_place(&p, "timezone"), "America/New_York");
    assert_eq!(format_place(&p, "cityrecord"), "CitiesRecord { id: 5110302 }");
}

#[test]
fn unknown_format_is_city_state_country() {
    let p = brooklyn();
    assert_eq!(format_place(&p, "city-state-country"), "Brooklyn, New York, US");
    assert_eq!(format_place(&p, ""), "Brooklyn, New York, US");
    assert_eq!(format_place(&p, "City"), "Brooklyn, New York, US");
}

#[test]
fn only_cityrecord_wants_the_record() {
    assert!(wants_record("cityrecord"));
    assert!(!wants_record("city"));
    assert!(!wants_record("cityrecords"));
}

fn city(admin1: Admin1, country: Option<&str>) -> CityData {
    CityData {
        id: 7,
        name: "Ghent".to_string(),
        latitude: "51.05".to_string(),
        longitude: "3.71667".to_string(),
        country: country.map(|c| c.to_string()),
        admin1,
        population: 231493,
        timezone: "Europe/Brussels".to_string(),
        record: String::new(),
    }
}

#[test]
fn search_ends_in_a_text_or_in_nothing() {
    assert_eq!(finish_search(&SearchOutcome::NotFound, "city"), None);
    let found = SearchOutcome::Found(city(Admin1::Name("Flanders".to_string()), Some("BE")));
    assert!(is_writable(&found));
    assert_eq!(finish_search(&found, "city-state"), Some("Ghent, Flanders".to_string()));
    assert_eq!(finish_search(&found, "x"), Some("Ghent, Flanders, BE".to_string()));
    assert_eq!(finish_search(&found, "population"), Some("231493".to_string()));
    let bare = SearchOutcome::Found(city(Admin1::Absent, Some("BE")));
    assert_eq!(finish_search(&bare, "city-state"), Some("Ghent, ".to_string()));
    assert_eq!(finish_search(&bare, "state"), Some(String::new()));
    let empty = SearchOutcome::Found(city(Admin1::Empty, None));
    assert!(is_writable(&empty));
    assert_eq!(finish_search(&empty, "city"), None);
}

#[test]
fn city_without_country_cannot_be_written() {
    assert!(!is_writable(&SearchOutcome::Found(city(Admin1::Absent, None))));
    assert!(!is_writable(&SearchOutcome::Found(city(Admin1::Name("x".to_string()), None))));
    assert!(is_writable(&SearchOutcome::NotFound));
    assert!(is_writable(&SearchOutcome::OutOfRange));
}

#[test]
fn location_out_of_range_is_written_as_nowhere() {
    let o = SearchOutcome::OutOfRange;
    assert_eq!(finish_search(&o, "city-state"), Some(", ".to_string()));
    assert_eq!(finish_search(&o, "lat-long"), Some("0, 0".to_string()));
    assert_eq!(finish_search(&o, "location"), Some("(0, 0)".to_string()));
    assert_eq!(finish_search(&o, "id"), Some("0".to_string()));
    assert_eq!(finish_search(&o, "city"), Some(String::new()));
    assert_eq!(finish_search(&o, "other"), Some(", , ".to_string()));
}

#[test]
fn aggregation_by_name() {
    assert_eq!(agg_from_name("first"), Some(PivotAgg::First));
    assert_eq!(agg_from_name("sum"), Some(PivotAgg::Sum));
    assert_eq!(agg_from_name("min"), Some(PivotAgg::Min));
    assert_eq!(agg_from_name("max"), Some(PivotAgg::Max));
    assert_eq!(agg_from_name("mean"), Some(PivotAgg::Mean));
    assert_eq!(agg_from_name("median"), Some(PivotAgg::Median));
    assert_eq!(agg_from_name("count"), Some(PivotAgg::Count));
    assert_eq!(agg_from_name("last"), Some(PivotAgg::Last));
    assert_eq!(agg_from_name("Sum"), None);
    assert_eq!(agg_from_name("avg"), None);
    assert_eq!(agg_from_name(""), None);
}

#[test]
fn aggregation_in_any_case() {
    assert_eq!(parse_agg("SUM"), Some(PivotAgg::Sum));
    assert_eq!(parse_agg("Median"), Some(PivotAgg::Median));
    assert_eq!(parse_agg("last"), Some(PivotAgg::Last));
    assert_eq!(parse_agg("total"), None);
}

#[test]
fn pivot_plan_splits_the_lists() {
    let plan = plan_pivot("a,b", Some("i"), Some("v,w"), Some("Mean"), None).ok().unwrap();
    assert_eq!(plan.on, row(&["a", "b"]));
    assert_eq!(plan.index, Some(row(&["i"])));
    assert_eq!(plan.values, Some(row(&["v", "w"])));
    assert_eq!(plan.agg, Some(PivotAgg::Mean));
    assert_eq!(plan.separator, b',');
    let plan = plan_pivot("", None, Some(""), None, Some(b';')).ok().unwrap();
    assert_eq!(plan.on, row(&[""]));
    assert_eq!(plan.index, None);
    assert_eq!(plan.values, Some(row(&[""])));
    assert_eq!(plan.agg, None);
    assert_eq!(plan.separator, b';');
}

#[test]
fn pivot_needs_index_or_values() {
    assert_eq!(
        plan_pivot("a", None, None, Some("sum"), None).err(),
        Some(PivotError::NoIndexOrValues)
    );
    assert_eq!(
        plan_pivot("a", None, None, Some("nonsense"), None).err(),
        Some(PivotError::NoIndexOrValues)
    );
    assert_eq!(plan_with("a", None, None, None, None).err(), Some(PivotError::NoIndexOrValues));
}

#[test]
fn pivot_rejects_an_unknown_aggregation() {
    assert_eq!(
        plan_pivot("a", Some("i"), None, Some("avg"), None).err(),
        Some(PivotError::InvalidAggregation)
    );
    assert_eq!(
        plan_with("a", Some("i"), None, Some("SUM"), None).err(),
        Some(PivotError::InvalidAggregation)
    );
}

#[test]
fn text_compares_trims_and_splits() {
    assert!(same_text("abc", "abc"));
    assert!(!same_text("abc", "abd"));
    assert!(!same_text("abc", "ab"));
    assert!(same_text("", ""));
    assert!(same_text("\u{e9}", "\u{e9}"));
    assert!(ends_with("a.bincode", ".bincode"));
    assert!(ends_with("abc", ""));
    assert!(!ends_with("bc", "abc"));
    assert!(ends_with("\u{e9}\u{e8}", "\u{e8}"));
    assert_eq!(trim("  a b \n"), "a b");
    assert_eq!(trim("\u{a0}\u{2003}x\u{3000}\u{85}"), "x");
    assert_eq!(trim(" \t "), "");
    assert_eq!(trim(""), "");
    assert_eq!(trim("x"), "x");
    assert_eq!(trim("\u{200b}x"), "\u{200b}x");
    assert_eq!(split_at_commas("a,b,,c"), row(&["a", "b", "", "c"]));
    assert_eq!(split_at_commas(""), row(&[""]));
    assert_eq!(split_at_commas(","), row(&["", ""]));
    assert_eq!(split_at_commas("\u{e9},x"), row(&["\u{e9}", "x"]));
}

#[test]
fn decimal_numerals() {
    assert_eq!(decimal(0), "0");
    assert_eq!(decimal(7), "7");
    assert_eq!(decimal(10), "10");
    assert_eq!(decimal(4096), "4096");
    assert_eq!(decimal(u32::MAX), "4294967295");
}

#[test]
fn trim_agrees_with_std_on_every_space() {
    for c in ['\u{9}', '\u{a}', '\u{b}', '\u{c}', '\u{d}', ' ', '\u{85}', '\u{a0}', '\u{1680}',
        '\u{2000}', '\u{2005}', '\u{200a}', '\u{2028}', '\u{2029}', '\u{202f}', '\u{205f}',
        '\u{3000}', '\u{8}', '\u{e}', '\u{1f}', '\u{200b}', '\u{180e}', '\u{feff}', 'a']
    {
        let s = format!("{}x{}", c, c);
        assert_eq!(trim(&s), s.trim());
    }
}

#[test]
fn command_errors_have_their_messages() {
    assert_eq!(GeocodeError::UnknownSubcommand.message(), "Unknown geocode subcommand.");
    assert_eq!(
        GeocodeError::NoIndexFile.message(),
        "No alternate Geonames index file specified."
    );
    assert_eq!(
        GeocodeError::NotBincode.message(),
        "Alternate Geonames index file does not have a .bincode extension."
    );
    assert_eq!(
        GeocodeError::RenameCountMismatch.message(),
        "Number of new columns does not match input column selection."
    );
    assert_eq!(
        PivotError::NoIndexOrValues.message(),
        "Either --index <cols> or --values <cols> must be specified."
    );
    assert_eq!(PivotError::InvalidAggregation.message(), "Invalid pivot aggregation function.");
}
