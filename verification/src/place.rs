//! Searching for a place and writing down what was found: the query that a
//! cell asks for, and the text that stands for a city in the output.

use vstd::prelude::*;
use vstd::string::StringExecFns;
use crate::geocode::GeocodeSubCmd;
use crate::pattern::{first_match, groups_view, outcome_view, search, GroupsV};
use crate::text::{decimal, numeral, same_text};

verus! {

/// The pattern of a location: two decimal numbers with a comma between
/// them, as in `40.71, -74.00` or `(40.71,-74.00)`.
pub const LOCATION_PATTERN: &'static str =
    r"(?-u)([+-]?[0-9]+\.?[0-9]*|\.[0-9]+),\s*([+-]?[0-9]+\.?[0-9]*|\.[0-9]+)";

/// A query to the index of cities.
pub enum SearchRequest {
    /// The cities whose name is closest to a pattern.
    Suggest { pattern: String },
    /// The cities nearest to a location, given as the texts of its
    /// latitude and longitude.
    Reverse { latitude: String, longitude: String },
}

/// The view of a query.
pub enum RequestV {
    Suggest { pattern: Seq<char> },
    Reverse { latitude: Seq<char>, longitude: Seq<char> },
}

impl View for SearchRequest {
    type V = RequestV;

    open spec fn view(&self) -> RequestV {
        match self {
            SearchRequest::Suggest { pattern } => RequestV::Suggest { pattern: pattern@ },
            SearchRequest::Reverse { latitude, longitude } => RequestV::Reverse {
                latitude: latitude@,
                longitude: longitude@,
            },
        }
    }
}

/// The two numbers of a location match: the texts of the first and the
/// second group, where the text matched and both groups took part.
pub open spec fn location_of(found: Option<Option<GroupsV>>) -> Option<(Seq<char>, Seq<char>)> {
    match found {
        Some(Some(groups)) => if groups.len() >= 3 && groups[1] is Some && groups[2] is Some {
            Some((groups[1]->0, groups[2]->0))
        } else {
            None
        },
        _ => None,
    }
}

/// The view of a pair of texts that may be absent.
pub open spec fn pair_view(pair: Option<(String, String)>) -> Option<(Seq<char>, Seq<char>)> {
    match pair {
        Some((a, b)) => Some((a@, b@)),
        None => None,
    }
}

/// Takes latitude and longitude out of the outcome of a pattern search.
pub fn pick_location(found: &Option<Option<Vec<Option<String>>>>) -> (r: Option<(String, String)>)
    ensures
        pair_view(r) == location_of(outcome_view(*found)),
{
    match found {
        Some(Some(groups)) => {
            if groups.len() < 3 {
                return None;
            }
            assert(groups_view(*groups)[1] == match groups@[1] {
                Some(t) => Some(t@),
                None => None,
            });
            assert(groups_view(*groups)[2] == match groups@[2] {
                Some(t) => Some(t@),
                None => None,
            });
            match (&groups[1], &groups[2]) {
                (Some(a), Some(b)) => Some((a.clone(), b.clone())),
                _ => None,
            }
        },
        _ => None,
    }
}

/// The query that a cell asks for. To suggest, the cell is the pattern. To
/// reverse, the cell must hold a location, whose two numbers are the
/// query. The index subcommands ask nothing.
pub open spec fn planned(mode: GeocodeSubCmd, cell: Seq<char>, found: Option<Option<GroupsV>>)
    -> Option<RequestV> {
    match mode {
        GeocodeSubCmd::Suggest => Some(RequestV::Suggest { pattern: cell }),
        GeocodeSubCmd::Reverse => match location_of(found) {
            Some((latitude, longitude)) => Some(RequestV::Reverse { latitude, longitude }),
            None => None,
        },
        _ => None,
    }
}

/// The view of a query that may be absent.
pub open spec fn request_view(request: Option<SearchRequest>) -> Option<RequestV> {
    match request {
        Some(r) => Some(r@),
        None => None,
    }
}

/// Turns a cell into the query that the subcommand asks of the index, or
/// into none where there is nothing to ask.
pub fn plan_search(mode: GeocodeSubCmd, cell: &str) -> (r: Option<SearchRequest>)
    ensures
        request_view(r) == planned(mode, cell@, first_match(LOCATION_PATTERN@, cell@)),
{
    match mode {
        GeocodeSubCmd::Suggest => Some(SearchRequest::Suggest { pattern: cell.to_owned() }),
        GeocodeSubCmd::Reverse => {
            let found = search(LOCATION_PATTERN, cell);
            match pick_location(&found) {
                Some((latitude, longitude)) => Some(SearchRequest::Reverse { latitude, longitude }),
                None => None,
            }
        },
        _ => None,
    }
}

/// The name of the first-level division of a city, as the index holds it.
pub enum Admin1 {
    /// The city has no table of division names: the name is empty.
    Absent,
    /// The city has a table of division names, and the table is empty.
    Empty,
    /// The name that the table of division names gives first.
    Name(String),
}

/// What the index holds of a city, in plain values. Latitude and longitude
/// are given as they are printed.
pub struct CityData {
    pub id: u32,
    pub name: String,
    pub latitude: String,
    pub longitude: String,
    pub country: Option<String>,
    pub admin1: Admin1,
    pub population: u32,
    pub timezone: String,
    /// The whole record as text, where the format asks for it.
    pub record: String,
}

/// How a query ended.
pub enum SearchOutcome {
    /// The index holds no city for the query.
    NotFound,
    /// The location lies outside the range of latitudes and longitudes.
    OutOfRange,
    /// The first city that the index gave.
    Found(CityData),
}

/// The values of a place that the formats draw on.
pub struct PlaceV {
    pub id: nat,
    pub name: Seq<char>,
    pub country: Seq<char>,
    pub admin1: Seq<char>,
    pub latitude: Seq<char>,
    pub longitude: Seq<char>,
    pub population: nat,
    pub timezone: Seq<char>,
    pub record: Seq<char>,
}

/// A place to be written out.
pub struct Place {
    pub id: u32,
    pub name: String,
    pub country: String,
    pub admin1: String,
    pub latitude: String,
    pub longitude: String,
    pub population: u32,
    pub timezone: String,
    pub record: String,
}

impl View for Place {
    type V = PlaceV;

    open spec fn view(&self) -> PlaceV {
        PlaceV {
            id: self.id as nat,
            name: self.name@,
            country: self.country@,
            admin1: self.admin1@,
            latitude: self.latitude@,
            longitude: self.longitude@,
            population: self.population as nat,
            timezone: self.timezone@,
            record: self.record@,
        }
    }
}

/// The place that stands for a location out of range: no names, and zero
/// for every number.
pub open spec fn nowhere() -> PlaceV {
    PlaceV {
        id: 0,
        name: Seq::empty(),
        country: Seq::empty(),
        admin1: Seq::empty(),
        latitude: "0"@,
        longitude: "0"@,
        population: 0,
        timezone: Seq::empty(),
        record: Seq::empty(),
    }
}

/// The text of a place in the given format. An unknown format is read as
/// city, state and country.
pub open spec fn place_text(p: PlaceV, format: Seq<char>) -> Seq<char> {
    if format == "%+"@ || format == "city-state"@ {
        p.name + ", "@ + p.admin1
    } else if format == "lat-long"@ {
        p.latitude + ", "@ + p.longitude
    } else if format == "location"@ {
        "("@ + p.latitude + ", "@ + p.longitude + ")"@
    } else if format == "city-country"@ {
        p.name + ", "@ + p.country
    } else if format == "city"@ {
        p.name
    } else if format == "state"@ {
        p.admin1
    } else if format == "country"@ {
        p.country
    } else if format == "id"@ {
        numeral(p.id)
    } else if format == "population"@ {
        numeral(p.population)
    } else if format == "timezone"@ {
        p.timezone
    } else if format == "cityrecord"@ {
        p.record
    } else {
        p.name + ", "@ + p.admin1 + ", "@ + p.country
    }
}

fn joined2(a: &str, sep: &str, b: &str) -> (r: String)
    ensures
        r@ == a@ + sep@ + b@,
{
    let mut r = a.to_owned();
    r.append(sep);
    r.append(b);
    r
}

/// Writes a place in the given format.
pub fn format_place(place: &Place, format: &str) -> (r: String)
    ensures
        r@ == place_text(place@, format@),
{
    if same_text(format, "%+") || same_text(format, "city-state") {
        joined2(place.name.as_str(), ", ", place.admin1.as_str())
    } else if same_text(format, "lat-long") {
        joined2(place.latitude.as_str(), ", ", place.longitude.as_str())
    } else if same_text(format, "location") {
        let mut r = joined2("(", place.latitude.as_str(), ", ");
        r.append(place.longitude.as_str());
        r.append(")");
        r
    } else if same_text(format, "city-country") {
        joined2(place.name.as_str(), ", ", place.country.as_str())
    } else if same_text(format, "city") {
        place.name.clone()
    } else if same_text(format, "state") {
        place.admin1.clone()
    } else if same_text(format, "country") {
        place.country.clone()
    } else if same_text(format, "id") {
        decimal(place.id)
    } else if same_text(format, "population") {
        decimal(place.population)
    } else if same_text(format, "timezone") {
        place.timezone.clone()
    } else if same_text(format, "cityrecord") {
        place.record.clone()
    } else {
        let mut r = joined2(place.name.as_str(), ", ", place.admin1.as_str());
        r.append(", ");
        r.append(place.country.as_str());
        r
    }
}

/// Whether the format writes out the whole record of the city.
pub fn wants_record(format: &str) -> (b: bool)
    ensures
        b == (format@ == "cityrecord"@),
{
    same_text(format, "cityrecord")
}

/// The view of the division name of a city.
pub enum Admin1V {
    Absent,
    Empty,
    Name(Seq<char>),
}

impl View for Admin1 {
    type V = Admin1V;

    open spec fn view(&self) -> Admin1V {
        match self {
            Admin1::Absent => Admin1V::Absent,
            Admin1::Empty => Admin1V::Empty,
            Admin1::Name(n) => Admin1V::Name(n@),
        }
    }
}

/// The place of a city whose division name is `admin1`.
pub open spec fn place_of(city: &CityData, admin1: Seq<char>) -> PlaceV {
    PlaceV {
        id: city.id as nat,
        name: city.name@,
        country: match city.country {
            Some(c) => c@,
            None => Seq::empty(),
        },
        admin1,
        latitude: city.latitude@,
        longitude: city.longitude@,
        population: city.population as nat,
        timezone: city.timezone@,
        record: city.record@,
    }
}

/// Whether the outcome of a query can be written out. A city that has a
/// division name to show must also have a country.
pub open spec fn writable(outcome: &SearchOutcome) -> bool {
    match outcome {
        SearchOutcome::Found(city) => city.admin1@ != Admin1V::Empty ==> city.country is Some,
        _ => true,
    }
}

/// The text that a query ends in. Nothing is written where no city was
/// found, or where the city has an empty table of division names. A
/// location out of range is written as the place with no names. A city
/// without a table of division names has the empty name.
pub open spec fn search_text(outcome: &SearchOutcome, format: Seq<char>) -> Option<Seq<char>> {
    match outcome {
        SearchOutcome::NotFound => None,
        SearchOutcome::OutOfRange => Some(place_text(nowhere(), format)),
        SearchOutcome::Found(city) => match city.admin1@ {
            Admin1V::Empty => None,
            Admin1V::Absent => Some(place_text(place_of(city, Seq::empty()), format)),
            Admin1V::Name(n) => Some(place_text(place_of(city, n), format)),
        },
    }
}

/// Whether [`finish_search`] may be called on the outcome.
pub fn is_writable(outcome: &SearchOutcome) -> (b: bool)
    ensures
        b == writable(outcome),
{
    match outcome {
        SearchOutcome::Found(city) => match city.admin1 {
            Admin1::Empty => true,
            _ => city.country.is_some(),
        },
        _ => true,
    }
}

fn place_from(city: &CityData, admin1: String) -> (place: Place)
    requires
        city.country is Some,
    ensures
        place@ == place_of(city, admin1@),
{
    let country = match &city.country {
        Some(c) => c.clone(),
        None => String::new(),
    };
    Place {
        id: city.id,
        name: city.name.clone(),
        country,
        admin1,
        latitude: city.latitude.clone(),
        longitude: city.longitude.clone(),
        population: city.population,
        timezone: city.timezone.clone(),
        record: city.record.clone(),
    }
}

/// Writes out how a query ended, in the given format.
pub fn finish_search(outcome: &SearchOutcome, format: &str) -> (r: Option<String>)
    requires
        writable(outcome),
    ensures
        match r {
            Some(text) => search_text(outcome, format@) == Some(text@),
            None => search_text(outcome, format@) is None,
        },
{
    match outcome {
        SearchOutcome::NotFound => None,
        SearchOutcome::OutOfRange => {
            let place = Place {
                id: 0,
                name: String::new(),
                country: String::new(),
                admin1: String::new(),
                latitude: "0".to_owned(),
                longitude: "0".to_owned(),
                population: 0,
                timezone: String::new(),
                record: String::new(),
            };
            assert(place@ == nowhere());
            Some(format_place(&place, format))
        },
        SearchOutcome::Found(city) => match &city.admin1 {
            Admin1::Empty => None,
            Admin1::Absent => {
                let place = place_from(city, String::new());
                Some(format_place(&place, format))
            },
            Admin1::Name(n) => {
                let place = place_from(city, n.clone());
                Some(format_place(&place, format))
            },
        },
    }
}

} // verus!
