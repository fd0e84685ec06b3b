//! The JSON-GET provider: a flat JSON list of tee times with local times and
//! separate green and cart fees.

use vstd::prelude::*;
use crate::clock::{calendar_date_of, naive_seconds_of, parse_calendar_date, parse_naive_seconds};
use crate::request::{pair, pairs_view, HttpRequest, Method};
use crate::structs::{id_text, view_of, views, GolfCourse, JsonLeaf, TeeTime, TeeTimeView};
use crate::text::{decimal, format_padded, format_u64, occurs_in, padded, str_contains};

verus! {

/// One tee time of the response; the fees are in cents.
pub struct ForeUpTeeTime {
    pub time: String,
    pub green_fee: i64,
    pub cart_fee: i64,
    pub available_spots: u32,
    pub holes: u32,
}

/// The source tag of courses this provider serves.
pub open spec fn source_tag() -> Seq<char> {
    seq!['f', 'o', 'r', 'e', 'u', 'p']
}

/// The layout of a tee time's local date-time.
pub open spec fn time_format() -> Seq<char> {
    "%Y-%m-%d %H:%M"@
}

/// The layout of the request date.
pub open spec fn date_format() -> Seq<char> {
    "%Y-%m-%d"@
}

/// The hole count a wire value gives: an integer that fits in a `u32` is
/// kept as it is, a text is 18 when it contains `18` and 9 otherwise, any
/// other value is refused.
pub open spec fn holes_of_wire(v: JsonLeaf) -> Option<u32> {
    match v {
        JsonLeaf::Integer(n) => if 0 <= n <= u32::MAX { Some(n as u32) } else { None },
        JsonLeaf::Text(s) => if occurs_in(seq!['1', '8'], s@) { Some(18) } else { Some(9) },
        _ => None,
    }
}

/// Reads the hole count of a tee time from its wire value.
pub fn holes_from_wire(v: &JsonLeaf) -> (r: Option<u32>)
    ensures
        r == holes_of_wire(*v),
{
    match v {
        JsonLeaf::Integer(n) => {
            if 0 <= *n && *n <= u32::MAX as i128 {
                Some(*n as u32)
            } else {
                None
            }
        },
        JsonLeaf::Text(s) => {
            proof {
                reveal_strlit("18");
                assert("18"@ =~= seq!['1', '8']);
            }
            if str_contains(s.as_str(), "18") {
                Some(18)
            } else {
                Some(9)
            }
        },
        _ => None,
    }
}

/// A year as chrono's `%Y` writes it: four digits at least, with a sign
/// outside 0..=9999.
pub open spec fn year_text(y: i32) -> Seq<char> {
    if 0 <= y <= 9999 {
        padded(y as nat, 4)
    } else if y < 0 {
        seq!['-'] + padded((-y) as nat, 4)
    } else {
        seq!['+'] + padded(y as nat, 4)
    }
}

/// The request date `YYYY-MM-DD` rewritten as `MM-DD-YYYY`, none when it
/// does not read as a date.
pub open spec fn flipped_date(date: Seq<char>) -> Option<Seq<char>> {
    match calendar_date_of(date, date_format()) {
        Some((y, m, d)) => Some(padded(m as nat, 2) + seq!['-'] + padded(d as nat, 2) + seq!['-'] + year_text(y)),
        None => None,
    }
}

/// The API URL of a course for a date (already flipped) and party size.
pub open spec fn api_url(course: GolfCourse, flipped: Seq<char>, players: u32) -> Seq<char> {
    "https://foreupsoftware.com/index.php/api/booking/times?time=all&date="@ + flipped
        + "&holes=all&players="@ + decimal(players as nat) + "&booking_class=14824&schedule_id="@
        + id_text(course.id) + "&api_key=no_limits"@
}

/// The course's booking page, used for every one of its records.
pub open spec fn booking_page(course: GolfCourse) -> Seq<char> {
    "https://foreupsoftware.com/index.php/booking/22857/"@ + id_text(course.id) + "#/teetimes"@
}

/// The record of one tee time: none when its time is unreadable or the two
/// fees overflow when added. The price is green fee plus cart fee.
pub open spec fn tee_time_record(course: GolfCourse, tt: ForeUpTeeTime) -> Option<TeeTimeView> {
    let sum = tt.green_fee + tt.cart_fee;
    match naive_seconds_of(tt.time@, time_format()) {
        Some(utc) => if i64::MIN <= sum <= i64::MAX {
            Some(
                TeeTimeView {
                    course: course.name@,
                    tee_time: utc as int,
                    price: sum,
                    players: tt.available_spots,
                    holes: Some(tt.holes),
                    lat: course.lat as int,
                    lon: course.lon as int,
                    book_url: booking_page(course),
                },
            )
        } else {
            None
        },
        None => None,
    }
}

/// The records of a response, in its order.
pub open spec fn response_records(course: GolfCourse, tts: Seq<ForeUpTeeTime>) -> Seq<TeeTimeView> {
    tts.filter_map(|tt: ForeUpTeeTime| tee_time_record(course, tt))
}

fn year_string(y: i32) -> (r: String)
    ensures
        r@ == year_text(y),
{
    if 0 <= y && y <= 9999 {
        format_padded(y as u64, 4)
    } else if y < 0 {
        let mut s = String::from_str("-");
        proof {
            reveal_strlit("-");
        }
        s.append(format_padded((0i64 - y as i64) as u64, 4).as_str());
        s
    } else {
        let mut s = String::from_str("+");
        proof {
            reveal_strlit("+");
        }
        s.append(format_padded(y as u64, 4).as_str());
        s
    }
}

/// Rewrites `YYYY-MM-DD` as `MM-DD-YYYY`; none when the date is unreadable.
pub fn flip_date(date: &str) -> (r: Option<String>)
    ensures
        match r {
            Some(s) => flipped_date(date@) == Some(s@),
            None => flipped_date(date@) is None,
        },
{
    match parse_calendar_date(date, "%Y-%m-%d") {
        Some((y, m, d)) => {
            proof {
                reveal_strlit("-");
            }
            let mut s = format_padded(m as u64, 2);
            s.append("-");
            s.append(format_padded(d as u64, 2).as_str());
            s.append("-");
            s.append(year_string(y).as_str());
            assert(s@ =~= padded(m as nat, 2) + seq!['-'] + padded(d as nat, 2) + seq!['-'] + year_text(y));
            Some(s)
        },
        None => None,
    }
}

/// The request is a GET of the API URL with the flipped date.
pub open spec fn request_spec(course: GolfCourse, date: Seq<char>, players: u32, q: HttpRequest) -> bool {
    &&& flipped_date(date) is Some
    &&& q.method == Method::Get
    &&& q.url@ == api_url(course, flipped_date(date)->0, players)
    &&& q.query@.len() == 0
    &&& q.body is None
    &&& pairs_view(q.headers@) == seq![
        ("User-Agent"@, "Mozilla/5.0"@),
        ("Referer"@, "https://foreupsoftware.com/index.php/booking/"@ + id_text(course.id) + "/7340"@),
        ("Content-Type"@, "application/json"@),
    ]
}

/// The GET request for a course's tee times; none when the date is
/// unreadable.
pub fn request(course: &GolfCourse, date: &str, players: u32) -> (r: Option<HttpRequest>)
    ensures
        flipped_date(date@) is None ==> r is None,
        flipped_date(date@) is Some ==> (r matches Some(q) && request_spec(*course, date@, players, q)),
{
    let flipped = match flip_date(date) {
        Some(f) => f,
        None => return None,
    };
    let id = course.id.text();
    let mut url = String::from_str("https://foreupsoftware.com/index.php/api/booking/times?time=all&date=");
    url.append(flipped.as_str());
    url.append("&holes=all&players=");
    url.append(format_u64(players as u64).as_str());
    url.append("&booking_class=14824&schedule_id=");
    url.append(id.as_str());
    url.append("&api_key=no_limits");
    let mut referer = String::from_str("https://foreupsoftware.com/index.php/booking/");
    referer.append(id.as_str());
    referer.append("/7340");
    let mut headers: Vec<(String, String)> = Vec::new();
    headers.push(pair("User-Agent", "Mozilla/5.0"));
    headers.push((String::from_str("Referer"), referer));
    headers.push(pair("Content-Type", "application/json"));
    assert(pairs_view(headers@) =~= seq![
        ("User-Agent"@, "Mozilla/5.0"@),
        ("Referer"@, "https://foreupsoftware.com/index.php/booking/"@ + id_text(course.id) + "/7340"@),
        ("Content-Type"@, "application/json"@),
    ]);
    Some(HttpRequest { method: Method::Get, url, query: Vec::new(), headers, body: None })
}

/// The record of one tee time, or none when its time is unreadable or the
/// fees overflow.
pub fn record_from(course: &GolfCourse, tt: &ForeUpTeeTime) -> (r: Option<TeeTime>)
    ensures
        view_of(r) == tee_time_record(*course, *tt),
{
    let utc = match parse_naive_seconds(tt.time.as_str(), "%Y-%m-%d %H:%M") {
        Some(u) => u,
        None => return None,
    };
    let price = match tt.green_fee.checked_add(tt.cart_fee) {
        Some(p) => p,
        None => return None,
    };
    let mut url = String::from_str("https://foreupsoftware.com/index.php/booking/22857/");
    url.append(course.id.text().as_str());
    url.append("#/teetimes");
    Some(TeeTime {
        course: course.name.clone(),
        tee_time: utc,
        price,
        players: tt.available_spots,
        holes: Some(tt.holes),
        lat: course.lat,
        lon: course.lon,
        book_url: url,
    })
}

/// The records of a response, in its order.
pub fn records_from(course: &GolfCourse, tts: &Vec<ForeUpTeeTime>) -> (r: Vec<TeeTime>)
    ensures
        views(r@) == response_records(*course, tts@),
{
    let mut out: Vec<TeeTime> = Vec::new();
    let mut i: usize = 0;
    while i < tts.len()
        invariant
            i <= tts@.len(),
            views(out@) == response_records(*course, tts@.take(i as int)),
        decreases tts@.len() - i,
    {
        proof {
            tts@.lemma_filter_map_take_succ(|tt: ForeUpTeeTime| tee_time_record(*course, tt), i as int);
        }
        let ghost before = views(out@);
        match record_from(course, &tts[i]) {
            Some(t) => {
                out.push(t);
                assert(views(out@) =~= before + seq![t@]);
            },
            None => {},
        }
        i = i + 1;
    }
    assert(tts@.take(i as int) =~= tts@);
    out
}

} // verus!
