//! The verbose-JSON provider: courses addressed by base URL and tenant
//! alias, tee times priced in cents with optional promotions.

use vstd::prelude::*;
use crate::clock::{naive_seconds_of, parse_naive_seconds, parse_rfc3339_seconds, rfc3339_seconds_of};
use crate::request::{pair, pairs_view, HttpRequest, Method};
use crate::structs::{view_of, views, CourseId, GolfCourse, TeeTime, TeeTimeView, VerboseCourseId};
use crate::text::{format_i64, signed_decimal};

verus! {

/// A promotion of a rate; its cart-inclusive price is in cents.
pub struct TeeItUpPromotion {
    pub green_fee_cart: i64,
}

/// One rate of a tee time; prices in cents.
pub struct TeeItUpRate {
    pub holes: u32,
    pub green_fee_cart: Option<i64>,
    pub promotion: Option<TeeItUpPromotion>,
}

/// One tee time of the response.
pub struct TeeItUpTeeTime {
    pub teetime: String,
    pub max_players: u32,
    pub rates: Vec<TeeItUpRate>,
}

/// The first element of the response array.
pub struct TeeItUpResponse {
    pub teetimes: Vec<TeeItUpTeeTime>,
}

/// The source tag of courses this provider serves.
pub open spec fn source_tag() -> Seq<char> {
    seq!['t', 'e', 'e', 'i', 't', 'u', 'p']
}

/// The fallback layout of a tee time's date-time, read as UTC.
pub open spec fn time_format() -> Seq<char> {
    "%Y-%m-%d %H:%M:%S"@
}

/// The API endpoint.
pub open spec fn api_url() -> Seq<char> {
    "https://phx-api-be-east-1b.kenna.io/v2/tee-times"@
}

/// The price of a rate: the promotion's when there is one, else its own.
pub open spec fn rate_price(rate: TeeItUpRate) -> Option<i64> {
    match rate.promotion {
        Some(p) => Some(p.green_fee_cart),
        None => rate.green_fee_cart,
    }
}

/// A date-time as RFC 3339, else in the fallback layout as UTC.
pub open spec fn instant_of(s: Seq<char>) -> Option<i64> {
    match rfc3339_seconds_of(s) {
        Some(t) => Some(t),
        None => naive_seconds_of(s, time_format()),
    }
}

/// The booking page of a verbose course for a date.
pub open spec fn booking_page(v: VerboseCourseId, date: Seq<char>) -> Seq<char> {
    v.url@ + "/?course="@ + signed_decimal(v.id as int) + "&date="@ + date + "&max=9999"@
}

/// The record of one tee time, from its first rate: none when it has no
/// rate, the first rate has no price, or the date-time is unreadable.
pub open spec fn tee_time_record(course: GolfCourse, v: VerboseCourseId, date: Seq<char>, tt: TeeItUpTeeTime) -> Option<TeeTimeView> {
    if tt.rates@.len() == 0 {
        None
    } else {
        match (rate_price(tt.rates@[0]), instant_of(tt.teetime@)) {
            (Some(price), Some(utc)) => Some(
                TeeTimeView {
                    course: course.name@,
                    tee_time: utc as int,
                    price: price as int,
                    players: tt.max_players,
                    holes: Some(tt.rates@[0].holes),
                    lat: course.lat as int,
                    lon: course.lon as int,
                    book_url: booking_page(v, date),
                },
            ),
            _ => None,
        }
    }
}

/// The records of a response for a course: none unless the course has the
/// verbose identity.
pub open spec fn response_records(course: GolfCourse, date: Seq<char>, tts: Seq<TeeItUpTeeTime>) -> Seq<TeeTimeView> {
    match course.id {
        CourseId::Verbose(v) => tts.filter_map(|tt: TeeItUpTeeTime| tee_time_record(course, v, date, tt)),
        _ => seq![],
    }
}

/// The request is a GET of the endpoint with the date and facility id as
/// query, and the course's own site as origin.
pub open spec fn request_spec(course: GolfCourse, date: Seq<char>, q: HttpRequest) -> bool {
    match course.id {
        CourseId::Verbose(v) => {
            &&& q.method == Method::Get
            &&& q.url@ == api_url()
            &&& q.body is None
            &&& pairs_view(q.query@) == seq![("date"@, date), ("facilityIds"@, signed_decimal(v.id as int))]
            &&& pairs_view(q.headers@) == seq![
                ("Accept"@, "application/json, text/plain, */*"@),
                ("Origin"@, v.url@),
                ("Referer"@, v.url@),
                ("User-Agent"@, "Mozilla/5.0"@),
                ("X-Be-Alias"@, v.alias@),
            ]
        },
        _ => false,
    }
}

/// The GET request for a course's tee times on a date; none unless the
/// course has the verbose identity.
pub fn request(course: &GolfCourse, date: &str) -> (r: Option<HttpRequest>)
    ensures
        !(course.id is Verbose) ==> r is None,
        course.id is Verbose ==> (r matches Some(q) && request_spec(*course, date@, q)),
{
    let v = match &course.id {
        CourseId::Verbose(v) => v,
        _ => return None,
    };
    let mut query: Vec<(String, String)> = Vec::new();
    query.push(pair("date", date));
    query.push((String::from_str("facilityIds"), format_i64(v.id)));
    let mut headers: Vec<(String, String)> = Vec::new();
    headers.push(pair("Accept", "application/json, text/plain, */*"));
    headers.push(pair("Origin", v.url.as_str()));
    headers.push(pair("Referer", v.url.as_str()));
    headers.push(pair("User-Agent", "Mozilla/5.0"));
    headers.push(pair("X-Be-Alias", v.alias.as_str()));
    assert(pairs_view(query@) =~= seq![("date"@, date@), ("facilityIds"@, signed_decimal(v.id as int))]);
    assert(pairs_view(headers@) =~= seq![
        ("Accept"@, "application/json, text/plain, */*"@),
        ("Origin"@, v.url@),
        ("Referer"@, v.url@),
        ("User-Agent"@, "Mozilla/5.0"@),
        ("X-Be-Alias"@, v.alias@),
    ]);
    Some(HttpRequest {
        method: Method::Get,
        url: String::from_str("https://phx-api-be-east-1b.kenna.io/v2/tee-times"),
        query,
        headers,
        body: None,
    })
}

/// The record of one tee time of a verbose course.
pub fn record_from(course: &GolfCourse, v: &VerboseCourseId, date: &str, tt: &TeeItUpTeeTime) -> (r: Option<TeeTime>)
    ensures
        view_of(r) == tee_time_record(*course, *v, date@, *tt),
{
    if tt.rates.len() == 0 {
        return None;
    }
    let rate = &tt.rates[0];
    let price = match &rate.promotion {
        Some(p) => p.green_fee_cart,
        None => match rate.green_fee_cart {
            Some(c) => c,
            None => return None,
        },
    };
    let utc = match parse_rfc3339_seconds(tt.teetime.as_str()) {
        Some(t) => t,
        None => match parse_naive_seconds(tt.teetime.as_str(), "%Y-%m-%d %H:%M:%S") {
            Some(t) => t,
            None => return None,
        },
    };
    let mut url = v.url.clone();
    url.append("/?course=");
    url.append(format_i64(v.id).as_str());
    url.append("&date=");
    url.append(date);
    url.append("&max=9999");
    Some(TeeTime {
        course: course.name.clone(),
        tee_time: utc,
        price,
        players: tt.max_players,
        holes: Some(rate.holes),
        lat: course.lat,
        lon: course.lon,
        book_url: url,
    })
}

/// The records of a response for a course, in its order; a course without
/// the verbose identity gets none.
pub fn records_from(course: &GolfCourse, date: &str, resp: &TeeItUpResponse) -> (r: Vec<TeeTime>)
    ensures
        views(r@) == response_records(*course, date@, resp.teetimes@),
{
    let v = match &course.id {
        CourseId::Verbose(v) => v,
        _ => {
            let out: Vec<TeeTime> = Vec::new();
            assert(views(out@) =~= seq![]);
            return out;
        },
    };
    let tts = &resp.teetimes;
    let mut out: Vec<TeeTime> = Vec::new();
    let mut i: usize = 0;
    while i < tts.len()
        invariant
            i <= tts@.len(),
            course.id == CourseId::Verbose(*v),
            views(out@) == tts@.take(i as int).filter_map(|tt: TeeItUpTeeTime| tee_time_record(*course, *v, date@, tt)),
        decreases tts@.len() - i,
    {
        proof {
            tts@.lemma_filter_map_take_succ(|tt: TeeItUpTeeTime| tee_time_record(*course, *v, date@, tt), i as int);
        }
        let ghost before = views(out@);
        match record_from(course, v, date, &tts[i]) {
            Some(t) => {
                out.push(t);
                assert(views(out@) =~= before + seq![t@]);
            },
            None => {},
        }
        i = i + 1;
    }
    assert(tts@.take(i as int) =~= tts@);
    out
}

/// A course without the verbose identity gets no records, whatever the
/// response holds; a rate's promotion price wins over its own price.
pub proof fn lemma_response_rules(course: GolfCourse, date: Seq<char>, tts: Seq<TeeItUpTeeTime>, rate: TeeItUpRate)
    ensures
        !(course.id is Verbose) ==> response_records(course, date, tts) == Seq::<TeeTimeView>::empty(),
        rate.promotion matches Some(p) ==> rate_price(rate) == Some(p.green_fee_cart),
        rate.promotion is None ==> rate_price(rate) == rate.green_fee_cart,
{
}

} // verus!
