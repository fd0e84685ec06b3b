//! The JSON-POST provider: a JSON list of tee times, each with its rates.

use vstd::prelude::*;
use crate::clock::{parse_rfc3339_seconds, rfc3339_seconds_of};
use crate::request::{body_view, pair, pairs_view, HttpRequest, Method};
use crate::structs::{id_text, view_of, views, GolfCourse, TeeTime, TeeTimeView};
use crate::text::{decimal, format_u64};

verus! {

/// One rate of a tee time; `price` is in cents.
pub struct GolfBackRate {
    pub price: i64,
    pub rate_plan_id: String,
}

/// One tee time of the response.
pub struct GolfBackTeeTime {
    pub id: String,
    pub date_time: String,
    pub holes: Vec<u32>,
    pub players_max: u32,
    pub rates: Vec<GolfBackRate>,
}

/// The response: its tee-time list, empty when the field is absent.
pub struct GolfBackResponse {
    pub data: Vec<GolfBackTeeTime>,
}

/// The source tag of courses this provider serves.
pub open spec fn source_tag() -> Seq<char> {
    seq!['g', 'o', 'l', 'f', 'b', 'a', 'c', 'k']
}

/// The JSON text of a string, quotes and escapes included.
pub uninterp spec fn json_string_of(s: Seq<char>) -> Seq<char>;

/// Relies on `serde_json::to_string` on a `&str`, which cannot fail: the
/// JSON string literal of `s`.
#[verifier::external_body]
fn json_string(s: &str) -> (r: String)
    ensures
        r@ == json_string_of(s@),
{
    serde_json::to_string(s).unwrap_or_default()
}

/// The largest value of a list, none when it is empty.
pub open spec fn max_of(s: Seq<u32>) -> Option<u32>
    decreases s.len(),
{
    if s.len() == 0 {
        None
    } else {
        match max_of(s.drop_last()) {
            Some(m) => Some(if m >= s.last() { m } else { s.last() }),
            None => Some(s.last()),
        }
    }
}

pub open spec fn api_url(course: GolfCourse, date: Seq<char>) -> Seq<char> {
    "https://api.golfback.com/api/v1/courses/"@ + id_text(course.id) + "/date/"@ + date + "/teetimes"@
}

/// The request body `{"course_id":…,"date":…,"players":…}` (keys sorted).
pub open spec fn request_body(course: GolfCourse, date: Seq<char>, players: u32) -> Seq<char> {
    "{\"course_id\":"@ + json_string_of(id_text(course.id)) + ",\"date\":"@ + json_string_of(date)
        + ",\"players\":"@ + decimal(players as nat) + "}"@
}

/// The record of one tee time: none when it has no rate or its date-time is
/// not RFC 3339. The price and plan come from the first rate, the hole
/// count is the largest listed.
pub open spec fn tee_time_record(course: GolfCourse, date: Seq<char>, players: u32, tt: GolfBackTeeTime) -> Option<TeeTimeView> {
    if tt.rates@.len() == 0 {
        None
    } else {
        match rfc3339_seconds_of(tt.date_time@) {
            Some(utc) => Some(
                TeeTimeView {
                    course: course.name@,
                    tee_time: utc as int,
                    price: tt.rates@[0].price as int,
                    players: tt.players_max,
                    holes: max_of(tt.holes@),
                    lat: course.lat as int,
                    lon: course.lon as int,
                    book_url: "https://golfback.com/#/course/"@ + id_text(course.id) + "/date/"@ + date
                        + "/teetime/"@ + tt.id@ + "?rateId="@ + tt.rates@[0].rate_plan_id@
                        + "&holes=18&players="@ + decimal(players as nat),
                },
            ),
            None => None,
        }
    }
}

/// The records of a response, in its order.
pub open spec fn response_records(course: GolfCourse, date: Seq<char>, players: u32, data: Seq<GolfBackTeeTime>) -> Seq<TeeTimeView> {
    data.filter_map(|tt: GolfBackTeeTime| tee_time_record(course, date, players, tt))
}

/// The request is a JSON POST to the course's tee-time endpoint.
pub open spec fn request_spec(course: GolfCourse, date: Seq<char>, players: u32, r: HttpRequest) -> bool {
    &&& r.method == Method::Post
    &&& r.url@ == api_url(course, date)
    &&& r.query@.len() == 0
    &&& pairs_view(r.headers@) == seq![
        ("User-Agent"@, "Mozilla/5.0"@),
        ("Referer"@, "https://golfback.com/"@),
    ]
    &&& body_view(r.body) == Some(request_body(course, date, players))
}

/// The POST request for a course's tee times on a date.
pub fn request(course: &GolfCourse, date: &str, players: u32) -> (r: HttpRequest)
    ensures
        request_spec(*course, date@, players, r),
{
    let id = course.id.text();
    let mut url = String::from_str("https://api.golfback.com/api/v1/courses/");
    url.append(id.as_str());
    url.append("/date/");
    url.append(date);
    url.append("/teetimes");
    let mut body = String::from_str("{\"course_id\":");
    body.append(json_string(id.as_str()).as_str());
    body.append(",\"date\":");
    body.append(json_string(date).as_str());
    body.append(",\"players\":");
    body.append(format_u64(players as u64).as_str());
    body.append("}");
    let mut headers: Vec<(String, String)> = Vec::new();
    headers.push(pair("User-Agent", "Mozilla/5.0"));
    headers.push(pair("Referer", "https://golfback.com/"));
    assert(pairs_view(headers@) =~= seq![
        ("User-Agent"@, "Mozilla/5.0"@),
        ("Referer"@, "https://golfback.com/"@),
    ]);
    HttpRequest { method: Method::Post, url, query: Vec::new(), headers, body: Some(body) }
}

fn max_hole(holes: &Vec<u32>) -> (r: Option<u32>)
    ensures
        r == max_of(holes@),
{
    let mut m: Option<u32> = None;
    let mut i: usize = 0;
    while i < holes.len()
        invariant
            i <= holes@.len(),
            m == max_of(holes@.take(i as int)),
        decreases holes@.len() - i,
    {
        assert(holes@.take(i + 1).drop_last() =~= holes@.take(i as int));
        let h = holes[i];
        m = match m {
            Some(x) => Some(if x >= h { x } else { h }),
            None => Some(h),
        };
        i = i + 1;
    }
    assert(holes@.take(i as int) =~= holes@);
    m
}

/// The record of one tee time, or none when it has no rate or an
/// unreadable date-time.
pub fn record_from(course: &GolfCourse, date: &str, players: u32, tt: &GolfBackTeeTime) -> (r: Option<TeeTime>)
    ensures
        view_of(r) == tee_time_record(*course, date@, players, *tt),
{
    if tt.rates.len() == 0 {
        return None;
    }
    let rate = &tt.rates[0];
    let utc = match parse_rfc3339_seconds(tt.date_time.as_str()) {
        Some(u) => u,
        None => return None,
    };
    let mut url = String::from_str("https://golfback.com/#/course/");
    url.append(course.id.text().as_str());
    url.append("/date/");
    url.append(date);
    url.append("/teetime/");
    url.append(tt.id.as_str());
    url.append("?rateId=");
    url.append(rate.rate_plan_id.as_str());
    url.append("&holes=18&players=");
    url.append(format_u64(players as u64).as_str());
    Some(TeeTime {
        course: course.name.clone(),
        tee_time: utc,
        price: rate.price,
        players: tt.players_max,
        holes: max_hole(&tt.holes),
        lat: course.lat,
        lon: course.lon,
        book_url: url,
    })
}

/// The records of a response, in its order; tee times without a rate or
/// with an unreadable date-time are left out.
pub fn records_from(course: &GolfCourse, date: &str, players: u32, resp: &GolfBackResponse) -> (r: Vec<TeeTime>)
    ensures
        views(r@) == response_records(*course, date@, players, resp.data@),
{
    let data = &resp.data;
    let mut out: Vec<TeeTime> = Vec::new();
    let mut i: usize = 0;
    while i < data.len()
        invariant
            i <= data@.len(),
            views(out@) == response_records(*course, date@, players, data@.take(i as int)),
        decreases data@.len() - i,
    {
        proof {
            data@.lemma_filter_map_take_succ(|tt: GolfBackTeeTime| tee_time_record(*course, date@, players, tt), i as int);
        }
        let ghost before = views(out@);
        match record_from(course, date, players, &data[i]) {
            Some(t) => {
                out.push(t);
                assert(views(out@) =~= before + seq![t@]);
            },
            None => {},
        }
        i = i + 1;
    }
    assert(data@.take(i as int) =~= data@);
    out
}

proof fn lemma_max_of(s: Seq<u32>)
    ensures
        max_of(s) is None <==> s.len() == 0,
        max_of(s) matches Some(m) ==> s.contains(m) && forall|i: int| 0 <= i < s.len() ==> s[i] <= m,
    decreases s.len(),
{
    if s.len() > 0 {
        lemma_max_of(s.drop_last());
        let m = max_of(s).unwrap();
        assert forall|i: int| 0 <= i < s.len() implies s[i] <= m by {
            if i < s.len() - 1 {
                assert(s.drop_last()[i] == s[i]);
            }
        }
        if let Some(pm) = max_of(s.drop_last()) {
            if pm >= s.last() {
                let j = choose|j: int| 0 <= j < s.drop_last().len() && s.drop_last()[j] == pm;
                assert(s[j] == pm);
            } else {
                assert(s[s.len() - 1] == s.last());
            }
        } else {
            assert(s[s.len() - 1] == s.last());
        }
    }
}

/// An empty tee-time list gives no records; a tee time without rates gives
/// none; a kept record has the first rate's price and, as hole count, the
/// largest value of the list (none only for an empty list).
pub proof fn lemma_response_rules(course: GolfCourse, date: Seq<char>, players: u32, tt: GolfBackTeeTime)
    ensures
        response_records(course, date, players, seq![]) == Seq::<TeeTimeView>::empty(),
        tt.rates@.len() == 0 ==> tee_time_record(course, date, players, tt) is None,
        tee_time_record(course, date, players, tt) matches Some(r) ==> r.price == tt.rates@[0].price
            && r.holes == max_of(tt.holes@),
        max_of(tt.holes@) is None <==> tt.holes@.len() == 0,
        max_of(tt.holes@) matches Some(m) ==> tt.holes@.contains(m)
            && forall|i: int| 0 <= i < tt.holes@.len() ==> tt.holes@[i] <= m,
{
    lemma_max_of(tt.holes@);
}

} // verus!
