use tee_time_finder::book_a_tee_time::{self, records_from_page, TeeNode};
use tee_time_finder::foreup::{self, flip_date, holes_from_wire, ForeUpTeeTime};
use tee_time_finder::golfback::{self, GolfBackRate, GolfBackResponse, GolfBackTeeTime};
use tee_time_finder::request::Method;
use tee_time_finder::structs::{CourseId, GolfCourse, JsonLeaf, VerboseCourseId};
use tee_time_finder::teeitup::{self, TeeItUpPromotion, TeeItUpRate, TeeItUpResponse, TeeItUpTeeTime};

fn course(id: CourseId, source: &str) -> GolfCourse {
    GolfCourse { id, name: "Swope Memorial".to_string(), lat: 39_000_000, lon: -94_500_000, source: source.to_string() }
}

fn verbose() -> CourseId {
    CourseId::Verbose(VerboseCourseId { id: 5210, url: "https://club.example".to_string(), alias: "club".to_string() })
}

#[test]
fn html_fragment_gives_one_record() {
    let body = "<html><body><div class=\"tee-time\" data-date-time=\"202406151330\" data-price=\"45.00\" \
                data-available=\"2\"><span>18 Holes</span><a class=\"btn\" href=\"/book/77\">Book</a></div></body></html>";
    let c = course(CourseId::Number(12), "bookateetime");
    let r = records_from_page(&c, body);
    assert_eq!(r.len(), 1);
    let t = &r[0];
    assert_eq!(t.holes, Some(18));
    assert_eq!(t.price, 4500);
    assert_eq!(t.players, 2);
    // 13:30 Central daylight time is 18:30 UTC.
    assert_eq!(t.tee_time, 1718476200);
    assert_eq!(t.book_url, "https://bookateetime.teequest.com/book/77");
    assert_eq!(t.course, "Swope Memorial");
    assert_eq!((t.lat, t.lon), (39_000_000, -94_500_000));
}

#[test]
fn html_winter_time_uses_standard_offset() {
    let body = "<div class=\"tee-time\" data-date-time=\"202401150730\" data-price=\"20\" data-available=\"4\"></div>";
    let r = records_from_page(&course(CourseId::Number(1), "bookateetime"), body);
    assert_eq!(r.len(), 1);
    // 07:30 CST is 13:30 UTC; no span, so no hole count; no link, bare origin.
    assert_eq!(r[0].tee_time, 1705325400);
    assert_eq!(r[0].holes, None);
    assert_eq!(r[0].book_url, "https://bookateetime.teequest.com");
}

#[test]
fn html_nodes_missing_fields_are_dropped_alone() {
    let body = "<div class=\"tee-time\" data-date-time=\"202406151330\" data-available=\"2\"></div>\
                <div class=\"tee-time\" data-date-time=\"202406151340\" data-price=\"30.00\" data-available=\"x\"></div>\
                <div class=\"tee-time\" data-date-time=\"202603080230\" data-price=\"30.00\" data-available=\"1\"></div>\
                <div class=\"tee-time\" data-date-time=\"202406150300\" data-price=\"30.50\" data-available=\"3\"><span>front</span><span>9 holes</span></div>";
    let r = records_from_page(&course(CourseId::Number(1), "bookateetime"), body);
    assert_eq!(r.len(), 1);
    assert_eq!(r[0].price, 3050);
    assert_eq!(r[0].holes, Some(9));
    assert_eq!(r[0].tee_time, 1718438400);
}

#[test]
fn html_price_with_three_decimals_is_rounded() {
    let body = "<div class=\"tee-time\" data-date-time=\"202406151330\" data-price=\"45.125\" data-available=\"2\"></div>";
    let r = records_from_page(&course(CourseId::Number(1), "bookateetime"), body);
    assert_eq!(r.len(), 1);
    assert_eq!(r[0].price, 4513);
}

#[test]
fn html_scrape_nodes_reads_attributes() {
    let body = "<div class=\"tee-time\" data-price=\"9\"><span>a</span><span>b 18</span><a class=\"btn\" href=\"/h\">x</a></div>";
    let nodes = book_a_tee_time::scrape_nodes(body);
    assert_eq!(nodes.len(), 1);
    assert_eq!(nodes[0].price.as_deref(), Some("9"));
    assert_eq!(nodes[0].date_time, None);
    assert_eq!(nodes[0].span_texts, vec!["a".to_string(), "b 18".to_string()]);
    assert_eq!(nodes[0].href.as_deref(), Some("/h"));
}

#[test]
fn html_node_record_directly() {
    let c = course(CourseId::Number(1), "bookateetime");
    let node = TeeNode {
        date_time: Some("202406150200".to_string()),
        price: Some("12.5".to_string()),
        available: Some("4".to_string()),
        span_texts: vec!["Holes: 9 or 18".to_string()],
        href: Some("/x".to_string()),
    };
    let t = book_a_tee_time::record_from_node(&c, &node).unwrap();
    assert_eq!(t.holes, Some(9));
    assert_eq!(t.price, 1250);
    assert_eq!(t.tee_time, 1718434800);
    assert_eq!(t.book_url, "https://bookateetime.teequest.com/x");
}

#[test]
fn html_request_url() {
    let q = book_a_tee_time::request(&course(CourseId::String("kc9".to_string()), "bookateetime"), "2024-06-15", 3);
    assert!(matches!(q.method, Method::Get));
    assert_eq!(q.url, "https://bookateetime.teequest.com/search/kc9/2024-06-15?selectedPlayers=3&selectedHoles=18");
}

fn gb_tee_time(id: &str, holes: Vec<u32>, rates: Vec<GolfBackRate>) -> GolfBackTeeTime {
    GolfBackTeeTime {
        id: id.to_string(),
        date_time: "2024-06-15T13:30:00-05:00".to_string(),
        holes,
        players_max: 4,
        rates,
    }
}

fn gb_rate(price: i64, plan: &str) -> GolfBackRate {
    GolfBackRate { price, rate_plan_id: plan.to_string() }
}

#[test]
fn golfback_empty_list_gives_nothing() {
    let c = course(CourseId::Number(8), "golfback");
    let r = golfback::records_from(&c, "2024-06-15", 2, &GolfBackResponse { data: vec![] });
    assert!(r.is_empty());
}

#[test]
fn golfback_rateless_tee_time_dropped_and_max_holes() {
    let c = course(CourseId::String("abc".to_string()), "golfback");
    let resp = GolfBackResponse {
        data: vec![
            gb_tee_time("t1", vec![9, 18], vec![]),
            gb_tee_time("t2", vec![9, 18, 12], vec![gb_rate(3400, "p1"), gb_rate(2000, "p2")]),
            gb_tee_time("t3", vec![], vec![gb_rate(1000, "p3")]),
        ],
    };
    let r = golfback::records_from(&c, "2024-06-15", 2, &resp);
    assert_eq!(r.len(), 2);
    assert_eq!(r[0].holes, Some(18));
    assert_eq!(r[0].price, 3400);
    assert_eq!(r[0].players, 4);
    assert_eq!(r[0].tee_time, 1718476200);
    assert_eq!(r[0].book_url, "https://golfback.com/#/course/abc/date/2024-06-15/teetime/t2?rateId=p1&holes=18&players=2");
    assert_eq!(r[1].holes, None);
}

#[test]
fn golfback_bad_date_time_dropped() {
    let c = course(CourseId::Number(8), "golfback");
    let mut tt = gb_tee_time("t1", vec![18], vec![gb_rate(100, "p")]);
    tt.date_time = "2024-06-15 13:30".to_string();
    let r = golfback::records_from(&c, "2024-06-15", 2, &GolfBackResponse { data: vec![tt] });
    assert!(r.is_empty());
}

#[test]
fn golfback_request() {
    let q = golfback::request(&course(CourseId::Number(8), "golfback"), "2024-06-15", 2);
    assert!(matches!(q.method, Method::Post));
    assert_eq!(q.url, "https://api.golfback.com/api/v1/courses/8/date/2024-06-15/teetimes");
    assert_eq!(q.body.unwrap(), "{\"course_id\":\"8\",\"date\":\"2024-06-15\",\"players\":2}");
    assert_eq!(q.headers.len(), 2);
}

#[test]
fn foreup_hole_heuristic() {
    assert_eq!(holes_from_wire(&JsonLeaf::Text("18 holes".to_string())), Some(18));
    assert_eq!(holes_from_wire(&JsonLeaf::Text("front nine".to_string())), Some(9));
    assert_eq!(holes_from_wire(&JsonLeaf::Integer(9)), Some(9));
    assert_eq!(holes_from_wire(&JsonLeaf::Integer(27)), Some(27));
    assert_eq!(holes_from_wire(&JsonLeaf::Integer(-1)), None);
    assert_eq!(holes_from_wire(&JsonLeaf::Integer(4294967295)), Some(4294967295));
    assert_eq!(holes_from_wire(&JsonLeaf::Integer(4294967314)), None);
    assert_eq!(holes_from_wire(&JsonLeaf::Null), None);
    assert_eq!(holes_from_wire(&JsonLeaf::OtherNumber), None);
}

#[test]
fn foreup_date_flip() {
    assert_eq!(flip_date("2024-06-05").unwrap(), "06-05-2024");
    assert_eq!(flip_date("0999-12-31").unwrap(), "12-31-0999");
    assert!(flip_date("06-05-2024").is_none());
    assert!(flip_date("2024-02-30").is_none());
    assert!(flip_date("").is_none());
}

#[test]
fn foreup_request_and_bad_date() {
    let c = course(CourseId::Number(19765), "foreup");
    let q = foreup::request(&c, "2024-06-15", 4).unwrap();
    assert_eq!(
        q.url,
        "https://foreupsoftware.com/index.php/api/booking/times?time=all&date=06-15-2024&holes=all&players=4&booking_class=14824&schedule_id=19765&api_key=no_limits"
    );
    assert_eq!(q.headers[1].1, "https://foreupsoftware.com/index.php/booking/19765/7340");
    assert!(foreup::request(&c, "June 15", 4).is_none());
}

#[test]
fn foreup_records_sum_fees() {
    let c = course(CourseId::Number(19765), "foreup");
    let tts = vec![
        ForeUpTeeTime { time: "2024-06-15 13:30".to_string(), green_fee: 3500, cart_fee: 900, available_spots: 3, holes: 18 },
        ForeUpTeeTime { time: "bad".to_string(), green_fee: 1, cart_fee: 1, available_spots: 1, holes: 9 },
        ForeUpTeeTime { time: "2024-06-15 14:10".to_string(), green_fee: i64::MAX, cart_fee: 1, available_spots: 1, holes: 9 },
    ];
    let r = foreup::records_from(&c, &tts);
    assert_eq!(r.len(), 1);
    assert_eq!(r[0].price, 4400);
    assert_eq!(r[0].tee_time, 1718458200);
    assert_eq!(r[0].holes, Some(18));
    assert_eq!(r[0].players, 3);
    assert_eq!(r[0].book_url, "https://foreupsoftware.com/index.php/booking/22857/19765#/teetimes");
}

fn tu_tee_time(time: &str, rates: Vec<TeeItUpRate>) -> TeeItUpTeeTime {
    TeeItUpTeeTime { teetime: time.to_string(), max_players: 4, rates }
}

#[test]
fn teeitup_promotion_overrides_price() {
    let c = course(verbose(), "teeitup");
    let resp = TeeItUpResponse {
        teetimes: vec![tu_tee_time(
            "2024-06-15T13:30:00.000Z",
            vec![TeeItUpRate { holes: 18, green_fee_cart: Some(5500), promotion: Some(TeeItUpPromotion { green_fee_cart: 4200 }) }],
        )],
    };
    let r = teeitup::records_from(&c, "2024-06-15", &resp);
    assert_eq!(r.len(), 1);
    assert_eq!(r[0].price, 4200);
    assert_eq!(r[0].holes, Some(18));
    assert_eq!(r[0].tee_time, 1718458200);
    assert_eq!(r[0].book_url, "https://club.example/?course=5210&date=2024-06-15&max=9999");
}

#[test]
fn teeitup_non_verbose_course_gives_nothing() {
    let resp = TeeItUpResponse {
        teetimes: vec![tu_tee_time(
            "2024-06-15T13:30:00Z",
            vec![TeeItUpRate { holes: 18, green_fee_cart: Some(5500), promotion: None }],
        )],
    };
    assert!(teeitup::records_from(&course(CourseId::Number(5210), "teeitup"), "2024-06-15", &resp).is_empty());
    assert!(teeitup::request(&course(CourseId::Number(5210), "teeitup"), "2024-06-15").is_none());
}

#[test]
fn teeitup_fallback_time_and_dropped_rates() {
    let c = course(verbose(), "teeitup");
    let resp = TeeItUpResponse {
        teetimes: vec![
            tu_tee_time("2024-06-15 13:30:00", vec![TeeItUpRate { holes: 9, green_fee_cart: Some(2500), promotion: None }]),
            tu_tee_time("2024-06-15 13:40:00", vec![]),
            tu_tee_time("2024-06-15 13:50:00", vec![TeeItUpRate { holes: 9, green_fee_cart: None, promotion: None }]),
        ],
    };
    let r = teeitup::records_from(&c, "2024-06-15", &resp);
    assert_eq!(r.len(), 1);
    assert_eq!(r[0].price, 2500);
    assert_eq!(r[0].tee_time, 1718458200);
    let q = teeitup::request(&c, "2024-06-15").unwrap();
    assert_eq!(q.url, "https://phx-api-be-east-1b.kenna.io/v2/tee-times");
    assert_eq!(q.query[1], ("facilityIds".to_string(), "5210".to_string()));
    assert_eq!(q.headers[4], ("X-Be-Alias".to_string(), "club".to_string()));
}
