use tee_time_finder::book_a_tee_time::TeeNode;
use tee_time_finder::foreup::ForeUpTeeTime;
use tee_time_finder::golfback::{GolfBackRate, GolfBackResponse, GolfBackTeeTime};
use tee_time_finder::structs::{CourseId, GolfCourse, VerboseCourseId};
use tee_time_finder::tee_time_service::{collect_records, plan_jobs, Outcome, Provider};
use tee_time_finder::teeitup::{TeeItUpRate, TeeItUpResponse, TeeItUpTeeTime};

fn course(name: &str, id: CourseId, source: &str) -> GolfCourse {
    GolfCourse { id, name: name.to_string(), lat: 39_000_000, lon: -94_500_000, source: source.to_string() }
}

fn catalog() -> Vec<GolfCourse> {
    vec![
        course("tu", CourseId::Verbose(VerboseCourseId { id: 1, url: "https://u".to_string(), alias: "a".to_string() }), "teeitup"),
        course("fu1", CourseId::Number(2), "foreup"),
        course("gb", CourseId::Number(3), "golfback"),
        course("bt", CourseId::Number(4), "bookateetime"),
        course("fu2", CourseId::Number(5), "foreup"),
        course("tu_plain", CourseId::Number(6), "teeitup"),
        course("other", CourseId::Number(7), "unknown"),
    ]
}

fn foreup_answer(price: i64) -> Outcome {
    Outcome::ForeUp(vec![ForeUpTeeTime {
        time: "2024-06-15 13:30".to_string(),
        green_fee: price,
        cart_fee: 0,
        available_spots: 2,
        holes: 18,
    }])
}

fn answers() -> Vec<Outcome> {
    vec![
        Outcome::Page(vec![TeeNode {
            date_time: Some("202406151330".to_string()),
            price: Some("10".to_string()),
            available: Some("1".to_string()),
            span_texts: vec![],
            href: None,
        }]),
        Outcome::GolfBack(GolfBackResponse {
            data: vec![GolfBackTeeTime {
                id: "t".to_string(),
                date_time: "2024-06-15T13:30:00Z".to_string(),
                holes: vec![18],
                players_max: 4,
                rates: vec![GolfBackRate { price: 2000, rate_plan_id: "p".to_string() }],
            }],
        }),
        foreup_answer(3000),
        foreup_answer(3100),
        Outcome::TeeItUp(TeeItUpResponse {
            teetimes: vec![TeeItUpTeeTime {
                teetime: "2024-06-15T13:30:00Z".to_string(),
                max_players: 4,
                rates: vec![TeeItUpRate { holes: 18, green_fee_cart: Some(4000), promotion: None }],
            }],
        }),
    ]
}

#[test]
fn jobs_follow_provider_then_catalog_order() {
    let courses = catalog();
    let jobs = plan_jobs(&courses, "2024-06-15", 2);
    let pairs: Vec<(Provider, usize)> = jobs.iter().map(|j| (j.provider, j.course)).collect();
    assert!(pairs == vec![
        (Provider::BookATeeTime, 3),
        (Provider::GolfBack, 2),
        (Provider::ForeUp, 1),
        (Provider::ForeUp, 4),
        (Provider::TeeItUp, 0),
    ]);
}

#[test]
fn unreadable_date_drops_only_the_date_provider() {
    let courses = catalog();
    let jobs = plan_jobs(&courses, "15/06/2024", 2);
    let providers: Vec<Provider> = jobs.iter().map(|j| j.provider).collect();
    assert!(providers == vec![Provider::BookATeeTime, Provider::GolfBack, Provider::TeeItUp]);
}

#[test]
fn segments_come_in_provider_order() {
    let courses = catalog();
    let jobs = plan_jobs(&courses, "2024-06-15", 2);
    let r = collect_records(&courses, "2024-06-15", 2, &jobs, &answers());
    let seen: Vec<(String, i64)> = r.iter().map(|t| (t.course.clone(), t.price)).collect();
    assert_eq!(
        seen,
        vec![
            ("bt".to_string(), 1000),
            ("gb".to_string(), 2000),
            ("fu1".to_string(), 3000),
            ("fu2".to_string(), 3100),
            ("tu".to_string(), 4000),
        ]
    );
}

#[test]
fn one_failed_fetch_leaves_the_rest() {
    let courses = catalog();
    let jobs = plan_jobs(&courses, "2024-06-15", 2);
    let mut outcomes = answers();
    outcomes[2] = Outcome::Failed;
    let r = collect_records(&courses, "2024-06-15", 2, &jobs, &outcomes);
    let names: Vec<String> = r.iter().map(|t| t.course.clone()).collect();
    assert_eq!(names, vec!["bt", "gb", "fu2", "tu"]);
}

#[test]
fn all_failed_gives_empty_list() {
    let courses = catalog();
    let jobs = plan_jobs(&courses, "2024-06-15", 2);
    let outcomes: Vec<Outcome> = jobs.iter().map(|_| Outcome::Failed).collect();
    assert!(collect_records(&courses, "2024-06-15", 2, &jobs, &outcomes).is_empty());
}

#[test]
fn answer_of_wrong_shape_gives_nothing() {
    let courses = catalog();
    let jobs = plan_jobs(&courses, "2024-06-15", 2);
    let mut outcomes = answers();
    outcomes[0] = foreup_answer(1);
    let r = collect_records(&courses, "2024-06-15", 2, &jobs, &outcomes);
    assert_eq!(r.len(), 4);
    assert_eq!(r[0].course, "gb");
}
