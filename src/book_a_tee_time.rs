//! The HTML-scrape provider: a search page whose tee-time nodes carry their
//! data in attributes.

use vstd::prelude::*;
use crate::clock::{chicago_to_utc, chicago_utc_of, naive_seconds_of, parse_naive_seconds};
use crate::request::{HttpRequest, Method};
use scraper::{Html, Selector};
use crate::structs::{id_text, view_of, views, GolfCourse, TeeTime, TeeTimeView};
use crate::text::{cents_of_text, decimal, format_u64, occurs_in, parse_cents, parse_u32, u32_of_text};

verus! {

/// The source tag of courses this provider serves.
pub open spec fn source_tag() -> Seq<char> {
    seq!['b', 'o', 'o', 'k', 'a', 't', 'e', 'e', 't', 'i', 'm', 'e']
}

/// The provider's origin, which booking links are relative to.
pub open spec fn origin() -> Seq<char> {
    "https://bookateetime.teequest.com"@
}

/// The layout of the `data-date-time` attribute.
pub open spec fn time_format() -> Seq<char> {
    "%Y%m%d%H%M"@
}

/// The pattern of the first number in a hole-count text.
pub open spec fn number_pattern() -> Seq<char> {
    "\\d+"@
}

/// The leftmost match of regular expression `pattern` in `hay`.
pub uninterp spec fn first_match_of(pattern: Seq<char>, hay: Seq<char>) -> Option<Seq<char>>;

/// Relies on `regex::Regex::new` and `Regex::find`: the leftmost-first match
/// of `pattern` in `hay`, which is a contiguous run of `hay`; none when the
/// pattern does not compile.
#[verifier::external_body]
fn first_match(pattern: &str, hay: &str) -> (r: Option<String>)
    ensures
        r matches Some(m) ==> Some(m@) == first_match_of(pattern@, hay@) && occurs_in(m@, hay@),
        r is None ==> first_match_of(pattern@, hay@) is None,
{
    regex::Regex::new(pattern).ok()?.find(hay).map(|m| m.as_str().to_string())
}

/// What a tee-time node of the page holds: its attributes, the texts of its
/// `span` elements in order, and the `href` of its first `a.btn` link.
pub struct TeeNode {
    pub date_time: Option<String>,
    pub price: Option<String>,
    pub available: Option<String>,
    pub span_texts: Vec<String>,
    pub href: Option<String>,
}

/// A node as text: date-time, price and available attributes, span texts,
/// link target.
pub open spec fn node_view(n: TeeNode) -> (Option<Seq<char>>, Option<Seq<char>>, Option<Seq<char>>, Seq<Seq<char>>, Option<Seq<char>>) {
    (opt_text(n.date_time), opt_text(n.price), opt_text(n.available), n.span_texts@.map_values(|t: String| t@), opt_text(n.href))
}

pub open spec fn opt_text(o: Option<String>) -> Option<Seq<char>> {
    match o {
        Some(s) => Some(s@),
        None => None,
    }
}

/// Where a page keeps its tee-time data: the CSS selectors of a node, of
/// its hole-count texts and of its booking link, and the names of the
/// date-time, price, available-count and link-target attributes.
pub struct PageLayout {
    pub node: &'static str,
    pub span: &'static str,
    pub link: &'static str,
    pub date_attr: &'static str,
    pub price_attr: &'static str,
    pub available_attr: &'static str,
    pub href_attr: &'static str,
}

pub open spec fn layout_view(p: PageLayout) -> Seq<Seq<char>> {
    seq![p.node@, p.span@, p.link@, p.date_attr@, p.price_attr@, p.available_attr@, p.href_attr@]
}

/// The layout of this provider's search page.
pub open spec fn tee_layout() -> Seq<Seq<char>> {
    seq!["div.tee-time"@, "span"@, "a.btn"@, "data-date-time"@, "data-price"@, "data-available"@, "href"@]
}

/// The nodes that scraper finds in `body` under `layout`, as text.
pub uninterp spec fn page_nodes_of(body: Seq<char>, layout: Seq<Seq<char>>) -> Seq<(Option<Seq<char>>, Option<Seq<char>>, Option<Seq<char>>, Seq<Seq<char>>, Option<Seq<char>>)>;

/// Relies on scraper (`Html::parse_document`, `Selector::parse`,
/// `Html::select`, `ElementRef::select`, `ElementRef::attr`, `ElementRef::text`):
/// the nodes matching the node selector in document order, each with its
/// three attributes, the joined texts of its span matches and the link
/// attribute of its first link match; none when a selector does not parse,
/// and then the page counts as holding no nodes.
/// The result depends on the text and the layout alone.
#[verifier::external_body]
fn scrape(body: &str, p: &PageLayout) -> (r: Option<Vec<TeeNode>>)
    ensures
        match r {
            Some(v) => v@.map_values(|n: TeeNode| node_view(n)) == page_nodes_of(body@, layout_view(*p)),
            None => page_nodes_of(body@, layout_view(*p)).len() == 0,
        },
{
    let s = Selector::parse(p.span).ok()?;
    let l = Selector::parse(p.link).ok()?;
    Some(Html::parse_document(body).select(&Selector::parse(p.node).ok()?).map(|d| TeeNode {
        date_time: d.attr(p.date_attr).map(String::from),
        price: d.attr(p.price_attr).map(String::from),
        available: d.attr(p.available_attr).map(String::from),
        span_texts: d.select(&s).map(|x| x.text().collect()).collect(),
        href: d.select(&l).next().and_then(|a| a.attr(p.href_attr)).map(String::from),
    }).collect())
}

/// The hole count of a node: the first span text whose first number reads
/// as a `u32`.
pub open spec fn holes_of(texts: Seq<Seq<char>>) -> Option<u32>
    decreases texts.len(),
{
    if texts.len() == 0 {
        None
    } else {
        match first_match_of(number_pattern(), texts[0]) {
            Some(m) => match u32_of_text(m) {
                Some(h) => Some(h),
                None => holes_of(texts.drop_first()),
            },
            None => holes_of(texts.drop_first()),
        }
    }
}

/// The records of a sequence of nodes: those that give one, in order.
pub open spec fn nodes_records(course: GolfCourse, nodes: Seq<TeeNode>) -> Seq<TeeTimeView> {
    texts_records(course, nodes.map_values(|n: TeeNode| node_view(n)))
}

/// The records of nodes given as text: those that give one, in order.
pub open spec fn texts_records(
    course: GolfCourse,
    nodes: Seq<(Option<Seq<char>>, Option<Seq<char>>, Option<Seq<char>>, Seq<Seq<char>>, Option<Seq<char>>)>,
) -> Seq<TeeTimeView> {
    nodes.filter_map(|v: (Option<Seq<char>>, Option<Seq<char>>, Option<Seq<char>>, Seq<Seq<char>>, Option<Seq<char>>)| text_record(course, v))
}

/// The records of a search page: those of its tee-time nodes, in order.
pub open spec fn page_records(course: GolfCourse, body: Seq<char>) -> Seq<TeeTimeView> {
    texts_records(course, page_nodes_of(body, tee_layout()))
}

/// The record a node gives.
pub open spec fn node_record(course: GolfCourse, node: TeeNode) -> Option<TeeTimeView> {
    text_record(course, node_view(node))
}

/// The search page of a course for a date and party size.
pub open spec fn search_url(course: GolfCourse, date: Seq<char>, players: u32) -> Seq<char> {
    origin() + "/search/"@ + id_text(course.id) + "/"@ + date + "?selectedPlayers="@
        + decimal(players as nat) + "&selectedHoles=18"@
}

/// The record a node gives: none when the date-time, price or available
/// count is missing or unreadable, or the Central reading has no single
/// UTC instant.
pub open spec fn text_record(
    course: GolfCourse,
    node: (Option<Seq<char>>, Option<Seq<char>>, Option<Seq<char>>, Seq<Seq<char>>, Option<Seq<char>>),
) -> Option<TeeTimeView> {
    match (node.0, node.1, node.2) {
        (Some(dt), Some(p), Some(a)) => match (
            cents_of_text(p),
            u32_of_text(a),
            naive_seconds_of(dt, time_format()),
        ) {
            (Some(price), Some(players), Some(local)) => match chicago_utc_of(local) {
                Some(utc) => Some(
                    TeeTimeView {
                        course: course.name@,
                        tee_time: utc as int,
                        price: price as int,
                        players,
                        holes: holes_of(node.3),
                        lat: course.lat as int,
                        lon: course.lon as int,
                        book_url: origin() + match node.4 {
                            Some(h) => h,
                            None => seq![],
                        },
                    },
                ),
                None => None,
            },
            _ => None,
        },
        _ => None,
    }
}

/// The request is the GET of the course's search page.
pub open spec fn request_spec(course: GolfCourse, date: Seq<char>, players: u32, q: HttpRequest) -> bool {
    &&& q.method == Method::Get
    &&& q.url@ == search_url(course, date, players)
    &&& q.query@.len() == 0
    &&& q.headers@.len() == 0
    &&& q.body is None
}

/// The GET request of a course's search page for a date and party size,
/// with a fixed hole count of 18.
pub fn request(course: &GolfCourse, date: &str, players: u32) -> (r: HttpRequest)
    ensures
        request_spec(*course, date@, players, r),
{
    let mut u = String::from_str("https://bookateetime.teequest.com");
    u.append("/search/");
    u.append(course.id.text().as_str());
    u.append("/");
    u.append(date);
    u.append("?selectedPlayers=");
    u.append(format_u64(players as u64).as_str());
    u.append("&selectedHoles=18");
    HttpRequest { method: Method::Get, url: u, query: Vec::new(), headers: Vec::new(), body: None }
}

fn first_holes(texts: &Vec<String>) -> (r: Option<u32>)
    ensures
        r == holes_of(texts@.map_values(|t: String| t@)),
{
    let ghost tv = texts@.map_values(|t: String| t@);
    let mut i: usize = 0;
    assert(tv.subrange(0, tv.len() as int) =~= tv);
    while i < texts.len()
        invariant
            i <= texts@.len(),
            tv == texts@.map_values(|t: String| t@),
            holes_of(tv) == holes_of(tv.subrange(i as int, tv.len() as int)),
        decreases texts@.len() - i,
    {
        let ghost rest = tv.subrange(i as int, tv.len() as int);
        assert(rest.drop_first() =~= tv.subrange(i + 1, tv.len() as int));
        assert(rest[0] == texts@[i as int]@);
        if let Some(m) = first_match("\\d+", texts[i].as_str()) {
            if let Some(h) = parse_u32(m.as_str()) {
                return Some(h);
            }
        }
        i = i + 1;
    }
    None
}

/// The record of one tee-time node, or none when it lacks a readable
/// date-time, price or available count.
pub fn record_from_node(course: &GolfCourse, node: &TeeNode) -> (r: Option<TeeTime>)
    ensures
        view_of(r) == node_record(*course, *node),
{
    let holes = first_holes(&node.span_texts);
    let dt = match &node.date_time {
        Some(d) => d,
        None => return None,
    };
    let p = match &node.price {
        Some(p) => p,
        None => return None,
    };
    let a = match &node.available {
        Some(a) => a,
        None => return None,
    };
    let price = parse_cents(p.as_str());
    let players = parse_u32(a.as_str());
    let local = parse_naive_seconds(dt.as_str(), "%Y%m%d%H%M");
    let (price, players, local) = match (price, players, local) {
        (Some(x), Some(y), Some(z)) => (x, y, z),
        _ => return None,
    };
    let utc = match chicago_to_utc(local) {
        Some(u) => u,
        None => return None,
    };
    let mut url = String::from_str("https://bookateetime.teequest.com");
    match &node.href {
        Some(h) => url.append(h.as_str()),
        None => {
            assert(url@ + seq![] =~= url@);
        },
    }
    Some(TeeTime {
        course: course.name.clone(),
        tee_time: utc,
        price,
        players,
        holes,
        lat: course.lat,
        lon: course.lon,
        book_url: url,
    })
}

/// The records of the nodes that give one, in node order.
pub fn records_from_nodes(course: &GolfCourse, nodes: &Vec<TeeNode>) -> (r: Vec<TeeTime>)
    ensures
        views(r@) == nodes_records(*course, nodes@),
{
    let ghost m = nodes@.map_values(|n: TeeNode| node_view(n));
    let mut out: Vec<TeeTime> = Vec::new();
    let mut i: usize = 0;
    while i < nodes.len()
        invariant
            i <= nodes@.len(),
            m == nodes@.map_values(|n: TeeNode| node_view(n)),
            views(out@) == texts_records(*course, m.take(i as int)),
        decreases nodes@.len() - i,
    {
        proof {
            m.lemma_filter_map_take_succ(
                |v: (Option<Seq<char>>, Option<Seq<char>>, Option<Seq<char>>, Seq<Seq<char>>, Option<Seq<char>>)| text_record(*course, v),
                i as int,
            );
            assert(m[i as int] == node_view(nodes@[i as int]));
        }
        let ghost before = views(out@);
        match record_from_node(course, &nodes[i]) {
            Some(t) => {
                out.push(t);
                assert(views(out@) =~= before + seq![t@]);
            },
            None => {},
        }
        i = i + 1;
    }
    assert(m.take(i as int) =~= m);
    out
}

/// The tee-time nodes (`div.tee-time`) of a search page, in document order.
pub fn scrape_nodes(body: &str) -> (r: Vec<TeeNode>)
    ensures
        r@.map_values(|n: TeeNode| node_view(n)) == page_nodes_of(body@, tee_layout()),
{
    let layout = PageLayout {
        node: "div.tee-time",
        span: "span",
        link: "a.btn",
        date_attr: "data-date-time",
        price_attr: "data-price",
        available_attr: "data-available",
        href_attr: "href",
    };
    assert(layout_view(layout) =~= tee_layout());
    match scrape(body, &layout) {
        Some(v) => v,
        None => {
            let v: Vec<TeeNode> = Vec::new();
            assert(v@.map_values(|n: TeeNode| node_view(n)) =~= page_nodes_of(body@, tee_layout()));
            v
        },
    }
}

/// The records of a search page: those of its tee-time nodes, in order.
pub fn records_from_page(course: &GolfCourse, body: &str) -> (r: Vec<TeeTime>)
    ensures
        views(r@) == page_records(*course, body@),
{
    let nodes = scrape_nodes(body);
    records_from_nodes(course, &nodes)
}

} // verus!
