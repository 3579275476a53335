use rust_short_url::address::{parse_hostnames, parse_node};
use rust_short_url::coordinator::{
    delete_reply, delete_status_reply, find_reply, find_status_reply, insert_reply, insert_status_reply,
    listing_status_reply, merge_listings, reconcile_listings, CoordinatorHashService,
    CoordinatorState, ListingPolicy,
};
use rust_short_url::error::HashServiceError;
use rust_short_url::hashfunction::hash;
use rust_short_url::models::{build_link_info, LinkInfo, QueryParams};
use rust_short_url::protocol::{delete_url, hello_url, shorten_url, summary_url, urls_url};
use rust_short_url::ring::{HashRing, Node};
use rust_short_url::settings::Coordinator;

fn node(host: &str, port: u16) -> Node {
    Node { host: String::from(host), port }
}

fn link(n: u32) -> LinkInfo {
    build_link_info(format!("C{}", n), format!("https://example.org/{}", n))
}

fn urls_of(links: &[LinkInfo]) -> Vec<String> {
    links.iter().map(|l| l.long_url.clone()).collect()
}

fn config(hosts: &[&str]) -> Coordinator {
    Coordinator { hostnames: hosts.iter().map(|h| String::from(*h)).collect() }
}

#[test]
fn identity_is_host_and_port() {
    assert_eq!(node("localhost", 8080).identity(), "localhost:8080");
    assert_eq!(node("10.0.0.1", 0).identity(), "10.0.0.1:0");
}

#[test]
fn empty_ring_is_refused() {
    assert!(matches!(HashRing::build(Vec::new(), 10), Err(HashServiceError::EmptyNodeSet)));
    assert!(matches!(
        HashRing::build(vec![node("a", 1)], 0),
        Err(HashServiceError::EmptyNodeSet)
    ));
}

#[test]
fn locate_returns_a_member() {
    let nodes = vec![node("a", 1), node("b", 2), node("c", 3)];
    let ring = HashRing::build(nodes.clone(), 10).ok().unwrap();
    for i in 0..200 {
        let key = format!("key-{}", i);
        let owner = ring.locate(&key);
        assert!(nodes.iter().any(|n| n.host == owner.host && n.port == owner.port));
    }
}

#[test]
fn locate_is_deterministic() {
    let nodes = vec![node("a", 1), node("b", 2), node("c", 3)];
    let first = HashRing::build(nodes.clone(), 10).ok().unwrap();
    let second = HashRing::build(nodes, 10).ok().unwrap();
    for i in 0..100 {
        let key = format!("{}", i);
        assert_eq!(first.locate_index(&key), first.locate_index(&key));
        assert_eq!(first.locate_index(&key), second.locate_index(&key));
    }
}

#[test]
fn locate_spreads_keys() {
    let nodes = vec![node("a", 1), node("b", 2), node("c", 3)];
    let ring = HashRing::build(nodes, 10).ok().unwrap();
    let mut seen = [false; 3];
    for i in 0..300 {
        seen[ring.locate_index(&format!("k{}", i))] = true;
    }
    assert!(seen.iter().all(|s| *s));
}

#[test]
fn single_node_owns_everything() {
    let ring = HashRing::build(vec![node("only", 9)], 10).ok().unwrap();
    assert_eq!(ring.locate("x").host, "only");
    assert_eq!(ring.locate("").port, 9);
}

#[test]
fn parse_node_addresses() {
    let n = parse_node("localhost:8080").ok().unwrap();
    assert_eq!(n.host, "localhost");
    assert_eq!(n.port, 8080);
    let z = parse_node("h:007").ok().unwrap();
    assert_eq!(z.port, 7);
    assert_eq!(parse_node("h:65535").ok().unwrap().port, 65535);
    assert_eq!(parse_node("localhost"), Err(HashServiceError::InvalidNodeAddress));
    assert_eq!(parse_node("h:"), Err(HashServiceError::InvalidNodeAddress));
    assert_eq!(parse_node("h:65536"), Err(HashServiceError::InvalidNodeAddress));
    assert_eq!(parse_node("h:80x"), Err(HashServiceError::InvalidNodeAddress));
    assert_eq!(parse_node("h:8:9"), Err(HashServiceError::InvalidNodeAddress));
}

#[test]
fn parse_hostname_lists() {
    let nodes = parse_hostnames(&vec![String::from("a:1"), String::from("b:2")]).ok().unwrap();
    assert_eq!(nodes.len(), 2);
    assert_eq!(nodes[1].host, "b");
    assert_eq!(
        parse_hostnames(&vec![String::from("a:1"), String::from("b")]).err(),
        Some(HashServiceError::InvalidNodeAddress)
    );
}

#[test]
fn start_up_ready_when_every_node_answers() {
    let mut c = CoordinatorHashService::new(&config(&["a:1", "b:2", "c:3"]));
    let nodes = c.begin_init().ok().unwrap();
    assert_eq!(nodes.len(), 3);
    assert_eq!(c.finish_init(vec![true, true, true]), Ok(()));
    let (code, owner) = c.plan_insert("https://doc.rust-lang.org/");
    assert_eq!(code, hash("https://doc.rust-lang.org/"));
    assert!(c.node_list().iter().any(|n| n.host == owner.host && n.port == owner.port));
    let (code2, owner2) = c.plan_insert("https://doc.rust-lang.org/");
    assert_eq!(code, code2);
    assert_eq!(owner.host, owner2.host);
    assert_eq!(owner.port, owner2.port);
    let found = c.owner_of(&code);
    assert_eq!(found.host, owner.host);
}

#[test]
fn start_up_fails_on_unreachable_node() {
    let mut c = CoordinatorHashService::new(&config(&["a:1", "b:2"]));
    c.begin_init().ok().unwrap();
    assert_eq!(c.finish_init(vec![true, false]), Err(HashServiceError::NodeSetIncomplete));
}

#[test]
fn start_up_fails_without_nodes() {
    let mut c = CoordinatorHashService::new(&config(&[]));
    let nodes = c.begin_init().ok().unwrap();
    assert!(nodes.is_empty());
    assert_eq!(c.finish_init(Vec::new()), Err(HashServiceError::EmptyNodeSet));
}

#[test]
fn start_up_fails_on_bad_address() {
    let mut c = CoordinatorHashService::new(&config(&["a:1", "nonsense"]));
    assert_eq!(c.begin_init().err(), Some(HashServiceError::InvalidNodeAddress));
    let _ = CoordinatorState::Failed;
}

#[test]
fn replies_map_to_results() {
    assert_eq!(insert_reply(None), Err(HashServiceError::NodeUnreachable));
    assert_eq!(insert_reply(Some(link(1))), Ok(link(1)));
    assert_eq!(find_reply(None), Err(HashServiceError::NodeUnreachable));
    assert_eq!(find_reply(Some(None)), Ok(None));
    assert_eq!(find_reply(Some(Some(link(2)))), Ok(Some(link(2))));
    assert_eq!(delete_reply(None), Err(HashServiceError::NodeUnreachable));
    assert_eq!(delete_reply(Some(true)), Ok(true));
    assert_eq!(delete_reply(Some(false)), Ok(false));
}

fn five_across_three() -> Vec<Option<Vec<LinkInfo>>> {
    vec![Some(vec![link(1), link(2)]), Some(vec![link(3), link(4)]), Some(vec![link(5)])]
}

#[test]
fn list_all_pagination() {
    let all = merge_listings(five_across_three(), None);
    assert_eq!(urls_of(&all).len(), 5);

    let top2 = merge_listings(five_across_three(), Some(QueryParams { top: Some(2), skip: None }));
    assert_eq!(urls_of(&top2), urls_of(&all[0..2]));

    let skip3 = merge_listings(five_across_three(), Some(QueryParams { top: None, skip: Some(3) }));
    assert_eq!(urls_of(&skip3), urls_of(&all[3..5]));

    let skip6 = merge_listings(five_across_three(), Some(QueryParams { top: None, skip: Some(6) }));
    assert!(skip6.is_empty());

    let top2_skip2 =
        merge_listings(five_across_three(), Some(QueryParams { top: Some(2), skip: Some(2) }));
    assert_eq!(urls_of(&top2_skip2), urls_of(&all[2..4]));
}

#[test]
fn list_all_skips_unreachable_node() {
    let replies = vec![Some(vec![link(1), link(2)]), None, Some(vec![link(5)])];
    let merged = merge_listings(replies, None);
    assert_eq!(urls_of(&merged), urls_of(&[link(1), link(2), link(5)]));
}

#[test]
fn list_all_with_no_answer_is_empty() {
    assert!(merge_listings(vec![None, None], None).is_empty());
}

#[test]
fn node_request_addresses() {
    let n = node("localhost", 8081);
    assert_eq!(hello_url(&n), "http://localhost:8081/hello");
    assert_eq!(shorten_url(&n), "http://localhost:8081/shorten");
    assert_eq!(summary_url(&n, "AB12"), "http://localhost:8081/AB12/summary");
    assert_eq!(delete_url(&n, "AB12"), "http://localhost:8081/admin/AB12");
    assert_eq!(urls_url(&n, None), "http://localhost:8081/urls");
    assert_eq!(urls_url(&n, Some(QueryParams { top: None, skip: None })), "http://localhost:8081/urls");
    assert_eq!(urls_url(&n, Some(QueryParams { top: Some(2), skip: None })), "http://localhost:8081/urls?top=2");
    assert_eq!(urls_url(&n, Some(QueryParams { top: None, skip: Some(30) })), "http://localhost:8081/urls?skip=30");
    assert_eq!(
        urls_url(&n, Some(QueryParams { top: Some(2), skip: Some(2) })),
        "http://localhost:8081/urls?top=2&skip=2"
    );
}

#[test]
fn first_non_empty_policy() {
    let replies = vec![None, Some(Vec::new()), Some(vec![link(3), link(4)]), Some(vec![link(5)])];
    let r = reconcile_listings(ListingPolicy::FirstNonEmpty, replies, None);
    assert_eq!(urls_of(&r), urls_of(&[link(3), link(4)]));

    let replies = vec![Some(vec![link(1)]), Some(vec![link(2)])];
    let r = reconcile_listings(ListingPolicy::FirstNonEmpty, replies, Some(QueryParams { top: Some(1), skip: None }));
    assert_eq!(urls_of(&r), urls_of(&[link(1)]));

    let r = reconcile_listings(ListingPolicy::FirstNonEmpty, vec![None, Some(Vec::new())], None);
    assert!(r.is_empty());
}

#[test]
fn merge_all_policy() {
    let r = reconcile_listings(ListingPolicy::MergeAll, five_across_three(), Some(QueryParams { top: None, skip: Some(4) }));
    assert_eq!(urls_of(&r), urls_of(&[link(5)]));
}

#[test]
fn status_codes_map_to_replies() {
    assert_eq!(insert_status_reply(200, Some(link(1))), Some(link(1)));
    assert_eq!(insert_status_reply(200, None), None);
    assert_eq!(insert_status_reply(500, Some(link(1))), None);

    assert_eq!(find_status_reply(404, None), Some(None));
    assert_eq!(find_status_reply(404, Some(link(2))), Some(None));
    assert_eq!(find_status_reply(200, Some(link(2))), Some(Some(link(2))));
    assert_eq!(find_status_reply(200, None), None);
    assert_eq!(find_status_reply(503, Some(link(2))), None);

    assert_eq!(delete_status_reply(204), Some(true));
    assert_eq!(delete_status_reply(404), Some(false));
    assert_eq!(delete_status_reply(401), None);

    assert_eq!(listing_status_reply(200, Some(vec![link(1)])), Some(vec![link(1)]));
    assert_eq!(listing_status_reply(502, Some(vec![link(1)])), None);
    assert_eq!(listing_status_reply(200, None), None);
}
