use salt_atproto::atproto::{aturi_to_nsid, get_lexicon_nsids, nsid_lexicon_address, RecordPage};
use salt_atproto::dns::{get_txt_did, nsid_address, txt_did, DnsAnswer};
use salt_atproto::engine::{BatchCheck, CollectionCheck, Phase, Request};
use salt_atproto::error::AppError;
use salt_atproto::ident::{Did, Nsid};
use salt_atproto::verdicts::{Cache, Outcome, Verdict};

fn nsid(s: &str) -> Nsid {
    Nsid::new(s.to_string()).unwrap()
}

fn record_uri(name: &str) -> String {
    format!("at://did:plc:abc/com.atproto.lexicon.schema/{name}")
}

fn page(names: &[&str], cursor: Option<&str>) -> Result<RecordPage, AppError> {
    Ok(RecordPage {
        uris: names.iter().map(|n| record_uri(n)).collect(),
        cursor: cursor.map(|c| c.to_string()),
    })
}

fn txt(payload: &str) -> Result<Vec<DnsAnswer>, AppError> {
    Ok(vec![DnsAnswer::Txt(payload.to_string())])
}

/// Runs one check against canned replies; returns the verdict and the
/// requests that were made.
fn run_check(
    cache: &mut Cache,
    target: &str,
    dns: Result<Vec<DnsAnswer>, AppError>,
    pages: Vec<Result<RecordPage, AppError>>,
) -> (Option<Verdict>, Vec<String>) {
    let mut check = CollectionCheck::new(nsid(target));
    let mut dns = Some(dns);
    let mut pages = pages.into_iter();
    let mut requests = Vec::new();
    loop {
        match check.pending() {
            Request::QueryTxt(name) => {
                requests.push(format!("txt {name}"));
                check.on_txt(dns.take().expect("one DNS query"));
            }
            Request::ListSchemas(did, cursor) => {
                requests.push(format!("list {} {:?}", did.as_str(), cursor));
                check.on_page(cache, pages.next().expect("no more pages than supplied"));
            }
            Request::Done => break,
        }
    }
    (check.verdict(), requests)
}

#[test]
fn test_nsid_address() {
    let nsid = "community.lexicon.calendar.event";
    let expected = String::from("_lexicon.calendar.lexicon.community");
    let actual = nsid_address(nsid);
    assert_eq!(actual, expected)
}

#[test]
fn test_nsid_lexicon_address() {
    let nsid = "community.lexicon.calendar.event";
    let expected = String::from("_lexicon.calendar.lexicon.community");
    let actual = nsid_lexicon_address(nsid);
    assert_eq!(actual, expected)
}

#[test]
fn atproto_test_aturi_to_nsid() {
    let uri = "at://did:plc:zylhqsjug3f76uqxguhviqka/com.atproto.lexicon.schema/blue.2048.verification.stats";
    let expected = Nsid::new("blue.2048.verification.stats".into()).unwrap();
    let actual = aturi_to_nsid(uri).unwrap();
    assert_eq!(actual, expected)
}

#[test]
fn address_of_numeric_segment() {
    assert_eq!(nsid_address("blue.2048.player.profile"), "_lexicon.player.2048.blue");
}

#[test]
fn address_of_two_segments() {
    assert_eq!(nsid_address("example.name"), "_lexicon.example");
}

#[test]
fn address_without_dot_is_the_label() {
    assert_eq!(nsid_address("name"), "_lexicon");
}

#[test]
fn aturi_without_slash_is_rejected() {
    assert!(matches!(aturi_to_nsid("blue.2048.verification.stats"), Err(AppError::NsidError(_))));
}

#[test]
fn aturi_with_bad_segment_is_rejected() {
    assert!(matches!(aturi_to_nsid("at://did:plc:abc/col/not an nsid"), Err(AppError::NsidError(_))));
}

#[test]
fn nsid_parsing_follows_atproto_syntax() {
    assert!(Nsid::new("app.bsky.feed.post".to_string()).is_ok());
    assert!(matches!(Nsid::new("no spaces.allowed.here".to_string()), Err(AppError::NsidError(t)) if t == "no spaces.allowed.here"));
}

#[test]
fn domain_authority_drops_the_name() {
    assert_eq!(nsid("community.lexicon.calendar.event").domain_authority(), "community.lexicon.calendar");
    assert!(nsid("app.bsky.feed.post").is_well_known());
    assert!(!nsid("community.lexicon.calendar.event").is_well_known());
}

#[test]
fn did_parsing_follows_atproto_syntax() {
    assert_eq!(Did::new("did:plc:abc".to_string()).unwrap().as_str(), "did:plc:abc");
    assert!(matches!(Did::new("plc:abc".to_string()), Err(AppError::DIDError(_))));
}

#[test]
fn txt_payload_gives_the_did() {
    assert_eq!(txt_did("did=did:plc:abc").unwrap().as_str(), "did:plc:abc");
}

#[test]
fn txt_payload_without_marker_is_rejected() {
    assert!(matches!(txt_did("did:plc:abc"), Err(AppError::DIDError(t)) if t == "did:plc:abc"));
}

#[test]
fn txt_payload_with_bad_did_is_rejected() {
    assert!(matches!(txt_did("did=not a did"), Err(AppError::DIDError(_))));
}

#[test]
fn no_answer_is_missing_txt() {
    let r = get_txt_did("_lexicon.a.b", &Vec::new());
    assert!(matches!(r, Err(AppError::MissingTXTError(a)) if a == "_lexicon.a.b"));
}

#[test]
fn non_txt_answer_is_missing_txt() {
    let r = get_txt_did("_lexicon.a.b", &vec![DnsAnswer::Other, DnsAnswer::Txt("did=did:plc:abc".to_string())]);
    assert!(matches!(r, Err(AppError::MissingTXTError(_))));
}

#[test]
fn only_the_first_answer_counts() {
    let r = get_txt_did("_lexicon.a.b", &vec![DnsAnswer::Txt("did=did:plc:one".to_string()), DnsAnswer::Other]);
    assert_eq!(r.unwrap().as_str(), "did:plc:one");
}

#[test]
fn page_nsids_are_read_from_addresses() {
    let found = get_lexicon_nsids(page(&["a.b.c", "d.e.f"], Some("next")).unwrap()).unwrap();
    let texts: Vec<&str> = found.lexica.iter().map(|n| n.as_str()).collect();
    assert_eq!(texts, vec!["a.b.c", "d.e.f"]);
    assert_eq!(found.cursor.as_deref(), Some("next"));
}

#[test]
fn page_with_bad_address_fails() {
    let r = get_lexicon_nsids(RecordPage { uris: vec!["no-slash".to_string()], cursor: None });
    assert!(matches!(r, Err(AppError::NsidError(_))));
}

#[test]
fn cache_keeps_validity() {
    let mut cache = Cache::new();
    assert_eq!(cache.cached_verdict(&nsid("a.b.c")), None);
    cache.mark_valid(nsid("a.b.c"));
    cache.mark_invalid(nsid("a.b.c"));
    assert_eq!(cache.cached_verdict(&nsid("a.b.c")), Some(Verdict::Valid));
    cache.mark_invalid(nsid("d.e.f"));
    assert_eq!(cache.cached_verdict(&nsid("d.e.f")), Some(Verdict::Invalid));
    cache.mark_valid(nsid("d.e.f"));
    assert_eq!(cache.cached_verdict(&nsid("d.e.f")), Some(Verdict::Valid));
}

#[test]
fn outcome_is_alphabetical_and_keyed() {
    let mut outcome = Outcome::default();
    outcome.mark_valid(nsid("zed.example.last"));
    outcome.mark_invalid(nsid("alpha.example.first"));
    outcome.mark_valid(nsid("mid.example.middle"));
    outcome.mark_valid(nsid("alpha.example.first"));
    let results: Vec<(String, bool)> =
        outcome.ordered_results().iter().map(|(n, v)| (n.as_str().to_string(), *v)).collect();
    assert_eq!(
        results,
        vec![
            ("alpha.example.first".to_string(), true),
            ("mid.example.middle".to_string(), true),
            ("zed.example.last".to_string(), true),
        ]
    );
}

#[test]
fn outcome_report_lines() {
    let mut outcome = Outcome::new();
    outcome.mark_invalid(nsid("b.example.two"));
    outcome.mark_valid(nsid("a.example.one"));
    assert_eq!(outcome.report(), "a.example.one\t\u{2705}\nb.example.two\t\u{274c}\n");
}

#[test]
fn well_known_nsids_are_skipped() {
    let cache = Cache::new();
    let mut batch = BatchCheck::new(vec![nsid("app.bsky.feed.post"), nsid("app.bsky.actor.profile")]);
    assert!(batch.next_check(&cache).is_none());
    assert!(batch.into_outcome().ordered_results().is_empty());
}

#[test]
fn cached_nsids_need_no_check() {
    let mut cache = Cache::new();
    cache.mark_valid(nsid("a.b.c"));
    cache.mark_invalid(nsid("d.e.f"));
    let mut batch = BatchCheck::new(vec![nsid("d.e.f"), nsid("a.b.c")]);
    assert!(batch.next_check(&cache).is_none());
    let results: Vec<(String, bool)> = batch
        .into_outcome()
        .ordered_results()
        .iter()
        .map(|(n, v)| (n.as_str().to_string(), *v))
        .collect();
    assert_eq!(results, vec![("a.b.c".to_string(), true), ("d.e.f".to_string(), false)]);
}

#[test]
fn pagination_fetches_every_page_and_stops() {
    let mut cache = Cache::new();
    let (verdict, requests) = run_check(
        &mut cache,
        "x.y.target",
        txt("did=did:plc:abc"),
        vec![
            page(&["x.y.one"], Some("c1")),
            page(&["x.y.two"], Some("c2")),
            page(&["x.y.target"], None),
        ],
    );
    assert_eq!(verdict, Some(Verdict::Valid));
    assert_eq!(
        requests,
        vec![
            "txt _lexicon.y.x".to_string(),
            "list did:plc:abc None".to_string(),
            "list did:plc:abc Some(\"c1\")".to_string(),
            "list did:plc:abc Some(\"c2\")".to_string(),
        ]
    );
}

#[test]
fn failed_page_ends_the_listing() {
    let mut cache = Cache::new();
    let (verdict, requests) = run_check(
        &mut cache,
        "x.y.target",
        txt("did=did:plc:abc"),
        vec![page(&["x.y.target"], Some("c1")), Err(AppError::AtProtoError)],
    );
    assert_eq!(verdict, Some(Verdict::Valid));
    assert_eq!(requests.len(), 3);
}

#[test]
fn scenario_a_single_page_with_target() {
    let mut cache = Cache::new();
    let (verdict, _) = run_check(
        &mut cache,
        "community.lexicon.calendar.event",
        txt("did=did:plc:abc"),
        vec![page(&["community.lexicon.calendar.event", "community.lexicon.calendar.rsvp"], None)],
    );
    assert_eq!(verdict, Some(Verdict::Valid));
    assert_eq!(cache.cached_verdict(&nsid("community.lexicon.calendar.event")), Some(Verdict::Valid));
    assert_eq!(cache.cached_verdict(&nsid("community.lexicon.calendar.rsvp")), Some(Verdict::Valid));
}

#[test]
fn scenario_b_no_txt_record() {
    let mut cache = Cache::new();
    let (verdict, requests) = run_check(&mut cache, "x.y.target", Ok(Vec::new()), Vec::new());
    assert_eq!(verdict, Some(Verdict::Invalid));
    assert_eq!(requests, vec!["txt _lexicon.y.x".to_string()]);
    assert_eq!(cache.cached_verdict(&nsid("x.y.target")), None);
}

#[test]
fn dns_failure_is_invalid() {
    let mut cache = Cache::new();
    let (verdict, _) = run_check(&mut cache, "x.y.target", Err(AppError::DNSError("timeout".to_string())), Vec::new());
    assert_eq!(verdict, Some(Verdict::Invalid));
    assert_eq!(cache.cached_verdict(&nsid("x.y.target")), None);
}

#[test]
fn scenario_c_two_pages_without_target() {
    let mut cache = Cache::new();
    let (verdict, requests) = run_check(
        &mut cache,
        "x.y.target",
        txt("did=did:plc:abc"),
        vec![page(&["x.y.one", "x.y.two"], Some("c1")), page(&["x.y.three"], None)],
    );
    assert_eq!(verdict, Some(Verdict::Invalid));
    assert_eq!(requests.len(), 3);
    assert_eq!(cache.cached_verdict(&nsid("x.y.target")), Some(Verdict::Invalid));
    for other in ["x.y.one", "x.y.two", "x.y.three"] {
        assert_eq!(cache.cached_verdict(&nsid(other)), Some(Verdict::Valid));
    }
}

#[test]
fn scenario_d_batch_of_three() {
    let mut cache = Cache::new();
    cache.mark_valid(nsid("zed.example.cached"));
    let mut batch = BatchCheck::new(vec![
        nsid("zed.example.cached"),
        nsid("app.bsky.feed.post"),
        nsid("abc.example.fresh"),
    ]);
    let mut checks = 0;
    while let Some(mut check) = batch.next_check(&cache) {
        checks += 1;
        assert_eq!(check.nsid.as_str(), "abc.example.fresh");
        assert!(matches!(check.pending(), Request::QueryTxt(a) if a == "_lexicon.example.abc"));
        check.on_txt(txt("did=did:plc:abc"));
        assert!(matches!(check.phase, Phase::Listing { .. }));
        check.on_page(&mut cache, page(&["abc.example.fresh"], None));
        batch.record(check);
    }
    assert_eq!(checks, 1);
    let results: Vec<(String, bool)> = batch
        .into_outcome()
        .ordered_results()
        .iter()
        .map(|(n, v)| (n.as_str().to_string(), *v))
        .collect();
    assert_eq!(
        results,
        vec![("abc.example.fresh".to_string(), true), ("zed.example.cached".to_string(), true)]
    );
}

#[test]
fn replies_out_of_turn_change_nothing() {
    let mut cache = Cache::new();
    let mut check = CollectionCheck::new(nsid("x.y.target"));
    check.on_page(&mut cache, page(&["x.y.target"], None));
    assert!(matches!(check.phase, Phase::Resolving));
    assert_eq!(cache.cached_verdict(&nsid("x.y.target")), None);
}
