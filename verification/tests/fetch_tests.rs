use dale_actions::fetch_cli::{resolve_entity, resolve_target, CliInput, ResolveError};
use dale_actions::fetch_models::{
    extract_mbid, is_valid_uuid, parse_url, EntityType, FetchPlan, FetchTarget, OverwriteMode,
    TargetKind,
};
use dale_actions::json::Json;
use dale_actions::collect_musicbrainz::{release_group_url, release_url};
use dale_actions::requests::{should_skip, Attempt, BrowseState, RetryAction, RetryState, BROWSE_LIMIT};

const UUID: &str = "01234567-89ab-cdef-0123-456789abcdef";

fn cli(url: Option<&str>, rel: Option<&str>, rg: Option<&str>, target: Option<TargetKind>) -> CliInput {
    CliInput {
        url: url.map(|s| s.to_string()),
        release_id: rel.map(|s| s.to_string()),
        release_group_id: rg.map(|s| s.to_string()),
        target,
    }
}

#[test]
fn uuid_accepts_mixed_case_hex() {
    assert!(is_valid_uuid(UUID));
    assert!(is_valid_uuid("ABCDEF01-2345-6789-ABCD-EF0123456789"));
}

#[test]
fn uuid_rejects_bad_shapes() {
    assert!(!is_valid_uuid(""));
    assert!(!is_valid_uuid("01234567-89ab-cdef-0123-456789abcde"));
    assert!(!is_valid_uuid("01234567-89ab-cdef-0123-456789abcdeg"));
    assert!(!is_valid_uuid("0123456789ab-cdef-0123-456789abcdef-"));
    assert!(!is_valid_uuid("01234567_89ab_cdef_0123_456789abcdef"));
    assert!(!is_valid_uuid("01234567-89ab-cdef-0123-456789abcdéf"));
}

#[test]
fn mbid_cuts_path_query_fragment() {
    assert_eq!(extract_mbid("abc/def"), Some("abc".to_string()));
    assert_eq!(extract_mbid("abc?inc=x"), Some("abc".to_string()));
    assert_eq!(extract_mbid("abc#frag"), Some("abc".to_string()));
    assert_eq!(extract_mbid("  abc  /x"), Some("abc".to_string()));
    assert_eq!(extract_mbid("a#b?c/d"), Some("a".to_string()));
}

#[test]
fn mbid_empty_is_none() {
    assert_eq!(extract_mbid(""), None);
    assert_eq!(extract_mbid("   "), None);
    assert_eq!(extract_mbid("/abc"), None);
    assert_eq!(extract_mbid(" \u{3000}?x"), None);
}

#[test]
fn mbid_is_idempotent_on_example() {
    let once = extract_mbid(" id-1 /rest").unwrap();
    assert_eq!(extract_mbid(&once), Some(once.clone()));
}

#[test]
fn parse_url_release_group() {
    let url = format!("https://musicbrainz.org/release-group/{UUID}");
    assert_eq!(parse_url(&url), Some((UUID.to_string(), EntityType::ReleaseGroup)));
}

#[test]
fn parse_url_release_with_tail() {
    let url = format!("  https://musicbrainz.org/release/{UUID}/recordings?x=1  ");
    assert_eq!(parse_url(&url), Some((UUID.to_string(), EntityType::Release)));
}

#[test]
fn parse_url_unknown_and_empty_ids() {
    assert_eq!(parse_url("https://example.org/release/abc"), None);
    assert_eq!(parse_url("https://musicbrainz.org/artist/abc"), None);
    assert_eq!(parse_url("https://musicbrainz.org/release-group/"), None);
    // An empty release-group id is final: the release marker is not tried.
    assert_eq!(
        parse_url("https://musicbrainz.org/release-group/?musicbrainz.org/release/abc"),
        None
    );
}

#[test]
fn parse_url_second_marker_ends_piece() {
    assert_eq!(
        parse_url("musicbrainz.org/release/abcmusicbrainz.org/release/def"),
        Some(("abc".to_string(), EntityType::Release))
    );
}

#[test]
fn overwrite_mode_from_force_flag() {
    assert_eq!(OverwriteMode::from(true), OverwriteMode::Force);
    assert_eq!(OverwriteMode::from(false), OverwriteMode::Preserve);
}

#[test]
fn resolve_entity_prefers_url() {
    let url = format!("https://musicbrainz.org/release/{UUID}");
    let c = cli(Some(&url), Some("other"), None, None);
    let (id, kind) = resolve_entity(&c).unwrap();
    assert_eq!(id, UUID);
    assert_eq!(kind, EntityType::Release);
}

#[test]
fn resolve_entity_errors() {
    assert!(matches!(
        resolve_entity(&cli(Some("https://x.org"), None, None, None)),
        Err(ResolveError::InvalidUrl)
    ));
    assert!(matches!(
        resolve_entity(&cli(None, Some(" /"), None, None)),
        Err(ResolveError::InvalidReleaseMbid)
    ));
    assert!(matches!(
        resolve_entity(&cli(None, None, Some(""), None)),
        Err(ResolveError::InvalidReleaseGroupMbid)
    ));
    assert!(matches!(
        resolve_entity(&cli(None, None, None, None)),
        Err(ResolveError::MissingInput)
    ));
}

#[test]
fn resolve_target_kinds() {
    let t = resolve_target(&cli(None, Some(UUID), None, None)).unwrap();
    assert_eq!(t.kind, TargetKind::Release);
    assert_eq!(t.mbid, UUID);
    let t = resolve_target(&cli(None, None, Some(UUID), None)).unwrap();
    assert_eq!(t.kind, TargetKind::ReleaseGroup);
    let t = resolve_target(&cli(None, None, Some(UUID), Some(TargetKind::AllReleases))).unwrap();
    assert_eq!(t.kind, TargetKind::AllReleases);
    let t = resolve_target(&cli(None, None, Some(UUID), Some(TargetKind::ReleaseGroup))).unwrap();
    assert_eq!(t.kind, TargetKind::ReleaseGroup);
}

#[test]
fn resolve_target_errors() {
    match resolve_target(&cli(None, Some("not-a-uuid"), None, None)) {
        Err(ResolveError::NotUuid(m)) => assert_eq!(m, "not-a-uuid"),
        other => panic!("unexpected {:?}", other),
    }
    assert!(matches!(
        resolve_target(&cli(None, Some(UUID), None, Some(TargetKind::AllReleases))),
        Err(ResolveError::TargetInvalidForRelease(TargetKind::AllReleases))
    ));
    assert!(matches!(
        resolve_target(&cli(None, Some(UUID), None, Some(TargetKind::ReleaseGroup))),
        Err(ResolveError::TargetInvalidForRelease(TargetKind::ReleaseGroup))
    ));
    assert!(matches!(
        resolve_target(&cli(None, None, Some(UUID), Some(TargetKind::Release))),
        Err(ResolveError::ReleaseTargetForReleaseGroup)
    ));
}

fn plan(kind: TargetKind, output: Option<&str>, overwrite: OverwriteMode) -> FetchPlan {
    FetchPlan {
        target: FetchTarget { mbid: UUID.to_string(), kind },
        output_path: output.map(|s| s.to_string()),
        overwrite,
        retry_count: 0,
    }
}

#[test]
fn skip_only_existing_preserved_output() {
    assert!(should_skip(&plan(TargetKind::Release, Some("o.json"), OverwriteMode::Preserve), true));
    assert!(!should_skip(&plan(TargetKind::Release, Some("o.json"), OverwriteMode::Preserve), false));
    assert!(!should_skip(&plan(TargetKind::Release, Some("o.json"), OverwriteMode::Force), true));
    assert!(!should_skip(&plan(TargetKind::Release, None, OverwriteMode::Preserve), true));
}

#[test]
fn lookup_urls() {
    assert_eq!(
        release_url(UUID),
        format!("https://musicbrainz.org/ws/2/release/{UUID}?inc=recordings+artist-credits+labels+discids+isrcs+media+release-groups+genres+tags+ratings+aliases+annotation+url-rels&fmt=json")
    );
    assert_eq!(
        release_group_url(UUID),
        format!("https://musicbrainz.org/ws/2/release-group/{UUID}?inc=artists+ratings+genres+tags+aliases+annotation+url-rels&fmt=json")
    );
}

fn page(count: Option<u64>, n: usize) -> Json {
    let mut members = Vec::new();
    if let Some(c) = count {
        members.push(("release-count".to_string(), Json::Number(Some(c))));
    }
    let releases = (0..n).map(|_| Json::Null).collect();
    members.push(("releases".to_string(), Json::Array(releases)));
    Json::Object(members)
}

#[test]
fn browse_pages_until_total() {
    let mut st = BrowseState::new();
    assert_eq!(
        st.page_url("rg"),
        format!("https://musicbrainz.org/ws/2/release?release-group=rg&inc=media+recordings+artist-credits+labels+discids+isrcs+release-groups+genres+tags+ratings+aliases&limit={BROWSE_LIMIT}&offset=0&fmt=json")
    );
    let step = st.take_page(&page(Some(150), 100));
    assert!(step.append && step.more);
    assert_eq!(st.offset, 100);
    assert!(st.page_url("rg").contains("&offset=100&"));
    let step = st.take_page(&page(Some(150), 50));
    assert!(step.append && !step.more);
    assert_eq!(st.offset, 150);
}

#[test]
fn browse_stops_on_empty_or_missing() {
    let mut st = BrowseState::new();
    let step = st.take_page(&page(Some(10), 0));
    assert!(!step.append && !step.more);
    assert_eq!(st.offset, 0);
    let step = st.take_page(&Json::Object(vec![]));
    assert!(!step.append && !step.more);
    // Without a count the total is taken as zero: one page only.
    let step = st.take_page(&page(None, 3));
    assert!(step.append && !step.more);
    assert_eq!(st.offset, 3);
}

#[test]
fn retry_policy() {
    let mut st = RetryState::new(2);
    assert_eq!(st.on_attempt(Attempt::Response(503)), RetryAction::RetryLater);
    assert_eq!(st.on_attempt(Attempt::Failed), RetryAction::RetryLater);
    assert_eq!(st.attempts, 2);
    assert_eq!(st.on_attempt(Attempt::Response(429)), RetryAction::GiveUpStatus);
    assert_eq!(st.on_attempt(Attempt::Failed), RetryAction::GiveUpRequest);
    assert_eq!(st.on_attempt(Attempt::Response(200)), RetryAction::ReadBody);
    let mut st = RetryState::new(5);
    assert_eq!(st.on_attempt(Attempt::Response(404)), RetryAction::GiveUpStatus);
    assert_eq!(st.on_attempt(Attempt::Response(429)), RetryAction::RetryLater);
    assert_eq!(st.on_attempt(Attempt::Response(204)), RetryAction::ReadBody);
    assert_eq!(st.attempts, 1);
}
