use urllb::api::{
    error_status, info_after_load, link, link_info, plan_creation, post_link, redirect_mode_for,
    redirect_reply, redirect_status, replan_after_conflict, should_retry, CodeSource,
    CreateLinkRequest, CreationPlan, HttpReply, LinkInfo, MAX_CODE_RETRIES,
};
use urllb::engine::{Load, Resolution};
use urllb::model::{Link, LinkError, RedirectMode, Target};
use urllb::store::LinkStore;

fn request(code: Option<&str>, permanent: Option<bool>, targets: &[&str]) -> CreateLinkRequest {
    CreateLinkRequest {
        code: code.map(|c| c.to_string()),
        permanent_redirect: permanent,
        targets: targets.iter().map(|t| t.to_string()).collect(),
    }
}

fn is_code_symbol(c: char) -> bool {
    c.is_ascii_alphanumeric() || c == '_' || c == '-'
}

#[test]
fn post_without_code_generates_one_and_visits_are_counted() {
    let mut store = LinkStore::new();
    let info =
        post_link(&mut store, request(None, None, &["https://a.example", "https://b.example"]))
            .unwrap();
    assert_eq!(info.link.code.chars().count(), 5);
    assert!(info.link.code.chars().all(is_code_symbol));
    assert_eq!(info.link.redirect_mode, RedirectMode::Temporary);
    assert_eq!(info.link.visit_count, 0);
    assert_eq!(info.targets.len(), 2);
    assert_eq!(info.targets[0].destination_url, "https://a.example");
    assert_eq!(info.targets[1].destination_url, "https://b.example");
    assert!(info.targets.iter().all(|t| t.visit_count == 0));

    for _ in 0..100 {
        let reply = link(&mut store, &info.link.code);
        assert_eq!(reply.status, 307);
        let location = reply.location.unwrap();
        assert!(location == "https://a.example" || location == "https://b.example");
    }
    let after = link_info(&store, &info.link.code).unwrap();
    assert_eq!(after.link.visit_count, 100);
    let a = after.targets[0].visit_count;
    let b = after.targets[1].visit_count;
    assert_eq!(a + b, 100);
    assert!(a > 0 && b > 0);
    assert!(a >= 15 && b >= 15, "counts {} and {}", a, b);
}

#[test]
fn post_with_code_creates_under_that_code() {
    let mut store = LinkStore::new();
    let info = post_link(&mut store, request(Some("docs"), Some(true), &["https://a.example"]))
        .unwrap();
    assert_eq!(
        info,
        LinkInfo {
            link: Link {
                id: 0,
                code: "docs".to_string(),
                redirect_mode: RedirectMode::Permanent,
                visit_count: 0
            },
            targets: vec![Target {
                id: 0,
                link_id: 0,
                destination_url: "https://a.example".to_string(),
                visit_count: 0
            }],
        }
    );
    assert_eq!(link_info(&store, "docs"), Ok(info));
}

#[test]
fn post_with_a_taken_code_is_a_duplicate() {
    let mut store = LinkStore::new();
    let first = post_link(&mut store, request(Some("docs"), None, &["https://a.example"])).unwrap();
    let second = post_link(&mut store, request(Some("docs"), Some(true), &["https://b.example"]));
    assert_eq!(second, Err(LinkError::DuplicateCode));
    assert_eq!(link_info(&store, "docs"), Ok(first));
    let reply = link(&mut store, "docs");
    assert_eq!(
        reply,
        HttpReply { status: 307, location: Some("https://a.example".to_string()) }
    );
}

#[test]
fn post_without_targets_is_refused() {
    let mut store = LinkStore::new();
    assert_eq!(
        post_link(&mut store, request(Some("docs"), None, &[])),
        Err(LinkError::EmptyTargetList)
    );
    assert_eq!(post_link(&mut store, request(None, None, &[])), Err(LinkError::EmptyTargetList));
    assert_eq!(link_info(&store, "docs"), Err(LinkError::LinkNotFound));
    assert_eq!(link(&mut store, "docs").status, 404);
}

#[test]
fn generated_codes_differ() {
    let mut store = LinkStore::new();
    let mut codes = Vec::new();
    for _ in 0..20 {
        let info = post_link(&mut store, request(None, None, &["https://a.example"])).unwrap();
        assert!(!codes.contains(&info.link.code));
        codes.push(info.link.code);
    }
}

#[test]
fn permanent_links_redirect_permanently() {
    let mut store = LinkStore::new();
    post_link(&mut store, request(Some("perm"), Some(true), &["https://a.example"])).unwrap();
    post_link(&mut store, request(Some("temp"), Some(false), &["https://b.example"])).unwrap();
    post_link(&mut store, request(Some("dflt"), None, &["https://c.example"])).unwrap();
    assert_eq!(
        link(&mut store, "perm"),
        HttpReply { status: 301, location: Some("https://a.example".to_string()) }
    );
    assert_eq!(
        link(&mut store, "temp"),
        HttpReply { status: 307, location: Some("https://b.example".to_string()) }
    );
    assert_eq!(
        link(&mut store, "dflt"),
        HttpReply { status: 307, location: Some("https://c.example".to_string()) }
    );
}

#[test]
fn visiting_an_unknown_code_is_not_found() {
    let mut store = LinkStore::new();
    assert_eq!(link(&mut store, "nope"), HttpReply { status: 404, location: None });
}

#[test]
fn link_info_reports_at_most_ten_targets_and_counts_nothing() {
    let mut store = LinkStore::new();
    let many: Vec<String> = (0..12).map(|k| format!("https://t{}.example", k)).collect();
    let created = post_link(
        &mut store,
        CreateLinkRequest { code: Some("many".to_string()), permanent_redirect: None, targets: many },
    )
    .unwrap();
    assert_eq!(created.targets.len(), 12);
    let info = link_info(&store, "many").unwrap();
    assert_eq!(info.targets.len(), 10);
    assert_eq!(info.targets, created.targets[..10].to_vec());
    assert_eq!(info.link.visit_count, 0);
    assert_eq!(link_info(&store, "many").unwrap(), info);
}

#[test]
fn link_info_of_an_unknown_code_is_not_found() {
    let store = LinkStore::new();
    assert_eq!(link_info(&store, "nope"), Err(LinkError::LinkNotFound));
}

#[test]
fn redirect_mode_follows_the_flag() {
    assert_eq!(redirect_mode_for(Some(true)), RedirectMode::Permanent);
    assert_eq!(redirect_mode_for(Some(false)), RedirectMode::Temporary);
    assert_eq!(redirect_mode_for(None), RedirectMode::Temporary);
}

#[test]
fn statuses_of_redirects_and_failures() {
    assert_eq!(redirect_status(RedirectMode::Permanent), 301);
    assert_eq!(redirect_status(RedirectMode::Temporary), 307);
    assert_eq!(error_status(LinkError::LinkNotFound), 404);
    assert_eq!(error_status(LinkError::DuplicateCode), 500);
    assert_eq!(error_status(LinkError::EmptyTargetList), 500);
    assert_eq!(error_status(LinkError::StoreUnavailable), 500);
}

#[test]
fn redirect_reply_carries_the_destination() {
    let resolution = Resolution {
        destination_url: "https://a.example".to_string(),
        redirect_mode: RedirectMode::Permanent,
        link_id: 1,
        target_id: 2,
    };
    assert_eq!(
        redirect_reply(&Ok(resolution)),
        HttpReply { status: 301, location: Some("https://a.example".to_string()) }
    );
    assert_eq!(
        redirect_reply(&Err(LinkError::LinkNotFound)),
        HttpReply { status: 404, location: None }
    );
    assert_eq!(
        redirect_reply(&Err(LinkError::StoreUnavailable)),
        HttpReply { status: 500, location: None }
    );
}

#[test]
fn only_generated_codes_are_retried_and_only_so_often() {
    assert_eq!(MAX_CODE_RETRIES, 3);
    assert!(should_retry(CodeSource::Generated, LinkError::DuplicateCode, 0));
    assert!(should_retry(CodeSource::Generated, LinkError::DuplicateCode, 2));
    assert!(!should_retry(CodeSource::Generated, LinkError::DuplicateCode, 3));
    assert!(!should_retry(CodeSource::Supplied, LinkError::DuplicateCode, 0));
    assert!(!should_retry(CodeSource::Generated, LinkError::StoreUnavailable, 0));
    assert!(!should_retry(CodeSource::Generated, LinkError::EmptyTargetList, 0));
}

#[test]
fn plan_keeps_a_supplied_code() {
    let plan = plan_creation(request(Some("docs"), Some(true), &["u1", "u2"])).unwrap();
    assert_eq!(
        plan,
        CreationPlan {
            code: "docs".to_string(),
            source: CodeSource::Supplied,
            redirect_mode: RedirectMode::Permanent,
            destination_urls: vec!["u1".to_string(), "u2".to_string()],
            retries_made: 0,
        }
    );
}

#[test]
fn plan_generates_a_missing_code() {
    let plan = plan_creation(request(None, None, &["u1"])).unwrap();
    assert_eq!(plan.source, CodeSource::Generated);
    assert_eq!(plan.code.chars().count(), 5);
    assert!(plan.code.chars().all(is_code_symbol));
    assert_eq!(plan.redirect_mode, RedirectMode::Temporary);
    assert_eq!(plan.destination_urls, vec!["u1".to_string()]);
    assert_eq!(plan.retries_made, 0);
}

#[test]
fn plan_refuses_an_empty_target_list() {
    assert_eq!(plan_creation(request(Some("docs"), None, &[])), Err(LinkError::EmptyTargetList));
    assert_eq!(plan_creation(request(None, None, &[])), Err(LinkError::EmptyTargetList));
}

#[test]
fn replanning_draws_a_new_code_three_times() {
    let mut plan = plan_creation(request(None, Some(true), &["u1"])).unwrap();
    for made in 1..=3 {
        plan = replan_after_conflict(plan).unwrap();
        assert_eq!(plan.retries_made, made);
        assert_eq!(plan.source, CodeSource::Generated);
        assert_eq!(plan.code.chars().count(), 5);
        assert_eq!(plan.redirect_mode, RedirectMode::Permanent);
        assert_eq!(plan.destination_urls, vec!["u1".to_string()]);
    }
    assert_eq!(replan_after_conflict(plan), Err(LinkError::DuplicateCode));
}

#[test]
fn replanning_a_supplied_code_ends_in_a_duplicate() {
    let plan = plan_creation(request(Some("docs"), None, &["u1"])).unwrap();
    assert_eq!(replan_after_conflict(plan), Err(LinkError::DuplicateCode));
}

#[test]
fn info_after_load_tells_loaded_from_failed() {
    let link =
        Link { id: 1, code: "abc".to_string(), redirect_mode: RedirectMode::Temporary, visit_count: 3 };
    let targets =
        vec![Target { id: 5, link_id: 1, destination_url: "u".to_string(), visit_count: 3 }];
    assert_eq!(
        info_after_load(link.clone(), Load::Loaded(targets.clone())),
        Ok(LinkInfo { link: link.clone(), targets })
    );
    assert_eq!(info_after_load(link, Load::Failed), Err(LinkError::StoreUnavailable));
}
