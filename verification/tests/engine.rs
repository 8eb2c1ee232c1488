use urllb::engine::{
    after_load, after_lookup, complete_resolution, record_visit, redirect_to, resolve,
    resolve_loaded, Load, Lookup, Resolution, TARGET_LOAD_CAP,
};
use urllb::model::{Link, LinkError, RedirectMode, Target};
use urllb::store::LinkStore;

fn numbered_urls(count: usize) -> Vec<String> {
    (0..count).map(|k| format!("https://t{}.example", k)).collect()
}

fn store_with(code: &str, mode: RedirectMode, targets: usize) -> LinkStore {
    let mut store = LinkStore::new();
    store.create_link_with_targets(code.to_string(), mode, &numbered_urls(targets)).unwrap();
    store
}

fn sample_link() -> Link {
    Link { id: 7, code: "abc".to_string(), redirect_mode: RedirectMode::Permanent, visit_count: 0 }
}

fn sample_targets() -> Vec<Target> {
    vec![
        Target { id: 20, link_id: 7, destination_url: "https://a.example".to_string(), visit_count: 0 },
        Target { id: 21, link_id: 7, destination_url: "https://b.example".to_string(), visit_count: 5 },
    ]
}

#[test]
fn the_load_cap_is_ten() {
    assert_eq!(TARGET_LOAD_CAP, 10);
}

#[test]
fn resolving_an_unknown_code_is_link_not_found() {
    let mut store = LinkStore::new();
    assert_eq!(resolve(&mut store, "nope"), Err(LinkError::LinkNotFound));
    let mut store = store_with("abc", RedirectMode::Temporary, 2);
    assert_eq!(resolve(&mut store, "nope"), Err(LinkError::LinkNotFound));
    assert_eq!(resolve(&mut store, ""), Err(LinkError::LinkNotFound));
    assert_eq!(store.find_link_by_code("abc").unwrap().visit_count, 0);
}

#[test]
fn resolving_a_single_target_link_goes_to_that_target() {
    let mut store = store_with("abc", RedirectMode::Permanent, 1);
    let resolution = resolve(&mut store, "abc").unwrap();
    assert_eq!(
        resolution,
        Resolution {
            destination_url: "https://t0.example".to_string(),
            redirect_mode: RedirectMode::Permanent,
            link_id: 0,
            target_id: 0,
        }
    );
    assert_eq!(store.find_link_by_code("abc").unwrap().visit_count, 1);
    assert_eq!(store.list_targets(0, 10)[0].visit_count, 1);
}

#[test]
fn resolution_counts_the_chosen_target() {
    let mut store = store_with("abc", RedirectMode::Temporary, 3);
    let before = store.list_targets(0, 10);
    let resolution = resolve(&mut store, "abc").unwrap();
    let after = store.list_targets(0, 10);
    assert_eq!(resolution.link_id, 0);
    assert_eq!(resolution.redirect_mode, RedirectMode::Temporary);
    for (old, new) in before.iter().zip(after.iter()) {
        assert_eq!(old.id, new.id);
        assert_eq!(old.destination_url, new.destination_url);
        if new.id == resolution.target_id {
            assert_eq!(new.visit_count, old.visit_count + 1);
            assert_eq!(new.destination_url, resolution.destination_url);
        } else {
            assert_eq!(new.visit_count, old.visit_count);
        }
    }
    assert_eq!(store.find_link_by_code("abc").unwrap().visit_count, 1);
}

#[test]
fn visit_counts_equal_the_number_of_resolutions() {
    let mut store = store_with("abc", RedirectMode::Temporary, 4);
    store.create_link_with_targets("other".to_string(), RedirectMode::Temporary, &numbered_urls(2)).unwrap();
    let visits: u64 = 250;
    for _ in 0..visits {
        assert!(resolve(&mut store, "abc").is_ok());
    }
    let link = store.find_link_by_code("abc").unwrap();
    assert_eq!(link.visit_count, visits);
    let total: u64 = store.list_targets(link.id, 10).iter().map(|t| t.visit_count).sum();
    assert_eq!(total, visits);
    let other = store.find_link_by_code("other").unwrap();
    assert_eq!(other.visit_count, 0);
    assert!(store.list_targets(other.id, 10).iter().all(|t| t.visit_count == 0));
}

#[test]
fn targets_are_chosen_about_equally_often() {
    let targets: u64 = 4;
    let visits: u64 = 8000;
    let mut store = store_with("abc", RedirectMode::Temporary, targets as usize);
    for _ in 0..visits {
        resolve(&mut store, "abc").unwrap();
    }
    let expected = (visits / targets) as f64;
    let mut chi_squared = 0.0;
    for target in store.list_targets(0, 10) {
        let got = target.visit_count as f64;
        assert!((got - expected).abs() < 0.15 * expected, "count {} of {}", got, visits);
        chi_squared += (got - expected) * (got - expected) / expected;
    }
    assert!(chi_squared < 40.0, "chi squared {}", chi_squared);
}

#[test]
fn targets_beyond_the_cap_are_never_chosen() {
    let mut store = store_with("abc", RedirectMode::Temporary, 12);
    for _ in 0..400 {
        let resolution = resolve(&mut store, "abc").unwrap();
        assert!(resolution.target_id < 10);
    }
    let all = store.list_targets(0, 12);
    assert_eq!(all.len(), 12);
    assert_eq!(all[10].visit_count, 0);
    assert_eq!(all[11].visit_count, 0);
    let counted: u64 = all.iter().map(|t| t.visit_count).sum();
    assert_eq!(counted, 400);
}

#[test]
fn resolve_loaded_without_targets_is_link_not_found() {
    assert_eq!(resolve_loaded(&sample_link(), &Vec::new()), Err(LinkError::LinkNotFound));
}

#[test]
fn resolve_loaded_picks_one_of_the_targets() {
    let link = sample_link();
    let targets = sample_targets();
    let mut seen = [false, false];
    for _ in 0..200 {
        let resolution = resolve_loaded(&link, &targets).unwrap();
        assert_eq!(resolution.link_id, 7);
        assert_eq!(resolution.redirect_mode, RedirectMode::Permanent);
        let at = targets.iter().position(|t| t.id == resolution.target_id).unwrap();
        assert_eq!(resolution.destination_url, targets[at].destination_url);
        seen[at] = true;
    }
    assert_eq!(seen, [true, true]);
}

#[test]
fn redirect_to_follows_the_choice() {
    let link = sample_link();
    let targets = sample_targets();
    assert_eq!(redirect_to(&link, None), Err(LinkError::LinkNotFound));
    assert_eq!(
        redirect_to(&link, Some(&targets[1])),
        Ok(Resolution {
            destination_url: "https://b.example".to_string(),
            redirect_mode: RedirectMode::Permanent,
            link_id: 7,
            target_id: 21,
        })
    );
}

#[test]
fn complete_resolution_counts_the_given_choice() {
    let mut store = store_with("abc", RedirectMode::Temporary, 3);
    let link = store.find_link_by_code("abc").unwrap();
    let targets = store.list_targets(link.id, 10);
    let outcome = complete_resolution(&mut store, &link, Some(&targets[2]));
    assert_eq!(
        outcome,
        Ok(Resolution {
            destination_url: "https://t2.example".to_string(),
            redirect_mode: RedirectMode::Temporary,
            link_id: 0,
            target_id: 2,
        })
    );
    let counts: Vec<u64> = store.list_targets(0, 10).iter().map(|t| t.visit_count).collect();
    assert_eq!(counts, vec![0, 0, 1]);
    assert_eq!(store.find_link_by_code("abc").unwrap().visit_count, 1);
}

#[test]
fn complete_resolution_without_a_choice_counts_nothing() {
    let mut store = store_with("abc", RedirectMode::Temporary, 2);
    let link = store.find_link_by_code("abc").unwrap();
    assert_eq!(complete_resolution(&mut store, &link, None), Err(LinkError::LinkNotFound));
    assert_eq!(store.find_link_by_code("abc").unwrap().visit_count, 0);
    assert!(store.list_targets(0, 10).iter().all(|t| t.visit_count == 0));
}

#[test]
fn record_visit_drops_an_increment_that_fails() {
    let mut store = store_with("abc", RedirectMode::Temporary, 2);
    record_visit(&mut store, 0, 99);
    assert_eq!(store.find_link_by_code("abc").unwrap().visit_count, 1);
    assert!(store.list_targets(0, 10).iter().all(|t| t.visit_count == 0));
    record_visit(&mut store, 99, 1);
    assert_eq!(store.find_link_by_code("abc").unwrap().visit_count, 1);
    assert_eq!(store.list_targets(0, 10)[1].visit_count, 1);
}

#[test]
fn after_lookup_tells_missing_from_failed() {
    assert_eq!(after_lookup(Lookup::Found(sample_link())), Ok(sample_link()));
    assert_eq!(after_lookup(Lookup::Missing), Err(LinkError::LinkNotFound));
    assert_eq!(after_lookup(Lookup::Failed), Err(LinkError::StoreUnavailable));
}

#[test]
fn after_load_tells_empty_from_failed() {
    let link = sample_link();
    assert_eq!(after_load(&link, &Load::Failed), Err(LinkError::StoreUnavailable));
    assert_eq!(after_load(&link, &Load::Loaded(Vec::new())), Err(LinkError::LinkNotFound));
    let resolution = after_load(&link, &Load::Loaded(sample_targets())).unwrap();
    assert!(resolution.target_id == 20 || resolution.target_id == 21);
    assert_eq!(resolution.link_id, 7);
}
