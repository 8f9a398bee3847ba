use streams::provision::{AssetSearch, ProvisionProgress, Provisioning};

fn names(list: &[&str]) -> Vec<String> {
    list.iter().map(|s| s.to_string()).collect()
}

fn found(list: &[(&str, &str)]) -> AssetSearch {
    let mut search = AssetSearch::new();
    let page: Vec<(String, String)> =
        list.iter().map(|(a, b)| (a.to_string(), b.to_string())).collect();
    search.absorb(&page, None);
    search
}

#[test]
fn searches_go_page_by_page() {
    let mut search = AssetSearch::new();
    assert!(!search.done());
    assert_eq!(search.page_token(), None);
    search.absorb(&vec![("A-1".to_string(), "r1".to_string())], Some("next".to_string()));
    assert!(!search.done());
    assert_eq!(search.page_token(), Some("next".to_string()));
    search.absorb(&vec![("A-2".to_string(), "r2".to_string()), ("A-1".to_string(), "new".to_string())], None);
    assert!(search.done());
    let (provisioning, missing) = Provisioning::new(names(&["A-1", "A-2", "A-3"]), "A", search);
    assert_eq!(missing, vec![2]);
    let outcome = provisioning.finish(None);
    assert_eq!(outcome.asset_rids, vec!["new", "r2"]);
}

#[test]
fn only_the_gap_is_created() {
    let (mut p, missing) =
        Provisioning::new(names(&["A-1", "A-2", "A-3"]), "A", found(&[("A-2", "r2"), ("B-1", "x")]));
    assert_eq!(missing, vec![0, 2]);
    assert_eq!(p.progress(), ProvisionProgress { total: 3, existing: 1, created: 0, failed: 0 });
    p.on_reply(2, Ok("r3".to_string()));
    assert_eq!(p.progress(), ProvisionProgress { total: 3, existing: 1, created: 1, failed: 0 });
    p.on_reply(0, Ok("r1".to_string()));
    assert_eq!(p.missing_logs(), Some("A logs".to_string()));
    let outcome = p.finish(Some(Ok("rl".to_string())));
    assert_eq!(outcome.asset_rids, vec!["r1", "r2", "r3", "rl"]);
    assert_eq!((outcome.existing, outcome.created, outcome.failed), (1, 3, 0));
    assert_eq!(outcome.first_error, None);
}

#[test]
fn a_second_run_creates_nothing() {
    let search = found(&[("A-1", "r1"), ("A-2", "r2"), ("A logs", "rl")]);
    let (p, missing) = Provisioning::new(names(&["A-1", "A-2"]), "A", search);
    assert!(missing.is_empty());
    assert_eq!(p.missing_logs(), None);
    let outcome = p.finish(None);
    assert_eq!(outcome.asset_rids, vec!["r1", "r2", "rl"]);
    assert_eq!((outcome.existing, outcome.created, outcome.failed), (2, 0, 0));
}

#[test]
fn the_first_error_is_kept() {
    let (mut p, missing) = Provisioning::new(names(&["A-1", "A-2", "A-3"]), "A", found(&[]));
    assert_eq!(missing, vec![0, 1, 2]);
    p.on_reply(1, Err("too busy".to_string()));
    p.on_reply(0, Ok("r1".to_string()));
    p.on_reply(2, Err("gone".to_string()));
    assert_eq!(p.progress(), ProvisionProgress { total: 3, existing: 0, created: 1, failed: 2 });
    let outcome = p.finish(Some(Err("denied".to_string())));
    assert_eq!(outcome.asset_rids, vec!["r1"]);
    assert_eq!((outcome.existing, outcome.created, outcome.failed), (0, 1, 3));
    assert_eq!(outcome.first_error, Some("A-2: too busy".to_string()));
}

#[test]
fn a_refused_logs_asset_is_an_error() {
    let (p, _) = Provisioning::new(vec![], "RC10K", found(&[]));
    let outcome = p.finish(Some(Err("denied".to_string())));
    assert_eq!(outcome.first_error, Some("RC10K logs: denied".to_string()));
    assert_eq!(outcome.failed, 1);
}
