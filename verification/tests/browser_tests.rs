use termmux::browser::browser_label;
use termmux::browser::validate_initial_url;
use termmux::browser::BrowserManager;
use termmux::browser::BrowserSession;

fn session(id: &str, url: &str) -> BrowserSession {
    BrowserSession {
        id: id.to_string(),
        label: browser_label(id),
        current_url: url.to_string(),
        title: String::new(),
        is_loading: true,
    }
}

#[test]
fn add_and_list() {
    let mut mgr = BrowserManager::new();
    assert!(mgr.list_sessions().is_empty());
    mgr.add_session(session("s1", "https://example.org"));
    mgr.add_session(session("s2", "https://example.net"));
    let all = mgr.list_sessions();
    assert_eq!(all.len(), 2);
    assert_eq!(all[0].id, "s1");
    assert_eq!(all[1].id, "s2");
    assert_eq!(all[0].current_url, "https://example.org");
}

#[test]
fn add_replaces_same_id() {
    let mut mgr = BrowserManager::new();
    mgr.add_session(session("s1", "https://old.example"));
    mgr.add_session(session("s1", "https://new.example"));
    let all = mgr.list_sessions();
    assert_eq!(all.len(), 1);
    assert_eq!(all[0].current_url, "https://new.example");
}

#[test]
fn remove_returns_the_session() {
    let mut mgr = BrowserManager::new();
    mgr.add_session(session("s1", "https://example.org"));
    let removed = mgr.remove_session("s1").expect("the session should be there");
    assert_eq!(removed.id, "s1");
    assert!(mgr.remove_session("s1").is_none());
    assert!(mgr.list_sessions().is_empty());
}

#[test]
fn update_url_changes_only_the_target() {
    let mut mgr = BrowserManager::new();
    mgr.add_session(session("s1", "https://one.example"));
    mgr.add_session(session("s2", "https://two.example"));
    mgr.update_url("s1", "https://changed.example".to_string());
    let all = mgr.list_sessions();
    assert_eq!(all[0].current_url, "https://changed.example");
    assert_eq!(all[1].current_url, "https://two.example");
    // unknown identifiers are a no-op
    mgr.update_url("nope", "https://x.example".to_string());
    assert_eq!(mgr.list_sessions().len(), 2);
}

#[test]
fn labels_derive_from_ids() {
    assert_eq!(browser_label("abc"), "browser-abc");
    assert_eq!(browser_label(""), "browser-");
}

#[test]
fn initial_url_must_be_present_and_non_empty() {
    assert_eq!(
        validate_initial_url(Some("https://example.org".to_string())),
        Ok("https://example.org".to_string())
    );
    assert_eq!(validate_initial_url(Some(String::new())), Err("No URL provided".to_string()));
    assert_eq!(validate_initial_url(None), Err("No URL provided".to_string()));
}
