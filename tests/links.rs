use link_shortener::assets::{asset_for, Asset};
use link_shortener::links::{Link, MainPage};
use link_shortener::serve::{is_reserved_path, resolve, LinkReply};

fn link(src: &str, dst: &str) -> Link {
    Link { src: src.to_string(), dst: dst.to_string() }
}

fn page(pairs: &[(&str, &str)]) -> MainPage {
    let mut p = MainPage::new();
    for (s, d) in pairs {
        p.links.push(link(s, d));
    }
    p
}

fn pairs(p: &MainPage) -> Vec<(String, String)> {
    p.links.iter().map(|l| (l.src.clone(), l.dst.clone())).collect()
}

#[test]
fn find_returns_first_match() {
    let p = page(&[("a", "1"), ("b", "2"), ("b", "3")]);
    let l = p.find(&"b".to_string()).unwrap();
    assert_eq!(l.src, "b");
    assert_eq!(l.dst, "2");
    assert!(p.find(&"c".to_string()).is_none());
}

#[test]
fn find_in_empty_collection() {
    let p = MainPage::new();
    assert!(p.find(&"go".to_string()).is_none());
}

#[test]
fn find_after_upsert_gives_new_destination() {
    let mut p = page(&[("go", "https://example.com"), ("x", "y")]);
    p.upsert(link("go", "https://other.com"));
    assert_eq!(p.find(&"go".to_string()).unwrap().dst, "https://other.com");
}

#[test]
fn upsert_moves_existing_to_end() {
    let mut p = page(&[("a", "1"), ("b", "2"), ("c", "3")]);
    p.upsert(link("a", "9"));
    assert_eq!(
        pairs(&p),
        vec![
            ("b".to_string(), "2".to_string()),
            ("c".to_string(), "3".to_string()),
            ("a".to_string(), "9".to_string()),
        ]
    );
}

#[test]
fn upsert_new_source_appends() {
    let mut p = page(&[("a", "1")]);
    p.upsert(link("b", "2"));
    assert_eq!(
        pairs(&p),
        vec![("a".to_string(), "1".to_string()), ("b".to_string(), "2".to_string())]
    );
}

#[test]
fn upsert_removes_duplicates() {
    let mut p = page(&[("a", "1"), ("b", "2"), ("a", "3")]);
    p.upsert(link("a", "4"));
    assert_eq!(
        pairs(&p),
        vec![("b".to_string(), "2".to_string()), ("a".to_string(), "4".to_string())]
    );
}

#[test]
fn delete_then_find_finds_nothing() {
    let mut p = page(&[("a", "1"), ("b", "2"), ("a", "3")]);
    p.delete(&"a".to_string());
    assert!(p.find(&"a".to_string()).is_none());
    assert_eq!(pairs(&p), vec![("b".to_string(), "2".to_string())]);
}

#[test]
fn delete_unknown_source_keeps_all() {
    let mut p = page(&[("a", "1"), ("b", "2")]);
    p.delete(&"z".to_string());
    assert_eq!(p.links.len(), 2);
}

#[test]
fn stored_source_redirects_to_destination() {
    let p = page(&[("go", "https://example.com"), ("docs", "https://docs.rs")]);
    let r = resolve(&p, &"docs".to_string());
    assert_eq!(r.status(), 301);
    match r {
        LinkReply::Redirect(d) => assert_eq!(d, "https://docs.rs"),
        LinkReply::NotFound => panic!("expected a redirect"),
    }
}

#[test]
fn unknown_path_gives_not_found() {
    let p = page(&[("go", "https://example.com")]);
    let r = resolve(&p, &"gone".to_string());
    assert_eq!(r.status(), 404);
    assert!(matches!(r, LinkReply::NotFound));
}

#[test]
fn reserved_path_never_redirects() {
    let p = page(&[("_assets/x", "https://example.com")]);
    let r = resolve(&p, &"_assets/x".to_string());
    assert!(matches!(r, LinkReply::NotFound));
    assert_eq!(r.status(), 404);
}

#[test]
fn reserved_prefix_detection() {
    assert!(is_reserved_path(&"_assets/".to_string()));
    assert!(is_reserved_path(&"_assets/theme.css".to_string()));
    assert!(!is_reserved_path(&"_assets".to_string()));
    assert!(!is_reserved_path(&"_asset/x".to_string()));
    assert!(!is_reserved_path(&"".to_string()));
    assert!(!is_reserved_path(&"go".to_string()));
    assert!(!is_reserved_path(&"é_assets/".to_string()));
}

#[test]
fn scenario_add_overwrite_delete() {
    let mut p = page(&[("go", "https://example.com")]);
    match resolve(&p, &"go".to_string()) {
        LinkReply::Redirect(d) => assert_eq!(d, "https://example.com"),
        LinkReply::NotFound => panic!("expected a redirect"),
    }
    p.upsert(link("go", "https://other.com"));
    assert_eq!(pairs(&p), vec![("go".to_string(), "https://other.com".to_string())]);
    p.delete(&"go".to_string());
    assert_eq!(p.links.len(), 0);
    let r = resolve(&p, &"go".to_string());
    assert_eq!(r.status(), 404);
}

#[test]
fn assets_by_name() {
    let css = asset_for(&"theme.css".to_string()).unwrap();
    assert!(matches!(css, Asset::ThemeCss));
    assert_eq!(css.content_type(), "text/css");
    let icon = asset_for(&"favicon.svg".to_string()).unwrap();
    assert!(matches!(icon, Asset::Favicon));
    assert_eq!(icon.content_type(), "image/svg+xml");
    assert!(asset_for(&"other.css".to_string()).is_none());
    assert!(asset_for(&"".to_string()).is_none());
}

#[test]
fn duplicate_copies_link() {
    let l = link("a", "b");
    let c = l.duplicate();
    assert_eq!(c.src, "a");
    assert_eq!(c.dst, "b");
}
