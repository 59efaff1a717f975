use ironshelf::config::{
    apply_env_overrides, default_host, default_oidc_scopes, default_port, parse_port, Config,
    EnvOverrides,
};
use ironshelf::pagination::{Paginated, PaginationParams, SortDirection, SortParams};

fn no_env() -> EnvOverrides {
    EnvOverrides {
        port: None,
        host: None,
        database_path: None,
        search_index_path: None,
        thumbnail_cache_path: None,
        tls_enabled: None,
        trust_proxy_headers: None,
    }
}

#[test]
fn defaults() {
    let c = Config::defaults();
    assert_eq!(c.port, 10810);
    assert_eq!(c.host, "0.0.0.0");
    assert_eq!(c.database_path, "ironshelf.db");
    assert_eq!(c.search_index_path, "./ironshelf-search-index/");
    assert_eq!(c.thumbnail_cache_path, "./ironshelf-thumbnail-cache/");
    assert!(!c.tls_enabled && !c.trust_proxy_headers && c.oidc.is_none());
    assert_eq!(default_port(), 10810);
    assert_eq!(default_host(), "0.0.0.0");
    assert_eq!(default_oidc_scopes(), vec!["openid".to_string(), "profile".to_string(), "email".to_string()]);
}

#[test]
fn ports_parse_like_u16() {
    assert_eq!(parse_port("8080"), Some(8080));
    assert_eq!(parse_port("+80"), Some(80));
    assert_eq!(parse_port("65535"), Some(65535));
    assert_eq!(parse_port("65536"), None);
    assert_eq!(parse_port("-1"), None);
    assert_eq!(parse_port(""), None);
    assert_eq!(parse_port("80a"), None);
}

#[test]
fn environment_overrides() {
    let mut c = Config::defaults();
    let mut env = no_env();
    env.port = Some("9000".to_string());
    env.host = Some("127.0.0.1".to_string());
    env.tls_enabled = Some("1".to_string());
    env.trust_proxy_headers = Some("yes".to_string());
    apply_env_overrides(&mut c, &env);
    assert_eq!(c.port, 9000);
    assert_eq!(c.host, "127.0.0.1");
    assert!(c.tls_enabled);
    assert!(!c.trust_proxy_headers);
    assert_eq!(c.database_path, "ironshelf.db");

    let mut env2 = no_env();
    env2.port = Some("not a port".to_string());
    apply_env_overrides(&mut c, &env2);
    assert_eq!(c.port, 9000);
    assert!(c.tls_enabled);
}

#[test]
fn pagination_parameters() {
    let p = PaginationParams { page: Some(0), per_page: Some(500) };
    assert_eq!(p.page(), 1);
    assert_eq!(p.per_page(), 200);
    assert_eq!(p.offset(), 0);
    let q = PaginationParams { page: Some(3), per_page: None };
    assert_eq!(q.per_page(), 50);
    assert_eq!(q.offset(), 100);
    let far = PaginationParams { page: Some(u32::MAX), per_page: None };
    assert_eq!(far.offset(), (u32::MAX as u64 - 1) * 50);
    let far_page = Paginated::from_vec(vec![1u8, 2, 3], &PaginationParams { page: Some(u32::MAX), per_page: Some(200) });
    assert!(far_page.items.is_empty());
    assert_eq!(far_page.total, 3);
}

#[test]
fn pages_slice_the_list() {
    let items: Vec<u32> = (0..7).collect();
    let page2 = Paginated::from_vec(items.clone(), &PaginationParams { page: Some(2), per_page: Some(3) });
    assert_eq!(page2.items, vec![3, 4, 5]);
    assert_eq!(page2.total, 7);
    let page3 = Paginated::from_vec(items.clone(), &PaginationParams { page: Some(3), per_page: Some(3) });
    assert_eq!(page3.items, vec![6]);
    let page9 = Paginated::from_vec(items, &PaginationParams { page: Some(9), per_page: Some(3) });
    assert!(page9.items.is_empty());
    assert_eq!(page9.page, 9);
}

#[test]
fn every_item_is_on_exactly_one_page() {
    let items: Vec<u32> = (0..23).collect();
    let mut seen = Vec::new();
    for page in 1..=6 {
        let p = Paginated::from_vec(items.clone(), &PaginationParams { page: Some(page), per_page: Some(5) });
        seen.extend(p.items);
    }
    assert_eq!(seen, items);
}

#[test]
fn sort_parameters() {
    let s = SortParams { sort: Some("title".to_string()), dir: Some("desc".to_string()) };
    assert_eq!(s.direction(), SortDirection::Descending);
    assert_eq!(s.field(), Some("title"));
    let t = SortParams { sort: None, dir: Some("DESC".to_string()) };
    assert_eq!(t.direction(), SortDirection::Ascending);
    assert_eq!(t.field(), None);
}
