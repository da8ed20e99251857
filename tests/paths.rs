use filex::api::{effective_limit, is_blank, page, search_sort_field, SortField};
use filex::config::{decimal_text, AuthConfig, Config};
use filex::filesystem::{FilesystemService, FsError, IoFailure};
use filex::query::SearchSortField;

fn service() -> FilesystemService {
    FilesystemService::new("/srv/root".to_string())
}

#[test]
fn candidate_paths_join_the_root() {
    let fs = service();
    assert_eq!(fs.candidate_path(""), "/srv/root");
    assert_eq!(fs.candidate_path("/"), "/srv/root");
    assert_eq!(fs.candidate_path("/docs/a.txt"), "/srv/root/docs/a.txt");
    assert_eq!(fs.candidate_path("//docs"), "/srv/root/docs");
    assert_eq!(fs.candidate_path("../outside"), "/srv/root/../outside");
    let top = FilesystemService::new("/".to_string());
    assert_eq!(top.candidate_path("/a"), "/a");
}

#[test]
fn resolve_path_rejects_escape_and_allows_root() {
    let fs = service();
    assert!(matches!(fs.resolve_path("../outside", Ok("/srv/outside".to_string())), Err(FsError::PathEscape)));
    assert!(matches!(fs.resolve_path("../rootx", Ok("/srv/rootx".to_string())), Err(FsError::PathEscape)));
    assert_eq!(fs.resolve_path("/", Ok("/srv/root".to_string())).ok(), Some("/srv/root".to_string()));
    assert_eq!(fs.resolve_path("/a", Ok("/srv/root/a".to_string())).ok(), Some("/srv/root/a".to_string()));
    match fs.resolve_path("/missing", Err(IoFailure::NotFound)) {
        Err(FsError::NotFound(p)) => assert_eq!(p, "/missing"),
        _ => panic!("expected NotFound"),
    }
    match fs.resolve_path("/secret", Err(IoFailure::PermissionDenied)) {
        Err(FsError::PermissionDenied(p)) => assert_eq!(p, "/secret"),
        _ => panic!("expected PermissionDenied"),
    }
    assert!(matches!(fs.resolve_path("/x", Err(IoFailure::Other("boom".to_string()))), Err(FsError::Io(_))));
}

#[test]
fn relative_paths_strip_the_root() {
    let fs = service();
    assert_eq!(fs.relative_path("/srv/root"), "/");
    assert_eq!(fs.relative_path("/srv/root/docs/a.txt"), "/docs/a.txt");
    assert_eq!(fs.relative_path("/srv/rootx/a"), "/");
    assert_eq!(fs.relative_path("/elsewhere"), "/");
    let top = FilesystemService::new("/".to_string());
    assert_eq!(top.relative_path("/a/b"), "/a/b");
    assert_eq!(top.relative_path("/"), "/");
}

#[test]
fn server_address_joins_host_and_port() {
    let cfg = Config {
        root_path: "/data".to_string(),
        host: "0.0.0.0".to_string(),
        port: 3000,
        database_path: "/app/data/filemanager.db".to_string(),
        enable_indexer: true,
        index_interval_secs: 300,
        static_path: "./static".to_string(),
        auth: AuthConfig { enabled: false, password: None, session_timeout_secs: 86400, cookie_name: "fm_session".to_string() },
    };
    assert_eq!(cfg.server_addr(), "0.0.0.0:3000");
    assert_eq!(decimal_text(0), "0");
    assert_eq!(decimal_text(65535), "65535");
    assert_eq!(decimal_text(u64::MAX), "18446744073709551615");
}

#[test]
fn request_defaults_and_paging() {
    assert_eq!(effective_limit(None), 1000);
    assert_eq!(effective_limit(Some(0)), 1);
    assert_eq!(effective_limit(Some(25)), 25);
    assert!(is_blank("   "));
    assert!(is_blank(""));
    assert!(!is_blank(" a "));
    let items: Vec<u32> = (0..45).collect();
    assert_eq!(page(items.clone(), 40, 10), vec![40, 41, 42, 43, 44]);
    assert_eq!(page(items.clone(), 10, 3), vec![10, 11, 12]);
    assert!(page(items, 50, 10).is_empty());
    assert_eq!(search_sort_field(SortField::Resolutions), SearchSortField::Dimensions);
}
