use msixvc::cli::{cdn_urls, msixvc_package_index, source_is_content_id};

#[test]
fn content_ids_are_uuids() {
    assert!(source_is_content_id("550e8400-e29b-41d4-a716-446655440000"));
    assert!(source_is_content_id("550e8400e29b41d4a716446655440000"));
    assert!(!source_is_content_id("9NBLGGH4R315"));
    assert!(!source_is_content_id(""));
    assert!(source_is_content_id("{550E8400-E29B-41D4-A716-446655440000}"));
    assert!(source_is_content_id("URN:uuid:550e8400-e29b-41d4-a716-446655440000"));
    assert!(!source_is_content_id("550e8400e-29b-41d4-a716-446655440000"));
    assert!(!source_is_content_id("550e8400-e29b-41d4-a716-44665544000g"));
}

#[test]
fn first_msixvc_package() {
    let names: Vec<String> = ["Game.appx", "Game_x64.msixvc", "Other.msixvc"]
        .iter()
        .map(|s| s.to_string())
        .collect();
    assert_eq!(msixvc_package_index(&names), Some(1));
    let none: Vec<String> = vec!["a.msixvc.bak".to_string(), "b.MSIXVC".to_string()];
    assert_eq!(msixvc_package_index(&none), None);
    assert_eq!(msixvc_package_index(&[]), None);
}

#[test]
fn urls_join_root_and_relative() {
    let roots = vec!["http://a.example/".to_string(), "http://b.example/x/".to_string()];
    assert_eq!(
        cdn_urls(&roots, "pkg/Game.msixvc"),
        vec!["http://a.example/pkg/Game.msixvc".to_string(), "http://b.example/x/pkg/Game.msixvc".to_string()]
    );
    assert!(cdn_urls(&[], "x").is_empty());
}
