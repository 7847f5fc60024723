use fuckbf::update::{api_url_for, find_asset, get_api_url, should_install, Asset, Version};

#[test]
fn test_get_api_url() {
    let repo_url = "https://github.com/user/repo";
    assert_eq!(
        get_api_url(repo_url),
        "https://api.github.com/repos/user/repo"
    )
}

#[test]
fn api_url_keeps_a_bare_path() {
    assert_eq!(get_api_url("owner/name"), "https://api.github.com/repos/owner/name");
}

#[test]
fn api_url_for_puts_the_prefix_in_front() {
    assert_eq!(api_url_for("a/b"), "https://api.github.com/repos/a/b");
    assert_eq!(api_url_for(""), "https://api.github.com/repos/");
}

fn version(major: u64, minor: u64, patch: u64) -> Version {
    Version { major, minor, patch }
}

#[test]
fn install_unless_latest_and_not_forced() {
    let running = version(1, 4, 2);
    assert!(!should_install(&running, &version(1, 4, 2), false));
    assert!(!should_install(&running, &version(1, 3, 9), false));
    assert!(should_install(&running, &version(1, 4, 3), false));
    assert!(should_install(&running, &version(2, 0, 0), false));
    assert!(should_install(&running, &version(1, 4, 2), true));
    assert!(should_install(&running, &version(0, 1, 0), true));
}

#[test]
fn versions_compare_number_by_number() {
    assert!(version(1, 0, 0).at_least(&version(0, 9, 9)));
    assert!(version(1, 2, 0).at_least(&version(1, 1, 7)));
    assert!(version(1, 2, 3).at_least(&version(1, 2, 3)));
    assert!(version(1, 2, 4).at_least(&version(1, 2, 3)));
    assert!(!version(1, 2, 3).at_least(&version(1, 2, 4)));
    assert!(!version(1, 2, 3).at_least(&version(1, 3, 0)));
    assert!(!version(1, 9, 9).at_least(&version(2, 0, 0)));
}

#[test]
fn first_asset_of_the_name_is_found() {
    let assets = vec![
        Asset { name: "a-linux".to_string(), url: None },
        Asset { name: "a-mac".to_string(), url: Some("https://example.org/1".to_string()) },
        Asset { name: "a-mac".to_string(), url: Some("https://example.org/2".to_string()) },
    ];
    assert_eq!(find_asset(&assets, &"a-mac".to_string()), Some(1));
    assert_eq!(find_asset(&assets, &"a-linux".to_string()), Some(0));
    assert_eq!(find_asset(&assets, &"a-windows".to_string()), None);
    assert_eq!(find_asset(&Vec::new(), &"a-mac".to_string()), None);
}
