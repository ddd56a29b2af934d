use antigravity_ua::{
    build_user_agent, fetch_remote_version, parse_version, UserAgentCache, VersionSource,
};

#[test]
fn test_build_user_agent_exact_shape() {
    assert_eq!(
        build_user_agent("1.15.8", "windows", "amd64"),
        "antigravity/1.15.8 windows/amd64".to_string()
    );
    assert_eq!(
        build_user_agent("2.0.0", "linux", "x86_64"),
        "antigravity/2.0.0 linux/x86_64".to_string()
    );
}

#[test]
fn test_fetch_remote_version_falls_back() {
    let (version, source) = fetch_remote_version("1.15.8");
    assert_eq!(version, "1.15.8".to_string());
    assert_eq!(source, VersionSource::CargoToml);
}

#[test]
fn test_extracted_version_composes() {
    let text = "Auto updater is running. Stable Version: 1.15.8-5724687216017408";
    let version = parse_version(text).unwrap();
    assert_eq!(
        build_user_agent(&version, "windows", "amd64"),
        "antigravity/1.15.8 windows/amd64".to_string()
    );
}

#[test]
fn test_cache_computes_once() {
    let mut cache = UserAgentCache::new();
    assert!(!cache.is_initialized());
    let first = cache.get_or_init("1.15.8", "windows", "amd64");
    assert_eq!(first, "antigravity/1.15.8 windows/amd64".to_string());
    assert!(cache.is_initialized());
}

#[test]
fn test_cache_stable_across_reads() {
    let mut cache = UserAgentCache::new();
    let first = cache.get_or_init("1.15.8", "windows", "amd64");
    // Later reads return the stored string, whatever arguments they get
    let second = cache.get_or_init("9.9.9", "linux", "arm64");
    let third = cache.get_or_init("1.15.8", "windows", "amd64");
    assert_eq!(first, second);
    assert_eq!(first, third);
}
