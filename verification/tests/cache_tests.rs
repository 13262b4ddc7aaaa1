use folco_core::cache::{CacheConfig, FailingIconProvider, FixedIconProvider, IconCache};
use folco_core::error::Error;
use folco_core::icons::{SysIconImage, SysIconSet};
use folco_core::manifest::parse_manifest;
use folco_core::store::FileData;

fn solid_image(size: u32, rgba: [u8; 4]) -> SysIconImage {
    let mut pixels: Vec<u8> = Vec::with_capacity((size * size * 4) as usize);
    for _ in 0..(size * size) {
        pixels.extend_from_slice(&rgba);
    }
    SysIconImage::new(size, size, pixels).unwrap()
}

fn provider_with_sizes(sizes: &[u32]) -> FixedIconProvider {
    let images: Vec<SysIconImage> = sizes.iter().map(|s| solid_image(*s, [10, 20, 30, 255])).collect();
    FixedIconProvider::new(SysIconSet::new(images))
}

#[test]
fn test_cache_config_new() {
    let config = CacheConfig::new("/tmp/test_cache".to_string());
    assert_eq!(config.cache_dir, "/tmp/test_cache");
    assert!(!config.force_refresh);
}

#[test]
fn test_cache_config_with_force_refresh() {
    let config = CacheConfig::new("/tmp/test_cache".to_string()).with_force_refresh(true);
    assert!(config.force_refresh);
}

#[test]
fn test_icon_cache_new() {
    let config = CacheConfig::new("/tmp/icons".to_string());
    let cache = IconCache::new(config);
    assert!(!cache.is_cached());
}

#[test]
fn empty_cache_populates_and_reports_cached() {
    // Empty cache directory with force_refresh off: not cached; after a
    // population with sizes [16, 32, 256]: manifest with icon_count 3,
    // three image files, and is_cached() is true.
    let mut cache = IconCache::new(CacheConfig::new("/cache".to_string()));
    assert!(!cache.is_cached());

    let mut provider = provider_with_sizes(&[16, 32, 256]);
    let set = cache.fetch_and_cache(&mut provider).unwrap();
    assert_eq!(set.len(), 3);

    assert!(cache.files.contains("/cache/folder_icon_16_0.png"));
    assert!(cache.files.contains("/cache/folder_icon_32_1.png"));
    assert!(cache.files.contains("/cache/folder_icon_256_2.png"));

    match cache.files.read("/cache/index.json") {
        Some(FileData::Text(t)) => {
            let manifest = parse_manifest(t.as_str()).unwrap();
            assert_eq!(manifest.icon_count, 3);
            assert_eq!(manifest.icons.len(), 3);
            assert_eq!(manifest.icons[0].size, 16);
            assert_eq!(manifest.icons[0].index, 0);
            assert_eq!(manifest.icons[1].size, 32);
            assert_eq!(manifest.icons[2].size, 256);
        },
        _ => panic!("manifest file missing or not text"),
    }

    assert!(cache.is_cached());
}

#[test]
fn populated_cache_stays_cached_until_cleared() {
    // A populated cache reports cached until force_refresh is set or the
    // cache is cleared; immediately after clear(), is_cached() is false.
    let mut cache = IconCache::new(CacheConfig::new("/cache".to_string()));
    let mut provider = provider_with_sizes(&[16]);
    cache.fetch_and_cache(&mut provider).unwrap();
    assert!(cache.is_cached());

    // Loading does not disturb the cache.
    cache.get_sys_icon_set(&mut FailingIconProvider::new("provider failure".to_string())).unwrap();
    assert!(cache.is_cached());

    // With the refresh flag forced, the same files report not-cached.
    let mut forced = IconCache::new(
        CacheConfig::new("/cache".to_string()).with_force_refresh(true),
    );
    std::mem::swap(&mut forced.files, &mut cache.files);
    assert!(!forced.is_cached());
    std::mem::swap(&mut forced.files, &mut cache.files);

    cache.clear().unwrap();
    assert!(!cache.is_cached());
}

#[test]
fn self_healing_after_deleted_image_file() {
    // A valid manifest referencing a now-deleted image file: get() succeeds
    // with a freshly populated set and never fails from staleness alone.
    let mut cache = IconCache::new(CacheConfig::new("/cache".to_string()));
    let mut provider = provider_with_sizes(&[16, 32]);
    cache.fetch_and_cache(&mut provider).unwrap();

    cache.files.remove("/cache/folder_icon_32_1.png");
    assert!(!cache.files.contains("/cache/folder_icon_32_1.png"));
    assert!(cache.is_cached());

    let set = cache.get_sys_icon_set(&mut provider).unwrap();
    assert_eq!(set.len(), 2);
    assert!(cache.files.contains("/cache/folder_icon_32_1.png"));
    assert!(cache.is_cached());
}

#[test]
fn cached_load_round_trips_pixels() {
    // Populate, then load with a provider that must not be called: the
    // decoded pixels equal what was fetched.
    let original = solid_image(16, [1, 2, 3, 4]);
    let original_pixels = original.pixels.clone();
    let mut provider = FixedIconProvider::new(SysIconSet::new(vec![original]));
    let mut cache = IconCache::new(CacheConfig::new("/cache".to_string()));
    cache.fetch_and_cache(&mut provider).unwrap();

    let loaded = cache.get_sys_icon_set(&mut FailingIconProvider::new("provider failure".to_string())).unwrap();
    assert_eq!(loaded.images.len(), 1);
    assert_eq!(loaded.images[0].width, 16);
    assert_eq!(loaded.images[0].height, 16);
    assert_eq!(loaded.images[0].pixels, original_pixels);
}

#[test]
fn provider_failure_reports_icon_sys_error() {
    let mut cache = IconCache::new(CacheConfig::new("/cache".to_string()));
    let r = cache.get_sys_icon_set(&mut FailingIconProvider::new("provider failure".to_string()));
    assert!(matches!(r, Err(Error::IconSys(_))));
}

#[test]
fn corrupt_manifest_reports_serialization_error() {
    let mut cache = IconCache::new(CacheConfig::new("/cache".to_string()));
    let mut provider = provider_with_sizes(&[16]);
    cache.fetch_and_cache(&mut provider).unwrap();
    cache.files.write(
        "/cache/index.json".to_string(),
        FileData::Text("not a manifest".to_string()),
    );
    let r = cache.get_sys_icon_set(&mut provider);
    assert!(matches!(r, Err(Error::Serialization(_))));
}

#[test]
fn corrupt_image_file_reports_image_error() {
    let mut cache = IconCache::new(CacheConfig::new("/cache".to_string()));
    let mut provider = provider_with_sizes(&[16]);
    cache.fetch_and_cache(&mut provider).unwrap();
    cache.files.write(
        "/cache/folder_icon_16_0.png".to_string(),
        FileData::Bytes(vec![1, 2, 3]),
    );
    let r = cache.get_sys_icon_set(&mut provider);
    assert!(matches!(r, Err(Error::Image(_))));
}

#[test]
fn windows_style_cache_dir_round_trips() {
    // A cache directory with backslashes: the manifest escapes the listed
    // paths, and loading still finds and decodes every file without
    // touching the provider.
    let mut cache = IconCache::new(CacheConfig::new("C:\\cache".to_string()));
    let mut provider = provider_with_sizes(&[16]);
    cache.fetch_and_cache(&mut provider).unwrap();
    assert!(cache.is_cached());
    assert!(cache.files.contains("C:\\cache/folder_icon_16_0.png"));
    let loaded = cache
        .get_sys_icon_set(&mut FailingIconProvider::new("unreachable".to_string()))
        .unwrap();
    assert_eq!(loaded.len(), 1);
}

#[test]
fn failed_population_creates_no_manifest() {
    let mut cache = IconCache::new(CacheConfig::new("/cache".to_string()));
    let r = cache.fetch_and_cache(&mut FailingIconProvider::new("down".to_string()));
    assert!(matches!(r, Err(Error::IconSys(_))));
    assert!(!cache.is_cached());
    assert!(!cache.files.contains("/cache/index.json"));
}

#[test]
fn error_kinds_have_labels() {
    assert_eq!(Error::IconSys("x".to_string()).kind_name(), "icon system error");
    assert_eq!(
        Error::Serialization("x".to_string()).kind_name(),
        "serialization error"
    );
    assert_eq!(
        Error::FolderCustomization("/a".to_string(), "x".to_string()).kind_name(),
        "failed to customize folder"
    );
}

#[test]
fn clear_is_idempotent_and_refresh_repopulates() {
    let mut cache = IconCache::new(CacheConfig::new("/cache".to_string()));
    cache.clear().unwrap();
    cache.clear().unwrap();
    assert!(!cache.is_cached());

    let mut provider = provider_with_sizes(&[48]);
    let set = cache.refresh(&mut provider).unwrap();
    assert_eq!(set.len(), 1);
    assert!(cache.is_cached());
    assert!(cache.files.contains("/cache/folder_icon_48_0.png"));
}
