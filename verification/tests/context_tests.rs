use folco_core::cache::{FailingIconProvider, FixedIconProvider};
use folco_core::context::{
    AppInfo, CustomizationContext, CustomizationContextBuilder, PassthroughCustomizer,
    ScriptedApplier,
};
use folco_core::error::Error;
use folco_core::icons::{SysIconImage, SysIconSet};
use folco_core::profile::CustomizationProfile;
use folco_core::progress::{progress_channel, Progress};

fn solid_image(size: u32, rgba: [u8; 4]) -> SysIconImage {
    let mut pixels: Vec<u8> = Vec::with_capacity((size * size * 4) as usize);
    for _ in 0..(size * size) {
        pixels.extend_from_slice(&rgba);
    }
    SysIconImage::new(size, size, pixels).unwrap()
}

fn small_provider() -> FixedIconProvider {
    FixedIconProvider::new(SysIconSet::new(vec![solid_image(16, [9, 9, 9, 255])]))
}

fn build_context(
    fail_targets: Vec<String>,
) -> CustomizationContext<PassthroughCustomizer, ScriptedApplier> {
    let mut provider = small_provider();
    let applier = ScriptedApplier::new(fail_targets);
    CustomizationContextBuilder::new()
        .with_cache_dir("/cache".to_string())
        .build(&mut provider, applier)
        .unwrap()
}

#[test]
fn test_builder_has_default_app_info() {
    let builder = CustomizationContextBuilder::new();
    assert_eq!(builder.app_info.qualifier, "com");
    assert_eq!(builder.app_info.organization, "ecoates2");
    assert_eq!(builder.app_info.application, "folco");
}

#[test]
fn test_builder_with_cache_dir() {
    let builder = CustomizationContextBuilder::new()
        .with_cache_dir("/tmp/test_folco".to_string())
        .with_force_cache_refresh(true);

    assert!(builder.cache_dir.is_some());
    assert!(builder.force_cache_refresh);
}

#[test]
fn test_builder_with_custom_app_info() {
    let builder = CustomizationContextBuilder::new()
        .with_app_info(AppInfo::new("org", "example", "myapp"));

    assert_eq!(builder.app_info.qualifier, "org");
    assert_eq!(builder.app_info.organization, "example");
    assert_eq!(builder.app_info.application, "myapp");
}

#[test]
fn test_app_info_default() {
    let info = AppInfo::default();
    assert_eq!(info.qualifier, "com");
    assert_eq!(info.organization, "ecoates2");
    assert_eq!(info.application, "folco");
}

#[test]
fn build_populates_cache_and_clears_profile() {
    let ctx = build_context(vec![]);
    assert!(ctx.cache.is_cached());
    assert!(ctx.customizer.profile.is_none());
    assert_eq!(ctx.customizer.base.len(), 1);
}

#[test]
fn build_fails_on_unsupported_dimensions() {
    let mut provider =
        FixedIconProvider::new(SysIconSet::new(vec![solid_image(17, [0, 0, 0, 255])]));
    let applier = ScriptedApplier::new(vec![]);
    let r: Result<CustomizationContext<PassthroughCustomizer, ScriptedApplier>, Error> =
        CustomizationContextBuilder::new()
            .with_cache_dir("/cache".to_string())
            .build(&mut provider, applier);
    assert!(matches!(r, Err(Error::Render(_))));
}

#[test]
fn fail_soft_batch_attempts_every_target() {
    // Target "/b" always fails: the result list has one entry per target,
    // exactly one failure at its index, and every target is attempted.
    let mut ctx = build_context(vec!["/b".to_string()]);
    let folders = vec!["/a".to_string(), "/b".to_string(), "/c".to_string()];
    let profile = CustomizationProfile::new();
    let results = ctx.customize_folders(&folders, &profile);

    assert_eq!(results.len(), 3);
    assert!(matches!(results[0], Ok(())));
    assert!(matches!(&results[1], Err(Error::FolderCustomization(p, _)) if p == "/b"));
    assert!(matches!(results[2], Ok(())));
    assert_eq!(results.iter().filter(|r| r.is_err()).count(), 1);

    // Every target was attempted, in input order, despite the failure.
    assert_eq!(ctx.folder_provider.calls, folders);
}

#[test]
fn reset_folders_is_fail_soft_too() {
    let mut ctx = build_context(vec!["/x".to_string()]);
    let folders = vec!["/x".to_string(), "/y".to_string()];
    let results = ctx.reset_folders(&folders);
    assert_eq!(results.len(), 2);
    assert!(matches!(&results[0], Err(Error::FolderReset(p, _)) if p == "/x"));
    assert!(matches!(results[1], Ok(())));
    assert_eq!(ctx.folder_provider.calls, folders);
}

#[test]
fn single_folder_calls_delegate_to_batches() {
    let mut ctx = build_context(vec!["/bad".to_string()]);
    let profile = CustomizationProfile::new();
    assert!(ctx.customize_folder("/good", &profile).is_ok());
    assert!(matches!(
        ctx.customize_folder("/bad", &profile),
        Err(Error::FolderCustomization(p, _)) if p == "/bad"
    ));
    assert!(ctx.reset_folder("/good").is_ok());
    assert!(matches!(
        ctx.reset_folder("/bad"),
        Err(Error::FolderReset(p, _)) if p == "/bad"
    ));
}

#[test]
fn customize_two_folders_emits_ordered_events() {
    // The apply capability succeeds for "/a" and fails for "/b": results are
    // [Ok, Err], and the emitted events are, in order: Started{2},
    // Rendering, Processing{0}, FolderComplete{0}, Processing{1},
    // FolderFailed{1}, Completed{1,1}.
    let mut ctx = build_context(vec!["/b".to_string()]);
    let folders = vec!["/a".to_string(), "/b".to_string()];
    let profile = CustomizationProfile::new();
    let (tx, mut rx) = progress_channel(16);

    let (results, events) = ctx.customize_folders_async(&folders, &profile, &tx);

    assert_eq!(results.len(), 2);
    assert!(matches!(results[0], Ok(())));
    assert!(matches!(&results[1], Err(Error::FolderCustomization(p, _)) if p == "/b"));

    assert_eq!(events.len(), 7);
    assert!(matches!(events[0], Progress::Started { total: 2 }));
    assert!(matches!(events[1], Progress::Rendering));
    assert!(matches!(&events[2], Progress::Processing { current: 0, path } if path == "/a"));
    assert!(matches!(&events[3], Progress::FolderComplete { index: 0, path } if path == "/a"));
    assert!(matches!(&events[4], Progress::Processing { current: 1, path } if path == "/b"));
    assert!(matches!(&events[5], Progress::FolderFailed { index: 1, path, .. } if path == "/b"));
    assert!(matches!(events[6], Progress::Completed { succeeded: 1, failed: 1 }));

    // With a large enough channel, the same trace is delivered.
    let mut delivered = Vec::new();
    while let Ok(e) = rx.try_recv() {
        delivered.push(e);
    }
    assert_eq!(delivered.len(), 7);
    assert!(matches!(delivered[0], Progress::Started { total: 2 }));
    assert!(matches!(delivered[6], Progress::Completed { succeeded: 1, failed: 1 }));
}

#[test]
fn completed_counts_sum_to_total_for_all_sizes() {
    // succeeded + failed == total for batches of size 0, 1, and N.
    for folders in [
        Vec::<String>::new(),
        vec!["/only".to_string()],
        vec!["/1".to_string(), "/2".to_string(), "/3".to_string(), "/4".to_string()],
    ] {
        let mut ctx = build_context(vec!["/2".to_string()]);
        let (tx, _rx) = progress_channel(32);
        let (results, events) = ctx.reset_folders_async(&folders, &tx);
        assert_eq!(results.len(), folders.len());
        match events.last().unwrap() {
            Progress::Completed { succeeded, failed } => {
                assert_eq!(succeeded + failed, folders.len());
                assert_eq!(*failed, results.iter().filter(|r| r.is_err()).count());
            },
            other => panic!("last event is not Completed: {:?}", other),
        }
    }
}

#[test]
fn full_channel_drops_events_silently() {
    // Best-effort delivery: with a one-slot channel that is never drained,
    // only the first event is delivered, but the batch itself is unharmed
    // and the full trace is still returned.
    let mut ctx = build_context(vec![]);
    let folders = vec!["/a".to_string(), "/b".to_string()];
    let (tx, mut rx) = progress_channel(1);
    let (results, events) = ctx.reset_folders_async(&folders, &tx);
    assert_eq!(results.len(), 2);
    assert_eq!(events.len(), 6);

    let mut delivered = Vec::new();
    while let Ok(e) = rx.try_recv() {
        delivered.push(e);
    }
    assert_eq!(delivered.len(), 1);
    assert!(matches!(delivered[0], Progress::Started { total: 2 }));
}

#[test]
fn refresh_cache_discards_applied_profile() {
    let mut ctx = build_context(vec![]);
    let profile = CustomizationProfile::new();
    ctx.apply_profile(&profile);
    assert!(ctx.customizer.profile.is_some());
    assert_eq!(ctx.export_profile(), profile);

    let mut provider = small_provider();
    ctx.refresh_cache(&mut provider).unwrap();
    assert!(ctx.customizer.profile.is_none());
    assert!(ctx.cache.is_cached());
}

#[test]
fn failed_refresh_keeps_customizer_and_invalidates_cache() {
    let mut ctx = build_context(vec![]);
    let profile = CustomizationProfile::new();
    ctx.apply_profile(&profile);
    let mut bad = FailingIconProvider::new("down".to_string());
    assert!(matches!(ctx.refresh_cache(&mut bad), Err(Error::IconSys(_))));
    // The old handle, profile included, stays until a refresh succeeds.
    assert!(ctx.customizer.profile.is_some());
    // A failed refresh leaves the cache invalid.
    assert!(!ctx.cache.is_cached());
}

#[test]
fn render_returns_base_set_for_passthrough() {
    let mut ctx = build_context(vec![]);
    let rendered = ctx.render();
    assert_eq!(rendered.len(), 1);
    assert_eq!(ctx.base_icons().len(), 1);
}
