//! The customization context: the entry point for folder icon operations.
//!
//! A context composes the icon cache, a renderer handle (the customizer),
//! and the per-target apply capability into batch operations. Construction
//! goes through a builder; any failure while resolving the cache directory,
//! loading the base icon set, or converting it aborts construction, so no
//! partially-built context exists. Batches are fail-soft: one target's
//! failure is recorded as that target's result and never prevents the
//! remaining targets from being attempted.

use vstd::prelude::*;

use crate::cache::{
    spec_all_encodable, spec_cleared, spec_got_set, spec_is_cached, spec_manifest_path,
    spec_populated, CacheConfig, IconCache, IconProvider,
};
use crate::convert::{
    convert_icon_set, convert_icon_set_to_sys, spec_to_render, spec_to_sys, supported_dims,
};
use crate::error::Error;
use crate::icons::{ImageView, RenderIconSet, RenderImageView, SysIconSet};
use crate::profile::{spec_default_profile, CustomizationProfile};
use crate::progress::{
    count_ok, emit, events_view, lemma_batch_body_congruence, spec_batch_body, spec_batch_trace,
    Outcome, Progress, ProgressSender, ProgressV,
};
use crate::textutil::str_eq;

verus! {

/// The views of a sequence of target paths.
pub open spec fn paths_view(v: Seq<String>) -> Seq<Seq<char>> {
    Seq::new(v.len(), |i: int| v[i]@)
}

/// The message carried by a per-target error.
pub open spec fn spec_err_message(e: Error) -> Seq<char> {
    match e {
        Error::FolderCustomization(_, m) => m@,
        Error::FolderReset(_, m) => m@,
        _ => Seq::<char>::empty(),
    }
}

/// The outcome a result encodes: `None` for success, the error message
/// otherwise.
pub open spec fn spec_outcome_of(r: Result<(), Error>) -> Option<Seq<char>> {
    match r {
        Result::Ok(_) => None,
        Result::Err(e) => Some(spec_err_message(e)),
    }
}

/// The per-target outcomes that a result list encodes.
pub open spec fn spec_outcomes(rs: Seq<Result<(), Error>>) -> Seq<Outcome> {
    Seq::new(rs.len(), |i: int| spec_outcome_of(rs[i]))
}

/// The apply-call records of one customize batch over `paths` with the
/// given results: one `SetIcon` per target, in input order, each handed the
/// same converted set, each with its result's outcome.
pub open spec fn spec_set_records(
    paths: Seq<Seq<char>>,
    icons: Seq<ImageView>,
    rs: Seq<Result<(), Error>>,
) -> Seq<ApplyRecord> {
    Seq::new(
        rs.len(),
        |i: int| ApplyRecord::SetIcon { target: paths[i], icons, outcome: spec_outcome_of(rs[i]) },
    )
}

/// The apply-call records of one reset batch over `paths` with the given
/// results.
pub open spec fn spec_reset_records(paths: Seq<Seq<char>>, rs: Seq<Result<(), Error>>) -> Seq<
    ApplyRecord,
> {
    Seq::new(
        rs.len(),
        |i: int| ApplyRecord::ResetIcon { target: paths[i], outcome: spec_outcome_of(rs[i]) },
    )
}

/// The renderer capability: a stateful handle holding an unrendered base
/// icon set and the currently applied profile. The actual pixel work is the
/// implementation's own; the contracts pin the handle's visible state and
/// record every render — which profile was applied at that moment, and what
/// came out — so that callers can state that they render exactly once.
pub trait Customizer: Sized {
    /// The base icon set the handle was initialized with.
    spec fn base_view(&self) -> Seq<RenderImageView>;

    /// The profile currently applied, if any.
    spec fn profile_view(&self) -> Option<CustomizationProfile>;

    /// The renders performed so far, in order: the profile that was applied
    /// at that moment, and the produced output's view.
    spec fn renders(&self) -> Seq<(Option<CustomizationProfile>, Seq<RenderImageView>)>;

    /// Initializes a handle from a base set; no profile is applied yet and
    /// nothing has been rendered.
    fn from_base(base: RenderIconSet) -> (r: Self)
        ensures
            r.base_view() == base@,
            r.profile_view() is None,
            r.renders() == Seq::<(Option<CustomizationProfile>, Seq<RenderImageView>)>::empty();

    /// Applies a profile, replacing any previous one in place; no I/O.
    fn apply_profile(&mut self, profile: &CustomizationProfile)
        ensures
            final(self).base_view() == old(self).base_view(),
            final(self).profile_view() == Some(*profile),
            final(self).renders() == old(self).renders();

    /// Produces the rendered output for the applied profile; pure compute.
    fn render_all(&mut self) -> (r: RenderIconSet)
        ensures
            final(self).base_view() == old(self).base_view(),
            final(self).profile_view() == old(self).profile_view(),
            final(self).renders() == old(self).renders().push((old(self).profile_view(), r@));

    /// Exports the applied profile, or the default profile when none was
    /// applied.
    fn export_profile(&self) -> (r: CustomizationProfile)
        ensures
            r == (match self.profile_view() {
                Some(p) => p,
                None => spec_default_profile(),
            });

    /// A read-only reference to the base icon set.
    fn base_icons(&self) -> (r: &RenderIconSet)
        ensures
            r@ == self.base_view();
}

/// A customizer that stores the applied profile and renders the base set
/// unchanged: the library's reference handle, for tests and for front ends
/// that do their pixel work elsewhere.
pub struct PassthroughCustomizer {
    pub base: RenderIconSet,
    pub profile: Option<CustomizationProfile>,
    pub render_log: Ghost<Seq<(Option<CustomizationProfile>, Seq<RenderImageView>)>>,
}

impl Customizer for PassthroughCustomizer {
    open spec fn base_view(&self) -> Seq<RenderImageView> {
        self.base@
    }

    open spec fn profile_view(&self) -> Option<CustomizationProfile> {
        self.profile
    }

    open spec fn renders(&self) -> Seq<(Option<CustomizationProfile>, Seq<RenderImageView>)> {
        self.render_log@
    }

    fn from_base(base: RenderIconSet) -> (r: Self) {
        PassthroughCustomizer { base, profile: None, render_log: Ghost(Seq::empty()) }
    }

    fn apply_profile(&mut self, profile: &CustomizationProfile) {
        self.profile = Some(*profile);
    }

    fn render_all(&mut self) -> (r: RenderIconSet)
        ensures
            r@ == old(self).base_view(),
    {
        let out = self.base.clone();
        self.render_log = Ghost(self.render_log@.push((self.profile, out@)));
        out
    }

    fn export_profile(&self) -> (r: CustomizationProfile) {
        match self.profile {
            Some(p) => p,
            None => CustomizationProfile::new(),
        }
    }

    fn base_icons(&self) -> (r: &RenderIconSet) {
        &self.base
    }
}

/// One recorded call of the per-target apply capability: the target, what
/// was handed over (for an apply), and the call's outcome — `None` for
/// success, the error message otherwise.
pub enum ApplyRecord {
    SetIcon { target: Seq<char>, icons: Seq<ImageView>, outcome: Option<Seq<char>> },
    ResetIcon { target: Seq<char>, outcome: Option<Seq<char>> },
}

/// The per-target apply capability: assigns or resets the folder icon of a
/// single target. Implementations record every call — target, handed icon
/// set, and outcome, in order — so the batch contracts can state that every
/// target is attempted in input order, with the one converted set, and that
/// each target's result is exactly its call's outcome.
pub trait TargetIconApplier {
    /// The calls made so far, in order.
    spec fn history(&self) -> Seq<ApplyRecord>;

    /// Applies the icon set to one target.
    fn set_icon(&mut self, target: &str, icons: &SysIconSet) -> (r: Result<(), String>)
        ensures
            final(self).history() == old(self).history().push(
                ApplyRecord::SetIcon {
                    target: target@,
                    icons: icons@,
                    outcome: match r {
                        Result::Ok(_) => None,
                        Result::Err(m) => Some(m@),
                    },
                },
            );

    /// Resets one target to the default icon.
    fn reset_icon(&mut self, target: &str) -> (r: Result<(), String>)
        ensures
            final(self).history() == old(self).history().push(
                ApplyRecord::ResetIcon {
                    target: target@,
                    outcome: match r {
                        Result::Ok(_) => None,
                        Result::Err(m) => Some(m@),
                    },
                },
            );
}

/// An applier that records its calls and fails exactly on a scripted set of
/// targets: the library's reference applier, for tests.
pub struct ScriptedApplier {
    pub fail_targets: Vec<String>,
    pub calls: Vec<String>,
    pub call_log: Ghost<Seq<ApplyRecord>>,
}

impl ScriptedApplier {
    /// Creates an applier that will fail exactly on the given targets.
    pub fn new(fail_targets: Vec<String>) -> (r: ScriptedApplier)
        ensures
            r.fail_targets@ == fail_targets@,
            r.calls@.len() == 0,
            r.history() == Seq::<ApplyRecord>::empty(),
    {
        ScriptedApplier { fail_targets, calls: Vec::new(), call_log: Ghost(Seq::empty()) }
    }

    /// Whether the applier is scripted to fail on `target`.
    pub open spec fn spec_fails(&self, target: Seq<char>) -> bool {
        exists|i: int| 0 <= i < self.fail_targets@.len() && (#[trigger] self.fail_targets@[i])@
            == target
    }

    fn should_fail(&self, target: &str) -> (r: bool)
        ensures
            r == self.spec_fails(target@),
    {
        let mut i: usize = 0;
        while i < self.fail_targets.len()
            invariant
                i <= self.fail_targets@.len(),
                forall|j: int| 0 <= j < i ==> (#[trigger] self.fail_targets@[j])@ != target@,
            decreases self.fail_targets@.len() - i,
        {
            if str_eq(self.fail_targets[i].as_str(), target) {
                return true;
            }
            i += 1;
        }
        false
    }
}

impl TargetIconApplier for ScriptedApplier {
    open spec fn history(&self) -> Seq<ApplyRecord> {
        self.call_log@
    }

    fn set_icon(&mut self, target: &str, icons: &SysIconSet) -> (r: Result<(), String>)
        ensures
            r is Ok <==> !old(self).spec_fails(target@),
            r matches Err(m) ==> m@ == "scripted failure"@,
            final(self).fail_targets == old(self).fail_targets,
    {
        let fails = self.should_fail(target);
        self.calls.push(String::from_str(target));
        if fails {
            let message = String::from_str("scripted failure");
            self.call_log = Ghost(
                self.call_log@.push(
                    ApplyRecord::SetIcon { target: target@, icons: icons@, outcome: Some(message@) },
                ),
            );
            Err(message)
        } else {
            self.call_log = Ghost(
                self.call_log@.push(
                    ApplyRecord::SetIcon { target: target@, icons: icons@, outcome: None },
                ),
            );
            Ok(())
        }
    }

    fn reset_icon(&mut self, target: &str) -> (r: Result<(), String>)
        ensures
            r is Ok <==> !old(self).spec_fails(target@),
            r matches Err(m) ==> m@ == "scripted failure"@,
            final(self).fail_targets == old(self).fail_targets,
    {
        let fails = self.should_fail(target);
        self.calls.push(String::from_str(target));
        if fails {
            let message = String::from_str("scripted failure");
            self.call_log = Ghost(
                self.call_log@.push(
                    ApplyRecord::ResetIcon { target: target@, outcome: Some(message@) },
                ),
            );
            Err(message)
        } else {
            self.call_log = Ghost(
                self.call_log@.push(ApplyRecord::ResetIcon { target: target@, outcome: None }),
            );
            Ok(())
        }
    }
}

/// Application identification used to locate the platform data directory.
#[derive(Debug, Clone)]
pub struct AppInfo {
    /// Reverse domain qualifier.
    pub qualifier: String,
    /// Organization name.
    pub organization: String,
    /// Application name.
    pub application: String,
}

impl AppInfo {
    /// Creates a new `AppInfo` with the given values.
    pub fn new(qualifier: &str, organization: &str, application: &str) -> (r: AppInfo)
        ensures
            r.qualifier@ == qualifier@,
            r.organization@ == organization@,
            r.application@ == application@,
    {
        AppInfo {
            qualifier: String::from_str(qualifier),
            organization: String::from_str(organization),
            application: String::from_str(application),
        }
    }
}

impl Default for AppInfo {
    /// The default app identity.
    fn default() -> (r: AppInfo)
        ensures
            r.qualifier@ == "com"@,
            r.organization@ == "ecoates2"@,
            r.application@ == "folco"@,
    {
        AppInfo::new("com", "ecoates2", "folco")
    }
}

/// Builder for a [`CustomizationContext`].
pub struct CustomizationContextBuilder {
    /// The app identity used to locate the cache directory.
    pub app_info: AppInfo,
    /// An explicit cache directory; overrides the app identity when set.
    pub cache_dir: Option<String>,
    /// Whether the cache is refreshed on build.
    pub force_cache_refresh: bool,
}

impl CustomizationContextBuilder {
    /// Creates a new builder with the default app identity, no explicit
    /// cache directory, and no forced refresh.
    pub fn new() -> (r: CustomizationContextBuilder)
        ensures
            r.app_info.qualifier@ == "com"@,
            r.app_info.organization@ == "ecoates2"@,
            r.app_info.application@ == "folco"@,
            r.cache_dir is None,
            !r.force_cache_refresh,
    {
        CustomizationContextBuilder {
            app_info: AppInfo::default(),
            cache_dir: None,
            force_cache_refresh: false,
        }
    }

    /// Sets the application identity used to locate the cache directory.
    pub fn with_app_info(self, app_info: AppInfo) -> (r: CustomizationContextBuilder)
        ensures
            r.app_info == app_info,
            r.cache_dir == self.cache_dir,
            r.force_cache_refresh == self.force_cache_refresh,
    {
        CustomizationContextBuilder { app_info, ..self }
    }

    /// Sets an explicit cache directory, overriding the app identity.
    pub fn with_cache_dir(self, cache_dir: String) -> (r: CustomizationContextBuilder)
        ensures
            r.app_info == self.app_info,
            r.cache_dir matches Some(d) && d@ == cache_dir@,
            r.force_cache_refresh == self.force_cache_refresh,
    {
        CustomizationContextBuilder { cache_dir: Some(cache_dir), ..self }
    }

    /// Forces the cache to be refreshed on build.
    pub fn with_force_cache_refresh(self, force: bool) -> (r: CustomizationContextBuilder)
        ensures
            r.app_info == self.app_info,
            r.cache_dir == self.cache_dir,
            r.force_cache_refresh == force,
    {
        CustomizationContextBuilder { force_cache_refresh: force, ..self }
    }

    /// Builds the context: resolves the cache directory, gets the base icon
    /// set through the cache, converts it to the render representation, and
    /// initializes the customizer handle with it. Any failure in this chain
    /// aborts construction.
    pub fn build<P: IconProvider, C: Customizer, A: TargetIconApplier>(
        self,
        provider: &mut P,
        applier: A,
    ) -> (r: Result<CustomizationContext<C, A>, Error>)
        ensures
            r matches Ok(ctx) ==> {
                &&& ctx.cache.config@.force_refresh == self.force_cache_refresh
                &&& (self.cache_dir matches Some(d) ==> ctx.cache.config@.cache_dir == d@)
                &&& (self.cache_dir is None ==> (exists|base: Seq<char>|
                    ctx.cache.config@.cache_dir == base + "/icon_cache"@))
                &&& ctx.customizer.profile_view() is None
                &&& ctx.customizer.renders() == Seq::<
                    (Option<CustomizationProfile>, Seq<RenderImageView>),
                >::empty()
                &&& ctx.folder_provider.history() == applier.history()
                &&& exists|imgs: Seq<ImageView>|
                    {
                        &&& #[trigger] supported_dims(imgs)
                        &&& ctx.customizer.base_view() == spec_to_render(imgs)
                        &&& spec_got_set(
                            Map::empty(),
                            ctx.cache.config@,
                            ctx.cache.files@,
                            imgs,
                        )
                    }
            },
            r matches Err(e) ==> (e is AppDataDir || e is IconSys || e is Image
                || e is Serialization || e is Render),
            ({
                let h0 = old(provider).history();
                let h1 = final(provider).history();
                h1 == h0 || (h1.len() == h0.len() + 1 && h1.drop_last() == h0)
            }),
            self.cache_dir is Some ==> ({
                let h1 = final(provider).history();
                &&& h1.len() == old(provider).history().len() + 1
                &&& h1.drop_last() == old(provider).history()
                &&& (r is Ok <==> (h1.last() matches Some(imgs) && spec_all_encodable(imgs)
                    && supported_dims(imgs)))
            }),
    {
        let config = match self.cache_dir {
            Some(dir) => CacheConfig::new(dir).with_force_refresh(self.force_cache_refresh),
            None => {
                let base = match CacheConfig::from_app_info(
                    self.app_info.qualifier.as_str(),
                    self.app_info.organization.as_str(),
                    self.app_info.application.as_str(),
                ) {
                    Ok(c) => c,
                    Err(e) => return Err(e),
                };
                base.with_force_refresh(self.force_cache_refresh)
            },
        };
        let mut cache = IconCache::new(config);
        proof {
            assert(!spec_is_cached(cache.config@, cache.files@));
        }
        let renderer_icons = match cache.get_renderer_icon_set(provider) {
            Ok(rs) => rs,
            Err(e) => return Err(e),
        };
        let customizer = C::from_base(renderer_icons);
        Ok(CustomizationContext { cache, customizer, folder_provider: applier })
    }
}

impl Default for CustomizationContextBuilder {
    fn default() -> (r: CustomizationContextBuilder)
        ensures
            r.cache_dir is None,
            !r.force_cache_refresh,
    {
        CustomizationContextBuilder::new()
    }
}

/// Main context for folder icon customization operations.
pub struct CustomizationContext<C: Customizer, A: TargetIconApplier> {
    /// The icon cache.
    pub cache: IconCache,
    /// The renderer handle, holding the base set and the applied profile.
    pub customizer: C,
    /// The per-target apply capability.
    pub folder_provider: A,
}

impl<C: Customizer, A: TargetIconApplier> CustomizationContext<C, A> {
    /// A reference to the customizer, for live preview rendering.
    pub fn customizer(&self) -> (r: &C)
        ensures
            r == &self.customizer,
    {
        &self.customizer
    }

    /// A mutable reference to the customizer, for configuring layers and
    /// rendering previews in place.
    pub fn customizer_mut(&mut self) -> (r: &mut C) {
        &mut self.customizer
    }

    /// A reference to the icon cache.
    pub fn cache(&self) -> (r: &IconCache)
        ensures
            r == &self.cache,
    {
        &self.cache
    }

    /// A mutable reference to the icon cache.
    pub fn cache_mut(&mut self) -> (r: &mut IconCache) {
        &mut self.cache
    }

    /// The base (uncustomized) icon set in the render representation.
    pub fn base_icons(&self) -> (r: &RenderIconSet)
        ensures
            r@ == self.customizer.base_view(),
    {
        self.customizer.base_icons()
    }

    /// Applies a customization profile to the customizer, in place.
    pub fn apply_profile(&mut self, profile: &CustomizationProfile)
        ensures
            final(self).customizer.profile_view() == Some(*profile),
            final(self).customizer.base_view() == old(self).customizer.base_view(),
            final(self).cache == old(self).cache,
            final(self).folder_provider.history() == old(self).folder_provider.history(),
    {
        self.customizer.apply_profile(profile);
    }

    /// Exports the currently applied profile, or the default when none was
    /// applied.
    pub fn export_profile(&self) -> (r: CustomizationProfile)
        ensures
            r == (match self.customizer.profile_view() {
                Some(p) => p,
                None => spec_default_profile(),
            }),
    {
        self.customizer.export_profile()
    }

    /// Renders and returns the customized icon set for the applied profile:
    /// exactly one render of the customizer, recorded with that profile.
    pub fn render(&mut self) -> (r: RenderIconSet)
        ensures
            final(self).customizer.base_view() == old(self).customizer.base_view(),
            final(self).customizer.profile_view() == old(self).customizer.profile_view(),
            final(self).customizer.renders() == old(self).customizer.renders().push(
                (old(self).customizer.profile_view(), r@),
            ),
            final(self).cache == old(self).cache,
            final(self).folder_provider.history() == old(self).folder_provider.history(),
    {
        self.customizer.render_all()
    }

    /// Customizes the icons of the given folders: applies the profile,
    /// renders exactly once, converts to the system representation exactly
    /// once, then applies to each folder in input order — the applier's
    /// record shows one call per folder, each handed the one converted set,
    /// and each folder's result is exactly its call's outcome. Fail-soft: a
    /// failure is recorded as that folder's result, carrying the folder's
    /// path and the applier's cause, and never prevents the remaining
    /// folders from being attempted.
    pub fn customize_folders(&mut self, folders: &Vec<String>, profile: &CustomizationProfile) -> (r:
        Vec<Result<(), Error>>)
        ensures
            r@.len() == folders@.len(),
            final(self).customizer.renders().len() == old(self).customizer.renders().len() + 1,
            final(self).customizer.renders().drop_last() == old(self).customizer.renders(),
            final(self).customizer.renders().last().0 == Some(*profile),
            final(self).folder_provider.history() == old(self).folder_provider.history()
                + spec_set_records(
                paths_view(folders@),
                spec_to_sys(final(self).customizer.renders().last().1),
                r@,
            ),
            forall|i: int|
                0 <= i < r@.len() ==> ((#[trigger] r@[i]) matches Err(e) ==> e matches Error::FolderCustomization(p, _)
                    && p@ == folders@[i]@),
            final(self).customizer.profile_view() == Some(*profile),
            final(self).customizer.base_view() == old(self).customizer.base_view(),
            final(self).cache == old(self).cache,
    {
        self.customizer.apply_profile(profile);
        let rendered = self.customizer.render_all();
        let ghost rend = rendered@;
        let sys_icons = convert_icon_set_to_sys(&rendered);
        let ghost sys_view = sys_icons@;
        let mut results: Vec<Result<(), Error>> = Vec::new();
        let mut i: usize = 0;
        proof {
            assert(self.folder_provider.history() =~= old(self).folder_provider.history()
                + spec_set_records(paths_view(folders@), sys_view, results@));
        }
        while i < folders.len()
            invariant
                i <= folders@.len(),
                results@.len() == i,
                sys_view == spec_to_sys(rend),
                sys_icons@ == sys_view,
                self.customizer.renders() == old(self).customizer.renders().push(
                    (Some(*profile), rend),
                ),
                self.folder_provider.history() == old(self).folder_provider.history()
                    + spec_set_records(paths_view(folders@), sys_view, results@),
                self.customizer.profile_view() == Some(*profile),
                self.customizer.base_view() == old(self).customizer.base_view(),
                self.cache == old(self).cache,
                forall|j: int|
                    0 <= j < i ==> ((#[trigger] results@[j]) matches Err(e) ==> e matches Error::FolderCustomization(p, _)
                        && p@ == folders@[j]@),
            decreases folders@.len() - i,
        {
            let ghost results_pre = results@;
            let outcome = self.folder_provider.set_icon(folders[i].as_str(), &sys_icons);
            match outcome {
                Ok(()) => results.push(Ok(())),
                Err(m) => results.push(Err(Error::FolderCustomization(folders[i].clone(), m))),
            }
            proof {
                let paths = paths_view(folders@);
                let recs = spec_set_records(paths, sys_view, results@);
                assert(spec_set_records(paths, sys_view, results_pre) =~= recs.drop_last());
                assert(self.folder_provider.history() =~= old(self).folder_provider.history()
                    + recs);
            }
            i += 1;
        }
        proof {
            assert(self.customizer.renders().last() == (Some(*profile), rend));
            assert(spec_to_sys(self.customizer.renders().last().1) == sys_view);
        }
        results
    }

    /// Resets the icons of the given folders to the system default, in
    /// input order, with the same fail-soft contract as `customize_folders`
    /// and no rendering or conversion step.
    pub fn reset_folders(&mut self, folders: &Vec<String>) -> (r: Vec<Result<(), Error>>)
        ensures
            r@.len() == folders@.len(),
            final(self).folder_provider.history() == old(self).folder_provider.history()
                + spec_reset_records(paths_view(folders@), r@),
            forall|i: int|
                0 <= i < r@.len() ==> ((#[trigger] r@[i]) matches Err(e) ==> e matches Error::FolderReset(p, _)
                    && p@ == folders@[i]@),
            final(self).customizer == old(self).customizer,
            final(self).cache == old(self).cache,
    {
        let mut results: Vec<Result<(), Error>> = Vec::new();
        let mut i: usize = 0;
        proof {
            assert(self.folder_provider.history() =~= old(self).folder_provider.history()
                + spec_reset_records(paths_view(folders@), results@));
        }
        while i < folders.len()
            invariant
                i <= folders@.len(),
                results@.len() == i,
                self.folder_provider.history() == old(self).folder_provider.history()
                    + spec_reset_records(paths_view(folders@), results@),
                self.customizer == old(self).customizer,
                self.cache == old(self).cache,
                forall|j: int|
                    0 <= j < i ==> ((#[trigger] results@[j]) matches Err(e) ==> e matches Error::FolderReset(p, _)
                        && p@ == folders@[j]@),
            decreases folders@.len() - i,
        {
            let ghost results_pre = results@;
            let outcome = self.folder_provider.reset_icon(folders[i].as_str());
            match outcome {
                Ok(()) => results.push(Ok(())),
                Err(m) => results.push(Err(Error::FolderReset(folders[i].clone(), m))),
            }
            proof {
                let paths = paths_view(folders@);
                let recs = spec_reset_records(paths, results@);
                assert(spec_reset_records(paths, results_pre) =~= recs.drop_last());
                assert(self.folder_provider.history() =~= old(self).folder_provider.history()
                    + recs);
            }
            i += 1;
        }
        results
    }

    /// Customizes a single folder: the batch operation on a one-element
    /// input, returning its sole result. The batch contract guarantees one
    /// result for one target, so there is no empty-result case to decide.
    pub fn customize_folder(&mut self, folder: &str, profile: &CustomizationProfile) -> (r: Result<
        (),
        Error,
    >)
        ensures
            final(self).customizer.renders().len() == old(self).customizer.renders().len() + 1,
            final(self).customizer.renders().drop_last() == old(self).customizer.renders(),
            final(self).customizer.renders().last().0 == Some(*profile),
            final(self).folder_provider.history() == old(self).folder_provider.history().push(
                (ApplyRecord::SetIcon {
                    target: folder@,
                    icons: spec_to_sys(final(self).customizer.renders().last().1),
                    outcome: spec_outcome_of(r),
                }),
            ),
            r matches Err(e) ==> e matches Error::FolderCustomization(p, _) && p@ == folder@,
            final(self).customizer.profile_view() == Some(*profile),
            final(self).customizer.base_view() == old(self).customizer.base_view(),
            final(self).cache == old(self).cache,
    {
        let mut folders: Vec<String> = Vec::new();
        folders.push(String::from_str(folder));
        let mut results = self.customize_folders(&folders, profile);
        let r = match results.pop() {
            Some(r) => r,
            None => {
                proof {
                    assert(false);
                }
                Ok(())
            },
        };
        proof {
            let paths = paths_view(folders@);
            let sys = spec_to_sys(self.customizer.renders().last().1);
            assert(paths =~= seq![folder@]);
            assert(spec_set_records(paths, sys, seq![r]) =~= seq![
                ApplyRecord::SetIcon { target: folder@, icons: sys, outcome: spec_outcome_of(r) },
            ]);
            assert(self.folder_provider.history() =~= old(self).folder_provider.history().push(
                (ApplyRecord::SetIcon {
                    target: folder@,
                    icons: sys,
                    outcome: spec_outcome_of(r),
                }),
            ));
        }
        r
    }

    /// Resets a single folder: the batch operation on a one-element input,
    /// returning its sole result.
    pub fn reset_folder(&mut self, folder: &str) -> (r: Result<(), Error>)
        ensures
            final(self).folder_provider.history() == old(self).folder_provider.history().push(
                (ApplyRecord::ResetIcon { target: folder@, outcome: spec_outcome_of(r) }),
            ),
            r matches Err(e) ==> e matches Error::FolderReset(p, _) && p@ == folder@,
            final(self).customizer == old(self).customizer,
            final(self).cache == old(self).cache,
    {
        let mut folders: Vec<String> = Vec::new();
        folders.push(String::from_str(folder));
        let mut results = self.reset_folders(&folders);
        let r = match results.pop() {
            Some(r) => r,
            None => {
                proof {
                    assert(false);
                }
                Ok(())
            },
        };
        proof {
            let paths = paths_view(folders@);
            assert(paths =~= seq![folder@]);
            assert(spec_reset_records(paths, seq![r]) =~= seq![
                ApplyRecord::ResetIcon { target: folder@, outcome: spec_outcome_of(r) },
            ]);
            assert(self.folder_provider.history() =~= old(self).folder_provider.history().push(
                (ApplyRecord::ResetIcon { target: folder@, outcome: spec_outcome_of(r) }),
            ));
        }
        r
    }

    /// Clears and repopulates the icon cache, then replaces the renderer
    /// handle with a fresh one initialized from the refreshed base set. Any
    /// previously applied profile is discarded with the old handle: a new
    /// base invalidates prior render state, and the cleared profile makes
    /// the transition observable.
    pub fn refresh_cache<P: IconProvider>(&mut self, provider: &mut P) -> (r: Result<(), Error>)
        ensures
            final(self).cache.config == old(self).cache.config,
            final(self).folder_provider.history() == old(self).folder_provider.history(),
            final(provider).history().len() == old(provider).history().len() + 1,
            final(provider).history().drop_last() == old(provider).history(),
            r is Ok ==> final(self).customizer.profile_view() is None
                && final(self).customizer.renders() =~= Seq::<
                (Option<CustomizationProfile>, Seq<RenderImageView>),
            >::empty() && (exists|imgs: Seq<ImageView>|
                {
                    &&& #[trigger] supported_dims(imgs)
                    &&& final(self).customizer.base_view() == spec_to_render(imgs)
                    &&& final(provider).history().last() == Some(imgs)
                    &&& final(self).cache.files@ == spec_populated(
                        spec_cleared(old(self).cache.files@, old(self).cache.config@.cache_dir),
                        old(self).cache.config@.cache_dir,
                        imgs,
                    )
                }),
            r matches Err(e) ==> (e is IconSys || e is Image || e is Render),
            r is Err ==> final(self).customizer == old(self).customizer,
            r matches Err(e) ==> ((e is IconSys || e is Image)
                ==> !final(self).cache.files@.contains_key(
                spec_manifest_path(old(self).cache.config@.cache_dir),
            )),
            ({
                let rec = final(provider).history().last();
                &&& (r is Ok <==> (rec matches Some(imgs) && spec_all_encodable(imgs)
                    && supported_dims(imgs)))
                &&& (r matches Err(e) ==> (e is Render <==> (rec matches Some(imgs)
                    && spec_all_encodable(imgs) && !supported_dims(imgs))))
            }),
    {
        let set = match self.cache.refresh(provider) {
            Ok(s) => s,
            Err(e) => return Err(e),
        };
        let renderer_icons = match convert_icon_set(&set) {
            Ok(rs) => rs,
            Err(e) => return Err(e),
        };
        self.customizer = C::from_base(renderer_icons);
        proof {
            assert(supported_dims(set@) && self.customizer.base_view() == spec_to_render(set@)
                && self.cache.files@ == spec_populated(
                spec_cleared(old(self).cache.files@, old(self).cache.config@.cache_dir),
                old(self).cache.config@.cache_dir,
                set@,
            ));
        }
        Ok(())
    }

    /// The progress-reporting variant of `customize_folders`: the same
    /// fail-soft batch, offering each event to the channel as it happens.
    /// Delivery is best-effort — an event is dropped silently when the
    /// channel is full or closed — so callers needing every event must size
    /// the channel for the whole trace (twice the total plus three events)
    /// or drain it during the batch.
    /// The returned event list is exactly the trace that was offered,
    /// pinned by `spec_batch_trace`.
    pub fn customize_folders_async(
        &mut self,
        folders: &Vec<String>,
        profile: &CustomizationProfile,
        progress: &ProgressSender,
    ) -> (r: (Vec<Result<(), Error>>, Vec<Progress>))
        ensures
            r.0@.len() == folders@.len(),
            final(self).customizer.renders().len() == old(self).customizer.renders().len() + 1,
            final(self).customizer.renders().drop_last() == old(self).customizer.renders(),
            final(self).customizer.renders().last().0 == Some(*profile),
            final(self).folder_provider.history() == old(self).folder_provider.history()
                + spec_set_records(
                paths_view(folders@),
                spec_to_sys(final(self).customizer.renders().last().1),
                r.0@,
            ),
            forall|i: int|
                0 <= i < r.0@.len() ==> ((#[trigger] r.0@[i]) matches Err(e) ==> e matches Error::FolderCustomization(p, _)
                    && p@ == folders@[i]@),
            final(self).customizer.profile_view() == Some(*profile),
            final(self).customizer.base_view() == old(self).customizer.base_view(),
            final(self).cache == old(self).cache,
            events_view(r.1@) == spec_batch_trace(paths_view(folders@), spec_outcomes(r.0@), true),
    {
        let total = folders.len();
        let mut events: Vec<Progress> = Vec::new();
        emit(progress, &mut events, Progress::Started { total });
        emit(progress, &mut events, Progress::Rendering);
        self.customizer.apply_profile(profile);
        let rendered = self.customizer.render_all();
        let ghost rend = rendered@;
        let sys_icons = convert_icon_set_to_sys(&rendered);
        let ghost sys_view = sys_icons@;
        let ghost header: Seq<ProgressV> = seq![
            ProgressV::Started { total: folders@.len() as int },
            ProgressV::Rendering,
        ];
        let mut results: Vec<Result<(), Error>> = Vec::new();
        let mut succeeded: usize = 0;
        let mut failed: usize = 0;
        let mut i: usize = 0;
        proof {
            assert(events_view(events@) =~= header + spec_batch_body(
                paths_view(folders@),
                spec_outcomes(results@),
                0,
            ));
            assert(self.folder_provider.history() =~= old(self).folder_provider.history()
                + spec_set_records(paths_view(folders@), sys_view, results@));
        }
        while i < total
            invariant
                total == folders@.len(),
                i <= total,
                results@.len() == i,
                succeeded + failed == i,
                succeeded as int == count_ok(spec_outcomes(results@)),
                header == seq![
                    ProgressV::Started { total: folders@.len() as int },
                    ProgressV::Rendering,
                ],
                events_view(events@) == header + spec_batch_body(
                    paths_view(folders@),
                    spec_outcomes(results@),
                    i as int,
                ),
                sys_view == spec_to_sys(rend),
                sys_icons@ == sys_view,
                self.customizer.renders() == old(self).customizer.renders().push(
                    (Some(*profile), rend),
                ),
                self.folder_provider.history() == old(self).folder_provider.history()
                    + spec_set_records(paths_view(folders@), sys_view, results@),
                self.customizer.profile_view() == Some(*profile),
                self.customizer.base_view() == old(self).customizer.base_view(),
                self.cache == old(self).cache,
                forall|j: int|
                    0 <= j < i ==> ((#[trigger] results@[j]) matches Err(e) ==> e matches Error::FolderCustomization(p, _)
                        && p@ == folders@[j]@),
            decreases total - i,
        {
            let ghost outs_prev = spec_outcomes(results@);
            let ghost outs_prev_results = results@;
            let processing_event = Progress::Processing { current: i, path: folders[i].clone() };
            let ghost pev = processing_event@;
            let ghost ev0 = events@;
            emit(progress, &mut events, processing_event);
            proof {
                assert(events_view(events@) =~= events_view(ev0).push(pev));
            }
            let outcome = self.folder_provider.set_icon(folders[i].as_str(), &sys_icons);
            match outcome {
                Ok(()) => {
                    let done_event = Progress::FolderComplete { index: i, path: folders[i].clone() };
                    let ghost dev = done_event@;
                    let ghost ev1 = events@;
                    emit(progress, &mut events, done_event);
                    results.push(Ok(()));
                    succeeded += 1;
                    proof {
                        let paths = paths_view(folders@);
                        let outs = spec_outcomes(results@);
                        assert(events_view(events@) =~= events_view(ev1).push(dev));
                        assert(outs.drop_last() =~= outs_prev);
                        lemma_batch_body_congruence(paths, outs_prev, outs, i as int);
                        assert(outs[i as int] is None);
                        assert(count_ok(outs) == count_ok(outs_prev) + 1);
                        assert(pev == (ProgressV::Processing {
                            current: i as int,
                            path: paths[i as int],
                        }));
                        assert(dev == (ProgressV::FolderComplete {
                            index: i as int,
                            path: paths[i as int],
                        }));
                        assert(events_view(events@) =~= header + spec_batch_body(
                            paths,
                            outs,
                            i + 1,
                        ));
                    }
                },
                Err(m) => {
                    let event_error = m.clone();
                    let failed_event = Progress::FolderFailed {
                        index: i,
                        path: folders[i].clone(),
                        error: event_error,
                    };
                    let ghost fev = failed_event@;
                    let ghost ev1 = events@;
                    emit(progress, &mut events, failed_event);
                    results.push(Err(Error::FolderCustomization(folders[i].clone(), m)));
                    failed += 1;
                    proof {
                        let paths = paths_view(folders@);
                        let outs = spec_outcomes(results@);
                        assert(events_view(events@) =~= events_view(ev1).push(fev));
                        assert(outs.drop_last() =~= outs_prev);
                        lemma_batch_body_congruence(paths, outs_prev, outs, i as int);
                        assert(outs[i as int] == Some(m@));
                        assert(count_ok(outs) == count_ok(outs_prev));
                        assert(pev == (ProgressV::Processing {
                            current: i as int,
                            path: paths[i as int],
                        }));
                        assert(fev == (ProgressV::FolderFailed {
                            index: i as int,
                            path: paths[i as int],
                            error: m@,
                        }));
                        assert(events_view(events@) =~= header + spec_batch_body(
                            paths,
                            outs,
                            i + 1,
                        ));
                    }
                },
            }
            proof {
                let paths = paths_view(folders@);
                let recs = spec_set_records(paths, sys_view, results@);
                assert(spec_set_records(paths, sys_view, outs_prev_results) =~= recs.drop_last());
                assert(self.folder_provider.history() =~= old(self).folder_provider.history()
                    + recs);
            }
            i += 1;
        }
        let completed_event = Progress::Completed { succeeded, failed };
        let ghost cev = completed_event@;
        let ghost ev_end = events@;
        emit(progress, &mut events, completed_event);
        proof {
            let paths = paths_view(folders@);
            let outs = spec_outcomes(results@);
            assert(events_view(events@) =~= events_view(ev_end).push(cev));
            assert(paths.subrange(0, folders@.len() as int) =~= paths);
            assert(cev == (ProgressV::Completed {
                succeeded: count_ok(outs),
                failed: paths.len() - count_ok(outs),
            }));
            assert(events_view(events@) =~= spec_batch_trace(paths, outs, true));
            assert(self.customizer.renders().last() == (Some(*profile), rend));
            assert(spec_to_sys(self.customizer.renders().last().1) == sys_view);
        }
        (results, events)
    }

    /// The progress-reporting variant of `reset_folders`: the same
    /// fail-soft batch with no rendering step and no Rendering event, with
    /// the same best-effort delivery and the same pinned trace.
    pub fn reset_folders_async(&mut self, folders: &Vec<String>, progress: &ProgressSender) -> (r:
        (Vec<Result<(), Error>>, Vec<Progress>))
        ensures
            r.0@.len() == folders@.len(),
            final(self).folder_provider.history() == old(self).folder_provider.history()
                + spec_reset_records(paths_view(folders@), r.0@),
            forall|i: int|
                0 <= i < r.0@.len() ==> ((#[trigger] r.0@[i]) matches Err(e) ==> e matches Error::FolderReset(p, _)
                    && p@ == folders@[i]@),
            final(self).customizer == old(self).customizer,
            final(self).cache == old(self).cache,
            events_view(r.1@) == spec_batch_trace(paths_view(folders@), spec_outcomes(r.0@), false),
    {
        let total = folders.len();
        let mut events: Vec<Progress> = Vec::new();
        emit(progress, &mut events, Progress::Started { total });
        let ghost header: Seq<ProgressV> = seq![
            ProgressV::Started { total: folders@.len() as int },
        ];
        let mut results: Vec<Result<(), Error>> = Vec::new();
        let mut succeeded: usize = 0;
        let mut failed: usize = 0;
        let mut i: usize = 0;
        proof {
            assert(events_view(events@) =~= header + spec_batch_body(
                paths_view(folders@),
                spec_outcomes(results@),
                0,
            ));
            assert(self.folder_provider.history() =~= old(self).folder_provider.history()
                + spec_reset_records(paths_view(folders@), results@));
        }
        while i < total
            invariant
                total == folders@.len(),
                i <= total,
                results@.len() == i,
                succeeded + failed == i,
                succeeded as int == count_ok(spec_outcomes(results@)),
                header == seq![ProgressV::Started { total: folders@.len() as int }],
                events_view(events@) == header + spec_batch_body(
                    paths_view(folders@),
                    spec_outcomes(results@),
                    i as int,
                ),
                self.folder_provider.history() == old(self).folder_provider.history()
                    + spec_reset_records(paths_view(folders@), results@),
                self.customizer == old(self).customizer,
                self.cache == old(self).cache,
                forall|j: int|
                    0 <= j < i ==> ((#[trigger] results@[j]) matches Err(e) ==> e matches Error::FolderReset(p, _)
                        && p@ == folders@[j]@),
            decreases total - i,
        {
            let ghost outs_prev = spec_outcomes(results@);
            let ghost outs_prev_results = results@;
            let processing_event = Progress::Processing { current: i, path: folders[i].clone() };
            let ghost pev = processing_event@;
            let ghost ev0 = events@;
            emit(progress, &mut events, processing_event);
            proof {
                assert(events_view(events@) =~= events_view(ev0).push(pev));
            }
            let outcome = self.folder_provider.reset_icon(folders[i].as_str());
            match outcome {
                Ok(()) => {
                    let done_event = Progress::FolderComplete { index: i, path: folders[i].clone() };
                    let ghost dev = done_event@;
                    let ghost ev1 = events@;
                    emit(progress, &mut events, done_event);
                    results.push(Ok(()));
                    succeeded += 1;
                    proof {
                        let paths = paths_view(folders@);
                        let outs = spec_outcomes(results@);
                        assert(events_view(events@) =~= events_view(ev1).push(dev));
                        assert(outs.drop_last() =~= outs_prev);
                        lemma_batch_body_congruence(paths, outs_prev, outs, i as int);
                        assert(outs[i as int] is None);
                        assert(count_ok(outs) == count_ok(outs_prev) + 1);
                        assert(pev == (ProgressV::Processing {
                            current: i as int,
                            path: paths[i as int],
                        }));
                        assert(dev == (ProgressV::FolderComplete {
                            index: i as int,
                            path: paths[i as int],
                        }));
                        assert(events_view(events@) =~= header + spec_batch_body(
                            paths,
                            outs,
                            i + 1,
                        ));
                    }
                },
                Err(m) => {
                    let event_error = m.clone();
                    let failed_event = Progress::FolderFailed {
                        index: i,
                        path: folders[i].clone(),
                        error: event_error,
                    };
                    let ghost fev = failed_event@;
                    let ghost ev1 = events@;
                    emit(progress, &mut events, failed_event);
                    results.push(Err(Error::FolderReset(folders[i].clone(), m)));
                    failed += 1;
                    proof {
                        let paths = paths_view(folders@);
                        let outs = spec_outcomes(results@);
                        assert(events_view(events@) =~= events_view(ev1).push(fev));
                        assert(outs.drop_last() =~= outs_prev);
                        lemma_batch_body_congruence(paths, outs_prev, outs, i as int);
                        assert(outs[i as int] == Some(m@));
                        assert(count_ok(outs) == count_ok(outs_prev));
                        assert(pev == (ProgressV::Processing {
                            current: i as int,
                            path: paths[i as int],
                        }));
                        assert(fev == (ProgressV::FolderFailed {
                            index: i as int,
                            path: paths[i as int],
                            error: m@,
                        }));
                        assert(events_view(events@) =~= header + spec_batch_body(
                            paths,
                            outs,
                            i + 1,
                        ));
                    }
                },
            }
            proof {
                let paths = paths_view(folders@);
                let recs = spec_reset_records(paths, results@);
                assert(spec_reset_records(paths, outs_prev_results) =~= recs.drop_last());
                assert(self.folder_provider.history() =~= old(self).folder_provider.history()
                    + recs);
            }
            i += 1;
        }
        let completed_event = Progress::Completed { succeeded, failed };
        let ghost cev = completed_event@;
        let ghost ev_end = events@;
        emit(progress, &mut events, completed_event);
        proof {
            let paths = paths_view(folders@);
            let outs = spec_outcomes(results@);
            assert(events_view(events@) =~= events_view(ev_end).push(cev));
            assert(paths.subrange(0, folders@.len() as int) =~= paths);
            assert(cev == (ProgressV::Completed {
                succeeded: count_ok(outs),
                failed: paths.len() - count_ok(outs),
            }));
            assert(events_view(events@) =~= spec_batch_trace(paths, outs, false));
        }
        (results, events)
    }
}

} // verus!
