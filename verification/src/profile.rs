//! Customization profiles.
//!
//! A profile is a configuration object that the orchestration forwards to
//! the renderer without inspection. Color values are carried as fixed-point
//! integers: hue in hundredths of a degree (0 to 36000), saturation and
//! lightness in ten-thousandths (0 to 10000).

use vstd::prelude::*;

verus! {

/// Settings for recoloring the folder surface towards a target HSL color.
#[derive(Debug, Clone, Copy, PartialEq, Eq)]
pub struct HslMutationSettings {
    /// Target hue, in hundredths of a degree.
    pub target_hue: u32,
    /// Target saturation, in ten-thousandths.
    pub target_saturation: u32,
    /// Target lightness, in ten-thousandths.
    pub target_lightness: u32,
    /// Whether the recoloring is active.
    pub enabled: bool,
}

/// A customization profile, forwarded to the renderer without inspection.
///
/// The orchestration treats the profile as opaque, so this type carries
/// only the recoloring that the color presets produce; a renderer with
/// richer settings (decals, overlays, and the like) keeps those in its own
/// handle state, which the `Customizer` capability leaves to the
/// implementation.
#[derive(Debug, Clone, Copy, PartialEq, Eq)]
pub struct CustomizationProfile {
    /// The recoloring to apply, if any.
    pub hsl_mutation: Option<HslMutationSettings>,
}

/// The profile that a freshly created customizer handle reports.
pub open spec fn spec_default_profile() -> CustomizationProfile {
    CustomizationProfile { hsl_mutation: None }
}

impl CustomizationProfile {
    /// An empty profile: no customization.
    pub fn new() -> (r: CustomizationProfile)
        ensures
            r == spec_default_profile(),
    {
        CustomizationProfile { hsl_mutation: None }
    }

    /// Adds a recoloring to the profile.
    pub fn with_hsl_mutation(self, settings: HslMutationSettings) -> (r: CustomizationProfile)
        ensures
            r.hsl_mutation == Some(settings),
    {
        CustomizationProfile { hsl_mutation: Some(settings) }
    }
}

} // verus!
