//! Named folder color presets with target HSL colors.
//!
//! Each [`FolderColor`] maps to a target HSL color, carried as fixed-point
//! integers: hue in hundredths of a degree (0 to 36000), saturation and
//! lightness in ten-thousandths (0 to 10000). When applied, the renderer
//! computes the deltas from the base icon's surface color to produce the
//! target appearance. The preset list, with metadata, can be rendered to
//! JSON for a front end's color picker.

use vstd::prelude::*;

use crate::profile::HslMutationSettings;
use crate::textutil::{push_char, spec_dec, u64_to_string};

verus! {

/// A named folder color preset.
#[derive(Debug, Clone, Copy, PartialEq, Eq, Hash, Structural)]
pub enum FolderColor {
    Red,
    Pink,
    Purple,
    DeepPurple,
    Indigo,
    Blue,
    LightBlue,
    Cyan,
    Teal,
    Green,
    LightGreen,
    Lime,
    Yellow,
    Amber,
    Orange,
    DeepOrange,
    Brown,
    Grey,
    BlueGrey,
    White,
    Black,
}

/// All presets, in their canonical order.
pub open spec fn spec_all_colors() -> Seq<FolderColor> {
    seq![
        FolderColor::Red,
        FolderColor::Pink,
        FolderColor::Purple,
        FolderColor::DeepPurple,
        FolderColor::Indigo,
        FolderColor::Blue,
        FolderColor::LightBlue,
        FolderColor::Cyan,
        FolderColor::Teal,
        FolderColor::Green,
        FolderColor::LightGreen,
        FolderColor::Lime,
        FolderColor::Yellow,
        FolderColor::Amber,
        FolderColor::Orange,
        FolderColor::DeepOrange,
        FolderColor::Brown,
        FolderColor::Grey,
        FolderColor::BlueGrey,
        FolderColor::White,
        FolderColor::Black,
    ]
}

/// The human-readable name of a preset.
pub open spec fn spec_display_name(c: FolderColor) -> Seq<char> {
    match c {
        FolderColor::Red => "Red"@,
        FolderColor::Pink => "Pink"@,
        FolderColor::Purple => "Purple"@,
        FolderColor::DeepPurple => "Deep Purple"@,
        FolderColor::Indigo => "Indigo"@,
        FolderColor::Blue => "Blue"@,
        FolderColor::LightBlue => "Light Blue"@,
        FolderColor::Cyan => "Cyan"@,
        FolderColor::Teal => "Teal"@,
        FolderColor::Green => "Green"@,
        FolderColor::LightGreen => "Light Green"@,
        FolderColor::Lime => "Lime"@,
        FolderColor::Yellow => "Yellow"@,
        FolderColor::Amber => "Amber"@,
        FolderColor::Orange => "Orange"@,
        FolderColor::DeepOrange => "Deep Orange"@,
        FolderColor::Brown => "Brown"@,
        FolderColor::Grey => "Grey"@,
        FolderColor::BlueGrey => "Blue Grey"@,
        FolderColor::White => "White"@,
        FolderColor::Black => "Black"@,
    }
}

/// The machine-readable (kebab-case) identifier of a preset.
pub open spec fn spec_kebab_name(c: FolderColor) -> Seq<char> {
    match c {
        FolderColor::Red => "red"@,
        FolderColor::Pink => "pink"@,
        FolderColor::Purple => "purple"@,
        FolderColor::DeepPurple => "deep-purple"@,
        FolderColor::Indigo => "indigo"@,
        FolderColor::Blue => "blue"@,
        FolderColor::LightBlue => "light-blue"@,
        FolderColor::Cyan => "cyan"@,
        FolderColor::Teal => "teal"@,
        FolderColor::Green => "green"@,
        FolderColor::LightGreen => "light-green"@,
        FolderColor::Lime => "lime"@,
        FolderColor::Yellow => "yellow"@,
        FolderColor::Amber => "amber"@,
        FolderColor::Orange => "orange"@,
        FolderColor::DeepOrange => "deep-orange"@,
        FolderColor::Brown => "brown"@,
        FolderColor::Grey => "grey"@,
        FolderColor::BlueGrey => "blue-grey"@,
        FolderColor::White => "white"@,
        FolderColor::Black => "black"@,
    }
}

/// The target (hue, saturation, lightness) of a preset, fixed-point: hue in
/// hundredths of a degree, saturation and lightness in ten-thousandths.
pub open spec fn spec_target_hsl(c: FolderColor) -> (u32, u32, u32) {
    match c {
        FolderColor::Red => (411u32, 8962u32, 5843u32),
        FolderColor::Pink => (33961u32, 8219u32, 5157u32),
        FolderColor::Purple => (29124u32, 6372u32, 4216u32),
        FolderColor::DeepPurple => (26160u32, 5187u32, 4725u32),
        FolderColor::Indigo => (23085u32, 4836u32, 4784u32),
        FolderColor::Blue => (20657u32, 8974u32, 5412u32),
        FolderColor::LightBlue => (19867u32, 9757u32, 4843u32),
        FolderColor::Cyan => (18679u32, 10000u32, 4157u32),
        FolderColor::Teal => (17440u32, 10000u32, 2941u32),
        FolderColor::Green => (12242u32, 3944u32, 4922u32),
        FolderColor::LightGreen => (8777u32, 5021u32, 5275u32),
        FolderColor::Lime => (6552u32, 6996u32, 5431u32),
        FolderColor::Yellow => (5388u32, 10000u32, 6157u32),
        FolderColor::Amber => (4500u32, 10000u32, 5137u32),
        FolderColor::Orange => (3576u32, 10000u32, 5000u32),
        FolderColor::DeepOrange => (1439u32, 10000u32, 5667u32),
        FolderColor::Brown => (1592u32, 2539u32, 3784u32),
        FolderColor::Grey => (0u32, 0u32, 6196u32),
        FolderColor::BlueGrey => (19953u32, 1830u32, 4608u32),
        FolderColor::White => (0u32, 0u32, 9333u32),
        FolderColor::Black => (0u32, 0u32, 2588u32),
    }
}

impl FolderColor {
    /// Returns all available folder color presets, in canonical order.
    pub fn all() -> (r: Vec<FolderColor>)
        ensures
            r@ == spec_all_colors(),
    {
        let r = vec![
            FolderColor::Red,
            FolderColor::Pink,
            FolderColor::Purple,
            FolderColor::DeepPurple,
            FolderColor::Indigo,
            FolderColor::Blue,
            FolderColor::LightBlue,
            FolderColor::Cyan,
            FolderColor::Teal,
            FolderColor::Green,
            FolderColor::LightGreen,
            FolderColor::Lime,
            FolderColor::Yellow,
            FolderColor::Amber,
            FolderColor::Orange,
            FolderColor::DeepOrange,
            FolderColor::Brown,
            FolderColor::Grey,
            FolderColor::BlueGrey,
            FolderColor::White,
            FolderColor::Black,
        ];
        proof {
            assert(r@ =~= spec_all_colors());
        }
        r
    }

    /// Human-readable display name.
    pub fn display_name(&self) -> (r: &'static str)
        ensures
            r@ == spec_display_name(*self),
    {
        match self {
            FolderColor::Red => "Red",
            FolderColor::Pink => "Pink",
            FolderColor::Purple => "Purple",
            FolderColor::DeepPurple => "Deep Purple",
            FolderColor::Indigo => "Indigo",
            FolderColor::Blue => "Blue",
            FolderColor::LightBlue => "Light Blue",
            FolderColor::Cyan => "Cyan",
            FolderColor::Teal => "Teal",
            FolderColor::Green => "Green",
            FolderColor::LightGreen => "Light Green",
            FolderColor::Lime => "Lime",
            FolderColor::Yellow => "Yellow",
            FolderColor::Amber => "Amber",
            FolderColor::Orange => "Orange",
            FolderColor::DeepOrange => "Deep Orange",
            FolderColor::Brown => "Brown",
            FolderColor::Grey => "Grey",
            FolderColor::BlueGrey => "Blue Grey",
            FolderColor::White => "White",
            FolderColor::Black => "Black",
        }
    }

    /// Machine-readable (kebab-case) identifier.
    pub fn kebab_name(&self) -> (r: &'static str)
        ensures
            r@ == spec_kebab_name(*self),
    {
        match self {
            FolderColor::Red => "red",
            FolderColor::Pink => "pink",
            FolderColor::Purple => "purple",
            FolderColor::DeepPurple => "deep-purple",
            FolderColor::Indigo => "indigo",
            FolderColor::Blue => "blue",
            FolderColor::LightBlue => "light-blue",
            FolderColor::Cyan => "cyan",
            FolderColor::Teal => "teal",
            FolderColor::Green => "green",
            FolderColor::LightGreen => "light-green",
            FolderColor::Lime => "lime",
            FolderColor::Yellow => "yellow",
            FolderColor::Amber => "amber",
            FolderColor::Orange => "orange",
            FolderColor::DeepOrange => "deep-orange",
            FolderColor::Brown => "brown",
            FolderColor::Grey => "grey",
            FolderColor::BlueGrey => "blue-grey",
            FolderColor::White => "white",
            FolderColor::Black => "black",
        }
    }

    /// Returns the target `(hue, saturation, lightness)` triple, fixed-point.
    pub fn target_hsl(&self) -> (r: (u32, u32, u32))
        ensures
            r == spec_target_hsl(*self),
    {
        match self {
            FolderColor::Red => (411, 8962, 5843),
            FolderColor::Pink => (33961, 8219, 5157),
            FolderColor::Purple => (29124, 6372, 4216),
            FolderColor::DeepPurple => (26160, 5187, 4725),
            FolderColor::Indigo => (23085, 4836, 4784),
            FolderColor::Blue => (20657, 8974, 5412),
            FolderColor::LightBlue => (19867, 9757, 4843),
            FolderColor::Cyan => (18679, 10000, 4157),
            FolderColor::Teal => (17440, 10000, 2941),
            FolderColor::Green => (12242, 3944, 4922),
            FolderColor::LightGreen => (8777, 5021, 5275),
            FolderColor::Lime => (6552, 6996, 5431),
            FolderColor::Yellow => (5388, 10000, 6157),
            FolderColor::Amber => (4500, 10000, 5137),
            FolderColor::Orange => (3576, 10000, 5000),
            FolderColor::DeepOrange => (1439, 10000, 5667),
            FolderColor::Brown => (1592, 2539, 3784),
            FolderColor::Grey => (0, 0, 6196),
            FolderColor::BlueGrey => (19953, 1830, 4608),
            FolderColor::White => (0, 0, 9333),
            FolderColor::Black => (0, 0, 2588),
        }
    }

    /// Converts this preset to HSL mutation settings, enabled, ready to
    /// embed in a customization profile.
    pub fn to_hsl_mutation_settings(&self) -> (r: HslMutationSettings)
        ensures
            r == (HslMutationSettings {
                target_hue: spec_target_hsl(*self).0,
                target_saturation: spec_target_hsl(*self).1,
                target_lightness: spec_target_hsl(*self).2,
                enabled: true,
            }),
    {
        let (target_hue, target_saturation, target_lightness) = self.target_hsl();
        HslMutationSettings { target_hue, target_saturation, target_lightness, enabled: true }
    }

    /// Returns all presets with their metadata, in canonical order.
    pub fn all_with_metadata() -> (r: Vec<FolderColorMetadata>)
        ensures
            r@.len() == spec_all_colors().len(),
            forall|i: int|
                0 <= i < r@.len() ==> {
                    let c = spec_all_colors()[i];
                    &&& (#[trigger] r@[i]).id == c
                    &&& r@[i].display_name@ == spec_display_name(c)
                    &&& r@[i].target_hue == spec_target_hsl(c).0
                    &&& r@[i].target_saturation == spec_target_hsl(c).1
                    &&& r@[i].target_lightness == spec_target_hsl(c).2
                },
    {
        let colors = FolderColor::all();
        let mut r: Vec<FolderColorMetadata> = Vec::new();
        let mut i: usize = 0;
        while i < colors.len()
            invariant
                colors@ == spec_all_colors(),
                i <= colors@.len(),
                r@.len() == i,
                forall|j: int|
                    0 <= j < i ==> {
                        let c = spec_all_colors()[j];
                        &&& (#[trigger] r@[j]).id == c
                        &&& r@[j].display_name@ == spec_display_name(c)
                        &&& r@[j].target_hue == spec_target_hsl(c).0
                        &&& r@[j].target_saturation == spec_target_hsl(c).1
                        &&& r@[j].target_lightness == spec_target_hsl(c).2
                    },
            decreases colors@.len() - i,
        {
            let c = colors[i];
            let (target_hue, target_saturation, target_lightness) = c.target_hsl();
            r.push(
                FolderColorMetadata {
                    id: c,
                    display_name: String::from_str(c.display_name()),
                    target_hue,
                    target_saturation,
                    target_lightness,
                },
            );
            i += 1;
        }
        r
    }

    /// Renders all presets, with metadata, as a compact JSON array.
    pub fn all_metadata_json() -> (r: String)
        ensures
            r@ == spec_all_metadata_json(),
    {
        let colors = FolderColor::all();
        let mut s = String::from_str("[");
        let mut i: usize = 0;
        while i < colors.len()
            invariant
                colors@ == spec_all_colors(),
                i <= colors@.len(),
                s@ == "["@ + spec_meta_json_list(spec_all_colors().subrange(0, i as int)),
            decreases colors@.len() - i,
        {
            if i > 0 {
                s.append(",");
            }
            append_color_meta(&mut s, colors[i]);
            proof {
                let pre = spec_all_colors().subrange(0, i as int);
                let cur = spec_all_colors().subrange(0, i + 1 as int);
                assert(cur.drop_last() =~= pre);
                assert(s@ =~= "["@ + spec_meta_json_list(cur));
            }
            i += 1;
        }
        s.append("]");
        proof {
            assert(spec_all_colors().subrange(0, spec_all_colors().len() as int) =~= spec_all_colors());
            assert(s@ =~= spec_all_metadata_json());
        }
        s
    }

    /// Renders all presets, with metadata, as a pretty-printed JSON array:
    /// one object per line, two-space indent.
    pub fn all_metadata_json_pretty() -> (r: String)
        ensures
            r@ == spec_all_metadata_json_pretty(),
    {
        let colors = FolderColor::all();
        let mut s = String::from_str("[\n  ");
        let mut i: usize = 0;
        while i < colors.len()
            invariant
                colors@ == spec_all_colors(),
                i <= colors@.len(),
                s@ == "[\n  "@ + spec_meta_json_list_pretty(spec_all_colors().subrange(0, i as int)),
            decreases colors@.len() - i,
        {
            if i > 0 {
                s.append(",\n  ");
            }
            append_color_meta(&mut s, colors[i]);
            proof {
                let pre = spec_all_colors().subrange(0, i as int);
                let cur = spec_all_colors().subrange(0, i + 1 as int);
                assert(cur.drop_last() =~= pre);
                assert(s@ =~= "[\n  "@ + spec_meta_json_list_pretty(cur));
            }
            i += 1;
        }
        s.append("\n]");
        proof {
            assert(spec_all_colors().subrange(0, spec_all_colors().len() as int) =~= spec_all_colors());
            assert(s@ =~= spec_all_metadata_json_pretty());
        }
        s
    }
}

/// Metadata for a single folder color preset.
#[derive(Debug, Clone)]
pub struct FolderColorMetadata {
    /// Machine-readable color identifier.
    pub id: FolderColor,
    /// Human-readable display name.
    pub display_name: String,
    /// Target hue, in hundredths of a degree.
    pub target_hue: u32,
    /// Target saturation, in ten-thousandths.
    pub target_saturation: u32,
    /// Target lightness, in ten-thousandths.
    pub target_lightness: u32,
}

/// The JSON object for one preset's metadata.
pub open spec fn spec_color_meta_json(c: FolderColor) -> Seq<char> {
    "{\"id\":\""@ + spec_kebab_name(c) + "\",\"displayName\":\""@ + spec_display_name(c)
        + "\",\"targetHue\":"@ + spec_dec(spec_target_hsl(c).0 as nat) + ",\"targetSaturation\":"@
        + spec_dec(spec_target_hsl(c).1 as nat) + ",\"targetLightness\":"@ + spec_dec(
        spec_target_hsl(c).2 as nat,
    ) + "}"@
}

/// The comma-joined JSON objects of a preset list.
pub open spec fn spec_meta_json_list(s: Seq<FolderColor>) -> Seq<char>
    decreases s.len(),
{
    if s.len() == 0 {
        Seq::empty()
    } else if s.len() == 1 {
        spec_color_meta_json(s[0])
    } else {
        spec_meta_json_list(s.drop_last()) + ","@ + spec_color_meta_json(s.last())
    }
}

/// The JSON objects of a preset list, one per line, two-space indent.
pub open spec fn spec_meta_json_list_pretty(s: Seq<FolderColor>) -> Seq<char>
    decreases s.len(),
{
    if s.len() == 0 {
        Seq::empty()
    } else if s.len() == 1 {
        spec_color_meta_json(s[0])
    } else {
        spec_meta_json_list_pretty(s.drop_last()) + ",\n  "@ + spec_color_meta_json(s.last())
    }
}

/// The compact JSON rendering of the full preset list.
pub open spec fn spec_all_metadata_json() -> Seq<char> {
    "["@ + spec_meta_json_list(spec_all_colors()) + "]"@
}

/// The pretty JSON rendering of the full preset list.
pub open spec fn spec_all_metadata_json_pretty() -> Seq<char> {
    "[\n  "@ + spec_meta_json_list_pretty(spec_all_colors()) + "\n]"@
}

/// Appends the JSON object for one preset's metadata.
fn append_color_meta(out: &mut String, c: FolderColor)
    ensures
        final(out)@ == old(out)@ + spec_color_meta_json(c),
{
    out.append("{\"id\":\"");
    out.append(c.kebab_name());
    out.append("\",\"displayName\":\"");
    out.append(c.display_name());
    out.append("\",\"targetHue\":");
    let (hue, saturation, lightness) = c.target_hsl();
    let hue_str = u64_to_string(hue as u64);
    out.append(hue_str.as_str());
    out.append(",\"targetSaturation\":");
    let saturation_str = u64_to_string(saturation as u64);
    out.append(saturation_str.as_str());
    out.append(",\"targetLightness\":");
    let lightness_str = u64_to_string(lightness as u64);
    out.append(lightness_str.as_str());
    out.append("}");
    proof {
        assert(out@ =~= old(out)@ + spec_color_meta_json(c));
    }
}

/// The normalization of one character for name parsing: separators vanish,
/// ASCII uppercase folds to lowercase, everything else stays.
pub open spec fn spec_normalize_char(c: char) -> Seq<char> {
    if c == ' ' || c == '-' || c == '_' {
        Seq::empty()
    } else if 'A' <= c <= 'Z' {
        seq![((c as u8) + 32) as char]
    } else {
        seq![c]
    }
}

/// The normalized form of a name: lowercased, separators removed.
pub open spec fn spec_normalized(s: Seq<char>) -> Seq<char>
    decreases s.len(),
{
    if s.len() == 0 {
        Seq::empty()
    } else {
        spec_normalize_char(s[0]) + spec_normalized(s.drop_first())
    }
}

proof fn lemma_normalized_snoc(s: Seq<char>, c: char)
    ensures
        spec_normalized(s.push(c)) == spec_normalized(s) + spec_normalize_char(c),
    decreases s.len(),
{
    if s.len() == 0 {
        assert(s.push(c)[0] == c);
        assert(s.push(c).drop_first() =~= Seq::<char>::empty());
        assert(spec_normalized(s.push(c)) == spec_normalize_char(c) + spec_normalized(
            s.push(c).drop_first(),
        ));
        assert(spec_normalized(Seq::<char>::empty()) == Seq::<char>::empty());
        assert(spec_normalized(s.push(c)) =~= spec_normalized(s) + spec_normalize_char(c));
    } else {
        assert(s.push(c)[0] == s[0]);
        assert(s.push(c).drop_first() =~= s.drop_first().push(c));
        lemma_normalized_snoc(s.drop_first(), c);
        assert(spec_normalized(s.push(c)) =~= spec_normalized(s) + spec_normalize_char(c));
    }
}

/// The preset a normalized name denotes, if any. Grey and blue-grey accept
/// both spellings.
pub open spec fn spec_color_of_name(n: Seq<char>) -> Option<FolderColor> {
    if n == "red"@ {
        Some(FolderColor::Red)
    } else if n == "pink"@ {
        Some(FolderColor::Pink)
    } else if n == "purple"@ {
        Some(FolderColor::Purple)
    } else if n == "deeppurple"@ {
        Some(FolderColor::DeepPurple)
    } else if n == "indigo"@ {
        Some(FolderColor::Indigo)
    } else if n == "blue"@ {
        Some(FolderColor::Blue)
    } else if n == "lightblue"@ {
        Some(FolderColor::LightBlue)
    } else if n == "cyan"@ {
        Some(FolderColor::Cyan)
    } else if n == "teal"@ {
        Some(FolderColor::Teal)
    } else if n == "green"@ {
        Some(FolderColor::Green)
    } else if n == "lightgreen"@ {
        Some(FolderColor::LightGreen)
    } else if n == "lime"@ {
        Some(FolderColor::Lime)
    } else if n == "yellow"@ {
        Some(FolderColor::Yellow)
    } else if n == "amber"@ {
        Some(FolderColor::Amber)
    } else if n == "orange"@ {
        Some(FolderColor::Orange)
    } else if n == "deeporange"@ {
        Some(FolderColor::DeepOrange)
    } else if n == "brown"@ {
        Some(FolderColor::Brown)
    } else if n == "grey"@ || n == "gray"@ {
        Some(FolderColor::Grey)
    } else if n == "bluegrey"@ || n == "bluegray"@ {
        Some(FolderColor::BlueGrey)
    } else if n == "white"@ {
        Some(FolderColor::White)
    } else if n == "black"@ {
        Some(FolderColor::Black)
    } else {
        None
    }
}

/// Character-wise equality of a character vector and a string.
fn chars_eq(v: &Vec<char>, s: &str) -> (r: bool)
    ensures
        r == (v@ == s@),
{
    let n = s.unicode_len();
    if v.len() != n {
        return false;
    }
    let mut i: usize = 0;
    while i < n
        invariant
            n == s@.len(),
            v@.len() == n,
            i <= n,
            forall|j: int| 0 <= j < i ==> v@[j] == s@[j],
        decreases n - i,
    {
        if v[i] != s.get_char(i) {
            return false;
        }
        i += 1;
    }
    proof {
        assert(v@ =~= s@);
    }
    true
}

/// Parses a folder color name: ASCII case-insensitive, ignoring spaces, dashes,
/// and underscores.
pub fn parse_folder_color(s: &str) -> (r: Option<FolderColor>)
    ensures
        r == spec_color_of_name(spec_normalized(s@)),
{
    let n = s.unicode_len();
    let mut norm: Vec<char> = Vec::new();
    let mut i: usize = 0;
    proof {
        assert(spec_normalized(s@.subrange(0, 0)) =~= Seq::<char>::empty());
        assert(norm@ =~= spec_normalized(s@.subrange(0, 0)));
    }
    while i < n
        invariant
            n == s@.len(),
            i <= n,
            norm@ == spec_normalized(s@.subrange(0, i as int)),
        decreases n - i,
    {
        let c = s.get_char(i);
        let u = c as u32;
        proof {
            lemma_normalized_snoc(s@.subrange(0, i as int), c);
            assert(s@.subrange(0, i + 1 as int) =~= s@.subrange(0, i as int).push(c));
        }
        if u == 32 || u == 45 || u == 95 {
            proof {
                assert(c == ' ' || c == '-' || c == '_');
                assert(norm@ =~= spec_normalized(s@.subrange(0, i + 1 as int)));
            }
        } else if 65 <= u && u <= 90 {
            let lower = ((u + 32) as u8) as char;
            norm.push(lower);
            proof {
                assert('A' <= c <= 'Z');
                assert(lower == ((c as u8) + 32) as char);
                assert(norm@ =~= spec_normalized(s@.subrange(0, i + 1 as int)));
            }
        } else {
            norm.push(c);
            proof {
                assert(!(c == ' ' || c == '-' || c == '_') && !('A' <= c <= 'Z'));
                assert(norm@ =~= spec_normalized(s@.subrange(0, i + 1 as int)));
            }
        }
        i += 1;
    }
    proof {
        assert(s@.subrange(0, s@.len() as int) =~= s@);
    }
    if chars_eq(&norm, "red") {
        Some(FolderColor::Red)
    } else if chars_eq(&norm, "pink") {
        Some(FolderColor::Pink)
    } else if chars_eq(&norm, "purple") {
        Some(FolderColor::Purple)
    } else if chars_eq(&norm, "deeppurple") {
        Some(FolderColor::DeepPurple)
    } else if chars_eq(&norm, "indigo") {
        Some(FolderColor::Indigo)
    } else if chars_eq(&norm, "blue") {
        Some(FolderColor::Blue)
    } else if chars_eq(&norm, "lightblue") {
        Some(FolderColor::LightBlue)
    } else if chars_eq(&norm, "cyan") {
        Some(FolderColor::Cyan)
    } else if chars_eq(&norm, "teal") {
        Some(FolderColor::Teal)
    } else if chars_eq(&norm, "green") {
        Some(FolderColor::Green)
    } else if chars_eq(&norm, "lightgreen") {
        Some(FolderColor::LightGreen)
    } else if chars_eq(&norm, "lime") {
        Some(FolderColor::Lime)
    } else if chars_eq(&norm, "yellow") {
        Some(FolderColor::Yellow)
    } else if chars_eq(&norm, "amber") {
        Some(FolderColor::Amber)
    } else if chars_eq(&norm, "orange") {
        Some(FolderColor::Orange)
    } else if chars_eq(&norm, "deeporange") {
        Some(FolderColor::DeepOrange)
    } else if chars_eq(&norm, "brown") {
        Some(FolderColor::Brown)
    } else if chars_eq(&norm, "grey") || chars_eq(&norm, "gray") {
        Some(FolderColor::Grey)
    } else if chars_eq(&norm, "bluegrey") || chars_eq(&norm, "bluegray") {
        Some(FolderColor::BlueGrey)
    } else if chars_eq(&norm, "white") {
        Some(FolderColor::White)
    } else if chars_eq(&norm, "black") {
        Some(FolderColor::Black)
    } else {
        None
    }
}

impl core::str::FromStr for FolderColor {
    type Err = String;

    fn from_str(s: &str) -> Result<FolderColor, String> {
        match parse_folder_color(s) {
            Some(c) => Ok(c),
            None => {
                let mut m = String::new();
                m.append("Unknown folder color: '");
                m.append(s);
                m.append("'");
                Err(m)
            },
        }
    }
}

} // verus!
