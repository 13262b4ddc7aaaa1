use folco_core::color::{FolderColor, FolderColorMetadata};

#[test]
fn all_colors_have_valid_params() {
    for color in FolderColor::all() {
        let (hue, sat, light) = color.target_hsl();
        assert!(hue < 36000, "{:?} hue {} out of range", color, hue);
        assert!(sat <= 10000, "{:?} saturation {} out of range", color, sat);
        assert!(light <= 10000, "{:?} lightness {} out of range", color, light);
    }
}

#[test]
fn metadata_json_roundtrip() {
    let json = FolderColor::all_metadata_json();
    let parsed: serde_json::Value = serde_json::from_str(&json).unwrap();
    let arr = parsed.as_array().unwrap();
    assert_eq!(arr.len(), FolderColor::all().len());
    assert_eq!(arr[0]["id"], "red");
    assert_eq!(arr[0]["displayName"], "Red");
    assert_eq!(arr[0]["targetHue"], 411);
    assert_eq!(arr[0]["targetSaturation"], 8962);
    assert_eq!(arr[0]["targetLightness"], 5843);
}

#[test]
fn pretty_metadata_json_parses_to_same_array() {
    let compact: serde_json::Value =
        serde_json::from_str(&FolderColor::all_metadata_json()).unwrap();
    let pretty: serde_json::Value =
        serde_json::from_str(&FolderColor::all_metadata_json_pretty()).unwrap();
    assert_eq!(compact, pretty);
}

#[test]
fn parse_color_names() {
    assert_eq!("red".parse::<FolderColor>().unwrap(), FolderColor::Red);
    assert_eq!(
        "deep-purple".parse::<FolderColor>().unwrap(),
        FolderColor::DeepPurple
    );
    assert_eq!(
        "BlueGrey".parse::<FolderColor>().unwrap(),
        FolderColor::BlueGrey
    );
    assert_eq!(
        "light_blue".parse::<FolderColor>().unwrap(),
        FolderColor::LightBlue
    );
    assert!("invalid".parse::<FolderColor>().is_err());
}

#[test]
fn gray_spellings_both_parse() {
    assert_eq!("gray".parse::<FolderColor>().unwrap(), FolderColor::Grey);
    assert_eq!("blue gray".parse::<FolderColor>().unwrap(), FolderColor::BlueGrey);
}

#[test]
fn to_hsl_mutation_settings() {
    let settings = FolderColor::Red.to_hsl_mutation_settings();
    assert!(settings.enabled);
    assert_eq!(settings.target_hue, 411);
    assert_eq!(settings.target_saturation, 8962);
    assert_eq!(settings.target_lightness, 5843);
}

#[test]
fn all_with_metadata_matches_tables() {
    let metadata: Vec<FolderColorMetadata> = FolderColor::all_with_metadata();
    let colors = FolderColor::all();
    assert_eq!(metadata.len(), colors.len());
    for (m, c) in metadata.iter().zip(colors.iter()) {
        assert_eq!(m.id, *c);
        assert_eq!(m.display_name, c.display_name());
        let (hue, sat, light) = c.target_hsl();
        assert_eq!(m.target_hue, hue);
        assert_eq!(m.target_saturation, sat);
        assert_eq!(m.target_lightness, light);
    }
}
