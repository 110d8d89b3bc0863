use diffr_cli::cli_args::ArgParsingError;
use diffr_cli::cli_args::ColorOpt;
use diffr_cli::cli_args::LineNumberStyleOpt;
use diffr_cli::cli_args::build_config;
use diffr_cli::cli_args::parse_color_args;
use diffr_cli::cli_args::parse_line_number_style;
use diffr_cli::cli_args::tryparse;
use diffr_cli::config::AppConfig;
use diffr_cli::config::ColorValue;
use diffr_cli::config::FaceName;
use diffr_cli::config::LineNumberStyle;
use diffr_cli::config::StyleRecord;

fn apply(values: &[&str]) -> Result<AppConfig, ArgParsingError> {
    let mut config = AppConfig::default();
    let values: Vec<String> = values.iter().map(|s| s.to_string()).collect();
    parse_color_args(&mut config, &values).map(|_| config)
}

const ALL_FACES: [FaceName; 4] = [
    FaceName::Added,
    FaceName::RefineAdded,
    FaceName::Removed,
    FaceName::RefineRemoved,
];

#[test]
fn every_face_and_attribute_parses_and_targets_its_face() {
    let face_names = ["added", "refine-added", "removed", "refine-removed"];
    let single_attrs = [
        "italic",
        "noitalic",
        "bold",
        "nobold",
        "intense",
        "nointense",
        "underline",
        "nounderline",
        "none",
    ];
    for (i, face) in face_names.iter().enumerate() {
        for attr in single_attrs.iter() {
            let spec = format!("{}:{}", face, attr);
            let config = apply(&[&spec]).unwrap();
            for (j, f) in ALL_FACES.iter().enumerate() {
                if i != j {
                    assert_eq!(config.get_face(*f), StyleRecord::default());
                }
            }
        }
        for attr in ["foreground", "background"].iter() {
            let spec = format!("{}:{}:red", face, attr);
            let config = apply(&[&spec]).unwrap();
            for (j, f) in ALL_FACES.iter().enumerate() {
                if i == j {
                    assert_ne!(config.get_face(*f), StyleRecord::default());
                } else {
                    assert_eq!(config.get_face(*f), StyleRecord::default());
                }
            }
        }
    }
}

#[test]
fn single_attributes_set_their_field() {
    let config = apply(&["added:bold"]).unwrap();
    let face = config.get_face(FaceName::Added);
    assert!(face.bold);
    assert_eq!(
        face,
        StyleRecord {
            bold: true,
            ..StyleRecord::default()
        }
    );
    let config = apply(&["removed:underline:intense:italic"]).unwrap();
    let face = config.get_face(FaceName::Removed);
    assert!(face.underline && face.intense && face.italic && !face.bold);
}

#[test]
fn unknown_face_name_lists_alternatives() {
    let err = apply(&["pink:bold"]).unwrap_err();
    match &err {
        ArgParsingError::FaceName(_) => {}
        other => panic!("wrong error kind: {:?}", other),
    }
    assert_eq!(
        err.message(),
        "unexpected face name: got 'pink', expected added|refine-added|removed|refine-removed"
    );
}

#[test]
fn unknown_attribute_name_lists_alternatives() {
    let err = apply(&["added:sparkle"]).unwrap_err();
    match &err {
        ArgParsingError::AttributeName(_) => {}
        other => panic!("wrong error kind: {:?}", other),
    }
    assert_eq!(
        err.message(),
        "unexpected attribute name: got 'sparkle', expected \
         foreground|background|italic|noitalic|bold|nobold|intense|nointense|underline|nounderline|none"
    );
}

#[test]
fn empty_attribute_name_is_reported() {
    let err = apply(&["added:"]).unwrap_err();
    assert!(matches!(err, ArgParsingError::AttributeName(_)));
    assert!(err.message().starts_with("unexpected attribute name: got '', expected "));
}

#[test]
fn reset_clears_accumulated_state() {
    let config = apply(&["added:foreground:red:bold:italic:none:underline"]).unwrap();
    let face = config.get_face(FaceName::Added);
    assert_eq!(
        face,
        StyleRecord {
            underline: true,
            ..StyleRecord::default()
        }
    );
    assert_eq!(face.fg, None);
    assert!(!face.bold && !face.italic);
}

#[test]
fn missing_color_value_names_the_face() {
    let err = apply(&["added:foreground"]).unwrap_err();
    assert_eq!(err, ArgParsingError::MissingValue(FaceName::Added));
    assert_eq!(
        err.message(),
        "error parsing color: missing color value for face 'added'"
    );
    let err = apply(&["refine-removed:bold:background"]).unwrap_err();
    assert_eq!(err, ArgParsingError::MissingValue(FaceName::RefineRemoved));
    assert_eq!(
        err.message(),
        "error parsing color: missing color value for face 'refine-removed'"
    );
}

#[test]
fn attributes_accumulate_within_one_spec() {
    let config = apply(&["added:foreground:none:background:red"]).unwrap();
    let face = config.get_face(FaceName::Added);
    assert_eq!(face.fg, None);
    assert_eq!(face.bg, Some(ColorValue::Red));
}

#[test]
fn attributes_accumulate_across_specs() {
    let config = apply(&["added:foreground:blue", "added:bold"]).unwrap();
    let face = config.get_face(FaceName::Added);
    assert_eq!(face.fg, Some(ColorValue::Blue));
    assert!(face.bold);
}

#[test]
fn refine_added_background_blue_bold() {
    let config = apply(&["refine-added:background:blue:bold"]).unwrap();
    let face = config.get_face(FaceName::RefineAdded);
    assert_eq!(face.bg, Some(ColorValue::Blue));
    assert!(face.bold);
    assert_eq!(face.fg, None);
    assert!(!face.italic && !face.intense && !face.underline);
}

#[test]
fn out_of_range_color_component_is_an_invalid_color() {
    let err = apply(&["added:foreground:999"]).unwrap_err();
    match &err {
        ArgParsingError::Color(m) => assert!(m.contains("999")),
        other => panic!("wrong error kind: {:?}", other),
    }
    assert!(err.message().starts_with("unexpected color value: "));
}

#[test]
fn color_values_parse_through_the_color_library() {
    let config = apply(&["added:foreground:cyan"]).unwrap();
    assert_eq!(config.get_face(FaceName::Added).fg, Some(ColorValue::Cyan));
    let config = apply(&["added:background:7"]).unwrap();
    assert_eq!(config.get_face(FaceName::Added).bg, Some(ColorValue::Ansi256(7)));
    let config = apply(&["added:foreground:1,2,3"]).unwrap();
    assert_eq!(config.get_face(FaceName::Added).fg, Some(ColorValue::Rgb(1, 2, 3)));
}

#[test]
fn color_opt_recognizes_the_none_sentinel() {
    let c = ColorOpt::from_str("none").unwrap();
    assert_eq!(c.0, None);
    let c = ColorOpt::from_str("magenta").unwrap();
    assert_eq!(c.0, Some(ColorValue::Magenta));
    assert!(ColorOpt::from_str("sunset").is_err());
}

#[test]
fn trailing_colon_after_color_attribute_is_an_invalid_color() {
    let err = apply(&["added:foreground:"]).unwrap_err();
    assert!(matches!(err, ArgParsingError::Color(_)));
}

#[test]
fn empty_spec_is_a_no_op() {
    let config = apply(&["", "added:bold"]).unwrap();
    assert!(config.get_face(FaceName::Added).bold);
    let untouched = apply(&[""]).unwrap();
    assert_eq!(untouched, AppConfig::default());
}

#[test]
fn line_numbers_last_value_wins() {
    let mut config = AppConfig::default();
    let values: Vec<String> = vec!["aligned".to_string(), "compact".to_string()];
    parse_line_number_style(&mut config, &values).unwrap();
    assert_eq!(config.line_numbers_style, Some(LineNumberStyle::Compact));
    let mut config = AppConfig::default();
    let values: Vec<String> = vec!["compact".to_string(), "aligned".to_string()];
    parse_line_number_style(&mut config, &values).unwrap();
    assert_eq!(config.line_numbers_style, Some(LineNumberStyle::Aligned));
}

#[test]
fn line_numbers_without_value_default_to_compact() {
    let mut config = AppConfig::default();
    let values: Vec<String> = Vec::new();
    parse_line_number_style(&mut config, &values).unwrap();
    assert_eq!(config.line_numbers_style, Some(LineNumberStyle::Compact));
}

#[test]
fn line_numbers_flag_absent_leaves_style_unset() {
    let config = build_config(false, false, None, &Vec::new()).unwrap();
    assert_eq!(config.line_numbers_style, None);
}

#[test]
fn unknown_line_number_style_is_reported() {
    let mut config = AppConfig::default();
    let values: Vec<String> = vec!["weird".to_string()];
    let err = parse_line_number_style(&mut config, &values).unwrap_err();
    assert!(matches!(err, ArgParsingError::LineNumberStyle(_)));
    assert_eq!(
        err.message(),
        "unexpected line number style: got 'weird', expected aligned|compact"
    );
    assert_eq!(config.line_numbers_style, None);
}

#[test]
fn tryparse_resolves_each_table() {
    assert!(matches!(tryparse::<FaceName>("added"), Ok(FaceName::Added)));
    assert!(matches!(
        tryparse::<FaceName>("refine-removed"),
        Ok(FaceName::RefineRemoved)
    ));
    assert!(matches!(
        tryparse::<LineNumberStyleOpt>("aligned"),
        Ok(LineNumberStyleOpt(LineNumberStyle::Aligned))
    ));
    let err = tryparse::<LineNumberStyleOpt>("tabular").unwrap_err();
    assert_eq!(err, "got 'tabular', expected aligned|compact");
}

#[test]
fn build_config_sets_toggles_and_applies_everything() {
    let line_values: Vec<String> = vec!["aligned".to_string()];
    let colors: Vec<String> = vec![
        "added:bold".to_string(),
        "removed:foreground:red".to_string(),
    ];
    let config = build_config(true, true, Some(&line_values), &colors).unwrap();
    assert!(config.debug);
    assert!(config.html);
    assert_eq!(config.line_numbers_style, Some(LineNumberStyle::Aligned));
    assert!(config.get_face(FaceName::Added).bold);
    assert_eq!(config.get_face(FaceName::Removed).fg, Some(ColorValue::Red));
    assert_eq!(config.get_face(FaceName::RefineAdded), StyleRecord::default());
}

#[test]
fn build_config_reports_line_number_error_before_color_errors() {
    let line_values: Vec<String> = vec!["weird".to_string()];
    let colors: Vec<String> = vec!["pink:bold".to_string()];
    let err = build_config(false, false, Some(&line_values), &colors).unwrap_err();
    assert!(matches!(err, ArgParsingError::LineNumberStyle(_)));
}

#[test]
fn first_color_error_wins_and_earlier_specs_do_not_leak() {
    let colors: Vec<String> = vec![
        "added:bold".to_string(),
        "added:sparkle".to_string(),
        "pink:bold".to_string(),
    ];
    let err = build_config(false, false, None, &colors).unwrap_err();
    assert!(matches!(err, ArgParsingError::AttributeName(_)));
}
