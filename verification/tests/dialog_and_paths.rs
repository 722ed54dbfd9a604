use maxwell::dialog::{
    all_fields_filled, check_coordinate_fields, dialog_payload, field_is_blank, markers_overlap,
    parse_object_record, split_bar_fields, trimmed_field, FieldError, ObjectData,
};
use maxwell::objects::ObjectType;
use maxwell::temp_config::{
    choose_config_path, config_path_from_env, is_generated_temp_config, new_temp_config_file_name,
    should_remove_previous, temp_config_file_name, ConfigPathChoice, TEMP_CONFIG_PREFIX,
};

#[test]
fn blank_fields() {
    assert!(field_is_blank(""));
    assert!(field_is_blank(" \t\u{a0}\u{3000}"));
    assert!(!field_is_blank(" 1 "));
    assert_eq!(trimmed_field("  3.5\n"), "3.5");
    assert_eq!(trimmed_field("\u{2003}x y\u{85}"), "x y");
}

#[test]
fn coordinate_field_checks() {
    assert_eq!(check_coordinate_fields(ObjectType::Probe, " ", "1", "", ""), Err(FieldError::MissingFirstCorner));
    assert_eq!(check_coordinate_fields(ObjectType::Probe, "1", "2", "", ""), Ok(()));
    assert_eq!(
        check_coordinate_fields(ObjectType::Rectangle, "1", "2", "3", "  "),
        Err(FieldError::MissingSecondCorner)
    );
    assert_eq!(check_coordinate_fields(ObjectType::Rectangle, "1", "2", "3", "4"), Ok(()));
    assert!(all_fields_filled(&["1", " 2 "]));
    assert!(!all_fields_filled(&["1", " "]));
    assert!(all_fields_filled(&[]));
}

#[test]
fn split_and_parse_records() {
    assert_eq!(split_bar_fields("a|b||c"), vec!["a", "b", "", "c"]);
    assert_eq!(split_bar_fields(""), vec![""]);
    assert_eq!(split_bar_fields("x|"), vec!["x", ""]);
    assert_eq!(
        parse_object_record("RECTANGLE|0|1|2|3|4|5|extra"),
        Some(ObjectData::Rectangle {
            x1: "0".to_string(),
            y1: "1".to_string(),
            x2: "2".to_string(),
            y2: "3".to_string(),
            eps: "4".to_string(),
            mu: "5".to_string(),
        })
    );
    assert_eq!(
        parse_object_record("SOURCE|0.1|0.2"),
        Some(ObjectData::Source { x: "0.1".to_string(), y: "0.2".to_string() })
    );
    assert_eq!(
        parse_object_record("PROBE|7|8"),
        Some(ObjectData::Probe { x: "7".to_string(), y: "8".to_string() })
    );
    assert_eq!(parse_object_record("RECTANGLE|0|1|2"), None);
    assert_eq!(parse_object_record("PROBE|1"), None);
    assert_eq!(parse_object_record("probe|1|2"), None);
}

#[test]
fn payload_between_markers() {
    let out = "noise <<BEGIN>>  a = 1 \n<<END>> tail";
    assert_eq!(dialog_payload(out, "<<BEGIN>>", "<<END>>"), Some("a = 1".to_string()));
    assert_eq!(dialog_payload("<<END>> <<BEGIN>>", "<<BEGIN>>", "<<END>>"), None);
    assert_eq!(dialog_payload("<<BEGIN>> only", "<<BEGIN>>", "<<END>>"), None);
    assert!(!markers_overlap(out, "<<BEGIN>>", "<<END>>"));
    assert!(markers_overlap("ABC", "ABC", "BC"));
}

#[test]
fn temp_file_names() {
    assert_eq!(temp_config_file_name(&['a', 'B', '3']), "maxwell_temp_config_aB3.toml");
    let name = new_temp_config_file_name();
    assert!(name.starts_with(TEMP_CONFIG_PREFIX));
    assert!(name.ends_with(".toml"));
    assert_eq!(name.len(), TEMP_CONFIG_PREFIX.len() + 8 + 5);
    let random = &name[TEMP_CONFIG_PREFIX.len()..TEMP_CONFIG_PREFIX.len() + 8];
    assert!(random.chars().all(|c| c.is_ascii_alphanumeric()));
}

#[test]
fn env_value_filter() {
    assert_eq!(config_path_from_env(None), None);
    assert_eq!(config_path_from_env(Some(String::new())), None);
    assert_eq!(config_path_from_env(Some("/x.toml".to_string())), Some("/x.toml".to_string()));
}

#[test]
fn generated_temp_config_detection() {
    assert!(is_generated_temp_config("/tmp/maxwell_temp_config_abc.toml", "/tmp"));
    assert!(!is_generated_temp_config("/tmp/other.toml", "/tmp"));
    assert!(!is_generated_temp_config("/home/maxwell_temp_config_abc.toml", "/tmp"));
    assert!(!is_generated_temp_config("/tmpx/maxwell_temp_config_a.toml", "/tmp"));
    assert!(should_remove_previous("/tmp/maxwell_temp_config_a.toml", "/tmp/b.toml", "/tmp", true));
    assert!(!should_remove_previous("/tmp/maxwell_temp_config_a.toml", "/tmp/b.toml", "/tmp", false));
    assert!(!should_remove_previous(
        "/tmp/maxwell_temp_config_a.toml",
        "/tmp//maxwell_temp_config_a.toml",
        "/tmp",
        true
    ));
}

#[test]
fn config_path_choice() {
    match choose_config_path(Some("/a.toml".to_string()), "/tmp") {
        ConfigPathChoice::Existing(p) => assert_eq!(p, "/a.toml"),
        ConfigPathChoice::Fresh(_) => panic!("expected the existing path"),
    }
    match choose_config_path(None, "/tmp") {
        ConfigPathChoice::Fresh(p) => {
            assert!(p.starts_with("/tmp/maxwell_temp_config_"));
            assert!(p.ends_with(".toml"));
            assert!(is_generated_temp_config(&p, "/tmp"));
            assert!(is_generated_temp_config(&p, "/tmp/"));
            let recorded = config_path_from_env(Some(p.clone()));
            assert_eq!(recorded, Some(p.clone()));
            match choose_config_path(recorded, "/tmp") {
                ConfigPathChoice::Existing(again) => assert_eq!(again, p),
                ConfigPathChoice::Fresh(_) => panic!("a recorded path is chosen again"),
            }
        }
        ConfigPathChoice::Existing(_) => panic!("expected a fresh path"),
    }
}
