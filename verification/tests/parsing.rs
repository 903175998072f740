use termgol::common::color::RgbaParser;
use termgol::state::cell_image::CellImage;
use termgol::common::rule_parser::parse_rules;
use termgol::common::ParseError;
use termgol::state::cell_setup::CellSetup;
use termgol::state::rules::Rules;

#[test]
fn it_parses_bright_red_color_from_hex_code() {
    let rgba = RgbaParser::parse("#ff0000").unwrap();
    assert_eq!(rgba.r, 255);
    assert_eq!(rgba.g, 0);
    assert_eq!(rgba.b, 0);
    assert_eq!(rgba.a, 255);
}

#[test]
fn it_parses_test_color_from_hex_code() {
    let rgba = RgbaParser::parse("#010203").unwrap();
    assert_eq!(rgba.r, 1);
    assert_eq!(rgba.g, 2);
    assert_eq!(rgba.b, 3);
    assert_eq!(rgba.a, 255);
}

#[test]
fn it_fails_when_the_rgb_hex_code_is_invalid() {
    let err = RgbaParser::parse("nonsense");
    assert!(err.is_err());
    assert_eq!(err.unwrap_err(), ParseError::InvalidValue);
}

#[test]
fn hex_code_without_the_leading_hash_is_rejected() {
    let err = RgbaParser::parse("X010203");
    assert!(err.is_err());
    assert_eq!(err.unwrap_err(), ParseError::InvalidValue);
}

#[test]
fn hex_code_with_a_bad_digit_is_rejected() {
    let err = RgbaParser::parse("#ggff00");
    assert!(err.is_err());
    assert_eq!(err.unwrap_err(), ParseError::InvalidValue);
}

#[test]
fn uppercase_hex_digits_are_accepted() {
    let rgba = RgbaParser::parse("#A0B1C2").unwrap();
    assert_eq!(rgba.r, 0xA0);
    assert_eq!(rgba.g, 0xB1);
    assert_eq!(rgba.b, 0xC2);
}

#[test]
fn rule_parser_it_parses_the_default_life_rule() {
    let (birth_rule, survival_rule) = parse_rules("B3/S23").unwrap();
    assert_eq!(birth_rule, [3]);
    assert_eq!(survival_rule, [2, 3]);
}

#[test]
fn rule_parser_it_parses_the_maximal_rule() {
    let (birth_rule, survival_rule) = parse_rules("B012345678/S012345678").unwrap();
    assert_eq!(birth_rule, [0, 1, 2, 3, 4, 5, 6, 7, 8]);
    assert_eq!(survival_rule, [0, 1, 2, 3, 4, 5, 6, 7, 8]);
}

#[test]
fn rule_parser_it_fails_when_the_regex_is_not_matched() {
    let err = parse_rules("nonsense");
    assert!(err.is_err());
    assert_eq!(err.unwrap_err(), ParseError::InvalidValue);
}

#[test]
fn rule_parser_rejects_an_overlong_digit_group() {
    assert!(parse_rules("B0123456780/S3").is_err());
    assert!(parse_rules("B3/S0123456780").is_err());
}

#[test]
fn rule_parser_accepts_empty_digit_groups() {
    let (birth_rule, survival_rule) = parse_rules("B/S").unwrap();
    assert!(birth_rule.is_empty());
    assert!(survival_rule.is_empty());
}

#[test]
fn rules_it_parses_the_default_life_rule() {
    let Rules { birth, survival } = Rules::parse("B3/S23").unwrap();
    assert_eq!(birth, [3]);
    assert_eq!(survival, [2, 3]);
}

#[test]
fn rules_it_parses_the_maximal_rule() {
    let Rules { birth, survival } = Rules::parse("B012345678/S012345678").unwrap();
    assert_eq!(birth, [0, 1, 2, 3, 4, 5, 6, 7, 8]);
    assert_eq!(survival, [0, 1, 2, 3, 4, 5, 6, 7, 8]);
}

#[test]
fn rules_it_fails_when_the_regex_is_not_matched() {
    let err = Rules::parse("nonsense");
    assert!(err.is_err());
    assert_eq!(err.unwrap_err(), ParseError::InvalidValue);
}

#[test]
fn cell_setup_parse_recognizes_the_presets() {
    assert!(matches!(CellSetup::parse("acorn"), Ok(CellSetup::Acorn)));
    assert!(matches!(CellSetup::parse("blank"), Ok(CellSetup::Blank)));
    assert!(matches!(CellSetup::parse("r-pentonimo"), Ok(CellSetup::RPentonimo)));
    assert!(matches!(CellSetup::parse("termgol"), Ok(CellSetup::Termgol)));
}

#[test]
fn cell_setup_parse_rejects_unknown_names() {
    assert!(CellSetup::parse("Acorn").is_err());
    assert!(CellSetup::parse("").is_err());
    assert!(CellSetup::parse("soup").is_err());
    assert!(CellSetup::parse("soup1234").is_err());
    assert!(CellSetup::parse("soupx").is_err());
}

#[test]
fn cell_setup_parse_builds_a_soup_of_the_asked_size() {
    let setup = CellSetup::parse("soup12").unwrap();
    let CellSetup::Special(text) = setup else {
        panic!("expected a special setup");
    };
    let lines: Vec<&str> = text.lines().collect();
    assert_eq!(lines.len(), 12);
    for line in lines {
        assert_eq!(line.len(), 12);
        assert!(line.chars().all(|c| c == '.' || c == 'O'));
    }
}

#[test]
fn rect_soup_has_the_asked_shape() {
    let CellSetup::Special(text) = CellSetup::rect_soup(4, 3) else {
        panic!("expected a special setup");
    };
    let lines: Vec<&str> = text.lines().collect();
    assert_eq!(lines.len(), 3);
    for line in lines {
        assert_eq!(line.len(), 4);
        assert!(line.chars().all(|c| c == '.' || c == 'O'));
    }
}

#[test]
fn preset_texts_resolve_to_the_expected_images() {
    // Every preset text starts and ends with a line break, so the image
    // grows one empty row above and below the drawing.
    let acorn = CellImage::from_setup(&CellSetup::Acorn);
    assert_eq!((acorn.size.x, acorn.size.y), (7, 5));
    assert_eq!(acorn.living_points.len(), 7);

    let blank = CellImage::from_setup(&CellSetup::Blank);
    assert_eq!((blank.size.x, blank.size.y), (0, 1));
    assert!(blank.living_points.is_empty());

    let rpentonimo = CellImage::from_setup(&CellSetup::RPentonimo);
    assert_eq!((rpentonimo.size.x, rpentonimo.size.y), (3, 5));
    assert_eq!(rpentonimo.living_points.len(), 5);

    let termgol = CellImage::from_setup(&CellSetup::Termgol);
    assert_eq!((termgol.size.x, termgol.size.y), (41, 7));
}

#[test]
fn to_text_round_trips_a_special_setup() {
    let setup = CellSetup::Special(String::from("O.\n.O"));
    assert_eq!(setup.to_text(), "O.\n.O");
}
