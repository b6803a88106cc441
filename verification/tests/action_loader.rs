use game_in_rust::action_loader::{parse, parse_cubic, parse_point, parse_v1, Curve, Error};
use game_in_rust::action_parser::ActionParser;

#[test]
fn parser_test_01() {
    let input = "version: 1
part
c: 0,0,0 | 3,0,0 | 0,0,0
";

    let mut parser = ActionParser::new(input);

    let res = parser.parse();

    match res {
        Ok(r) => {
            assert!(r.len() == 1);
        }
        Err(err) => {
            println!("{:#?}", err);
            assert!(false);
        }
    };
}

#[test]
fn parser_reads_cubic_points_as_text() {
    let mut parser = ActionParser::new("  version: 1 part\n c: 1, 2.5 ,-3 | 4,5,6 | 7,8,9\n");
    let parts = parser.parse().unwrap();
    assert_eq!(parts.len(), 1);
    match &parts[0].curve {
        Curve::Cubic(p0, p1, p2) => {
            assert_eq!((p0.x.as_str(), p0.y.as_str(), p0.z.as_str()), ("1", "2.5", "-3"));
            assert_eq!((p1.x.as_str(), p1.y.as_str(), p1.z.as_str()), ("4", "5", "6"));
            assert_eq!((p2.x.as_str(), p2.y.as_str(), p2.z.as_str()), ("7", "8", "9"));
        }
        other => panic!("expected a cubic curve, got {:?}", other),
    }
}

#[test]
fn parser_reads_linear_curve() {
    let mut parser = ActionParser::new("version: 1\npart\nl: 0,0,1 | 1,1,1");
    let parts = parser.parse().unwrap();
    assert_eq!(parts.len(), 1);
    match &parts[0].curve {
        Curve::Linear(p0, p1) => {
            assert_eq!(p0.z, "1");
            assert_eq!(p1.x, "1");
        }
        other => panic!("expected a linear curve, got {:?}", other),
    }
}

#[test]
fn parser_empty_input_has_no_parts() {
    let mut parser = ActionParser::new("");
    assert_eq!(parser.parse().unwrap().len(), 0);
}

#[test]
fn parser_reports_expected_and_found_char() {
    // 'x' differs from the expected 'v'.
    let mut parser = ActionParser::new("xyz");
    match parser.parse() {
        Err(Error::ExpectedError { input, got }) => {
            assert_eq!(input, 'v');
            assert_eq!(got, 'x');
        }
        other => panic!("unexpected {:?}", other),
    }
    let mut parser = ActionParser::new("vxrsion: 1 part c: 0,0,0|1,1,1|2,2,2");
    match parser.parse() {
        Err(Error::ExpectedError { input, got }) => {
            assert_eq!(input, 'e');
            assert_eq!(got, 'x');
        }
        other => panic!("unexpected {:?}", other),
    }
    // A mismatch on the last character is reported too.
    let mut parser = ActionParser::new("version: 1 parx");
    match parser.parse() {
        Err(Error::ExpectedError { input, got }) => {
            assert_eq!(input, 't');
            assert_eq!(got, 'x');
        }
        other => panic!("unexpected {:?}", other),
    }
}

#[test]
fn parser_unknown_curve_tag() {
    let mut parser = ActionParser::new("version: 1 part q: 1,2,3");
    match parser.parse() {
        Err(Error::ParseCubicFailed { input, reason }) => {
            assert_eq!(input, "q: 1,2,3");
            assert_eq!(reason, "unknown curve");
        }
        other => panic!("unexpected {:?}", other),
    }
}

#[test]
fn parser_linear_with_three_points_fails() {
    let mut parser = ActionParser::new("version: 1 part l: 1,2,3 | 1,2,3 | 1,2,3");
    match parser.parse() {
        Err(Error::ParseCubicFailed { reason, .. }) => assert_eq!(reason, "length was not 2"),
        other => panic!("unexpected {:?}", other),
    }
}

#[test]
fn parse_point_trims_coordinates() {
    let p = parse_point(" 1.5 , -2 ,3 ").unwrap();
    assert_eq!((p.x.as_str(), p.y.as_str(), p.z.as_str()), ("1.5", "-2", "3"));
}

#[test]
fn parse_point_needs_three_coordinates() {
    match parse_point("1,2") {
        Err(Error::ParsePointFailed { input, reason }) => {
            assert_eq!(input, "1,2");
            assert_eq!(reason, "length was not 3");
        }
        other => panic!("unexpected {:?}", other),
    }
}

#[test]
fn parse_cubic_needs_three_points() {
    match parse_cubic("1,2,3 | 4,5,6") {
        Err(Error::ParseCubicFailed { input, reason }) => {
            assert_eq!(input, "1,2,3 | 4,5,6");
            assert_eq!(reason, "length was not 3");
        }
        other => panic!("unexpected {:?}", other),
    }
}

#[test]
fn parse_cubic_reports_first_bad_point() {
    match parse_cubic("1,2,3 | 4,5 | 6") {
        Err(Error::ParsePointFailed { input, .. }) => assert_eq!(input, " 4,5 "),
        other => panic!("unexpected {:?}", other),
    }
}

#[test]
fn parse_file_one_curve_per_line() {
    let parts = parse("version: 1\n0,0,0|1,0,0|2,0,0\r\n1,1,1|2,2,2|3,3,3\n").unwrap();
    assert_eq!(parts.len(), 2);
    match &parts[1].curve {
        Curve::Cubic(_, _, p2) => assert_eq!(p2.z, "3"),
        other => panic!("unexpected {:?}", other),
    }
}

#[test]
fn parse_file_version_error() {
    match parse("version: 2\n0,0,0|1,0,0|2,0,0") {
        Err(Error::VersionError { input }) => assert_eq!(input, "version: 2"),
        other => panic!("unexpected {:?}", other),
    }
}

#[test]
fn parse_file_rejects_word_lines() {
    // A "part" line is no curve in the line-based format.
    assert!(matches!(
        parse("version: 1\npart\nc: 0,0,0 | 3,0,0 | 0,0,0\n"),
        Err(Error::ParseCubicFailed { .. })
    ));
}

#[test]
fn parse_v1_empty_is_ok() {
    assert_eq!(parse_v1(vec![]).unwrap().len(), 0);
    assert_eq!(parse_v1(vec!["1,2,3|4,5,6|7,8,9"]).unwrap().len(), 1);
}

fn point_error_reason(text: &str) -> Option<String> {
    match parse_point(text) {
        Err(Error::ParsePointFailed { input, reason }) => {
            assert_eq!(input, text);
            Some(reason)
        }
        Ok(_) => None,
        other => panic!("unexpected {:?}", other),
    }
}

#[test]
fn parse_point_names_the_first_bad_coordinate() {
    assert_eq!(point_error_reason("a,1,2"), Some(String::from("Error parsing x")));
    assert_eq!(point_error_reason("1, ,2"), Some(String::from("Error parsing y")));
    assert_eq!(point_error_reason("1,2,."), Some(String::from("Error parsing z")));
    assert_eq!(point_error_reason("1,2,1e"), Some(String::from("Error parsing z")));
    assert_eq!(point_error_reason("1,2,1.2.3"), Some(String::from("Error parsing z")));
    assert_eq!(point_error_reason("1,2,--1"), Some(String::from("Error parsing z")));
    assert_eq!(point_error_reason("x,y"), Some(String::from("length was not 3")));
}

#[test]
fn parse_point_accepts_what_f32_parsing_accepts() {
    for text in ["1e5", "-.5", "+3", "inf", "-Infinity", "NaN", "2.", "1E-7", "0.25e+2"] {
        let p = parse_point(&format!("0, 0, {}", text)).unwrap();
        assert_eq!(p.z, text);
        assert!(p.z.parse::<f32>().is_ok());
    }
    for text in ["", ".", "e5", "1e", "1.5.", "in", "nan1", "0x10", "1_0"] {
        assert!(text.parse::<f32>().is_err());
        assert_eq!(
            point_error_reason(&format!("0,0,{}", text)),
            Some(String::from("Error parsing z"))
        );
    }
}

#[test]
fn cubic_reports_bad_numbers_before_later_lines() {
    match parse("version: 1\n1,2,3|4,x,6|7,8,9\n1,2\n") {
        Err(Error::ParsePointFailed { input, reason }) => {
            assert_eq!(input, "4,x,6");
            assert_eq!(reason, "Error parsing y");
        }
        other => panic!("unexpected {:?}", other),
    }
}

#[test]
fn parser_part_without_curve_has_no_parts() {
    let mut parser = ActionParser::new("version: 1\npart");
    assert_eq!(parser.parse().unwrap().len(), 0);
    let mut parser = ActionParser::new("version: 1 part \n  ");
    assert_eq!(parser.parse().unwrap().len(), 0);
}
