use pgntool::{
    Check, Element, ElementP, ElementSuffix, File, GameTermination, MoveNumberIndication,
    NumericAnnotationGlyph, PgnError, Piece, Rank, SanMove, SanMoveDetail, SanMoveType, Square,
};

#[test]
fn test_basic() {
    assert_eq!(
        (MoveNumberIndication { number: 3 }, "ONEDIGIT"),
        MoveNumberIndication::parse("3.ONEDIGIT").unwrap()
    );
    assert_eq!(
        (MoveNumberIndication { number: 34 }, "TWODIGIT"),
        MoveNumberIndication::parse("34.TWODIGIT").unwrap()
    );
    assert_eq!(
        (MoveNumberIndication { number: 48 }, "MANYDOTS"),
        MoveNumberIndication::parse("48....MANYDOTS").unwrap()
    );
    assert_eq!(
        (MoveNumberIndication { number: 64 }, "NODOT"),
        MoveNumberIndication::parse("64NODOT").unwrap()
    );
}

#[test]
fn move_number_whitespace() {
    assert_eq!(
        (MoveNumberIndication { number: 56 }, " WITHSPACE"),
        MoveNumberIndication::parse("56.... WITHSPACE").unwrap()
    );
    assert_eq!(
        (MoveNumberIndication { number: 64 }, " NODOTWITHSPACE"),
        MoveNumberIndication::parse("64 NODOTWITHSPACE").unwrap()
    );
    assert_eq!(
        (MoveNumberIndication { number: 31 }, ""),
        MoveNumberIndication::parse("31 .").unwrap()
    );
    assert!(MoveNumberIndication::check_start("1."));
    assert!(!MoveNumberIndication::check_start("e4"));
    assert_eq!(
        MoveNumberIndication::parse("99999999999."),
        Err(PgnError::ParseIntError("move number indication"))
    );
    assert_eq!(
        MoveNumberIndication::parse("."),
        Err(PgnError::UnexpectedInput("move number indication", '.'))
    );
}

#[test]
fn game_termination_test_check_start() {
    assert!(GameTermination::check_start("1-0TAIL"));
    assert!(GameTermination::check_start("1/2-1/2TAIL"));
    assert!(GameTermination::check_start("0-1TAIL"));
    assert!(GameTermination::check_start("*TAIL"));

    assert!(GameTermination::check_start("1111"));

    assert!(!GameTermination::check_start("NOPE"));
}

#[test]
fn game_termination_test_parse() {
    assert_eq!(
        (GameTermination::WhiteWins, "TAIL"),
        GameTermination::parse("1-0TAIL").unwrap()
    );
    assert_eq!(
        (GameTermination::BlackWins, "TAIL"),
        GameTermination::parse("0-1TAIL").unwrap()
    );
    assert_eq!(
        (GameTermination::Tie, "TAIL"),
        GameTermination::parse("1/2-1/2TAIL").unwrap()
    );
    assert_eq!(
        (GameTermination::Unterminated, "TAIL"),
        GameTermination::parse("*TAIL").unwrap()
    );

    assert!(GameTermination::parse("INVALID").is_err());
}

#[test]
fn game_termination_errors() {
    assert_eq!(
        GameTermination::parse("INVALID"),
        Err(PgnError::UnexpectedInput("game termination", 'I'))
    );
    assert_eq!(
        GameTermination::parse(""),
        Err(PgnError::UnexpectedEOF("game termination"))
    );
}

fn element(s: &str) -> ElementP {
    ElementP::parse(s).unwrap().0
}

#[test]
fn test_element_prime() {
    assert_eq!(element("1-0"), ElementP::Termination(GameTermination::WhiteWins));
    assert_eq!(element("0-1"), ElementP::Termination(GameTermination::BlackWins));
    assert_eq!(element("1/2-1/2"), ElementP::Termination(GameTermination::Tie));

    assert_eq!(element("*"), ElementP::Termination(GameTermination::Unterminated));

    assert_eq!(element("1"), ElementP::MoveNumber(1));
    assert_eq!(element("2."), ElementP::MoveNumber(2));
    assert_eq!(element("23..."), ElementP::MoveNumber(23));
    assert_eq!(element("31 ."), ElementP::MoveNumber(31));
    assert_eq!(element("42 ..."), ElementP::MoveNumber(42));

    assert_eq!(element("e5"), ElementP::SanMove("e5".to_string()));

    assert_eq!(element("$32"), ElementP::NAG(32))
}

#[test]
fn elements_consume_whole_tokens() {
    for (text, expected) in [
        ("1-0", ElementP::Termination(GameTermination::WhiteWins)),
        ("0-1", ElementP::Termination(GameTermination::BlackWins)),
        ("1/2-1/2", ElementP::Termination(GameTermination::Tie)),
        ("*", ElementP::Termination(GameTermination::Unterminated)),
        ("1", ElementP::MoveNumber(1)),
        ("2.", ElementP::MoveNumber(2)),
        ("23...", ElementP::MoveNumber(23)),
        ("31 .", ElementP::MoveNumber(31)),
        ("42 ...", ElementP::MoveNumber(42)),
    ] {
        assert_eq!(ElementP::parse(text).unwrap(), (expected, ""));
    }
    assert_eq!(
        ElementP::parse("12 e4").unwrap(),
        (ElementP::MoveNumber(12), " e4")
    );
}

#[test]
fn test_bad_game_terminations() {
    // Bad game terminations are still valid symbols, so they are read as SanMove.
    for text in ["1-1", "0-0", "2-0", "2-1", "0-2", "1-2", "2-2"] {
        assert_eq!(
            ElementP::parse(text).unwrap(),
            (ElementP::SanMove(text.to_string()), "")
        );
    }
}

#[test]
fn test_element_suffix_matcher() {
    assert_eq!(
        ElementSuffix::parse("/2-1/2").0,
        ElementSuffix::Termination(GameTermination::Tie)
    );

    assert_eq!(
        ElementSuffix::parse("-0").0,
        ElementSuffix::Termination(GameTermination::WhiteWins)
    );
    assert_eq!(
        ElementSuffix::parse("-1").0,
        ElementSuffix::Termination(GameTermination::BlackWins)
    );

    assert_eq!(
        ElementSuffix::parse("-2").0,
        ElementSuffix::BadTermination("2".to_string())
    );
    assert_eq!(
        ElementSuffix::parse("-32").0,
        ElementSuffix::BadTermination("32".to_string())
    );

    assert_eq!(ElementSuffix::parse(".").0, ElementSuffix::MoveNumber);
    assert_eq!(ElementSuffix::parse("..").0, ElementSuffix::MoveNumber);
    assert_eq!(ElementSuffix::parse("....").0, ElementSuffix::MoveNumber);
    assert_eq!(ElementSuffix::parse("").0, ElementSuffix::MoveNumber);
}

#[test]
fn element_errors() {
    assert_eq!(ElementP::parse(""), Err(PgnError::UnexpectedEOF("element")));
    assert_eq!(ElementP::parse(")"), Err(PgnError::UnexpectedInput("element", ')')));
    assert_eq!(
        ElementP::parse("$"),
        Err(PgnError::UnexpectedEOF("numeric annotation glyph"))
    );
    assert_eq!(
        ElementP::parse("4294967296."),
        Err(PgnError::ParseIntError("move number indication"))
    );
}

#[test]
fn typed_elements() {
    assert_eq!(
        Element::parse("12. e4").unwrap(),
        (Element::MoveNumber(MoveNumberIndication { number: 12 }), " e4")
    );
    assert_eq!(
        Element::parse("Nf3+ Nc6").unwrap(),
        (
            Element::Move(SanMove {
                move_type: SanMoveType::Move(SanMoveDetail {
                    piece: Piece::Knight,
                    destination: Square {
                        rank: Rank(3),
                        file: File(6)
                    },
                    from_file: None,
                    from_rank: None,
                    capture: false,
                    promote: None
                }),
                check: Check::Check
            }),
            " Nc6"
        )
    );
    assert_eq!(
        Element::parse("$5").unwrap(),
        (Element::Annotation(NumericAnnotationGlyph { value: 5 }), "")
    );
    assert_eq!(Element::parse("("), Err(PgnError::UnexpectedInput("element", '(')));
    assert_eq!(Element::parse(""), Err(PgnError::UnexpectedEOF("element")));
    assert!(Element::check_start("O-O"));
    assert!(Element::check_start("7."));
    assert!(!Element::check_start("*"));
}

#[test]
fn terminations_compare_numbers_by_value() {
    assert_eq!(
        ElementP::parse("1-00").unwrap(),
        (ElementP::Termination(GameTermination::WhiteWins), "")
    );
    assert_eq!(
        ElementP::parse("00-1").unwrap(),
        (ElementP::Termination(GameTermination::BlackWins), "")
    );
    assert_eq!(
        ElementP::parse("01-000").unwrap(),
        (ElementP::Termination(GameTermination::WhiteWins), "")
    );
    assert_eq!(
        ElementP::parse("1-01").unwrap(),
        (ElementP::SanMove("1-01".to_string()), "")
    );
    assert_eq!(
        ElementSuffix::parse("-00").0,
        ElementSuffix::Termination(GameTermination::WhiteWins)
    );
    assert_eq!(
        ElementSuffix::parse("-99999999999").0,
        ElementSuffix::BadTermination("99999999999".to_string())
    );
}
