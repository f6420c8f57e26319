use pgntool::{
    Capture, Check, Disambiguation, File, Piece, PieceSpec, PgnError, Promotion, Rank, SanMove,
    SanMoveDetail, SanMoveType, Square,
};
use std::convert::TryFrom;

fn square(file: char, rank: char) -> Square {
    Square {
        rank: Rank::try_from(rank).unwrap(),
        file: File::try_from(file).unwrap(),
    }
}

#[test]
fn capture_test_start() {
    assert!(Capture::check_start("x"));
    assert!(!Capture::check_start(" x"));
}

#[test]
fn capture_test_parse() {
    assert_eq!((Capture, "TAIL"), Capture::parse("xTAIL").unwrap());
    assert_eq!((Capture, " SPACE"), Capture::parse("x SPACE").unwrap());
}

#[test]
fn check_test_start() {
    assert!(Check::check_start("+"));
    assert!(Check::check_start("#"));
    assert!(!Check::check_start("$"));
    assert!(!Check::check_start("Z"));
    assert!(!Check::check_start(""));
}

#[test]
fn check_test_parse() {
    assert_eq!((Check::Check, "TAIL"), Check::parse("+TAIL").unwrap());
    assert_eq!((Check::Mate, " SPACE"), Check::parse("# SPACE").unwrap());
}

#[test]
fn check_errors() {
    assert_eq!(Check::parse(""), Err(PgnError::UnexpectedEOF("check")));
    assert_eq!(Check::parse("!"), Err(PgnError::UnexpectedInput("check", '!')));
}

#[test]
fn disambiguation_test_start() {
    assert!(Disambiguation::check_start("a"));
    assert!(Disambiguation::check_start("8"));
    assert!(Disambiguation::check_start("a8"));

    assert!(!Disambiguation::check_start("t"));
    assert!(!Disambiguation::check_start("9"));
}

#[test]
fn disambiguation_test_parse() {
    assert_eq!(
        (Disambiguation::FileLetter(File::try_from('a').unwrap()), "xTAIL"),
        Disambiguation::parse("axTAIL").unwrap()
    );
    assert_eq!(
        (Disambiguation::FileLetter(File::try_from('d').unwrap()), "x SPACE"),
        Disambiguation::parse("dx SPACE").unwrap()
    );

    assert_eq!(
        (Disambiguation::RankNumber(Rank::try_from('8').unwrap()), "xTAIL"),
        Disambiguation::parse("8xTAIL").unwrap()
    );
    assert_eq!(
        (Disambiguation::RankNumber(Rank::try_from('1').unwrap()), "x SPACE"),
        Disambiguation::parse("1x SPACE").unwrap()
    );

    assert_eq!(
        (Disambiguation::SquareCoord(square('a', '8')), "xTAIL"),
        Disambiguation::parse("a8xTAIL").unwrap()
    );
    assert_eq!(
        (Disambiguation::SquareCoord(square('c', '6')), "x SPACE"),
        Disambiguation::parse("c6x SPACE").unwrap()
    );
}

#[test]
fn disambiguation_follow_set() {
    // A square with nothing after it is the destination, not a disambiguation.
    assert_eq!(
        Disambiguation::parse("e5"),
        Err(PgnError::UnmatchedFollowSet("disambiguation"))
    );
    assert_eq!(
        Disambiguation::parse("h+"),
        Err(PgnError::UnmatchedFollowSet("disambiguation"))
    );
    assert_eq!(
        Disambiguation::parse("Q"),
        Err(PgnError::UnexpectedInput("disambiguation", 'Q'))
    );
    assert!(Disambiguation::check_follow("xe5").is_ok());
    assert!(Disambiguation::check_follow("e5").is_ok());
    assert_eq!(
        Disambiguation::check_follow("+"),
        Err(PgnError::UnmatchedFollowSet("disambiguation"))
    );
    assert!(Disambiguation::check_follow("").is_err());
}

#[test]
fn disambiguation_file_and_rank() {
    let sq = Disambiguation::SquareCoord(square('b', '4'));
    assert_eq!(sq.file(), Some(File(2)));
    assert_eq!(sq.rank(), Some(Rank(4)));
    let f = Disambiguation::FileLetter(File(8));
    assert_eq!(f.file(), Some(File(8)));
    assert_eq!(f.rank(), None);
    let r = Disambiguation::RankNumber(Rank(3));
    assert_eq!(r.file(), None);
    assert_eq!(r.rank(), Some(Rank(3)));
    assert_eq!(Disambiguation::Absent.file(), None);
    assert_eq!(Disambiguation::Absent.rank(), None);
}

#[test]
fn file_test_start() {
    assert!(File::check_start("a"));
    assert!(File::check_start("h"));
    assert!(!File::check_start(" "));
    assert!(!File::check_start("i"));
}

#[test]
fn file_test_parse() {
    assert_eq!((File::try_from('a').unwrap(), "TAIL"), File::parse("aTAIL").unwrap());
    assert_eq!((File::try_from('h').unwrap(), " SPACE"), File::parse("h SPACE").unwrap());
}

#[test]
fn file_and_rank_values() {
    assert_eq!(File::try_from('a'), Ok(File(1)));
    assert_eq!(File::try_from('h'), Ok(File(8)));
    assert_eq!(File::try_from('i'), Err(PgnError::UnexpectedInput("file", 'i')));
    assert_eq!(Rank::try_from('1'), Ok(Rank(1)));
    assert_eq!(Rank::try_from('8'), Ok(Rank(8)));
    assert_eq!(Rank::try_from('9'), Err(PgnError::UnexpectedInput("rank", '9')));
    assert_eq!(File(3).to_char(), 'c');
}

#[test]
fn rank_test_start() {
    assert!(Rank::check_start("1"));
    assert!(Rank::check_start("8"));
    assert!(!Rank::check_start("0"));
    assert!(!Rank::check_start("9"));
}

#[test]
fn rank_test_parse() {
    assert_eq!((Rank::try_from('1').unwrap(), "TAIL"), Rank::parse("1TAIL").unwrap());
    assert_eq!((Rank::try_from('8').unwrap(), " SPACE"), Rank::parse("8 SPACE").unwrap());
}

#[test]
fn square_test_start() {
    assert!(Square::check_start("a8"));
    assert!(Square::check_start("h2"));
    assert!(!Square::check_start("z8"));
    assert!(!Square::check_start("8"));
}

#[test]
fn square_test_parse() {
    assert_eq!((square('a', '8'), "TAIL"), Square::parse("a8TAIL").unwrap());
    assert_eq!((square('h', '1'), " SPACE"), Square::parse("h1 SPACE").unwrap());
    assert_eq!((square('c', '6'), ""), Square::parse("c6").unwrap());

    assert!(Square::parse("aTAIL").is_err());
}

#[test]
fn piece_test_start() {
    assert!(Piece::check_start("K"));
    assert!(Piece::check_start("Q"));
    assert!(Piece::check_start("N"));
    assert!(Piece::check_start("B"));
    assert!(Piece::check_start("R"));
    assert!(Piece::check_start("P"));
    assert!(!Piece::check_start("S"));
    assert!(!Piece::check_start("Z"));
}

#[test]
fn piece_test_parse() {
    assert_eq!((Piece::King, "TAIL"), Piece::parse("KTAIL").unwrap());
    assert_eq!((Piece::Queen, "TAIL"), Piece::parse("QTAIL").unwrap());
    assert_eq!((Piece::Rook, "TAIL"), Piece::parse("RTAIL").unwrap());
    assert_eq!((Piece::Bishop, "TAIL"), Piece::parse("BTAIL").unwrap());
    assert_eq!((Piece::Knight, "TAIL"), Piece::parse("NTAIL").unwrap());
    assert_eq!((Piece::Pawn, " SPACE"), Piece::parse("P SPACE").unwrap());
}

#[test]
fn piecespec_test_start() {
    assert!(PieceSpec::check_start("Qa6"));
    assert!(PieceSpec::check_start("a6"));
    assert!(PieceSpec::check_start("7xb5"));
    assert!(!PieceSpec::check_start("xb5"));
    assert!(!PieceSpec::check_start("O-O"));
}

#[test]
fn piecespec_parse() {
    assert_eq!(PieceSpec::parse("a6"), (PieceSpec::pawn(), "a6"));
    assert_eq!(
        PieceSpec::parse("Qa6"),
        (
            PieceSpec {
                piece: Piece::Queen,
                disambiguation: Disambiguation::Absent
            },
            "a6"
        )
    );
    assert_eq!(
        PieceSpec::parse("Naxc8"),
        (
            PieceSpec {
                piece: Piece::Knight,
                disambiguation: Disambiguation::FileLetter(File(1))
            },
            "xc8"
        )
    );
    assert_eq!(
        PieceSpec::parse("N7xb5"),
        (
            PieceSpec {
                piece: Piece::Knight,
                disambiguation: Disambiguation::RankNumber(Rank(7))
            },
            "xb5"
        )
    );
    assert_eq!(
        PieceSpec::pawn(),
        PieceSpec {
            piece: Piece::Pawn,
            disambiguation: Disambiguation::Absent
        }
    );
}

#[test]
fn promotion_parse() {
    assert!(Promotion::check_start("=Q"));
    assert_eq!(Promotion::parse("=QTAIL"), Ok((Promotion(Piece::Queen), "TAIL")));
    assert_eq!(Promotion::parse("=X"), Err(PgnError::UnexpectedInput("promotion", 'X')));
    assert_eq!(Promotion::parse("="), Err(PgnError::UnexpectedEOF("promotion")));
}

#[test]
fn test_size() {
    assert_eq!(10, std::mem::size_of::<SanMove>());
    assert_eq!(1, std::mem::size_of::<Piece>());
    assert_eq!(1, std::mem::size_of::<Rank>());
    assert_eq!(1, std::mem::size_of::<File>());
    assert_eq!(2, std::mem::size_of::<Square>());
    assert_eq!(1, std::mem::size_of::<Check>());
}

fn ordinary(
    piece: Piece,
    destination: Square,
    from_file: Option<File>,
    from_rank: Option<Rank>,
    capture: bool,
    promote: Option<Piece>,
    check: Check,
) -> SanMove {
    SanMove {
        move_type: SanMoveType::Move(SanMoveDetail {
            piece,
            destination,
            from_file,
            from_rank,
            capture,
            promote,
        }),
        check,
    }
}

#[test]
fn test_simple() {
    assert_eq!(
        (
            ordinary(Piece::Queen, square('g', '4'), None, None, false, None, Check::NoCheck),
            "TAIL"
        ),
        SanMove::parse("Qg4TAIL").unwrap()
    );
    assert_eq!(
        (
            ordinary(Piece::Pawn, square('e', '5'), None, None, false, None, Check::NoCheck),
            " SPACE"
        ),
        SanMove::parse("e5 SPACE").unwrap()
    );
}

#[test]
fn test_capture() {
    assert_eq!(
        (
            ordinary(
                Piece::Pawn,
                square('e', '5'),
                Some(File::try_from('d').unwrap()),
                None,
                true,
                None,
                Check::NoCheck
            ),
            "TAIL"
        ),
        SanMove::parse("dxe5TAIL").unwrap()
    );
    assert_eq!(
        (
            ordinary(Piece::Queen, square('f', '6'), None, None, true, None, Check::NoCheck),
            " SPACE"
        ),
        SanMove::parse("Qxf6 SPACE").unwrap()
    );
}

#[test]
fn test_checks() {
    assert_eq!(
        (
            ordinary(Piece::Queen, square('f', '6'), None, None, false, None, Check::Check),
            "TAIL"
        ),
        SanMove::parse("Qf6+TAIL").unwrap()
    );
    assert_eq!(
        (
            ordinary(Piece::Knight, square('d', '7'), None, None, false, None, Check::Mate),
            " SPACE"
        ),
        SanMove::parse("Nd7# SPACE").unwrap()
    );
}

#[test]
fn test_disambiguate() {
    assert_eq!(
        (
            ordinary(
                Piece::Rook,
                square('e', '8'),
                File::try_from('h').ok(),
                None,
                false,
                None,
                Check::NoCheck
            ),
            ""
        ),
        SanMove::parse("Rhe8").unwrap()
    );
    assert_eq!(
        (
            ordinary(
                Piece::Knight,
                square('e', '1'),
                None,
                Rank::try_from('3').ok(),
                false,
                None,
                Check::NoCheck
            ),
            ""
        ),
        SanMove::parse("N3e1").unwrap()
    );
    assert_eq!(
        (
            ordinary(
                Piece::Bishop,
                square('c', '5'),
                File::try_from('a').ok(),
                Rank::try_from('3').ok(),
                false,
                None,
                Check::NoCheck
            ),
            ""
        ),
        SanMove::parse("Ba3c5").unwrap()
    );
}

#[test]
fn test_castle() {
    assert_eq!(
        (
            SanMove {
                move_type: SanMoveType::LongCastle,
                check: Check::NoCheck
            },
            "TAIL"
        ),
        SanMove::parse("O-O-OTAIL").unwrap()
    );
    assert_eq!(
        (
            SanMove {
                move_type: SanMoveType::ShortCastle,
                check: Check::NoCheck
            },
            " SPACE"
        ),
        SanMove::parse("O-O SPACE").unwrap()
    );

    assert_eq!(
        (
            SanMove {
                move_type: SanMoveType::LongCastle,
                check: Check::Check
            },
            ""
        ),
        SanMove::parse("O-O-O+").unwrap()
    );
    assert_eq!(
        (
            SanMove {
                move_type: SanMoveType::ShortCastle,
                check: Check::Mate
            },
            ""
        ),
        SanMove::parse("O-O#").unwrap()
    );
}

#[test]
fn long_castle_is_not_short_castle() {
    assert_eq!(
        SanMove::parse("O-O-O").unwrap(),
        (
            SanMove {
                move_type: SanMoveType::LongCastle,
                check: Check::NoCheck
            },
            ""
        )
    );
}

#[test]
fn test_promotion() {
    assert_eq!(
        (
            ordinary(
                Piece::Pawn,
                square('g', '8'),
                None,
                None,
                false,
                Some(Piece::Queen),
                Check::NoCheck
            ),
            ""
        ),
        SanMove::parse("g8=Q").unwrap()
    );
    assert_eq!(
        (
            ordinary(
                Piece::Pawn,
                square('e', '1'),
                File::try_from('d').ok(),
                None,
                true,
                Some(Piece::Knight),
                Check::NoCheck
            ),
            ""
        ),
        SanMove::parse("dxe1=N").unwrap()
    );
}

#[test]
fn complex_moves() {
    assert_eq!(
        SanMove::parse("Qa6xb7#").unwrap(),
        (
            ordinary(
                Piece::Queen,
                square('b', '7'),
                Some(File(1)),
                Some(Rank(6)),
                true,
                None,
                Check::Mate
            ),
            ""
        )
    );
    assert_eq!(
        SanMove::parse("fxg1=Q+").unwrap(),
        (
            ordinary(
                Piece::Pawn,
                square('g', '1'),
                Some(File(6)),
                None,
                true,
                Some(Piece::Queen),
                Check::Check
            ),
            ""
        )
    );
}

#[test]
fn every_square_alone_is_a_pawn_move() {
    for f in 'a'..='h' {
        for r in '1'..='8' {
            let text = format!("{}{}", f, r);
            assert_eq!(
                SanMove::parse(&text).unwrap(),
                (
                    ordinary(Piece::Pawn, square(f, r), None, None, false, None, Check::NoCheck),
                    ""
                )
            );
        }
    }
}

#[test]
fn san_move_errors() {
    assert_eq!(SanMove::parse("Q"), Err(PgnError::UnexpectedEOF("destination square")));
    assert_eq!(
        SanMove::parse("Qz4"),
        Err(PgnError::UnexpectedInput("destination square", 'z'))
    );
    assert_eq!(SanMove::parse("Qe"), Err(PgnError::UnexpectedEOF("rank")));
    assert_eq!(SanMove::parse("e8=Z"), Err(PgnError::UnexpectedInput("promotion", 'Z')));
    assert!(SanMove::check_start("O-O"));
    assert!(SanMove::check_start("xe5"));
    assert!(!SanMove::check_start("$1"));
}
