use pgntool::{
    parse_pgn, ElementP, GameTermination, PgnDatabase, PgnError, PgnGame, SequenceMember,
    TagPair, TagSection,
};

const GAME_TEXT: &str = r#"[EndDate "2021.09.21"]
[Termination "VitaminG won by resignation"]

1. e4 c6 2. d4 d5 3. Nc3 dxe4 4. Nxe4 Nf6"#;

#[test]
fn test_tag_pair() {
    let (pair, tail) = TagPair::parse(r#"[Tag-Name "Tag Value"]TAIL"#).unwrap();
    assert_eq!("TAIL", tail);
    assert_eq!("Tag-Name", pair.name);
    assert_eq!("Tag Value", pair.value);

    let (pair, tail) = TagPair::parse(r#"[Escaped "Has a \\ and a \"."]TAIL"#).unwrap();
    assert_eq!("TAIL", tail);
    assert_eq!("Escaped", pair.name);
    assert_eq!(r#"Has a \ and a "."#, pair.value);
}

#[test]
fn test_tag_pairs() {
    assert_eq!(
        TagPair::parse(r#"[Name "Bobby"]"#).unwrap().0,
        TagPair {
            name: "Name".to_string(),
            value: "Bobby".to_string()
        }
    );
    assert_eq!(
        TagPair::parse(r#"[ Dogfood "Alpo" ]"#).unwrap().0,
        TagPair {
            name: "Dogfood".to_string(),
            value: "Alpo".to_string()
        }
    );
}

#[test]
fn tag_pair_errors() {
    assert!(TagPair::check_start("[A \"b\"]"));
    assert_eq!(TagPair::parse("A"), Err(PgnError::UnexpectedInput("tag pair", 'A')));
    assert_eq!(TagPair::parse("[A \"b\""), Err(PgnError::UnexpectedEOF("tag pair")));
    assert_eq!(TagPair::parse("[\"b\"]"), Err(PgnError::UnexpectedInput("symbol", '"')));
}

#[test]
fn test_empty_tag_section() {
    assert_eq!(TagSection::parse("").unwrap().0, TagSection { pairs: vec![] });
    assert_eq!(TagSection::empty(), TagSection { pairs: vec![] });
}

#[test]
fn test_tag_section() {
    let (section, tail) = TagSection::parse(
        r#"
        [Name "Bobby"]
        [ Place "Georgia" ]
        [Show "Breaking Bad"   ]
        "#
        .trim(),
    )
    .unwrap();
    assert_eq!(
        section,
        TagSection {
            pairs: vec![
                TagPair {
                    name: "Name".to_string(),
                    value: "Bobby".to_string()
                },
                TagPair {
                    name: "Place".to_string(),
                    value: "Georgia".to_string()
                },
                TagPair {
                    name: "Show".to_string(),
                    value: "Breaking Bad".to_string()
                },
            ]
        }
    );
    assert_eq!(tail, "");
    assert_eq!(section.pairs().len(), 3);
}

#[test]
fn test_database_matcher() {
    let (database, tail) = PgnDatabase::parse(GAME_TEXT);
    assert_eq!(database.games.len(), 1);
    assert_eq!(tail, "");
}

#[test]
fn test_game_matcher() {
    let (game, tail) = PgnGame::parse(GAME_TEXT).unwrap();
    assert_eq!(game.tag_section.pairs.len(), 2);
    assert_eq!(tail, "");
}

#[test]
fn test_empty_game() {
    assert!(PgnGame::parse("").is_err());
    assert_eq!(PgnGame::parse(""), Err(PgnError::EmptyGame));
    assert_eq!(PgnGame::parse("1-0"), Err(PgnError::EmptyGame));
}

#[test]
fn empty_input_is_an_empty_database() {
    assert_eq!(parse_pgn("").unwrap(), PgnDatabase { games: vec![] });
    assert_eq!(parse_pgn("   \n ").unwrap().games.len(), 0);
}

#[test]
fn sample_game_end_to_end() {
    let text = "[EndDate \"2021.09.21\"]\n\n1. e4 c6 2. d4 d5 3. Nc3 dxe4 4. Nxe4 Nf6";
    let database = parse_pgn(text).unwrap();
    assert_eq!(database.games.len(), 1);
    let game = &database.games[0];
    assert_eq!(
        game.tag_section.pairs,
        vec![TagPair {
            name: "EndDate".to_string(),
            value: "2021.09.21".to_string()
        }]
    );
    let movetext = &game.movetext_section;
    assert_eq!(movetext.termination, GameTermination::Unterminated);
    let members = &movetext.sequence.members;
    assert_eq!(members.len(), 12);
    let moves: Vec<&str> = members
        .iter()
        .filter_map(|m| match m {
            SequenceMember::Elem(ElementP::SanMove(s)) => Some(s.as_str()),
            _ => None,
        })
        .collect();
    assert_eq!(
        moves,
        vec!["e4", "c6", "d4", "d5", "Nc3", "dxe4", "Nxe4", "Nf6"]
    );
}

#[test]
fn database_of_several_games_stops_at_bad_text() {
    let text = "[A \"1\"] 1. e4 1-0\n\n[B \"2\"] 1. d4 0-1\n) trailing";
    let (database, tail) = PgnDatabase::parse(text);
    assert_eq!(database.games.len(), 2);
    assert_eq!(
        database.games[0].movetext_section.termination,
        GameTermination::WhiteWins
    );
    assert_eq!(
        database.games[1].movetext_section.termination,
        GameTermination::BlackWins
    );
    assert_eq!(tail, ") trailing");
    assert_eq!(parse_pgn(text).unwrap(), database);
}

#[test]
fn malformed_game_is_reported() {
    assert_eq!(
        PgnGame::parse("[A \"1\"] 1. e4 $ 1-0"),
        Err(PgnError::UnexpectedInput("numeric annotation glyph", ' '))
    );
    assert_eq!(
        TagSection::parse("[A \"1\"] [B 2]"),
        Err(PgnError::UnexpectedInput("string", '2'))
    );
    assert_eq!(
        PgnGame::parse("[A \"1\"] [B 2] 1. e4"),
        Err(PgnError::UnexpectedInput("string", '2'))
    );
    // The database keeps the games before a malformed one and stops there.
    let text = "[A \"1\"] 1. e4 1-0\n\n[B \"2\"] 1. d4 (d5 0-1";
    let (database, tail) = PgnDatabase::parse(text);
    assert_eq!(database.games.len(), 1);
    assert_eq!(tail, "[B \"2\"] 1. d4 (d5 0-1");
}
