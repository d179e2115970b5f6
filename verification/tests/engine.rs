//! Validation, parsing robustness, ranking order, accumulation, boards, and
//! the text helpers.

use bingo::board::{weight_of, Variant};
use bingo::text::{key_fmt, normalize_color};
use bingo::{Bingo, Error, Guess, Key, Name, Normal, Row, Square};

fn row(num: u32, name: &str, guess: &str, starting_score: i32) -> Row {
    Row::new(
        num,
        Name::new(String::from(name), String::from("#aabbcc")),
        String::from(guess),
        starting_score,
    )
}

#[test]
fn rejects_short_guess_with_counts() {
    // 10 valid squares where Normal needs 12.
    let result = Normal::from_rows(&[row(1, "Ada", "YYNN PPYN YN", 0)]);
    match result {
        Err(Error::NotEnoughValidSquares { name, row, amount, needed }) => {
            assert_eq!("Ada", name);
            assert_eq!(1, row);
            assert_eq!(10, amount);
            assert_eq!(12, needed);
        },
        _ => panic!("a short guess must be rejected"),
    }
}

#[test]
fn rejects_long_guess() {
    let result = Normal::from_rows(&[row(3, "Ada", "YYYY NNNN PPPP Y", 7)]);
    match result {
        Err(Error::NotEnoughValidSquares { name, row, amount, needed }) => {
            assert_eq!("Ada", name);
            assert_eq!(3, row);
            assert_eq!(13, amount);
            assert_eq!(12, needed);
        },
        _ => panic!("an overlong guess must be rejected"),
    }
}

#[test]
fn rejects_duplicate_name_on_second_row() {
    let rows = [
        row(1, "Ada", "YYYY NNNN PPPP", 0),
        row(2, "Bo", "YYYY YYYY YYYY", 0),
        row(3, "Ada", "NNNN NNNN NNNN", 0),
    ];
    let result = Normal::from_rows(&rows);
    match result {
        Err(Error::DoubleGuesser { row, name }) => {
            assert_eq!(3, row);
            assert_eq!("Ada", name);
        },
        _ => panic!("a repeated name must be rejected"),
    }
}

#[test]
fn reports_first_offending_row_only() {
    // Row 2 is short and row 3 repeats a name: the batch fails on row 2.
    let rows = [
        row(1, "Ada", "YYYY NNNN PPPP", 0),
        row(2, "Bo", "YY", 0),
        row(3, "Ada", "NNNN NNNN NNNN", 0),
    ];
    let result = Normal::from_rows(&rows);
    match result {
        Err(Error::NotEnoughValidSquares { name, row, amount, needed }) => {
            assert_eq!("Bo", name);
            assert_eq!(2, row);
            assert_eq!(2, amount);
            assert_eq!(12, needed);
        },
        _ => panic!("validation must fail fast on the first offending row"),
    }
}

#[test]
fn parses_through_noise() {
    let noisy = Guess::parse("y Y\nn,N?\tp...P  ");
    let clean = Guess::parse("yYnNpP");
    assert_eq!(noisy.as_squares(), clean.as_squares());
    assert_eq!(
        vec![Square::Yes, Square::Yes, Square::No, Square::No, Square::Pass, Square::Pass],
        noisy.as_squares().to_vec()
    );
}

#[test]
fn key_ignores_pass_characters() {
    let key = Key::parse("ypnP");
    assert_eq!(vec![Square::Yes, Square::No], key.as_squares().to_vec());
}

#[test]
fn parses_empty_text_to_empty_sheet() {
    assert_eq!(0, Guess::parse("").len());
    assert_eq!(0, Key::parse(" , \n ").len());
}

#[test]
fn square_characters_fold_case() {
    assert_eq!(Square::Yes, Square::from_char('y'));
    assert_eq!(Square::Yes, Square::from_char('Y'));
    assert_eq!(Square::No, Square::from_char('n'));
    assert_eq!(Square::Pass, Square::from_char('P'));
}

#[test]
fn guess_prints_one_letter_per_square() {
    let guess = Guess::parse("y n p!Y");
    assert_eq!("YNPY", guess.text());
}

#[test]
fn ties_break_by_name_ascending() {
    let rows = [
        row(1, "Cleo", "YYYY YYYY YYYY", 0),
        row(2, "Ada", "YYYY YYYY YYYY", 0),
        row(3, "Bo", "NNNN NNNN NNNN", 0),
    ];
    let mut game = Bingo::normal(&rows).unwrap();
    game.play(&Key::parse("YYYY YYYY YYYY"));
    let players = game.players();
    assert_eq!("Ada", players[0].name);
    assert_eq!(450, players[0].score);
    assert_eq!("Cleo", players[1].name);
    assert_eq!(450, players[1].score);
    assert_eq!("Bo", players[2].name);
    assert_eq!(-450, players[2].score);
}

#[test]
fn ranking_is_reproducible() {
    let rows = [
        row(1, "Ada", "YYNN YYNN YYNN", 3),
        row(2, "Bo", "NNYY NNYY NNYY", -2),
        row(3, "Cleo", "PPPP PPPP PPPP", 0),
    ];
    let key = "YNYN YNYN YNYN";

    let mut first = Bingo::normal(&rows).unwrap();
    first.play(&Key::parse(key));
    let mut second = Bingo::normal(&rows).unwrap();
    second.play(&Key::parse(key));

    let a: Vec<(String, i32, u32)> =
        first.players().iter().map(|p| (p.name.clone(), p.score, p.row)).collect();
    let b: Vec<(String, i32, u32)> =
        second.players().iter().map(|p| (p.name.clone(), p.score, p.row)).collect();
    assert_eq!(a, b);
}

#[test]
fn scoring_accumulates_over_repeated_plays() {
    let rows = [row(1, "Ada", "YYYY YYYY YYYY", 100)];
    let mut game = Bingo::normal(&rows).unwrap();
    let key = Key::parse("YYYY YYYY YYYY");
    game.play(&key);
    assert_eq!(550, game.players()[0].score);
    game.play(&key);
    assert_eq!(1000, game.players()[0].score);
}

#[test]
fn starting_score_seeds_the_total() {
    let rows = [row(1, "Ada", "PPPP PPPP PPPP", 41)];
    let mut game = Bingo::normal(&rows).unwrap();
    game.play(&Key::parse("YYYY YYYY YYYY"));
    // Every square passed: the seed is the whole score.
    assert_eq!(41, game.players()[0].score);
}

#[test]
fn short_key_scores_only_its_positions() {
    // Only the first four squares have answers: 10 + 10 + 10 + 20.
    let rows = [row(1, "Ada", "YYYY YYYY YYYY", 0)];
    let mut game = Bingo::normal(&rows).unwrap();
    game.play(&Key::parse("YYYY"));
    assert_eq!(50, game.players()[0].score);
}

#[test]
fn normal_board_weights() {
    let expected: Vec<i32> = vec![10, 10, 10, 20, 30, 30, 30, 60, 50, 50, 50, 100];
    let actual: Vec<i32> = (0..12).map(|i| weight_of(Variant::Normal, i)).collect();
    assert_eq!(expected, actual);
}

#[test]
fn great_war_board_weights() {
    let mut actual: Vec<i32> = Vec::new();
    for i in 0..78 {
        actual.push(weight_of(Variant::GreatWar, i));
    }
    // First three grid rows cycle 15/30/50 with a shifting offset.
    assert_eq!(&[15, 30, 50, 15, 30, 50, 15, 30], &actual[0..8]);
    assert_eq!(&[50, 15, 30, 50, 15, 30, 50, 15], &actual[8..16]);
    assert_eq!(&[30, 50, 15, 30, 50, 15, 30, 50], &actual[16..24]);
    // The grid repeats every three rows.
    assert_eq!(&actual[0..24], &actual[24..48]);
    assert_eq!(&actual[0..16], &actual[48..64]);
    // Fourteen flat bonus squares.
    assert!(actual[64..78].iter().all(|w| *w == 70));
    let total: i32 = actual.iter().sum();
    assert_eq!(2990, total);
}

#[test]
fn key_fmt_uppercases_and_unfolds_lines() {
    assert_eq!("YNYN ABC?", key_fmt("ynYn\nabC?"));
    assert_eq!("", key_fmt(""));
}

#[test]
fn normalize_color_cases() {
    assert_eq!("#f2f3f5", normalize_color("000000"));
    assert_eq!("#ff8800", normalize_color("ff8800"));
    assert_eq!("#123456", normalize_color("FF123456"));
    assert_eq!("#f2f3f5", normalize_color("x"));
    assert_eq!("#f2f3f5", normalize_color(""));
}

#[test]
fn html_lists_players_in_rank_order() {
    let rows = [row(1, "Ada", "YYYY YYYY YYYY", 0), row(2, "Bo", "NNNN NNNN NNNN", 0)];
    let mut game = Bingo::normal(&rows).unwrap();
    game.play(&Key::parse("YYYY YYYY YYYY"));
    let html = game.save_html();
    assert!(html.starts_with("<!DOCTYPE html>"));
    assert!(html.ends_with("</html>"));
    let ada = html.find("Ada").unwrap();
    let bo = html.find("Bo").unwrap();
    assert!(ada < bo);
    assert!(html.contains("color: #aabbcc"));
    assert!(html.contains(">450<"));
    assert!(html.contains(">-450<"));
}

#[test]
fn bingo_rejects_like_its_variant() {
    let result = Bingo::great_war(&[row(1, "Ada", "Y", 0)]);
    match result {
        Err(Error::NotEnoughValidSquares { amount, needed, .. }) => {
            assert_eq!(1, amount);
            assert_eq!(78, needed);
        },
        _ => panic!("a GreatWar pool needs 78 squares"),
    }
    let result = Bingo::great_war(&[
        row(1, "Ada", &"Y".repeat(78), 0),
        row(2, "Ada", &"N".repeat(78), 0),
    ]);
    match result {
        Err(Error::DoubleGuesser { row, name }) => {
            assert_eq!(2, row);
            assert_eq!("Ada", name);
        },
        _ => panic!("a repeated name must be rejected"),
    }
}
