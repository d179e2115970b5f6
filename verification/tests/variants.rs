//! Full plays of each variant: build the players from rows, apply a key,
//! and read the ranked scores.

use bingo::{GreatWar, Key, Name, Normal, Row};

const GUESS: &str = "
Y Y N Y N N N Y
Y Y Y N Y Y Y N
Y N Y N N Y Y N
N Y Y Y Y N N Y
N Y N Y Y N Y Y
Y N Y Y N Y Y N
N Y N Y Y Y Y N
Y Y Y N Y N Y Y

Y Y Y Y N Y Y
Y N N N N N N";

const KEY: &str = "
Y Y N Y N N N Y
Y Y Y N Y Y Y N
Y N Y N N Y Y N
N Y Y Y Y N N Y
N Y N Y Y N Y Y
Y N Y Y N Y Y N
N Y N Y Y Y Y N
Y Y Y N Y N Y Y

Y Y Y Y N Y Y
Y N N N N N N";

#[test]
fn should_score_2990() {
    let mut game = GreatWar::from_rows(&[Row::new(
        1,
        Name::new(String::from("Rolo"), String::from("#000000")),
        String::from(GUESS),
        0,
    )])
    .unwrap();

    let key = Key::parse(KEY);

    game.play(&key);

    let player = &game.players()[0];

    assert_eq!(2990, player.score);
}

#[test]
fn should_score_neg_2990() {
    let guess: String = GUESS
        .chars()
        .filter(|char| !char.is_ascii_whitespace())
        .map(|char| if char == 'Y' { 'N' } else { 'Y' })
        .collect();

    let mut game = GreatWar::from_rows(&[Row::new(
        1,
        Name::new(String::from("Rolo"), String::from("#000000")),
        guess,
        0,
    )])
    .unwrap();

    let key = Key::parse(KEY);

    game.play(&key);

    let player = &game.players()[0];

    assert_eq!(-2990, player.score);
}

#[test]
fn should_score_max() {
    let mut game = GreatWar::from_rows(&[Row::new(
        1,
        Name::new(String::from("Rolo"), String::from("#000000")),
        "Y".repeat(78),
        450,
    )])
    .unwrap();

    let key = Key::parse(&"Y".repeat(78));

    game.play(&key);

    let player = &game.players()[0];

    assert_eq!(3440, player.score);
}

#[test]
fn should_score_min() {
    let mut game = GreatWar::from_rows(&[Row::new(
        1,
        Name::new(String::from("Rolo"), String::from("#000000")),
        "N".repeat(78),
        -450,
    )])
    .unwrap();

    let key = Key::parse(&"Y".repeat(78));

    game.play(&key);

    let player = &game.players()[0];

    assert_eq!(-3440, player.score);
}

#[test]
fn should_score_450() {
    let mut game = Normal::from_rows(&[Row::new(
        1,
        Name::new(String::from("Rolo"), String::from("#000000")),
        String::from("YYYY YYYY YYYY"),
        0,
    )])
    .unwrap();

    let key = Key::parse("YYYY YYYY YYYY");

    game.play(&key);

    let player = &game.players()[0];

    assert_eq!(450, player.score);
}

#[test]
fn should_score_neg_450() {
    let mut game = Normal::from_rows(&[Row::new(
        1,
        Name::new(String::from("Rolo"), String::from("#000000")),
        String::from("NNNN NNNN NNNN"),
        0,
    )])
    .unwrap();

    let key = Key::parse("YYYY YYYY YYYY");

    game.play(&key);

    let player = &game.players()[0];

    assert_eq!(-450, player.score);
}

#[test]
fn should_score_with_passes() {
    let mut game = Normal::from_rows(&[Row::new(
        1,
        Name::new(String::from("Rolo"), String::from("#000000")),
        String::from("YYYP YYYP YYYP"),
        0,
    )])
    .unwrap();

    let key = Key::parse("YYYY YYYY YYYY");

    game.play(&key);

    let player = &game.players()[0];

    assert_eq!(270, player.score);
}
