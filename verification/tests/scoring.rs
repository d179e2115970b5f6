//! Row-by-row scoring of the GreatWar board against a fixed fixture.

use bingo::score::{
    score, score_bonus, score_row_eight, score_row_five, score_row_four, score_row_one,
    score_row_seven, score_row_six, score_row_three, score_row_two,
};
use bingo::{Guess, Key};

const GUESS: &str = r"
Y Y N Y N N N Y
Y Y Y N Y Y Y N
Y N Y N N Y Y N
N Y Y Y Y N N Y
N Y N Y Y N Y Y
Y N Y Y N Y Y N
N Y N Y Y Y Y N
Y Y Y N Y N Y Y

Y Y Y Y N Y Y
Y N N N N N N";

const KEY: &str = r"
Y Y N Y N N N Y
Y Y Y N Y Y Y N
Y N Y N N Y Y N
N Y Y Y Y N N Y
N Y N Y Y N Y Y
Y N Y Y N Y Y N
N Y N Y Y Y Y N
Y Y Y N Y N Y Y

Y Y Y Y N Y Y
Y N N N N N N";

#[test]
fn should_get_full_score() {
    let key = Key::parse(KEY);
    let guess = Guess::parse(GUESS);

    let score = score(key.as_squares(), guess.as_squares());

    assert_eq!(2990, score);
}

#[test]
fn should_score_row_one() {
    let key = Key::parse(KEY);
    let guess = Guess::parse(GUESS);
    let score = score_row_one(key.as_squares(), guess.as_squares());

    assert_eq!(235, score);
}

#[test]
fn should_score_row_two() {
    let key = Key::parse(KEY);
    let guess = Guess::parse(GUESS);
    let score = score_row_two(key.as_squares(), guess.as_squares());

    assert_eq!(255, score);
}

#[test]
fn should_score_row_three() {
    let key = Key::parse(KEY);
    let guess = Guess::parse(GUESS);
    let score = score_row_three(key.as_squares(), guess.as_squares());

    assert_eq!(270, score);
}

#[test]
fn should_score_row_four() {
    let key = Key::parse(KEY);
    let guess = Guess::parse(GUESS);
    let score = score_row_four(key.as_squares(), guess.as_squares());

    assert_eq!(235, score);
}

#[test]
fn should_score_row_five() {
    let key = Key::parse(KEY);
    let guess = Guess::parse(GUESS);
    let score = score_row_five(key.as_squares(), guess.as_squares());

    assert_eq!(255, score);
}

#[test]
fn should_score_row_six() {
    let key = Key::parse(KEY);
    let guess = Guess::parse(GUESS);
    let score = score_row_six(key.as_squares(), guess.as_squares());

    assert_eq!(270, score);
}

#[test]
fn should_score_row_seven() {
    let key = Key::parse(KEY);
    let guess = Guess::parse(GUESS);
    let score = score_row_seven(key.as_squares(), guess.as_squares());

    assert_eq!(235, score);
}

#[test]
fn should_score_row_eight() {
    let key = Key::parse(KEY);
    let guess = Guess::parse(GUESS);
    let score = score_row_eight(key.as_squares(), guess.as_squares());

    assert_eq!(255, score);
}

#[test]
fn should_score_row_bonus() {
    let key = Key::parse(KEY);
    let guess = Guess::parse(GUESS);
    let score = score_bonus(key.as_squares(), guess.as_squares());

    assert_eq!(980, score);
}
