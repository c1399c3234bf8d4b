use typing_trainer::exercise;
use typing_trainer::format::{color_text, colorize, SequenceFormat, TypingFormat};
use typing_trainer::game::{exercise_step, play_area, wait_separator, Pause, Status};
use typing_trainer::positioning::Window;
use typing_trainer::sequence::TypingSequence;
use typing_trainer::training::Keystroke;
use typing_trainer::typing;
use typing_trainer::typing::key::{Key, Status as KeyStatus};
use typing_trainer::typing::{keys_of, Typing};
use typing_trainer::word::Word;

fn key(code: char, status: KeyStatus) -> Key {
    Key { code, status }
}

#[test]
fn a_new_sentence_has_fresh_keys() {
    let t = Typing::new("ab".to_string());
    assert_eq!(t.raw, "ab");
    assert_eq!(t.current, 0);
    assert_eq!(
        t.sentence,
        vec![key('a', KeyStatus::Unvalidated), key('b', KeyStatus::Unvalidated)]
    );
    let u = typing::new("ab");
    assert_eq!(u.sentence, t.sentence);
    assert_eq!(u.raw, "ab");
    assert_eq!(keys_of(""), vec![]);
}

#[test]
fn reset_starts_over() {
    let mut t = Typing::new("ab".to_string());
    t.pass();
    t.forward();
    t.reset("xyz".to_string());
    assert_eq!(t.raw, "xyz");
    assert_eq!(t.current, 0);
    assert_eq!(t.sentence.len(), 3);
    assert_eq!(t.sentence[2], key('z', KeyStatus::Unvalidated));
}

#[test]
fn pass_miss_and_forward() {
    let mut t = Typing::new("ab".to_string());
    assert_eq!(t.curr_ref(), Some(&key('a', KeyStatus::Unvalidated)));
    t.miss();
    assert_eq!(t.curr_ref(), Some(&key('a', KeyStatus::Missed)));
    assert_eq!(t.current, 0);
    t.pass();
    assert_eq!(t.curr_ref(), Some(&key('a', KeyStatus::Passed)));
    t.forward();
    assert_eq!(t.current, 1);
    assert_eq!(t.curr_ref(), Some(&key('b', KeyStatus::Unvalidated)));
    assert!(!t.is_completed());
    t.forward();
    assert_eq!(t.curr_ref(), None);
    assert!(t.is_completed());
}

#[test]
fn forward_moves_by_the_width_of_the_key() {
    let mut t = Typing::new("\u{1F600}a".to_string());
    t.forward();
    assert_eq!(t.current, 2);
    let mut t = Typing::new("\u{e9}a".to_string());
    t.forward();
    assert_eq!(t.current, 1);
}

#[test]
fn steps_of_an_exercise() {
    let mut t = Typing::new("ab".to_string());
    assert_eq!(exercise_step(&mut t, &Keystroke::Other), None);
    assert_eq!(t.sentence[0].status, KeyStatus::Unvalidated);
    assert_eq!(exercise_step(&mut t, &Keystroke::Char('x')), None);
    assert_eq!(t.sentence[0].status, KeyStatus::Missed);
    assert_eq!(t.current, 0);
    assert_eq!(exercise_step(&mut t, &Keystroke::Char('a')), None);
    assert_eq!(t.sentence[0].status, KeyStatus::Passed);
    assert_eq!(t.current, 1);
    assert_eq!(exercise_step(&mut t, &Keystroke::Esc), Some(Status::Aborted));
    assert_eq!(t.current, 1);
    assert_eq!(t.sentence[1].status, KeyStatus::Unvalidated);
    assert_eq!(exercise_step(&mut t, &Keystroke::Char('b')), Some(Status::Completed));
    assert_eq!(t.sentence[1].status, KeyStatus::Passed);
    assert_eq!(t.current, 2);
}

#[test]
fn waiting_for_the_space_bar() {
    assert_eq!(wait_separator(&Keystroke::Esc), Pause::Aborted);
    assert_eq!(wait_separator(&Keystroke::Char(' ')), Pause::Over);
    assert_eq!(wait_separator(&Keystroke::Char('a')), Pause::Waiting);
    assert_eq!(wait_separator(&Keystroke::Other), Pause::Waiting);
}

#[test]
fn play_area_of_a_terminal() {
    assert_eq!(play_area((80, 24)), Window { x: 2, y: 2, w: 78, h: 21 });
    assert_eq!(play_area((2, 3)), Window { x: 2, y: 2, w: 0, h: 0 });
}

#[test]
fn backgrounds_by_status() {
    assert_eq!(color_text(&KeyStatus::Unvalidated, true), "\x1b[48;5;5m");
    assert_eq!(color_text(&KeyStatus::Unvalidated, false), "\x1b[49m");
    assert_eq!(color_text(&KeyStatus::Missed, false), "\x1b[48;5;9m");
    assert_eq!(color_text(&KeyStatus::Missed, true), "\x1b[48;5;9m");
    assert_eq!(color_text(&KeyStatus::Passed, true), "\x1b[48;5;2m");
    assert_eq!(<TypingSequence as SequenceFormat>::color_of(&KeyStatus::Passed, false), "\x1b[48;5;2m");
}

#[test]
fn keys_as_coloured_text() {
    let keys = vec![
        key('a', KeyStatus::Passed),
        key('b', KeyStatus::Missed),
        key('c', KeyStatus::Unvalidated),
    ];
    assert_eq!(
        colorize(&keys, 1),
        "\x1b[48;5;2ma\x1b[48;5;9mb\x1b[49mc\x1b[49m"
    );
    assert_eq!(
        colorize(&keys, 2),
        "\x1b[48;5;2ma\x1b[48;5;9mb\x1b[48;5;5mc\x1b[49m"
    );
    assert_eq!(colorize(&vec![], 0), "\x1b[49m");
    let seq = TypingSequence { keys };
    assert_eq!(seq.colorized(2), "\x1b[48;5;2ma\x1b[48;5;9mb\x1b[48;5;5mc\x1b[49m");
}

#[test]
fn a_sentence_is_highlighted_without_a_due_key() {
    let mut t = Typing::new("abc".to_string());
    t.pass();
    t.forward();
    t.miss();
    assert_eq!(
        t.highlight_display(),
        "\x1b[48;5;2ma\x1b[48;5;9mb\x1b[49mc\x1b[49m"
    );
}

#[test]
fn the_characters_of_a_word() {
    let w = Word::new("next");
    let e = exercise::new(&w);
    assert_eq!(e.len(), 4);
    assert_eq!(*e.index(0), 'n');
    assert_eq!(*e.index(3), 't');
    assert_eq!(exercise::new(&Word::new("")).len(), 0);
}
