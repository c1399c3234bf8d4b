use typing_trainer::game::{Game, Turn};
use typing_trainer::geometry::{BoundingBox, Pos};
use typing_trainer::constraint::{HAlignment, VAlignment};
use typing_trainer::positioning::{describe, Constraint, Positioning, PostLayoutAction, Window};
use typing_trainer::constraint::LayoutError;
use typing_trainer::print::{SequencePrinter, SignPrinter};
use typing_trainer::sequence::TypingSequence;
use typing_trainer::sign::TypingSign;
use typing_trainer::training::{Exercise, ExerciseStatus, InputStatus, Keystroke, Training};
use typing_trainer::typing::key::{Key, Status};
use typing_trainer::ui::Ui;

fn two_words() -> Training {
    Training::new(
        vec!["ab".to_string(), "c".to_string()],
        vec![Pos { x: 3, y: 2 }, Pos { x: 6, y: 2 }],
    )
}

fn window(action: Option<PostLayoutAction>) -> Constraint {
    Constraint {
        win: Window { x: 2, y: 2, w: 12, h: 4 },
        infinite_height: false,
        h_align: HAlignment::AlignLeft,
        v_align: VAlignment::AlignTop,
        action,
    }
}

#[test]
fn a_sequence_of_fresh_keys() {
    let s = TypingSequence::new(&"ab".to_string());
    assert_eq!(s.len(), 2);
    assert_eq!(*s.index(1), Key { code: 'b', status: Status::Unvalidated });
    let mut s = s;
    s.mark(1, Status::Missed);
    assert_eq!(*s.index(1), Key { code: 'b', status: Status::Missed });
    assert_eq!(*s.index(0), Key { code: 'a', status: Status::Unvalidated });
}

#[test]
fn a_sign_is_placed() {
    let mut sign = TypingSign::new(TypingSequence::new(&"ab".to_string()));
    assert_eq!(sign.coord, Pos { x: 0, y: 0 });
    sign.move_(4, 5);
    assert_eq!(sign.coord, Pos { x: 4, y: 5 });
    assert_eq!(sign.seq.len(), 2);
    let mut out = String::new();
    sign.show(&mut out);
    assert_eq!(out, "\x1b[5;4H\x1b[49ma\x1b[49mb\x1b[49m\n");
}

#[test]
fn a_sequence_is_shown_at_its_place() {
    let s = TypingSequence::new(&"ab".to_string());
    let mut out = String::new();
    s.write_seq(&mut out, 0, &Pos { x: 4, y: 5 });
    assert_eq!(out, "\x1b[5;4H\x1b[48;5;5ma\x1b[49mb\x1b[49m");
}

#[test]
fn words_are_paired_with_places() {
    let t = two_words();
    assert_eq!(t.pieces.len(), 2);
    assert_eq!(t.next_at, 0);
    assert_eq!(t.exercise, None);
    assert_eq!(t.pieces[1].0.keys, vec![Key { code: 'c', status: Status::Unvalidated }]);
    assert_eq!(t.pieces[1].1, Pos { x: 6, y: 2 });
    let short = Training::new(vec!["ab".to_string(), "c".to_string()], vec![Pos { x: 3, y: 2 }]);
    assert_eq!(short.pieces.len(), 1);
    let short = Training::new(vec!["ab".to_string()], vec![Pos { x: 3, y: 2 }, Pos { x: 6, y: 2 }]);
    assert_eq!(short.pieces.len(), 1);
}

#[test]
fn a_training_goes_from_word_to_word() {
    let mut t = two_words();
    assert!(t.has_next());
    t.next();
    assert_eq!(t.exercise, Some(Exercise { subject: 0, curr: 0 }));
    assert_eq!(t.play(&Keystroke::Char('x')), ExerciseStatus::NotYetDone);
    assert_eq!(t.pieces[0].0.keys[0].status, Status::Missed);
    assert_eq!(t.play(&Keystroke::Other), ExerciseStatus::NotYetDone);
    assert_eq!(t.play(&Keystroke::Char('a')), ExerciseStatus::NotYetDone);
    assert_eq!(t.pieces[0].0.keys[0].status, Status::Passed);
    assert_eq!(t.exercise, Some(Exercise { subject: 0, curr: 1 }));
    assert_eq!(t.play(&Keystroke::Char('b')), ExerciseStatus::Validated);
    assert_eq!(t.exercise, Some(Exercise { subject: 0, curr: 2 }));
    assert!(t.has_next());
    t.next();
    assert_eq!(t.exercise, Some(Exercise { subject: 1, curr: 0 }));
    assert!(!t.has_next());
    assert_eq!(t.play(&Keystroke::Char('c')), ExerciseStatus::Validated);
    assert_eq!(t.pieces[0].0.keys[1].status, Status::Passed);
}

#[test]
fn an_exercise_judges_keystrokes() {
    let mut t = two_words();
    let mut e = Exercise::new(0);
    assert!(!e.is_done(&t.pieces));
    assert_eq!(e.cursor(&t.pieces), Pos { x: 3, y: 2 });
    assert_eq!(e.play(&mut t.pieces, &Keystroke::Esc), InputStatus::Unhandled);
    assert_eq!(e.play(&mut t.pieces, &Keystroke::Char('b')), InputStatus::Wrong);
    assert_eq!(e.curr, 0);
    assert_eq!(e.play(&mut t.pieces, &Keystroke::Char('a')), InputStatus::Correct);
    assert_eq!(e.curr, 1);
    assert_eq!(e.cursor(&t.pieces), Pos { x: 4, y: 2 });
    assert_eq!(e.play(&mut t.pieces, &Keystroke::Char('b')), InputStatus::Correct);
    assert!(e.is_done(&t.pieces));
    assert_eq!(t.pieces[1].0.keys[0].status, Status::Unvalidated);
}

#[test]
fn the_word_at_hand_is_shown_with_its_cursor() {
    let mut t = two_words();
    t.next();
    t.play(&Keystroke::Char('a'));
    let mut out = String::new();
    t.write_current(&mut out);
    assert_eq!(out, "\x1b[2;3H\x1b[48;5;2ma\x1b[48;5;5mb\x1b[49m\x1b[2;4H");
    let mut cursor = String::new();
    Exercise { subject: 0, curr: 1 }.update_cursor_pos(&t.pieces, &mut cursor);
    assert_eq!(cursor, "\x1b[2;4H");
    let mut nothing = String::new();
    Exercise { subject: 9, curr: 1 }.update_cursor_pos(&t.pieces, &mut nothing);
    assert_eq!(nothing, "");
    let mut written = String::new();
    Exercise { subject: 1, curr: 0 }.write(&t.pieces, &mut written);
    assert_eq!(written, "\x1b[2;6H\x1b[48;5;5mc\x1b[49m\x1b[2;6H");
}

#[test]
fn all_words_are_shown_without_a_due_key() {
    let mut t = two_words();
    t.next();
    t.play(&Keystroke::Char('x'));
    let mut out = String::new();
    t.write_all(&mut out);
    assert_eq!(
        out,
        "\x1b[2;3H\x1b[48;5;9ma\x1b[49mb\x1b[49m\x1b[2;6H\x1b[49mc\x1b[49m"
    );
}

#[test]
fn a_game_takes_keys() {
    let ui = Ui::new(window(None), vec![2, 1]);
    let mut g = Game::new(ui, two_words());
    g.training.next();
    assert_eq!(g.on_key(&Keystroke::Esc), Turn::Aborted);
    assert_eq!(g.training.pieces[0].0.keys[0].status, Status::Unvalidated);
    assert_eq!(g.on_key(&Keystroke::Char('a')), Turn::NotYetDone);
    assert_eq!(g.on_key(&Keystroke::Char('z')), Turn::NotYetDone);
    assert_eq!(g.training.pieces[0].0.keys[1].status, Status::Missed);
    assert_eq!(g.on_key(&Keystroke::Char('b')), Turn::Validated);
}

#[test]
fn words_by_width_in_a_window() {
    let c = window(None);
    let (positions, frame) = c.organise(&vec![5, 6, 5]).expect("positioning failed");
    assert_eq!(positions, vec![Pos { x: 2, y: 2 }, Pos { x: 8, y: 2 }, Pos { x: 2, y: 3 }]);
    assert_eq!(frame, Window { x: 2, y: 2, w: 12, h: 2 });
    assert_eq!(
        c.to_request().organize(&typing_trainer::word::Bucket::new(vec!["first", "second", "third"])),
        Ok((positions, BoundingBox { x: 2, y: 2, w: 12, h: 2 }))
    );
}

#[test]
fn refusals_are_put_in_words() {
    let c = window(None);
    assert_eq!(
        c.organise(&vec![5, 13, 5]),
        Err("too narrow to fit a word of '13' length".to_string())
    );
    assert_eq!(
        c.organise(&vec![12, 12, 12, 12, 1]),
        Err("too many word, overflow from the 4th".to_string())
    );
    assert_eq!(
        describe(&LayoutError::TooWide(1), &vec![3, 250]),
        "too narrow to fit a word of '250' length"
    );
    assert_eq!(
        describe(&LayoutError::TooManyWords(0), &vec![3]),
        "too many word, overflow from the 0th"
    );
}

#[test]
fn a_word_beyond_all_coordinates_is_too_wide() {
    let c = window(None);
    assert_eq!(
        c.organise(&vec![5, 70000, 5]),
        Err("too narrow to fit a word of '70000' length".to_string())
    );
    assert_eq!(
        c.organise(&vec![usize::MAX]),
        Err(format!("too narrow to fit a word of '{}' length", usize::MAX))
    );
    // an earlier refusal comes first
    assert_eq!(
        c.organise(&vec![12, 12, 12, 12, 1, 70000]),
        Err("too many word, overflow from the 4th".to_string())
    );
    assert_eq!(
        c.organise(&vec![13, 70000]),
        Err("too narrow to fit a word of '13' length".to_string())
    );
    let mut ui = Ui::new(window(Some(PostLayoutAction::ShrinkEmptySpaces(1, 2))), vec![3, 65536]);
    assert_eq!(ui.do_layout(), Err("too narrow to fit a word of '65536' length".to_string()));
    assert_eq!(ui.constraints.win, Window { x: 2, y: 2, w: 12, h: 4 });
}

#[test]
fn an_unbounded_window_takes_all_rows() {
    let mut c = window(None);
    c.infinite_height = true;
    c.v_align = VAlignment::AlignBottom;
    c.h_align = HAlignment::AlignRight;
    let (positions, frame) = c.organise(&vec![12, 12, 12, 12, 1]).expect("positioning failed");
    assert_eq!(positions.len(), 5);
    assert_eq!(positions[4], Pos { x: 13, y: 6 });
    assert_eq!(frame, Window { x: 2, y: 2, w: 12, h: 5 });
}

#[test]
fn the_screen_of_a_training() {
    let mut ui = Ui::new(window(None), vec![5, 6, 5]);
    assert_eq!(ui.height(), 7);
    let mut out = String::new();
    ui.clear_and_hide_cursor(&mut out);
    assert_eq!(out, "\x1b[2J\x1b[1;1H\x1b[?25l");
    let mut out = String::new();
    ui.reset_cursor(&mut out);
    assert_eq!(out, "\x1b[7;1H\x1b[?25h");
    let mut out = String::new();
    ui.refresh(&mut out);
    let mut border = String::new();
    typing_trainer::print::WindowPrinter::write_rect(&Window { x: 1, y: 1, w: 14, h: 6 }, &mut border);
    assert_eq!(out, border);
    assert!(out.starts_with("\x1b[1;1H\u{250c}\n\x1b[1;14H\u{2510}\n"));
}

#[test]
fn a_layout_may_shrink_the_window() {
    let mut ui = Ui::new(window(Some(PostLayoutAction::ShrinkEmptySpaces(1, 2))), vec![5, 2, 5]);
    let positions = ui.do_layout().expect("layout failed");
    assert_eq!(positions, vec![Pos { x: 2, y: 2 }, Pos { x: 8, y: 2 }, Pos { x: 2, y: 3 }]);
    assert_eq!(ui.constraints.win, Window { x: 1, y: 0, w: 10, h: 6 });

    let mut ui = Ui::new(window(None), vec![5, 2, 5]);
    let positions = ui.do_layout().expect("layout failed");
    assert_eq!(positions.len(), 3);
    assert_eq!(ui.constraints.win, Window { x: 2, y: 2, w: 12, h: 4 });

    let mut ui = Ui::new(window(Some(PostLayoutAction::ShrinkEmptySpaces(1, 2))), vec![50]);
    assert_eq!(ui.do_layout(), Err("too narrow to fit a word of '50' length".to_string()));
    assert_eq!(ui.constraints.win, Window { x: 2, y: 2, w: 12, h: 4 });

    let mut ui = Ui::new(window(None), vec![]);
    let moved = ui.post_actions(vec![Pos { x: 1, y: 1 }], &Window { x: 5, y: 5, w: 1, h: 1 });
    assert_eq!(moved, vec![Pos { x: 1, y: 1 }]);
    assert_eq!(ui.constraints.win, Window { x: 2, y: 2, w: 12, h: 4 });
}
