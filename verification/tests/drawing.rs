use typing_trainer::brush::{write_at, write_frame, write_frame2, write_hline, write_vline};
use typing_trainer::escape::{decimal_text, emit};
use typing_trainer::geometry::{term_dim, BoundingBox, Dim, Pos};
use typing_trainer::positioning::{PosMovement, Window, WindowCorner};
use typing_trainer::print::{PosPrinter, WindowPrinter};

#[test]
fn a_cell_is_cursor_move_glyph_and_line_break() {
    let mut out = String::new();
    write_at('x', &Pos { x: 5, y: 3 }, &mut out);
    assert_eq!(out, "\x1b[3;5Hx\n");
    write_at('y', &Pos { x: 65535, y: 120 }, &mut out);
    assert_eq!(out, "\x1b[3;5Hx\n\x1b[120;65535Hy\n");
}

#[test]
fn a_horizontal_line_repeats_the_glyph() {
    let mut out = String::from("kept");
    write_hline('-', &Pos { x: 1, y: 2 }, 4, &mut out);
    assert_eq!(out, "kept\x1b[2;1H----\n");
    let mut none = String::new();
    write_hline('-', &Pos { x: 1, y: 2 }, 0, &mut none);
    assert_eq!(none, "\x1b[2;1H\n");
}

#[test]
fn a_vertical_line_is_drawn_cell_by_cell() {
    let mut out = String::new();
    write_vline('|', &Pos { x: 7, y: 9 }, 3, &mut out);
    assert_eq!(out, "\x1b[9;7H|\n\x1b[10;7H|\n\x1b[11;7H|\n");
    let mut none = String::new();
    write_vline('|', &Pos { x: 0, y: 0 }, 0, &mut none);
    assert_eq!(none, "");
}

#[test]
fn a_frame_is_corners_then_edges_then_sides() {
    let mut out = String::new();
    write_frame(Pos { x: 2, y: 2 }, Dim { w: 3, h: 3 }, &mut out);
    assert_eq!(
        out,
        "\x1b[2;2H\u{250c}\n\x1b[2;4H\u{2510}\n\x1b[4;2H\u{2514}\n\x1b[4;4H\u{2518}\n\
         \x1b[2;3H\u{2500}\n\x1b[4;3H\u{2500}\n\
         \x1b[3;4H\u{2502}\n\x1b[3;2H\u{2502}\n"
    );
}

#[test]
fn an_empty_frame_draws_nothing() {
    let mut out = String::new();
    write_frame(Pos { x: 2, y: 2 }, Dim { w: 0, h: 3 }, &mut out);
    write_frame(Pos { x: 2, y: 2 }, Dim { w: 3, h: 0 }, &mut out);
    assert_eq!(out, "");
}

#[test]
fn a_frame_of_one_cell_is_four_corners() {
    let mut out = String::new();
    write_frame(Pos { x: 1, y: 1 }, Dim { w: 1, h: 1 }, &mut out);
    assert_eq!(out, "\x1b[1;1H\u{250c}\n\x1b[1;1H\u{2510}\n\x1b[1;1H\u{2514}\n\x1b[1;1H\u{2518}\n");
}

#[test]
fn a_frame_around_a_box_keeps_its_distance() {
    let mut around = String::new();
    write_frame2(BoundingBox { x: 4, y: 5, w: 6, h: 2 }, 2, &mut around);
    let mut direct = String::new();
    write_frame(Pos { x: 2, y: 3 }, Dim { w: 10, h: 6 }, &mut direct);
    assert_eq!(around, direct);
    assert!(around.starts_with("\x1b[3;2H\u{250c}\n\x1b[3;11H\u{2510}\n"));
}

#[test]
fn positions_draw_themselves() {
    let mut out = String::new();
    let p = Pos { x: 3, y: 4 };
    PosPrinter::write_at(&p, 'a', &mut out);
    PosPrinter::write_hline(&p, 'b', 2, &mut out);
    PosPrinter::write_vline(&p, 'c', 2, &mut out);
    assert_eq!(out, "\x1b[4;3Ha\n\x1b[4;3Hbb\n\x1b[4;3Hc\n\x1b[5;3Hc\n");
}

#[test]
fn a_window_border_is_corners_edges_left_then_right() {
    let mut out = String::new();
    Window { x: 1, y: 1, w: 3, h: 3 }.write_rect(&mut out);
    assert_eq!(
        out,
        "\x1b[1;1H\u{250c}\n\x1b[1;3H\u{2510}\n\x1b[3;1H\u{2514}\n\x1b[3;3H\u{2518}\n\
         \x1b[1;2H\u{2500}\n\x1b[3;2H\u{2500}\n\
         \x1b[2;1H\u{2502}\n\x1b[2;3H\u{2502}\n"
    );
}

#[test]
fn window_corners_and_growth() {
    let w = Window { x: 2, y: 3, w: 10, h: 4 };
    assert_eq!(w.top_left(), Pos { x: 2, y: 3 });
    assert_eq!(w.top_right(), Pos { x: 11, y: 3 });
    assert_eq!(w.bottom_left(), Pos { x: 2, y: 6 });
    assert_eq!(w.bottom_right(), Pos { x: 11, y: 6 });
    assert_eq!(w.grown_uniform(1), Window { x: 1, y: 2, w: 12, h: 6 });
    assert_eq!(w.grown_sym(2, 1), Window { x: 0, y: 2, w: 14, h: 6 });
    assert_eq!(w.shrinked_uniform(1), Window { x: 3, y: 4, w: 8, h: 2 });
    assert_eq!(w.grown_uniform(1).shrinked_uniform(1), w);
}

#[test]
fn positions_move_right_and_down() {
    let p = Pos { x: 3, y: 4 };
    assert_eq!(p.shifted_x(5), Pos { x: 8, y: 4 });
    assert_eq!(p.shifted_y(5), Pos { x: 3, y: 9 });
}

#[test]
fn numbers_are_written_in_decimal() {
    assert_eq!(decimal_text(0), "0");
    assert_eq!(decimal_text(7), "7");
    assert_eq!(decimal_text(10), "10");
    assert_eq!(decimal_text(65535), "65535");
    assert_eq!(decimal_text(1002003), "1002003");
}

#[test]
fn text_is_appended_to_the_sink() {
    let mut out = String::from("ab");
    emit(&mut out, &String::from("cd"));
    assert_eq!(out, "abcd");
}

#[test]
fn room_in_a_terminal() {
    assert_eq!(term_dim((80, 24)), Dim { w: 79, h: 22 });
    assert_eq!(term_dim((1, 2)), Dim { w: 0, h: 0 });
}
