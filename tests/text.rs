use chess::board::{Color, Field, Figure, FigureKind};
use chess::text::{
    board_from_str, board_to_string, board_to_text, color_from_char, field_from_char,
    field_to_char, field_to_letter, figure_kind_black_to_char, figure_kind_from_char,
    figure_kind_white_to_char, figure_to_char,
};

fn fig(kind: FigureKind, color: Color) -> Field {
    Field::Figure(Figure { kind, color })
}

#[test]
fn chars_name_pieces_in_either_case() {
    assert_eq!(figure_kind_from_char('q'), Some(FigureKind::Queen));
    assert_eq!(figure_kind_from_char('Q'), Some(FigureKind::Queen));
    assert_eq!(figure_kind_from_char('n'), Some(FigureKind::Knight));
    assert_eq!(figure_kind_from_char('x'), None);
    assert_eq!(figure_kind_from_char(' '), None);
    assert_eq!(figure_kind_from_char('\u{e9}'), None);
    assert_eq!(color_from_char('q'), Color::W);
    assert_eq!(color_from_char('Q'), Color::B);
    assert_eq!(color_from_char(' '), Color::B);
    assert_eq!(field_from_char('p'), fig(FigureKind::Pawn, Color::W));
    assert_eq!(field_from_char('K'), fig(FigureKind::King, Color::B));
    assert_eq!(field_from_char('.'), Field::Empty);
}

#[test]
fn parse_reads_squares_in_rank_order() {
    let b = board_from_str("R       b");
    assert_eq!(b.fields[0][0], fig(FigureKind::Rook, Color::B));
    assert_eq!(b.fields[1][0], fig(FigureKind::Bishop, Color::W));
    assert_eq!(b.fields[0][1], Field::Empty);
    assert_eq!(b.fields[7][7], Field::Empty);
}

#[test]
fn parse_ignores_chars_past_sixty_four() {
    let mut s = String::from(" ".repeat(63));
    s.push_str("kQ");
    let b = board_from_str(&s);
    assert_eq!(b.fields[7][7], fig(FigureKind::King, Color::W));
    assert_eq!(board_to_text(&b).chars().count(), 64);
}

#[test]
fn letters_for_serialising() {
    assert_eq!(field_to_letter(Field::Empty), ' ');
    assert_eq!(field_to_letter(fig(FigureKind::Bishop, Color::W)), 'b');
    assert_eq!(field_to_letter(fig(FigureKind::Bishop, Color::B)), 'B');
}

#[test]
fn glyphs() {
    assert_eq!(figure_kind_white_to_char(FigureKind::Pawn), '\u{265F}');
    assert_eq!(figure_kind_black_to_char(FigureKind::King), '\u{2654}');
    assert_eq!(figure_to_char(Figure { kind: FigureKind::Queen, color: Color::W }), '\u{265B}');
    assert_eq!(figure_to_char(Figure { kind: FigureKind::Knight, color: Color::B }), '\u{2658}');
    assert_eq!(field_to_char(Field::Empty, true), '\u{25A0}');
    assert_eq!(field_to_char(Field::Empty, false), ' ');
}

#[test]
fn picture_of_a_board() {
    let b = board_from_str("k");
    let s = board_to_string(&b);
    let lines: Vec<&str> = s.split('\n').collect();
    assert_eq!(lines.len(), 10);
    assert_eq!(lines[0], "   A B C D E F G H ");
    assert_eq!(lines[1], " 8 \u{265A} \u{25A0}   \u{25A0}   \u{25A0}   \u{25A0}");
    assert_eq!(lines[2], " 7 \u{25A0}   \u{25A0}   \u{25A0}   \u{25A0}  ");
    assert_eq!(lines[8], " 1 \u{25A0}   \u{25A0}   \u{25A0}   \u{25A0}  ");
    assert_eq!(lines[9], "");
}
