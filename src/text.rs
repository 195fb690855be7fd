//! Boards as text: the 64-character layout (one character per square, ranks
//! in order, files in order within a rank) and the picture drawn with glyphs.
use vstd::prelude::*;
use crate::board::{Board, Color, Field, Figure, FigureKind, on_board, board_index_xy};

verus! {

/// The first char of the uppercase mapping of `c`.
pub uninterp spec fn uppercase_head(c: char) -> char;

/// Whether `c` has the Unicode Lowercase property.
pub uninterp spec fn lowercase_property(c: char) -> bool;

pub open spec fn is_ascii_char(c: char) -> bool {
    (c as u32) < 128
}

pub open spec fn is_ascii_lower(c: char) -> bool {
    'a' <= c && c <= 'z'
}

/// Relies on char::to_uppercase: the first char it yields (there is always
/// one); an ASCII lowercase letter maps to its capital, any other ASCII char
/// to itself.
#[verifier::external_body]
fn first_uppercase(c: char) -> (r: char)
    ensures
        r == uppercase_head(c),
        is_ascii_lower(c) ==> r as u32 + 32 == c as u32,
        is_ascii_char(c) && !is_ascii_lower(c) ==> r == c,
{
    c.to_uppercase().next().unwrap()
}

/// Relies on char::is_lowercase: among ASCII chars, exactly 'a' to 'z' have
/// the Lowercase property.
#[verifier::external_body]
fn has_lowercase_property(c: char) -> (r: bool)
    ensures
        r == lowercase_property(c),
        is_ascii_char(c) ==> (r <==> is_ascii_lower(c)),
{
    c.is_lowercase()
}

/// Relies on String::push: appends one char.
#[verifier::external_body]
fn push_char(s: &mut String, c: char)
    ensures
        final(s)@ == old(s)@.push(c),
{
    s.push(c);
}

/// Relies on str::chars: the chars of the string, in order.
#[verifier::external_body]
fn chars_of(s: &str) -> (r: Vec<char>)
    ensures
        r@ == s@,
{
    s.chars().collect()
}

/// The kind named by a capital letter.
pub open spec fn kind_of_letter(u: char) -> Option<FigureKind> {
    if u == 'P' {
        Some(FigureKind::Pawn)
    } else if u == 'N' {
        Some(FigureKind::Knight)
    } else if u == 'R' {
        Some(FigureKind::Rook)
    } else if u == 'B' {
        Some(FigureKind::Bishop)
    } else if u == 'Q' {
        Some(FigureKind::Queen)
    } else if u == 'K' {
        Some(FigureKind::King)
    } else {
        None
    }
}

/// The kind named by an ASCII char, in either case.
pub open spec fn kind_of_ascii(c: char) -> Option<FigureKind> {
    if c == 'P' || c == 'p' {
        Some(FigureKind::Pawn)
    } else if c == 'N' || c == 'n' {
        Some(FigureKind::Knight)
    } else if c == 'R' || c == 'r' {
        Some(FigureKind::Rook)
    } else if c == 'B' || c == 'b' {
        Some(FigureKind::Bishop)
    } else if c == 'Q' || c == 'q' {
        Some(FigureKind::Queen)
    } else if c == 'K' || c == 'k' {
        Some(FigureKind::King)
    } else {
        None
    }
}

/// The kind a char names: that of its uppercase form.
pub open spec fn kind_of_char(c: char) -> Option<FigureKind> {
    if is_ascii_char(c) {
        kind_of_ascii(c)
    } else {
        kind_of_letter(uppercase_head(c))
    }
}

/// Lowercase chars stand for White, all others for Black.
pub open spec fn color_of_char(c: char) -> Color {
    if is_ascii_char(c) {
        if is_ascii_lower(c) {
            Color::W
        } else {
            Color::B
        }
    } else if lowercase_property(c) {
        Color::W
    } else {
        Color::B
    }
}

/// The square content a char stands for.
pub open spec fn field_of_char(c: char) -> Field {
    match kind_of_char(c) {
        Some(k) => Field::Figure(Figure { kind: k, color: color_of_char(c) }),
        None => Field::Empty,
    }
}

/// The content that text `t` gives square (x, y): the char at 8 * y + x, or
/// an empty square where the text is shorter.
pub open spec fn parsed_square(t: Seq<char>, x: int, y: int) -> Field {
    if 8 * y + x < t.len() {
        field_of_char(t[8 * y + x])
    } else {
        Field::Empty
    }
}

/// The kind named by `c` in either case, if any.
pub fn figure_kind_from_char(c: char) -> (r: Option<FigureKind>)
    ensures
        r == kind_of_char(c),
{
    let u = first_uppercase(c);
    let r = if u == 'P' {
        Some(FigureKind::Pawn)
    } else if u == 'N' {
        Some(FigureKind::Knight)
    } else if u == 'R' {
        Some(FigureKind::Rook)
    } else if u == 'B' {
        Some(FigureKind::Bishop)
    } else if u == 'Q' {
        Some(FigureKind::Queen)
    } else if u == 'K' {
        Some(FigureKind::King)
    } else {
        None
    };
    assert(r == kind_of_letter(u));
    r
}

/// White for a lowercase char, Black otherwise.
pub fn color_from_char(c: char) -> (r: Color)
    ensures
        r == color_of_char(c),
{
    if has_lowercase_property(c) {
        Color::W
    } else {
        Color::B
    }
}

/// The square content that `c` stands for: a piece for a letter of
/// P, N, R, B, Q, K in either case, an empty square for any other char.
pub fn field_from_char(c: char) -> (r: Field)
    ensures
        r == field_of_char(c),
{
    if let Some(kind) = figure_kind_from_char(c) {
        let color = color_from_char(c);
        Field::Figure(Figure { kind: kind, color: color })
    } else {
        Field::Empty
    }
}

/// Reads a board from its 64-character layout. Only the first 64 chars
/// count; squares past the end of a shorter text are empty.
pub fn board_from_str(s: &str) -> (r: Board)
    ensures
        forall|x: int, y: int| on_board(x, y) ==> r.at(x, y) == parsed_square(s@, x, y),
{
    let cs = chars_of(s);
    let mut fields: [[Field; 8]; 8] = [[Field::Empty; 8]; 8];
    let n: usize = if cs.len() < 64 {
        cs.len()
    } else {
        64
    };
    let mut i: usize = 0;
    while i < n
        invariant
            0 <= i <= n <= 64,
            n <= cs@.len(),
            n == cs@.len() || n == 64,
            cs@ == s@,
            forall|x: int, y: int|
                on_board(x, y) ==> (#[trigger] fields@[y]@[x]) == (if 8 * y + x < i {
                    field_of_char(s@[8 * y + x])
                } else {
                    Field::Empty
                }),
        decreases n - i,
    {
        let f = field_from_char(cs[i]);
        let y: usize = i / 8;
        let x: usize = i % 8;
        fields[y][x] = f;
        assert forall|xx: int, yy: int| on_board(xx, yy) && (xx != x || yy != y) implies 8 * yy
            + xx != i by {
            assert(8 * yy + xx != i) by (nonlinear_arith)
                requires
                    on_board(xx, yy),
                    xx != x || yy != y,
                    y == i / 8,
                    x == i % 8,
            ;
        }
        i = i + 1;
    }
    Board { fields: fields }
}

/// The capital letter of a kind in the 64-character layout.
pub open spec fn kind_letter(k: FigureKind) -> char {
    match k {
        FigureKind::Pawn => 'P',
        FigureKind::Knight => 'N',
        FigureKind::Rook => 'R',
        FigureKind::Bishop => 'B',
        FigureKind::Queen => 'Q',
        FigureKind::King => 'K',
    }
}

/// The small letter of a kind in the 64-character layout.
pub open spec fn kind_small_letter(k: FigureKind) -> char {
    match k {
        FigureKind::Pawn => 'p',
        FigureKind::Knight => 'n',
        FigureKind::Rook => 'r',
        FigureKind::Bishop => 'b',
        FigureKind::Queen => 'q',
        FigureKind::King => 'k',
    }
}

/// The char of a square in the 64-character layout: a space for an empty
/// square, a small letter for a White piece, a capital for a Black one.
pub open spec fn field_letter(f: Field) -> char {
    match f {
        Field::Empty => ' ',
        Field::Figure(g) => match g.color {
            Color::W => kind_small_letter(g.kind),
            Color::B => kind_letter(g.kind),
        },
    }
}

/// The 64-character layout of `b`.
pub open spec fn text_of(b: Board) -> Seq<char> {
    Seq::new(64, |i: int| field_letter(b.at(i % 8, i / 8)))
}

/// The char of one square in the 64-character layout.
pub fn field_to_letter(field: Field) -> (r: char)
    ensures
        r == field_letter(field),
{
    match field {
        Field::Empty => ' ',
        Field::Figure(g) => {
            let small = match g.color {
                Color::W => true,
                Color::B => false,
            };
            match g.kind {
                FigureKind::Pawn => if small { 'p' } else { 'P' },
                FigureKind::Knight => if small { 'n' } else { 'N' },
                FigureKind::Rook => if small { 'r' } else { 'R' },
                FigureKind::Bishop => if small { 'b' } else { 'B' },
                FigureKind::Queen => if small { 'q' } else { 'Q' },
                FigureKind::King => if small { 'k' } else { 'K' },
            }
        },
    }
}

/// Writes `b` in the 64-character layout that `board_from_str` reads.
pub fn board_to_text(b: &Board) -> (r: String)
    ensures
        r@ == text_of(*b),
{
    let mut s = String::new();
    let mut i: i32 = 0;
    while i < 64
        invariant
            0 <= i <= 64,
            s@ =~= text_of(*b).take(i as int),
        decreases 64 - i,
    {
        let c = field_to_letter(board_index_xy(b, i % 8, i / 8));
        push_char(&mut s, c);
        assert(s@ =~= text_of(*b).take(i + 1));
        i = i + 1;
    }
    s
}

/// Reading back the 64-character layout of any board gives that board,
/// square by square.
pub proof fn lemma_text_round_trip(b: Board)
    ensures
        forall|x: int, y: int| on_board(x, y) ==> #[trigger] parsed_square(text_of(b), x, y) == b.at(x, y),
{
    assert forall|x: int, y: int| on_board(x, y) implies #[trigger] parsed_square(text_of(b), x, y) == b.at(x, y) by {
        let i = 8 * y + x;
        assert(i % 8 == x && i / 8 == y) by (nonlinear_arith)
            requires
                i == 8 * y + x,
                on_board(x, y),
        ;
        assert(text_of(b)[i] == field_letter(b.at(x, y)));
    }
}

/// The glyph of a Black piece: the outlined chess symbols.
pub open spec fn black_glyph(kind: FigureKind) -> char {
    match kind {
        FigureKind::Pawn => '\u{2659}',
        FigureKind::Rook => '\u{2656}',
        FigureKind::Knight => '\u{2658}',
        FigureKind::Bishop => '\u{2657}',
        FigureKind::Queen => '\u{2655}',
        FigureKind::King => '\u{2654}',
    }
}

/// The glyph of a White piece: the filled chess symbols.
pub open spec fn white_glyph(kind: FigureKind) -> char {
    match kind {
        FigureKind::Pawn => '\u{265F}',
        FigureKind::Rook => '\u{265C}',
        FigureKind::Knight => '\u{265E}',
        FigureKind::Bishop => '\u{265D}',
        FigureKind::Queen => '\u{265B}',
        FigureKind::King => '\u{265A}',
    }
}

pub open spec fn figure_glyph(figure: Figure) -> char {
    match figure.color {
        Color::W => white_glyph(figure.kind),
        Color::B => black_glyph(figure.kind),
    }
}

/// The glyph of a square: its piece's, else a filled square on odd squares
/// and a space on even ones.
pub open spec fn field_glyph(field: Field, odd: bool) -> char {
    match field {
        Field::Empty => if odd {
            '\u{25A0}'
        } else {
            ' '
        },
        Field::Figure(f) => figure_glyph(f),
    }
}

pub fn figure_kind_black_to_char(kind: FigureKind) -> (r: char)
    ensures
        r == black_glyph(kind),
{
    match kind {
        FigureKind::Pawn => '\u{2659}',
        FigureKind::Rook => '\u{2656}',
        FigureKind::Knight => '\u{2658}',
        FigureKind::Bishop => '\u{2657}',
        FigureKind::Queen => '\u{2655}',
        FigureKind::King => '\u{2654}',
    }
}

pub fn figure_kind_white_to_char(kind: FigureKind) -> (r: char)
    ensures
        r == white_glyph(kind),
{
    match kind {
        FigureKind::Pawn => '\u{265F}',
        FigureKind::Rook => '\u{265C}',
        FigureKind::Knight => '\u{265E}',
        FigureKind::Bishop => '\u{265D}',
        FigureKind::Queen => '\u{265B}',
        FigureKind::King => '\u{265A}',
    }
}

pub fn figure_to_char(figure: Figure) -> (r: char)
    ensures
        r == figure_glyph(figure),
{
    match figure.color {
        Color::W => figure_kind_white_to_char(figure.kind),
        Color::B => figure_kind_black_to_char(figure.kind),
    }
}

pub fn field_to_char(field: Field, odd: bool) -> (r: char)
    ensures
        r == field_glyph(field, odd),
{
    let square = '\u{25A0}';
    match field {
        Field::Empty => if odd {
            square
        } else {
            ' '
        },
        Field::Figure(f) => figure_to_char(f),
    }
}

/// The first line of the picture: the file letters.
pub open spec fn picture_header() -> Seq<char> {
    seq![' ', ' ', ' ', 'A', ' ', 'B', ' ', 'C', ' ', 'D', ' ', 'E', ' ', 'F', ' ', 'G', ' ', 'H', ' ', '\n']
}

/// The label of rank `y`: rank 0 is labelled 8, rank 7 is labelled 1.
pub open spec fn rank_label(y: int) -> char {
    seq!['8', '7', '6', '5', '4', '3', '2', '1'][y]
}

/// The shading of square (x, y).
pub open spec fn is_odd_square(x: int, y: int) -> bool {
    (x + y * 9) % 2 == 1
}

/// The first `n` cells of rank `y`, each a space and a glyph.
pub open spec fn row_cells(b: Board, y: int, n: int) -> Seq<char>
    decreases n,
{
    if n <= 0 {
        seq![]
    } else {
        row_cells(b, y, n - 1) + seq![' ', field_glyph(b.at(n - 1, y), is_odd_square(n - 1, y))]
    }
}

/// The line of rank `y`: a space, its label, its cells, a line break.
pub open spec fn picture_row(b: Board, y: int) -> Seq<char> {
    seq![' ', rank_label(y)] + row_cells(b, y, 8) + seq!['\n']
}

/// The lines of the first `n` ranks.
pub open spec fn picture_rows(b: Board, n: int) -> Seq<char>
    decreases n,
{
    if n <= 0 {
        seq![]
    } else {
        picture_rows(b, n - 1) + picture_row(b, n - 1)
    }
}

/// The picture of `b`: the file letters, then one line per rank from rank 0.
pub open spec fn picture(b: Board) -> Seq<char> {
    picture_header() + picture_rows(b, 8)
}

/// Draws `board` with file letters, rank numbers and chess glyphs.
pub fn board_to_string(board: &Board) -> (s: String)
    ensures
        s@ == picture(*board),
{
    let header = "   A B C D E F G H \n";
    let mut s = header.to_string();
    proof {
        reveal_strlit("   A B C D E F G H \n");
        assert(s@ =~= picture_header());
    }
    let labels: [char; 8] = ['8', '7', '6', '5', '4', '3', '2', '1'];
    assert(labels@ =~= seq!['8', '7', '6', '5', '4', '3', '2', '1']);
    let mut y: i32 = 0;
    while y < 8
        invariant
            0 <= y <= 8,
            labels@ == seq!['8', '7', '6', '5', '4', '3', '2', '1'],
            s@ == picture_header() + picture_rows(*board, y as int),
        decreases 8 - y,
    {
        let ghost before = s@;
        push_char(&mut s, ' ');
        push_char(&mut s, labels[y as usize]);
        let mut x: i32 = 0;
        while x < 8
            invariant
                0 <= y < 8,
                0 <= x <= 8,
                s@ == before + seq![' ', rank_label(y as int)] + row_cells(*board, y as int, x as int),
            decreases 8 - x,
        {
            let odd_field = (x + y * 9) % 2 == 1;
            let field = board_index_xy(board, x, y);
            push_char(&mut s, ' ');
            push_char(&mut s, field_to_char(field, odd_field));
            assert(s@ =~= before + seq![' ', rank_label(y as int)] + row_cells(*board, y as int, x + 1));
            x = x + 1;
        }
        push_char(&mut s, '\n');
        assert(s@ =~= picture_header() + picture_rows(*board, y + 1));
        y = y + 1;
    }
    s
}

} // verus!
