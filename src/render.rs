//! Rendering as a list of terminal commands: the play field, the status bar
//! of three boxes, and centred messages.

use vstd::prelude::*;
use crate::text::{decimal, fit, push_decimal, push_fit, push_repeat, push_str, repeat};
use crate::words::{views, Word, WordView};

verus! {

/// A terminal command: move the cursor to (column, row), write text at the
/// cursor, clear the cursor's line, or clear the whole screen.
#[derive(Clone, Debug, PartialEq, Eq)]
pub enum Cmd {
    MoveTo(u16, u16),
    Write(String),
    ClearLine,
    ClearAll,
}

/// What a command is, mathematically.
pub enum CmdView {
    MoveTo(u16, u16),
    Write(Seq<char>),
    ClearLine,
    ClearAll,
}

impl View for Cmd {
    type V = CmdView;

    open spec fn view(&self) -> CmdView {
        match self {
            Cmd::MoveTo(c, r) => CmdView::MoveTo(*c, *r),
            Cmd::Write(s) => CmdView::Write(s@),
            Cmd::ClearLine => CmdView::ClearLine,
            Cmd::ClearAll => CmdView::ClearAll,
        }
    }
}

/// The views of a sequence of commands.
pub open spec fn cmd_views(cs: Seq<Cmd>) -> Seq<CmdView> {
    cs.map_values(|c: Cmd| c@)
}

/// The glyph that marks one point of health.
pub const HEALTH_MARK: char = 'o';

/// Blanks the first `n` rows of a field `columns` wide.
pub open spec fn blank_rows(columns: u16, n: nat) -> Seq<CmdView>
    decreases n,
{
    if n == 0 {
        seq![]
    } else {
        blank_rows(columns, (n - 1) as nat) + seq![
            CmdView::MoveTo(0, (n - 1) as u16),
            CmdView::Write(repeat(' ', columns as nat)),
        ]
    }
}

/// Writes each word at its position.
pub open spec fn word_cmds(ws: Seq<WordView>) -> Seq<CmdView>
    decreases ws.len(),
{
    if ws.len() == 0 {
        seq![]
    } else {
        let w = ws.last();
        word_cmds(ws.drop_last()) + seq![CmdView::MoveTo(w.col, w.row), CmdView::Write(w.text)]
    }
}

/// The top border of a box `w` wide.
pub open spec fn box_top(w: nat) -> Seq<char> {
    seq!['╭'] + repeat('─', (w - 2) as nat) + seq!['╮']
}

/// The middle line of a box `w` wide holding `content`, cut or padded to the
/// interior width.
pub open spec fn box_mid(content: Seq<char>, w: nat) -> Seq<char> {
    seq!['│'] + fit(content, (w - 2) as nat) + seq!['│']
}

/// The bottom border of a box `w` wide.
pub open spec fn box_bot(w: nat) -> Seq<char> {
    seq!['╰'] + repeat('─', (w - 2) as nat) + seq!['╯']
}

/// Draws a box `w` wide whose bottom border lies on `row`, from column `col`.
pub open spec fn box_cmds(content: Seq<char>, w: u16, col: u16, row: u16) -> Seq<CmdView> {
    seq![
        CmdView::MoveTo(col, (row - 2) as u16),
        CmdView::Write(box_top(w as nat)),
        CmdView::MoveTo(col, (row - 1) as u16),
        CmdView::Write(box_mid(content, w as nat)),
        CmdView::MoveTo(col, row),
        CmdView::Write(box_bot(w as nat)),
    ]
}

/// The text of the score box.
pub open spec fn score_text(score: nat) -> Seq<char> {
    "Score: "@ + decimal(score)
}

/// One mark and a space per point of health.
pub open spec fn marks(h: nat) -> Seq<char>
    decreases h,
{
    if h == 0 {
        seq![]
    } else {
        marks((h - 1) as nat) + seq![HEALTH_MARK, ' ']
    }
}

/// The text of the health box.
pub open spec fn health_text(health: nat) -> Seq<char> {
    "Health: "@ + marks(health)
}

/// Clears the four bottom lines, then draws the input box over half the width
/// and the score and health boxes over a quarter each.
pub open spec fn status_cmds(
    entry: Seq<char>,
    score: nat,
    health: nat,
    columns: u16,
    rows: u16,
) -> Seq<CmdView> {
    let bottom = (rows - 3) as u16;
    let half = columns / 2;
    let quarter = columns / 4;
    seq![
        CmdView::MoveTo(0, rows),
        CmdView::ClearLine,
        CmdView::MoveTo(0, (rows - 1) as u16),
        CmdView::ClearLine,
        CmdView::MoveTo(0, (rows - 2) as u16),
        CmdView::ClearLine,
        CmdView::MoveTo(0, bottom),
        CmdView::ClearLine,
    ] + box_cmds(entry, half, 0, bottom) + box_cmds(score_text(score), quarter, half, bottom)
        + box_cmds(health_text(health), quarter, (half + quarter) as u16, bottom)
}

/// The column from which a text of `len` characters stands centred.
pub open spec fn center_col(columns: u16, len: nat) -> u16 {
    if columns / 2 >= len / 2 {
        (columns / 2 - len / 2) as u16
    } else {
        0
    }
}

/// Writes `text` centred on the row `offset` rows below the middle one.
pub open spec fn centered_cmds(text: Seq<char>, columns: u16, rows: u16, offset: u16) -> Seq<
    CmdView,
> {
    seq![
        CmdView::MoveTo(center_col(columns, text.len()), (rows / 2 + offset) as u16),
        CmdView::Write(text),
    ]
}

/// Clears the screen and writes two centred lines.
pub open spec fn message_cmds(l1: Seq<char>, l2: Seq<char>, columns: u16, rows: u16) -> Seq<
    CmdView,
> {
    seq![CmdView::ClearAll] + centered_cmds(l1, columns, rows, 0) + centered_cmds(
        l2,
        columns,
        rows,
        1,
    )
}

proof fn lemma_views_push(cs: Seq<Cmd>, c: Cmd)
    ensures
        cmd_views(cs.push(c)) == cmd_views(cs).push(c@),
{
    assert(cmd_views(cs.push(c)) =~= cmd_views(cs).push(c@));
}

fn emit(out: &mut Vec<Cmd>, c: Cmd)
    ensures
        cmd_views(final(out)@) == cmd_views(old(out)@).push(c@),
{
    proof {
        lemma_views_push(out@, c);
    }
    out.push(c);
}

/// Blanks the play field: every row from the top down to `bottom`.
pub fn clear_words(out: &mut Vec<Cmd>, columns: u16, bottom: u16)
    ensures
        cmd_views(final(out)@) == cmd_views(old(out)@) + blank_rows(columns, bottom as nat + 1),
{
    let mut row: u16 = 0;
    loop
        invariant
            row <= bottom,
            cmd_views(out@) == cmd_views(old(out)@) + blank_rows(columns, row as nat),
        decreases bottom - row,
    {
        let mut blank = String::new();
        push_repeat(&mut blank, ' ', columns as usize);
        emit(out, Cmd::MoveTo(0, row));
        emit(out, Cmd::Write(blank));
        assert(cmd_views(out@) =~= cmd_views(old(out)@) + blank_rows(columns, row as nat + 1));
        if row == bottom {
            return;
        }
        row = row + 1;
    }
}

/// Writes every active word at its position.
pub fn write_words(out: &mut Vec<Cmd>, ws: &Vec<Word>)
    ensures
        cmd_views(final(out)@) == cmd_views(old(out)@) + word_cmds(views(ws@)),
{
    let mut i: usize = 0;
    while i < ws.len()
        invariant
            i <= ws.len(),
            cmd_views(out@) == cmd_views(old(out)@) + word_cmds(views(ws@).take(i as int)),
        decreases ws.len() - i,
    {
        let w = &ws[i];
        emit(out, Cmd::MoveTo(w.pos.0, w.pos.1));
        emit(out, Cmd::Write(w.text.clone()));
        assert(views(ws@).take(i as int + 1).drop_last() =~= views(ws@).take(i as int));
        assert(cmd_views(out@) =~= cmd_views(old(out)@) + word_cmds(views(ws@).take(i as int + 1)));
        i = i + 1;
    }
    assert(views(ws@).take(i as int) =~= views(ws@));
}

/// Draws a bordered box `w` wide from column `col`, its bottom border on
/// `row`, holding `content` cut or padded to the interior width.
pub fn write_box(out: &mut Vec<Cmd>, content: &str, w: u16, col: u16, row: u16)
    requires
        w >= 2,
        row >= 2,
    ensures
        cmd_views(final(out)@) == cmd_views(old(out)@) + box_cmds(content@, w, col, row),
{
    let inner = (w - 2) as usize;
    let mut top = String::new();
    push_str(&mut top, "╭");
    push_repeat(&mut top, '─', inner);
    push_str(&mut top, "╮");
    let mut mid = String::new();
    push_str(&mut mid, "│");
    push_fit(&mut mid, content, inner);
    push_str(&mut mid, "│");
    let mut bot = String::new();
    push_str(&mut bot, "╰");
    push_repeat(&mut bot, '─', inner);
    push_str(&mut bot, "╯");
    proof {
        reveal_strlit("╭");
        reveal_strlit("╮");
        reveal_strlit("│");
        reveal_strlit("╰");
        reveal_strlit("╯");
        assert(top@ =~= box_top(w as nat));
        assert(mid@ =~= box_mid(content@, w as nat));
        assert(bot@ =~= box_bot(w as nat));
    }
    emit(out, Cmd::MoveTo(col, row - 2));
    emit(out, Cmd::Write(top));
    emit(out, Cmd::MoveTo(col, row - 1));
    emit(out, Cmd::Write(mid));
    emit(out, Cmd::MoveTo(col, row));
    emit(out, Cmd::Write(bot));
    assert(cmd_views(out@) =~= cmd_views(old(out)@) + box_cmds(content@, w, col, row));
}

/// The text of the score box, built.
pub fn score_label(score: u64) -> (r: String)
    ensures
        r@ == score_text(score as nat),
{
    let mut s = String::new();
    push_str(&mut s, "Score: ");
    push_decimal(&mut s, score);
    s
}

/// The text of the health box, built.
pub fn health_label(health: u32) -> (r: String)
    ensures
        r@ == health_text(health as nat),
{
    let mut s = String::new();
    push_str(&mut s, "Health: ");
    let ghost head = s@;
    let mut i: u32 = 0;
    while i < health
        invariant
            i <= health,
            s@ == head + marks(i as nat),
        decreases health - i,
    {
        crate::text::push_char_pair(&mut s, HEALTH_MARK, ' ');
        i = i + 1;
        assert(s@ =~= head + marks(i as nat));
    }
    s
}

/// Draws the status bar: clears the four bottom lines, then the input box,
/// the score box and the health box.
pub fn write_ui(out: &mut Vec<Cmd>, entry: &str, score: u64, health: u32, columns: u16, rows: u16)
    requires
        columns >= 8,
        rows >= 5,
    ensures
        cmd_views(final(out)@) == cmd_views(old(out)@) + status_cmds(
            entry@,
            score as nat,
            health as nat,
            columns,
            rows,
        ),
{
    let ghost start = cmd_views(out@);
    let mut i: u16 = 0;
    while i <= 3
        invariant
            i <= 4,
            rows >= 5,
            cmd_views(out@) == start + Seq::new(
                2 * i as nat,
                |k: int|
                    if k % 2 == 0 {
                        CmdView::MoveTo(0, (rows - k / 2) as u16)
                    } else {
                        CmdView::ClearLine
                    },
            ),
        decreases 4 - i,
    {
        emit(out, Cmd::MoveTo(0, rows - i));
        emit(out, Cmd::ClearLine);
        i = i + 1;
        assert(cmd_views(out@) =~= start + Seq::new(
            2 * i as nat,
            |k: int|
                if k % 2 == 0 {
                    CmdView::MoveTo(0, (rows - k / 2) as u16)
                } else {
                    CmdView::ClearLine
                },
        ));
    }
    let score_s = score_label(score);
    let health_s = health_label(health);
    let bottom = rows - 3;
    let half = columns / 2;
    let quarter = columns / 4;
    write_box(out, entry, half, 0, bottom);
    write_box(out, score_s.as_str(), quarter, half, bottom);
    write_box(out, health_s.as_str(), quarter, half + quarter, bottom);
    assert(cmd_views(out@) =~= start + status_cmds(
        entry@,
        score as nat,
        health as nat,
        columns,
        rows,
    ));
}

/// Writes `text` centred on the row `offset` rows below the middle one.
pub fn wr_ce_txt(out: &mut Vec<Cmd>, text: String, columns: u16, rows: u16, offset: u16)
    requires
        offset <= 1,
    ensures
        cmd_views(final(out)@) == cmd_views(old(out)@) + centered_cmds(
            text@,
            columns,
            rows,
            offset,
        ),
{
    let half_len = text.as_str().unicode_len() / 2;
    let col: u16 = if (columns / 2) as usize >= half_len {
        columns / 2 - half_len as u16
    } else {
        0
    };
    emit(out, Cmd::MoveTo(col, rows / 2 + offset));
    emit(out, Cmd::Write(text));
    assert(cmd_views(out@) =~= cmd_views(old(out)@) + centered_cmds(
        text@,
        columns,
        rows,
        offset,
    ));
}

/// Clears the screen and writes two lines centred in it.
pub fn write_message(out: &mut Vec<Cmd>, l1: String, l2: String, columns: u16, rows: u16)
    ensures
        cmd_views(final(out)@) == cmd_views(old(out)@) + message_cmds(l1@, l2@, columns, rows),
{
    let ghost (a, b) = (l1@, l2@);
    emit(out, Cmd::ClearAll);
    wr_ce_txt(out, l1, columns, rows, 0);
    wr_ce_txt(out, l2, columns, rows, 1);
    assert(cmd_views(out@) =~= cmd_views(old(out)@) + message_cmds(a, b, columns, rows));
}

} // verus!
