use quote_typer::render::{colored_before, render, render_keystroke, Color, ColoredChar, DrawOp};
use quote_typer::stats::Stats;
use quote_typer::typing::SessionType;

fn chars(s: &str) -> Vec<char> {
    s.chars().collect()
}

#[test]
fn colored_char_marks_correctness() {
    assert_eq!(ColoredChar::new('a', 'a'), ColoredChar { character: 'a', color: Color::Green });
    assert_eq!(ColoredChar::new('x', 'a'), ColoredChar { character: 'a', color: Color::Red });
}

#[test]
fn colored_char_shows_typed_char_on_space() {
    assert_eq!(ColoredChar::new('x', ' '), ColoredChar { character: 'x', color: Color::Red });
    assert_eq!(ColoredChar::new(' ', ' '), ColoredChar { character: ' ', color: Color::Green });
}

#[test]
fn colored_before_is_nearest_first() {
    let r = colored_before(&chars("abc"), &chars("ax"));
    assert_eq!(
        r,
        vec![
            ColoredChar { character: 'b', color: Color::Red },
            ColoredChar { character: 'a', color: Color::Green },
        ]
    );
}

#[test]
fn render_small_line() {
    let ops = render(&chars("ab"), &chars("a"), None, 10, 4);
    assert_eq!(
        ops,
        vec![
            DrawOp::MoveTo(1, 0),
            DrawOp::MoveTo(0, 0),
            DrawOp::SetColor(Color::Green),
            DrawOp::PrintChar('a'),
            DrawOp::MoveTo(1, 0),
            DrawOp::SetColor(Color::Reset),
            DrawOp::PrintChar('b'),
            DrawOp::MoveToNextLine,
            DrawOp::ClearUntilNewLine,
            DrawOp::MoveTo(1, 0),
        ]
    );
}

#[test]
fn render_with_stats_writes_status_at_bottom() {
    let stats = Stats::new(SessionType::SingleQuote);
    let ops = render(&chars("a"), &chars(""), Some(stats), 10, 4);
    assert_eq!(
        ops,
        vec![
            DrawOp::MoveTo(0, 3),
            DrawOp::PrintStatus(stats),
            DrawOp::MoveTo(0, 0),
            DrawOp::MoveTo(0, 0),
            DrawOp::SetColor(Color::Reset),
            DrawOp::PrintChar('a'),
            DrawOp::MoveToNextLine,
            DrawOp::ClearUntilNewLine,
            DrawOp::MoveTo(0, 0),
        ]
    );
}

#[test]
fn render_wrapped_cursor_position() {
    let target: Vec<char> = "abcdefghijklmnopqrstuvwxy".chars().collect();
    let typed: Vec<char> = target[..10].to_vec();
    let ops = render(&target, &typed, None, 10, 24);
    assert_eq!(ops[0], DrawOp::MoveTo(0, 1));
    assert_eq!(ops[1], DrawOp::MoveTo(9, 0));
    assert_eq!(ops[3], DrawOp::PrintChar('j'));
    assert_eq!(*ops.last().unwrap(), DrawOp::MoveTo(0, 1));
    let typed: Vec<char> = target[..19].to_vec();
    let ops = render(&target, &typed, None, 10, 24);
    assert_eq!(ops[0], DrawOp::MoveTo(9, 1));
    let typed: Vec<char> = target[..20].to_vec();
    let ops = render(&target, &typed, None, 10, 24);
    assert_eq!(ops[0], DrawOp::MoveTo(0, 2));
}

#[test]
fn render_stops_writing_at_screen_edges() {
    // a 2 by 2 grid holds four cells; the cursor sits in the last one
    let ops = render(&chars("abcdef"), &chars("abc"), None, 2, 2);
    let prints = ops.iter().filter(|op| matches!(op, DrawOp::PrintChar(_))).count();
    // the three typed characters are drawn, nothing fits after the last cell
    assert_eq!(ops[0], DrawOp::MoveTo(1, 1));
    assert_eq!(prints, 3);
}

#[test]
fn keystroke_append_redraws_one_cell() {
    let ops = render_keystroke(&chars("abc"), &chars("ab"), None, 1, 10, 4);
    assert_eq!(
        ops,
        Some(vec![
            DrawOp::MoveTo(1, 0),
            DrawOp::SetColor(Color::Green),
            DrawOp::PrintChar('b'),
            DrawOp::MoveTo(2, 0),
        ])
    );
    let ops = render_keystroke(&chars("abc"), &chars("ax"), None, 1, 10, 4);
    assert_eq!(
        ops,
        Some(vec![
            DrawOp::MoveTo(1, 0),
            DrawOp::SetColor(Color::Red),
            DrawOp::PrintChar('b'),
            DrawOp::MoveTo(2, 0),
        ])
    );
}

#[test]
fn keystroke_removal_restores_target_char() {
    let ops = render_keystroke(&chars("abc"), &chars("a"), None, 2, 10, 4);
    assert_eq!(
        ops,
        Some(vec![
            DrawOp::MoveTo(1, 0),
            DrawOp::SetColor(Color::Reset),
            DrawOp::PrintChar('b'),
            DrawOp::MoveTo(1, 0),
        ])
    );
}

#[test]
fn keystroke_removal_across_row_boundary() {
    let ops = render_keystroke(&chars("abcdef"), &chars("abc"), None, 4, 4, 10);
    assert_eq!(
        ops,
        Some(vec![
            DrawOp::MoveTo(3, 0),
            DrawOp::SetColor(Color::Reset),
            DrawOp::PrintChar('d'),
            DrawOp::MoveTo(3, 0),
        ])
    );
}

#[test]
fn keystroke_without_change_moves_cursor_only() {
    let stats = Stats::new(SessionType::SingleQuote);
    let ops = render_keystroke(&chars("abc"), &chars("ab"), Some(stats), 2, 10, 4);
    assert_eq!(
        ops,
        Some(vec![DrawOp::MoveTo(0, 3), DrawOp::PrintStatus(stats), DrawOp::MoveTo(2, 0)])
    );
}

#[test]
fn keystroke_falls_back_to_full_redraw() {
    // two positions changed at once
    assert_eq!(render_keystroke(&chars("abc"), &chars("abc"), None, 1, 10, 4), None);
    // the step would leave the grid, the held row keeps the cursor in place
    assert_eq!(render_keystroke(&chars("abcdef"), &chars("abcd"), None, 3, 2, 2), None);
    // a line break moves the stepped cursor off the row-major position
    assert_eq!(render_keystroke(&chars("a\nb"), &chars("a\n"), None, 1, 10, 4), None);
    // an earlier length beyond the target
    assert_eq!(render_keystroke(&chars("ab"), &chars("a"), None, 5, 10, 4), None);
}

#[test]
fn keystroke_within_held_row() {
    let ops = render_keystroke(&chars("abcdef"), &chars("abc"), None, 2, 2, 2);
    assert_eq!(
        ops,
        Some(vec![
            DrawOp::MoveTo(0, 1),
            DrawOp::SetColor(Color::Green),
            DrawOp::PrintChar('c'),
            DrawOp::MoveTo(1, 1),
        ])
    );
}

#[test]
fn colored_char_shows_typed_line_break_at_space() {
    assert_eq!(ColoredChar::new('\n', ' '), ColoredChar { character: '\n', color: Color::Red });
    assert_eq!(ColoredChar::new('x', '\n'), ColoredChar { character: '\n', color: Color::Red });
}

#[test]
fn render_enter_at_target_space() {
    let ops = render(&chars("a b"), &chars("a\n"), None, 10, 4);
    assert_eq!(
        ops,
        vec![
            DrawOp::MoveTo(2, 0),
            DrawOp::MoveTo(1, 0),
            DrawOp::SetColor(Color::Red),
            DrawOp::PrintChar('\n'),
            DrawOp::MoveTo(0, 0),
            DrawOp::SetColor(Color::Green),
            DrawOp::PrintChar('a'),
            DrawOp::MoveTo(2, 0),
            DrawOp::SetColor(Color::Reset),
            DrawOp::PrintChar('b'),
            DrawOp::MoveToNextLine,
            DrawOp::ClearUntilNewLine,
            DrawOp::MoveTo(2, 0),
        ]
    );
}

#[test]
fn keystroke_steps_over_target_character() {
    let ops = render_keystroke(&chars("a b"), &chars("a\n"), None, 1, 10, 4);
    assert_eq!(
        ops,
        Some(vec![
            DrawOp::MoveTo(1, 0),
            DrawOp::SetColor(Color::Red),
            DrawOp::PrintChar('\n'),
            DrawOp::MoveTo(2, 0),
        ])
    );
}
