use termrender::{Colour, RenderCommand, Renderer, TermOp};

fn fresh(w: usize, h: usize) -> Renderer {
    let mut r = Renderer::new((w, h));
    r.take_output();
    r
}

fn run(r: &mut Renderer, cmd: RenderCommand) -> Vec<TermOp> {
    r.push_cmd(cmd);
    r.update();
    r.take_output()
}

fn plots(ops: &[TermOp]) -> Vec<(usize, usize, char)> {
    ops.iter()
        .filter_map(|op| match op {
            TermOp::Plot(x, y, c) => Some((*x, *y, *c)),
            _ => None,
        })
        .collect()
}

#[test]
fn new_emits_reset_first() {
    let mut r = Renderer::new((20, 10));
    assert_eq!(r.width(), 20);
    assert_eq!(r.height(), 10);
    assert_eq!(r.pending_count(), 0);
    assert_eq!(
        r.take_output(),
        vec![TermOp::ResetAttributes, TermOp::ClearScreen, TermOp::Plot(1, 1, ' ')]
    );
    assert!(r.take_output().is_empty());
}

#[test]
fn update_drains_queue() {
    let mut r = fresh(5, 5);
    r.update();
    assert_eq!(r.pending_count(), 0);
    assert!(r.take_output().is_empty());
    r.push_cmd(RenderCommand::DrawChar(0, 0, 'a'));
    r.push_cmds(vec![RenderCommand::Reset, RenderCommand::DrawChar(1, 1, 'b')]);
    assert_eq!(r.pending_count(), 3);
    r.update();
    assert_eq!(r.pending_count(), 0);
    assert_eq!(
        r.take_output(),
        vec![
            TermOp::Plot(2, 2, 'a'),
            TermOp::Flush,
            TermOp::ResetAttributes,
            TermOp::ClearScreen,
            TermOp::Plot(1, 1, ' '),
            TermOp::Plot(3, 3, 'b'),
            TermOp::Flush,
        ]
    );
}

#[test]
fn colours_are_set_in_order() {
    let mut r = fresh(5, 5);
    r.push_cmds(vec![
        RenderCommand::SetColour(Colour::red()),
        RenderCommand::SetBackground(Colour::blue()),
    ]);
    r.update();
    assert_eq!(
        r.take_output(),
        vec![TermOp::Foreground(Colour::red()), TermOp::Background(Colour::blue())]
    );
}

#[test]
fn coordinates_wrap_around() {
    let mut r = fresh(20, 10);
    let a = run(&mut r, RenderCommand::DrawChar(3, 4, 'x'));
    let b = run(&mut r, RenderCommand::DrawChar(23, 4, 'x'));
    let c = run(&mut r, RenderCommand::DrawChar(3 + 7 * 20, 4 + 10, 'x'));
    assert_eq!(a, vec![TermOp::Plot(5, 6, 'x'), TermOp::Flush]);
    assert_eq!(a, b);
    assert_eq!(a, c);
    let d = run(&mut r, RenderCommand::DrawChar(usize::MAX, 0, 'y'));
    assert_eq!(plots(&d), vec![(usize::MAX % 20 + 2, 2, 'y')]);
}

#[test]
fn point_line_plots_one_cell() {
    let mut r = fresh(20, 10);
    let ops = run(&mut r, RenderCommand::DrawLine(5, 5, 5, 5, '*'));
    assert_eq!(ops, vec![TermOp::Plot(7, 7, '*'), TermOp::Flush]);
}

#[test]
fn horizontal_line_plots_every_column() {
    let mut r = fresh(20, 10);
    let ops = run(&mut r, RenderCommand::DrawLine(0, 0, 10, 0, '-'));
    let cells = plots(&ops);
    assert_eq!(cells.len(), 11);
    for (k, cell) in cells.iter().enumerate() {
        assert_eq!(*cell, (k + 2, 2, '-'));
    }
    assert_eq!(ops.last(), Some(&TermOp::Flush));
}

#[test]
fn backward_line() {
    let mut r = fresh(20, 10);
    let cells = plots(&run(&mut r, RenderCommand::DrawLine(10, 0, 0, 0, '-')));
    let cols: Vec<usize> = cells.iter().map(|c| c.0).collect();
    assert_eq!(cols, vec![12, 11, 10, 9, 8, 7, 6, 5, 4, 3, 2]);
}

#[test]
fn shallow_and_steep_lines_round_down() {
    let mut r = fresh(20, 10);
    let cells = plots(&run(&mut r, RenderCommand::DrawLine(0, 0, 4, 2, '.')));
    assert_eq!(
        cells,
        vec![(2, 2, '.'), (3, 2, '.'), (4, 3, '.'), (5, 3, '.'), (6, 4, '.')]
    );
    let cells = plots(&run(&mut r, RenderCommand::DrawLine(0, 3, 4, 0, '.')));
    assert_eq!(
        cells,
        vec![(2, 5, '.'), (3, 4, '.'), (4, 3, '.'), (5, 2, '.'), (6, 2, '.')]
    );
    let cells = plots(&run(&mut r, RenderCommand::DrawLine(1, 0, 2, 3, '|')));
    assert_eq!(
        cells,
        vec![(3, 2, '|'), (3, 3, '|'), (3, 4, '|'), (4, 5, '|')]
    );
}

#[test]
fn string_newline_returns_to_start_column() {
    let mut r = fresh(20, 10);
    let ops = run(&mut r, RenderCommand::DrawString(2, 3, String::from("ab\ncd")));
    assert_eq!(
        ops,
        vec![
            TermOp::Plot(4, 5, 'a'),
            TermOp::Plot(5, 5, 'b'),
            TermOp::Plot(4, 6, 'c'),
            TermOp::Plot(5, 6, 'd'),
            TermOp::Flush,
        ]
    );
}

#[test]
fn string_wraps_around_canvas() {
    let mut r = fresh(20, 10);
    let cells = plots(&run(&mut r, RenderCommand::DrawString(19, 9, String::from("ab\nc"))));
    assert_eq!(cells, vec![(21, 11, 'a'), (2, 11, 'b'), (21, 2, 'c')]);
    let ops = run(&mut r, RenderCommand::DrawString(0, 0, String::new()));
    assert_eq!(ops, vec![TermOp::Flush]);
}

#[test]
fn border_covers_frame_only() {
    let mut r = fresh(10, 5);
    let ops = run(&mut r, RenderCommand::DrawBorder('#'));
    let cells = plots(&ops);
    assert_eq!(cells.len(), 2 * 11 + 2 * 7);
    for &(x, y, c) in &cells {
        assert_eq!(c, '#');
        let (rx, ry) = (x - 1, y - 1);
        assert!(rx <= 11 && ry <= 6);
        assert!(rx == 0 || rx == 11 || ry == 0 || ry == 6);
    }
    for rx in 0..=11usize {
        for ry in 0..=6usize {
            if rx == 0 || rx == 11 || ry == 0 || ry == 6 {
                assert!(cells.contains(&(rx + 1, ry + 1, '#')));
            }
        }
    }
    assert_eq!(ops.last(), Some(&TermOp::Flush));
}

#[test]
fn clear_fills_canvas_and_rim() {
    let mut r = fresh(10, 5);
    let ops = run(&mut r, RenderCommand::Clear(Colour::green()));
    assert_eq!(
        &ops[..4],
        &[
            TermOp::ResetAttributes,
            TermOp::ClearScreen,
            TermOp::Plot(1, 1, ' '),
            TermOp::Background(Colour::green()),
        ]
    );
    let fill = plots(&ops[4..]);
    assert_eq!(fill.len(), ops.len() - 4);
    assert_eq!(fill.len(), 12 * 7);
    assert_eq!(fill[0], (1, 1, ' '));
    assert_eq!(fill[1], (1, 2, ' '));
    assert_eq!(fill[7], (2, 1, ' '));
    assert_eq!(fill[12 * 7 - 1], (12, 7, ' '));
}

#[test]
fn end_to_end_frame() {
    let mut r = Renderer::new((20, 10));
    let first = r.take_output();
    assert_eq!(first[0], TermOp::ResetAttributes);
    assert_eq!(first[1], TermOp::ClearScreen);
    r.push_cmds(vec![
        RenderCommand::Clear(Colour::black()),
        RenderCommand::DrawBorder('#'),
        RenderCommand::DrawString(1, 1, String::from("hi")),
    ]);
    r.update();
    assert_eq!(r.pending_count(), 0);
    let ops = r.take_output();
    let fill = 22 * 12;
    let border = 2 * 21 + 2 * 12;
    assert_eq!(ops.len(), 4 + fill + border + 1 + 3);
    assert_eq!(ops[3], TermOp::Background(Colour::black()));
    assert!(ops[4..4 + fill].iter().all(|op| matches!(op, TermOp::Plot(_, _, ' '))));
    let b = 4 + fill;
    assert!(ops[b..b + border].iter().all(|op| matches!(op, TermOp::Plot(_, _, '#'))));
    assert_eq!(ops[b + border], TermOp::Flush);
    assert_eq!(
        &ops[b + border + 1..],
        &[TermOp::Plot(3, 3, 'h'), TermOp::Plot(4, 3, 'i'), TermOp::Flush]
    );
}
