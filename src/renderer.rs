//! The command queue and the translation of drawing commands into terminal
//! operations.
use vstd::prelude::*;
use vstd::arithmetic::div_mod::{
    lemma_fundamental_div_mod,
    lemma_fundamental_div_mod_converse,
    lemma_mod_multiples_vanish,
};
use vstd::string::StrSliceExecFns;
use crate::colour::Colour;

verus! {

/// One operation on the terminal. Positions are 1-based terminal cells.
#[derive(Clone, Copy, Debug, PartialEq, Eq, Structural)]
pub enum TermOp {
    /// Restore the default colours and attributes.
    ResetAttributes,
    /// Erase the whole screen.
    ClearScreen,
    /// Move the cursor to (column, row) and write the character there.
    Plot(usize, usize, char),
    /// Make a colour the foreground of the characters written next.
    Foreground(Colour),
    /// Make a colour the background of the characters written next.
    Background(Colour),
    /// Push everything written so far out to the terminal.
    Flush,
}

/// A drawing command. Coordinates of `DrawChar`, `DrawLine` and `DrawString`
/// are logical: they wrap around the canvas.
#[derive(Clone, Debug, PartialEq, Eq)]
pub enum RenderCommand {
    /// Reset the terminal, then paint the canvas and its rim with a background colour.
    Clear(Colour),
    /// Restore default colours and erase the screen.
    Reset,
    /// Set the foreground colour for later characters.
    SetColour(Colour),
    /// Set the background colour for later characters.
    SetBackground(Colour),
    /// Plot one character at (x, y).
    DrawChar(usize, usize, char),
    /// Plot a straight line of a character from (x1, y1) to (x2, y2).
    DrawLine(usize, usize, usize, usize, char),
    /// Write text from (x, y); a newline goes back to column x on the next row.
    DrawString(usize, usize, String),
    /// Plot a frame of a character one cell outside the canvas.
    DrawBorder(char),
}

/// A canvas of fixed size with a queue of pending commands and the terminal
/// operations that replaying them produced.
pub struct Renderer {
    width: usize,
    height: usize,
    commands: Vec<RenderCommand>,
    output: Vec<TermOp>,
}

/// A canvas side: at least one cell, and small enough that the frame around
/// it has terminal coordinates.
pub open spec fn side_ok(n: int) -> bool {
    1 <= n <= usize::MAX - 2
}

/// Plot at a logical cell: the coordinates wrap modulo the canvas size, and
/// logical (0, 0) is terminal cell (2, 2), just inside the frame.
pub open spec fn logical_plot(w: int, h: int, x: int, y: int, c: char) -> TermOp {
    TermOp::Plot((x % w + 2) as usize, (y % h + 2) as usize, c)
}

/// Plot at a real cell: a plain 1-based offset, with no wrapping.
pub open spec fn real_plot(x: int, y: int, c: char) -> TermOp {
    TermOp::Plot((x + 1) as usize, (y + 1) as usize, c)
}

/// Default attributes, an erased screen, and a space at the top left corner.
pub open spec fn reset_ops() -> Seq<TermOp> {
    seq![TermOp::ResetAttributes, TermOp::ClearScreen, real_plot(0, 0, ' ')]
}

/// The `i`-th cell of the fill: column by column, each column top to bottom.
pub open spec fn fill_op(h: int, i: int) -> TermOp {
    real_plot(i / (h + 2), i % (h + 2), ' ')
}

/// Spaces on every real cell from (0, 0) to (w + 1, h + 1).
pub open spec fn fill_ops(w: int, h: int) -> Seq<TermOp> {
    Seq::new(((w + 2) * (h + 2)) as nat, |i: int| fill_op(h, i))
}

pub open spec fn clear_ops(w: int, h: int, c: Colour) -> Seq<TermOp> {
    reset_ops() + seq![TermOp::Background(c)] + fill_ops(w, h)
}

/// The `i`-th plot of the frame's top and bottom: for each column in turn,
/// its top cell and then its bottom cell.
pub open spec fn frame_row_op(h: int, c: char, i: int) -> TermOp {
    real_plot(i / 2, if i % 2 == 0 { 0 } else { h + 1 }, c)
}

/// The `i`-th plot of the frame's sides: for each row in turn, its left cell
/// and then its right cell.
pub open spec fn frame_side_op(w: int, c: char, i: int) -> TermOp {
    real_plot(if i % 2 == 0 { 0 } else { w + 1 }, i / 2, c)
}

/// The frame: rows 0 and h + 1 over columns 0 ..= w, then columns 0 and
/// w + 1 over rows 0 ..= h + 1.
pub open spec fn border_ops(w: int, h: int, c: char) -> Seq<TermOp> {
    Seq::new((2 * (w + 1)) as nat, |i: int| frame_row_op(h, c, i)) + Seq::new(
        (2 * (h + 2)) as nat,
        |i: int| frame_side_op(w, c, i),
    )
}

pub open spec fn abs_diff(a: int, b: int) -> int {
    if a <= b { b - a } else { a - b }
}

/// The number of steps of a line: the span of its longer axis.
pub open spec fn line_span(x1: int, y1: int, x2: int, y2: int) -> int {
    let dx = abs_diff(x1, x2);
    let dy = abs_diff(y1, y2);
    if dx >= dy { dx } else { dy }
}

/// One coordinate of a line's `k`-th point: the start advanced by `k` steps
/// of `(b - a) / step`, rounded down.
pub open spec fn line_coord(a: int, b: int, k: int, step: int) -> int {
    if step == 0 { a } else { a + (k * (b - a)) / step }
}

/// The points 0 ..= step of a line, both ends included.
pub open spec fn line_ops(w: int, h: int, x1: int, y1: int, x2: int, y2: int, c: char) -> Seq<TermOp> {
    let step = line_span(x1, y1, x2, y2);
    Seq::new(
        (step + 1) as nat,
        |k: int| logical_plot(w, h, line_coord(x1, x2, k, step), line_coord(y1, y2, k, step), c),
    )
}

/// Where the next character of a text goes once `text` has been written from
/// (x0, y0).
pub open spec fn string_cursor(x0: int, y0: int, text: Seq<char>) -> (int, int)
    decreases text.len(),
{
    if text.len() == 0 {
        (x0, y0)
    } else {
        let (x, y) = string_cursor(x0, y0, text.drop_last());
        if text.last() == '\n' { (x0, y + 1) } else { (x + 1, y) }
    }
}

/// The plots that writing `text` from (x0, y0) makes: each character but a
/// newline at the cursor.
pub open spec fn string_ops(w: int, h: int, x0: int, y0: int, text: Seq<char>) -> Seq<TermOp>
    decreases text.len(),
{
    if text.len() == 0 {
        Seq::empty()
    } else {
        let prev = text.drop_last();
        let (x, y) = string_cursor(x0, y0, prev);
        if text.last() == '\n' {
            string_ops(w, h, x0, y0, prev)
        } else {
            string_ops(w, h, x0, y0, prev).push(logical_plot(w, h, x, y, text.last()))
        }
    }
}

/// What one command does to the terminal on a `w` by `h` canvas.
pub open spec fn command_ops(w: int, h: int, cmd: RenderCommand) -> Seq<TermOp> {
    match cmd {
        RenderCommand::Clear(c) => clear_ops(w, h, c),
        RenderCommand::Reset => reset_ops(),
        RenderCommand::SetColour(c) => seq![TermOp::Foreground(c)],
        RenderCommand::SetBackground(c) => seq![TermOp::Background(c)],
        RenderCommand::DrawChar(x, y, c) => seq![
            logical_plot(w, h, x as int, y as int, c),
            TermOp::Flush,
        ],
        RenderCommand::DrawLine(x1, y1, x2, y2, c) => line_ops(
            w,
            h,
            x1 as int,
            y1 as int,
            x2 as int,
            y2 as int,
            c,
        ).push(TermOp::Flush),
        RenderCommand::DrawString(x, y, s) => string_ops(w, h, x as int, y as int, s@).push(
            TermOp::Flush,
        ),
        RenderCommand::DrawBorder(c) => border_ops(w, h, c).push(TermOp::Flush),
    }
}

/// What a sequence of commands does, replayed in order.
pub open spec fn commands_ops(w: int, h: int, cmds: Seq<RenderCommand>) -> Seq<TermOp>
    decreases cmds.len(),
{
    if cmds.len() == 0 {
        Seq::empty()
    } else {
        commands_ops(w, h, cmds.drop_last()) + command_ops(w, h, cmds.last())
    }
}

proof fn lemma_mod_succ(a: int, w: int)
    requires
        a >= 0,
        w > 0,
    ensures
        (a + 1) % w == if a % w + 1 == w { 0 } else { a % w + 1 },
{
    lemma_fundamental_div_mod(a, w);
    let q = a / w;
    let r = a % w;
    if r + 1 == w {
        assert(a + 1 == (q + 1) * w + 0) by (nonlinear_arith)
            requires
                a == w * q + r,
                r + 1 == w,
        ;
        lemma_fundamental_div_mod_converse(a + 1, w, q + 1, 0);
    } else {
        assert(a + 1 == q * w + (r + 1)) by (nonlinear_arith)
            requires
                a == w * q + r,
        ;
        lemma_fundamental_div_mod_converse(a + 1, w, q, r + 1);
    }
}

/// The line coordinate `line_coord(a, b, k, step)`, computed without overflow.
fn line_coord_exec(a: usize, b: usize, k: usize, step: usize) -> (r: usize)
    requires
        k <= step,
        abs_diff(a as int, b as int) <= step,
    ensures
        r == line_coord(a as int, b as int, k as int, step as int),
{
    if step == 0 {
        return a;
    }
    let s: u128 = step as u128;
    if a <= b {
        let d: u128 = (b - a) as u128;
        let kk: u128 = k as u128;
        assert(kk * d <= s * d) by (nonlinear_arith)
            requires
                kk <= s,
        ;
        assert(s * d <= 0xffff_ffff_ffff_ffffu128 * 0xffff_ffff_ffff_ffffu128) by (nonlinear_arith)
            requires
                s <= 0xffff_ffff_ffff_ffffu128,
                d <= 0xffff_ffff_ffff_ffffu128,
        ;
        let off: u128 = (kk * d) / s;
        proof {
            let n = kk as int * d as int;
            lemma_fundamental_div_mod(n, s as int);
            assert(off <= d) by (nonlinear_arith)
                requires
                    n == s * off + n % (s as int),
                    n % (s as int) >= 0,
                    n <= s * d,
                    s > 0,
            ;
        }
        a + off as usize
    } else {
        let d: u128 = (a - b) as u128;
        let rest: u128 = (step - k) as u128;
        assert(rest * d <= s * d) by (nonlinear_arith)
            requires
                rest <= s,
        ;
        assert(s * d <= 0xffff_ffff_ffff_ffffu128 * 0xffff_ffff_ffff_ffffu128) by (nonlinear_arith)
            requires
                s <= 0xffff_ffff_ffff_ffffu128,
                d <= 0xffff_ffff_ffff_ffffu128,
        ;
        let off: u128 = (rest * d) / s;
        proof {
            let si = s as int;
            let m = k as int * d as int;
            let q = (-m) / si;
            let r = (-m) % si;
            lemma_fundamental_div_mod(-m, si);
            assert(rest * d == (q + d) * si + r) by (nonlinear_arith)
                requires
                    -m == si * q + r,
                    m == k * d,
                    rest == si - k,
            ;
            lemma_fundamental_div_mod_converse((rest * d) as int, si, q + d, r);
            assert(k as int * (b as int - a as int) == -m) by (nonlinear_arith)
                requires
                    m == k * d,
                    d == a - b,
            ;
            let n = rest as int * d as int;
            lemma_fundamental_div_mod(n, si);
            assert(off <= d) by (nonlinear_arith)
                requires
                    n == si * off + n % si,
                    n % si >= 0,
                    n <= si * d,
                    si > 0,
            ;
        }
        b + off as usize
    }
}

/// Whether an operation plots at terminal cell (col, row).
pub open spec fn plots_at(op: TermOp, col: int, row: int) -> bool {
    match op {
        TermOp::Plot(c, r, _) => c == col && r == row,
        _ => false,
    }
}

/// The terminal cells that a sequence of operations plots at.
pub open spec fn plotted_cells(ops: Seq<TermOp>) -> Set<(int, int)> {
    Set::new(|p: (int, int)| exists|i: int| 0 <= i < ops.len() && plots_at(#[trigger] ops[i], p.0, p.1))
}

/// Whether real cell (x, y) lies on the rectangle from (0, 0) to
/// (w + 1, h + 1), that is one cell outside a `w` by `h` canvas.
pub open spec fn on_frame(w: int, h: int, x: int, y: int) -> bool {
    &&& 0 <= x <= w + 1
    &&& 0 <= y <= h + 1
    &&& (x == 0 || x == w + 1 || y == 0 || y == h + 1)
}

/// Drawing a character at logical column `x` or at `x + k * width` gives the
/// same operations: logical coordinates wrap around the canvas.
pub proof fn lemma_wraparound(w: int, h: int, x: usize, y: usize, k: nat, c: char)
    requires
        side_ok(w),
        side_ok(h),
        x + k * w <= usize::MAX,
    ensures
        command_ops(w, h, RenderCommand::DrawChar(x, y, c)) == command_ops(
            w,
            h,
            RenderCommand::DrawChar((x + k * w) as usize, y, c),
        ),
{
    lemma_mod_multiples_vanish(k as int, x as int, w);
    assert(w * k + x == x + k * w) by (nonlinear_arith);
}

/// A line whose two ends are the same cell plots that one cell only.
pub proof fn lemma_point_line(w: int, h: int, x: int, y: int, c: char)
    requires
        side_ok(w),
        side_ok(h),
    ensures
        line_ops(w, h, x, y, x, y, c) == seq![logical_plot(w, h, x, y, c)],
{
    assert(line_ops(w, h, x, y, x, y, c) =~= seq![logical_plot(w, h, x, y, c)]);
}

/// A horizontal line from column x1 to column x2 >= x1 plots x2 - x1 + 1
/// cells, the `k`-th at column x1 + k on its row.
pub proof fn lemma_horizontal_line(w: int, h: int, x1: int, x2: int, y: int, c: char)
    requires
        side_ok(w),
        side_ok(h),
        0 <= x1 <= x2,
    ensures
        line_ops(w, h, x1, y, x2, y, c).len() == x2 - x1 + 1,
        forall|k: int|
            0 <= k <= x2 - x1 ==> #[trigger] line_ops(w, h, x1, y, x2, y, c)[k] == logical_plot(
                w,
                h,
                x1 + k,
                y,
                c,
            ),
{
    let step = x2 - x1;
    assert forall|k: int| 0 <= k <= step implies line_coord(x1, x2, k, step) == x1 + k
        && line_coord(y, y, k, step) == y by {
        if step > 0 {
            lemma_fundamental_div_mod_converse(k * step, step, k, 0);
            assert(k * (y - y) == 0) by (nonlinear_arith);
            lemma_fundamental_div_mod_converse(0, step, 0, 0);
        }
    }
}

/// The border plots exactly the cells of the rectangle one cell outside the
/// canvas, and nothing inside it.
pub proof fn lemma_border_frame(w: int, h: int, c: char)
    requires
        side_ok(w),
        side_ok(h),
    ensures
        plotted_cells(border_ops(w, h, c)) == Set::new(
            |p: (int, int)| on_frame(w, h, p.0 - 1, p.1 - 1),
        ),
{
    let ops = border_ops(w, h, c);
    let top = 2 * (w + 1);
    let frame = Set::new(|p: (int, int)| on_frame(w, h, p.0 - 1, p.1 - 1));
    assert forall|p: (int, int)| plotted_cells(ops).contains(p) <==> frame.contains(p) by {
        let x = p.0 - 1;
        let y = p.1 - 1;
        if plotted_cells(ops).contains(p) {
            let i = choose|i: int| 0 <= i < ops.len() && plots_at(#[trigger] ops[i], p.0, p.1);
            if i < top {
                assert(ops[i] == frame_row_op(h, c, i));
            } else {
                assert(ops[i] == frame_side_op(w, c, i - top));
            }
        }
        if frame.contains(p) {
            let i = if y == 0 && x <= w {
                2 * x
            } else if y == h + 1 && x <= w {
                2 * x + 1
            } else if x == 0 {
                top + 2 * y
            } else {
                top + 2 * y + 1
            };
            if i < top {
                assert(ops[i] == frame_row_op(h, c, i));
            } else {
                assert(ops[i] == frame_side_op(w, c, i - top));
            }
            assert(plots_at(ops[i], p.0, p.1));
        }
    }
    assert(plotted_cells(ops) =~= frame);
}

impl Renderer {
    /// The canvas width.
    pub closed spec fn spec_width(&self) -> int {
        self.width as int
    }

    /// The canvas height.
    pub closed spec fn spec_height(&self) -> int {
        self.height as int
    }

    /// The commands waiting for the next update, oldest first.
    pub closed spec fn pending(&self) -> Seq<RenderCommand> {
        self.commands@
    }

    /// The terminal operations produced and not yet taken.
    pub closed spec fn emitted(&self) -> Seq<TermOp> {
        self.output@
    }

    /// Both sides are valid canvas sides; they never change after construction.
    pub open spec fn wf(&self) -> bool {
        side_ok(self.spec_width()) && side_ok(self.spec_height())
    }

    fn plot_logical(&self, out: &mut Vec<TermOp>, x: usize, y: usize, c: char)
        requires
            self.wf(),
        ensures
            final(out)@ == old(out)@.push(
                logical_plot(self.spec_width(), self.spec_height(), x as int, y as int, c),
            ),
    {
        out.push(TermOp::Plot(x % self.width + 2, y % self.height + 2, c));
    }
    /// Plots a straight line from (x1, y1) to (x2, y2), both ends included,
    /// stepping one cell at a time along the longer axis.
    fn draw_line(&self, out: &mut Vec<TermOp>, x1: usize, y1: usize, x2: usize, y2: usize, c: char)
        requires
            self.wf(),
        ensures
            final(out)@ == old(out)@ + line_ops(
                self.spec_width(),
                self.spec_height(),
                x1 as int,
                y1 as int,
                x2 as int,
                y2 as int,
                c,
            ),
    {
        let dx: usize = if x1 <= x2 { x2 - x1 } else { x1 - x2 };
        let dy: usize = if y1 <= y2 { y2 - y1 } else { y1 - y2 };
        let step: usize = if dx >= dy { dx } else { dy };
        let ghost line = line_ops(
            self.spec_width(),
            self.spec_height(),
            x1 as int,
            y1 as int,
            x2 as int,
            y2 as int,
            c,
        );
        let ghost start = old(out)@;
        let mut k: usize = 0;
        while k < step
            invariant
                self.wf(),
                k <= step,
                step == line_span(x1 as int, y1 as int, x2 as int, y2 as int),
                line.len() == step + 1,
                line == line_ops(
                    self.spec_width(),
                    self.spec_height(),
                    x1 as int,
                    y1 as int,
                    x2 as int,
                    y2 as int,
                    c,
                ),
                out@ == start + line.take(k as int),
            decreases step - k,
        {
            let x = line_coord_exec(x1, x2, k, step);
            let y = line_coord_exec(y1, y2, k, step);
            self.plot_logical(out, x, y, c);
            assert(line.take(k as int + 1) =~= line.take(k as int).push(line[k as int]));
            k = k + 1;
        }
        let x = line_coord_exec(x1, x2, step, step);
        let y = line_coord_exec(y1, y2, step, step);
        self.plot_logical(out, x, y, c);
        assert(line.take(step as int).push(line[step as int]) =~= line);
    }
    /// Writes text from (x0, y0): each character goes one column right of
    /// the previous one, and a newline goes back to column x0 on the next row.
    fn draw_string(&self, out: &mut Vec<TermOp>, x0: usize, y0: usize, text: &String)
        requires
            self.wf(),
        ensures
            final(out)@ == old(out)@ + string_ops(
                self.spec_width(),
                self.spec_height(),
                x0 as int,
                y0 as int,
                text@,
            ),
    {
        let w = self.width;
        let h = self.height;
        let ghost wi = w as int;
        let ghost hi = h as int;
        let ghost start = old(out)@;
        let n = text.as_str().unicode_len();
        let first_x: usize = x0 % w;
        let mut x: usize = first_x;
        let mut y: usize = y0 % h;
        let ghost mut gx: int = x0 as int;
        let ghost mut gy: int = y0 as int;
        let mut i: usize = 0;
        while i < n
            invariant
                self.wf(),
                w == self.spec_width(),
                h == self.spec_height(),
                wi == w,
                hi == h,
                n == text@.len(),
                i <= n,
                first_x == x0 % w,
                (gx, gy) == string_cursor(x0 as int, y0 as int, text@.take(i as int)),
                gx >= 0,
                gy >= 0,
                x == gx % wi,
                y == gy % hi,
                out@ == start + string_ops(wi, hi, x0 as int, y0 as int, text@.take(i as int)),
            decreases n - i,
        {
            let c = text.as_str().get_char(i);
            let ghost prefix = text@.take(i as int + 1);
            assert(prefix.drop_last() =~= text@.take(i as int));
            assert(prefix.last() == c);
            proof {
                lemma_mod_succ(gx, wi);
                lemma_mod_succ(gy, hi);
            }
            if c == '\n' {
                x = first_x;
                y = if y + 1 == h { 0 } else { y + 1 };
                proof {
                    gx = x0 as int;
                    gy = gy + 1;
                }
            } else {
                out.push(TermOp::Plot(x + 2, y + 2, c));
                x = if x + 1 == w { 0 } else { x + 1 };
                proof {
                    gx = gx + 1;
                }
            }
            i = i + 1;
        }
        assert(text@.take(n as int) =~= text@);
    }

    /// Plots the frame one cell outside the canvas, in real coordinates.
    fn draw_border(&self, out: &mut Vec<TermOp>, c: char)
        requires
            self.wf(),
        ensures
            final(out)@ == old(out)@ + border_ops(self.spec_width(), self.spec_height(), c),
    {
        let w = self.width;
        let h = self.height;
        let ghost start = old(out)@;
        let mut x: usize = 0;
        while x < w + 1
            invariant
                self.wf(),
                w == self.spec_width(),
                h == self.spec_height(),
                x <= w + 1,
                out@ == start + Seq::new((2 * x) as nat, |i: int| frame_row_op(h as int, c, i)),
            decreases w + 1 - x,
        {
            out.push(TermOp::Plot(x + 1, 1, c));
            out.push(TermOp::Plot(x + 1, h + 2, c));
            assert(Seq::new((2 * (x + 1)) as nat, |i: int| frame_row_op(h as int, c, i)) =~= Seq::new(
                (2 * x) as nat,
                |i: int| frame_row_op(h as int, c, i),
            ).push(frame_row_op(h as int, c, 2 * x)).push(frame_row_op(h as int, c, 2 * x + 1)));
            x = x + 1;
        }
        let ghost rows = out@;
        let mut y: usize = 0;
        while y < h + 2
            invariant
                self.wf(),
                w == self.spec_width(),
                h == self.spec_height(),
                y <= h + 2,
                out@ == rows + Seq::new((2 * y) as nat, |i: int| frame_side_op(w as int, c, i)),
            decreases h + 2 - y,
        {
            out.push(TermOp::Plot(1, y + 1, c));
            out.push(TermOp::Plot(w + 2, y + 1, c));
            assert(Seq::new((2 * (y + 1)) as nat, |i: int| frame_side_op(w as int, c, i)) =~= Seq::new(
                (2 * y) as nat,
                |i: int| frame_side_op(w as int, c, i),
            ).push(frame_side_op(w as int, c, 2 * y)).push(frame_side_op(w as int, c, 2 * y + 1)));
            y = y + 1;
        }
        assert(out@ =~= start + border_ops(w as int, h as int, c));
    }

    /// Resets the terminal.
    fn clear(out: &mut Vec<TermOp>)
        ensures
            final(out)@ == old(out)@ + reset_ops(),
    {
        out.push(TermOp::ResetAttributes);
        out.push(TermOp::ClearScreen);
        out.push(TermOp::Plot(1, 1, ' '));
        assert(out@ =~= old(out)@ + reset_ops());
    }

    /// Resets the terminal, then paints every real cell from (0, 0) to
    /// (width + 1, height + 1) with the background colour.
    fn clear_bg(&self, out: &mut Vec<TermOp>, colour: Colour)
        requires
            self.wf(),
        ensures
            final(out)@ == old(out)@ + clear_ops(self.spec_width(), self.spec_height(), colour),
    {
        let w = self.width;
        let h = self.height;
        let ghost hh = h as int + 2;
        Self::clear(out);
        out.push(TermOp::Background(colour));
        let ghost start = out@;
        let mut x: usize = 0;
        while x < w + 2
            invariant
                self.wf(),
                w == self.spec_width(),
                h == self.spec_height(),
                hh == h + 2,
                x <= w + 2,
                out@ == start + Seq::new((x * hh) as nat, |i: int| fill_op(h as int, i)),
            decreases w + 2 - x,
        {
            let mut y: usize = 0;
            while y < h + 2
                invariant
                    self.wf(),
                    w == self.spec_width(),
                    h == self.spec_height(),
                    hh == h + 2,
                    x < w + 2,
                    y <= h + 2,
                    out@ == start + Seq::new((x * hh + y) as nat, |i: int| fill_op(h as int, i)),
                decreases h + 2 - y,
            {
                out.push(TermOp::Plot(x + 1, y + 1, ' '));
                proof {
                    assert(x * hh >= 0) by (nonlinear_arith)
                        requires
                            x >= 0,
                            hh > 0,
                    ;
                    lemma_fundamental_div_mod_converse(x * hh + y, hh, x as int, y as int);
                }
                assert(Seq::new((x * hh + y + 1) as nat, |i: int| fill_op(h as int, i)) =~= Seq::new(
                    (x * hh + y) as nat,
                    |i: int| fill_op(h as int, i),
                ).push(fill_op(h as int, x * hh + y)));
                y = y + 1;
            }
            assert(x * hh + hh == (x + 1) * hh) by (nonlinear_arith);
            x = x + 1;
        }
        assert(out@ =~= old(out)@ + clear_ops(w as int, h as int, colour));
    }
    /// Plots one character at a logical cell.
    fn draw_char(&self, out: &mut Vec<TermOp>, x: usize, y: usize, c: char)
        requires
            self.wf(),
        ensures
            final(out)@ == old(out)@.push(
                logical_plot(self.spec_width(), self.spec_height(), x as int, y as int, c),
            ),
    {
        self.plot_logical(out, x, y, c);
    }

    /// Appends what one command does to the terminal.
    fn run_command(&self, out: &mut Vec<TermOp>, command: &RenderCommand)
        requires
            self.wf(),
        ensures
            final(out)@ == old(out)@ + command_ops(
                self.spec_width(),
                self.spec_height(),
                *command,
            ),
    {
        let ghost start = old(out)@;
        match command {
            RenderCommand::Clear(c) => self.clear_bg(out, *c),
            RenderCommand::Reset => Self::clear(out),
            RenderCommand::SetColour(c) => {
                out.push(TermOp::Foreground(*c));
                assert(out@ =~= start + command_ops(self.spec_width(), self.spec_height(), *command));
            },
            RenderCommand::SetBackground(c) => {
                out.push(TermOp::Background(*c));
                assert(out@ =~= start + command_ops(self.spec_width(), self.spec_height(), *command));
            },
            RenderCommand::DrawChar(x, y, c) => {
                self.draw_char(out, *x, *y, *c);
                out.push(TermOp::Flush);
                assert(out@ =~= start + command_ops(self.spec_width(), self.spec_height(), *command));
            },
            RenderCommand::DrawLine(x1, y1, x2, y2, c) => {
                self.draw_line(out, *x1, *y1, *x2, *y2, *c);
                out.push(TermOp::Flush);
                assert(out@ =~= start + command_ops(self.spec_width(), self.spec_height(), *command));
            },
            RenderCommand::DrawString(x, y, text) => {
                self.draw_string(out, *x, *y, text);
                out.push(TermOp::Flush);
                assert(out@ =~= start + command_ops(self.spec_width(), self.spec_height(), *command));
            },
            RenderCommand::DrawBorder(c) => {
                self.draw_border(out, *c);
                out.push(TermOp::Flush);
                assert(out@ =~= start + command_ops(self.spec_width(), self.spec_height(), *command));
            },
        }
    }

    /// A renderer for a canvas of `size.0` columns and `size.1` rows. It
    /// starts by resetting the terminal: the reset is replayed at once and
    /// waits in the output before anything else.
    pub fn new(size: (usize, usize)) -> (r: Renderer)
        requires
            side_ok(size.0 as int),
            side_ok(size.1 as int),
        ensures
            r.wf(),
            r.spec_width() == size.0,
            r.spec_height() == size.1,
            r.pending() == Seq::<RenderCommand>::empty(),
            r.emitted() == reset_ops(),
    {
        let mut r = Renderer { width: size.0, height: size.1, commands: Vec::new(), output: Vec::new() };
        r.push_cmd(RenderCommand::Reset);
        assert(r.commands@.drop_last() =~= Seq::<RenderCommand>::empty());
        assert(r.commands@.last() == RenderCommand::Reset);
        assert(commands_ops(size.0 as int, size.1 as int, Seq::<RenderCommand>::empty()) =~= Seq::<
            TermOp,
        >::empty());
        assert(commands_ops(size.0 as int, size.1 as int, r.commands@) =~= reset_ops());
        r.update();
        assert(r.output@ =~= reset_ops());
        r
    }

    pub fn width(&self) -> (r: usize)
        ensures
            r == self.spec_width(),
    {
        self.width
    }

    pub fn height(&self) -> (r: usize)
        ensures
            r == self.spec_height(),
    {
        self.height
    }

    /// The number of commands waiting for the next update.
    pub fn pending_count(&self) -> (r: usize)
        ensures
            r == self.pending().len(),
    {
        self.commands.len()
    }

    /// Queues commands after those already waiting, in their order.
    pub fn push_cmds(&mut self, commands: Vec<RenderCommand>)
        ensures
            final(self).pending() == old(self).pending() + commands@,
            final(self).emitted() == old(self).emitted(),
            final(self).spec_width() == old(self).spec_width(),
            final(self).spec_height() == old(self).spec_height(),
    {
        let mut commands = commands;
        self.commands.append(&mut commands);
    }

    /// Queues one command after those already waiting.
    pub fn push_cmd(&mut self, command: RenderCommand)
        ensures
            final(self).pending() == old(self).pending().push(command),
            final(self).emitted() == old(self).emitted(),
            final(self).spec_width() == old(self).spec_width(),
            final(self).spec_height() == old(self).spec_height(),
    {
        self.commands.push(command);
    }

    /// Replays every pending command in order, appending what each does to
    /// the output, and leaves the queue empty.
    pub fn update(&mut self)
        requires
            old(self).wf(),
        ensures
            final(self).wf(),
            final(self).spec_width() == old(self).spec_width(),
            final(self).spec_height() == old(self).spec_height(),
            final(self).pending() == Seq::<RenderCommand>::empty(),
            final(self).emitted() == old(self).emitted() + commands_ops(
                old(self).spec_width(),
                old(self).spec_height(),
                old(self).pending(),
            ),
    {
        let mut commands: Vec<RenderCommand> = Vec::new();
        std::mem::swap(&mut commands, &mut self.commands);
        let ghost w = self.width as int;
        let ghost h = self.height as int;
        let mut out: Vec<TermOp> = Vec::new();
        let mut i: usize = 0;
        while i < commands.len()
            invariant
                self.wf(),
                self.width == w,
                self.height == h,
                commands@ == old(self).commands@,
                self.commands@ == Seq::<RenderCommand>::empty(),
                self.output@ == old(self).output@,
                i <= commands@.len(),
                out@ == commands_ops(w, h, commands@.take(i as int)),
            decreases commands@.len() - i,
        {
            self.run_command(&mut out, &commands[i]);
            assert(commands@.take(i as int + 1).drop_last() =~= commands@.take(i as int));
            i = i + 1;
        }
        assert(commands@.take(i as int) =~= commands@);
        self.output.append(&mut out);
    }

    /// Hands out the terminal operations produced so far, oldest first, and
    /// forgets them.
    pub fn take_output(&mut self) -> (r: Vec<TermOp>)
        ensures
            r@ == old(self).emitted(),
            final(self).emitted() == Seq::<TermOp>::empty(),
            final(self).pending() == old(self).pending(),
            final(self).spec_width() == old(self).spec_width(),
            final(self).spec_height() == old(self).spec_height(),
    {
        let mut taken: Vec<TermOp> = Vec::new();
        std::mem::swap(&mut taken, &mut self.output);
        taken
    }
}

} // verus!
