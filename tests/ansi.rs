use termrender::ansi::ansi_script;
use termrender::{Colour, TermOp};

#[test]
fn escape_sequences() {
    assert_eq!(TermOp::ResetAttributes.to_ansi(), "\x1b[0m");
    assert_eq!(TermOp::ClearScreen.to_ansi(), "\x1b[2J");
    assert_eq!(TermOp::Plot(12, 5, 'x').to_ansi(), "\x1b[5;12Hx");
    assert_eq!(TermOp::Plot(1, 100, '\u{e9}').to_ansi(), "\x1b[100;1H\u{e9}");
    assert_eq!(TermOp::Foreground(Colour::rgb(1, 2, 3)).to_ansi(), "\x1b[38;2;1;2;3m");
    assert_eq!(TermOp::Background(Colour::rgb(255, 0, 128)).to_ansi(), "\x1b[48;2;255;0;128m");
    assert_eq!(TermOp::Flush.to_ansi(), "");
}

#[test]
fn large_positions_in_decimal() {
    assert_eq!(
        TermOp::Plot(usize::MAX, 10, '#').to_ansi(),
        format!("\x1b[10;{}H#", usize::MAX)
    );
}

#[test]
fn script_concatenates_in_order() {
    let ops = vec![
        TermOp::ResetAttributes,
        TermOp::ClearScreen,
        TermOp::Plot(1, 1, ' '),
        TermOp::Flush,
        TermOp::Foreground(Colour::white()),
    ];
    assert_eq!(ansi_script(&ops), "\x1b[0m\x1b[2J\x1b[1;1H \x1b[38;2;255;255;255m");
    assert_eq!(ansi_script(&[]), "");
}
