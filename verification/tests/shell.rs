use primoria::keyboard::Keymap;
use primoria::keyboard::RawKey;
use primoria::kshell::KShell;
use primoria::kshell::ShellAction;
use primoria::tty::Tty;

fn fresh() -> (KShell, Tty) {
    (KShell::new(), Tty::new(80, 25))
}

fn type_line(sh: &mut KShell, tty: &mut Tty, line: &str) -> ShellAction {
    for c in line.chars() {
        let act = sh.keypressed(c, tty);
        assert_eq!(act, ShellAction::Nothing);
    }
    sh.keypressed('\n', tty)
}

fn row_text(tty: &Tty, row: usize, len: usize) -> String {
    let mut out = String::new();
    for col in 0..len {
        out.push(tty.cell_at(row, col).ch);
    }
    out
}

#[test]
fn init_greets_and_draws_prompt() {
    let (sh, mut tty) = fresh();
    sh.init(&mut tty);
    assert_eq!(row_text(&tty, 0, 21), "Welcome to Primoria !");
    assert_eq!(row_text(&tty, 1, 2), "> ");
    assert_eq!(tty.get_cursor(), (1, 2));
}

#[test]
fn typing_fills_buffer_and_prompt_row() {
    let (mut sh, mut tty) = fresh();
    sh.keypressed('h', &mut tty);
    sh.keypressed('i', &mut tty);
    assert_eq!(sh.buf_len, 2);
    assert_eq!(sh.pos, 2);
    assert_eq!(row_text(&tty, 0, 4), "> hi");
    assert_eq!(tty.get_cursor(), (0, 4));
}

#[test]
fn backspace_and_delete_edit_the_line() {
    let (mut sh, mut tty) = fresh();
    sh.keypressed('a', &mut tty);
    sh.keypressed('b', &mut tty);
    sh.keypressed('c', &mut tty);
    sh.keypressed('\u{8}', &mut tty); // backspace removes 'c'
    assert_eq!(sh.buf_len, 2);
    assert_eq!(row_text(&tty, 0, 4), "> ab");
    sh.keypressed_raw(RawKey::Home, &mut tty);
    assert_eq!(sh.pos, 0);
    sh.keypressed('\u{7f}', &mut tty); // delete removes 'a'
    assert_eq!(sh.buf_len, 1);
    assert_eq!(row_text(&tty, 0, 3), "> b");
}

#[test]
fn arrows_move_the_cursor() {
    let (mut sh, mut tty) = fresh();
    sh.keypressed('x', &mut tty);
    sh.keypressed('y', &mut tty);
    sh.keypressed_raw(RawKey::ArrowLeft, &mut tty);
    assert_eq!(sh.pos, 1);
    assert_eq!(tty.get_cursor(), (0, 3));
    sh.keypressed_raw(RawKey::ArrowRight, &mut tty);
    assert_eq!(sh.pos, 2);
    sh.keypressed_raw(RawKey::End, &mut tty);
    assert_eq!(sh.pos, 2);
    sh.keypressed_raw(RawKey::Home, &mut tty);
    assert_eq!(sh.pos, 0);
}

#[test]
fn tab_completes_builtin() {
    let (mut sh, mut tty) = fresh();
    sh.keypressed('k', &mut tty);
    sh.keypressed('e', &mut tty);
    sh.keypressed('\t', &mut tty);
    assert_eq!(sh.buf_len, 7);
    assert_eq!(row_text(&tty, 0, 9), "> keymap ");
}

#[test]
fn keymap_command_requests_switch() {
    let (mut sh, mut tty) = fresh();
    let act = type_line(&mut sh, &mut tty, "keymap qwerty");
    assert_eq!(act, ShellAction::SetKeymap(Keymap::Qwerty));
    // the line is consumed and the prompt redrawn empty
    assert_eq!(sh.buf_len, 0);
    let act2 = type_line(&mut sh, &mut tty, "keymap azerty");
    assert_eq!(act2, ShellAction::SetKeymap(Keymap::Azerty));
}

#[test]
fn keymap_command_unknown_is_reported() {
    let (mut sh, mut tty) = fresh();
    let act = type_line(&mut sh, &mut tty, "keymap dvorak");
    assert_eq!(act, ShellAction::Nothing);
    assert_eq!(row_text(&tty, 1, 14), "Unknown keymap");
    assert_eq!(row_text(&tty, 2, 33), "Available keymaps: azerty, qwerty");
}

#[test]
fn keymap_command_without_argument_lists_keymaps() {
    let (mut sh, mut tty) = fresh();
    let act = type_line(&mut sh, &mut tty, "keymap");
    assert_eq!(act, ShellAction::Nothing);
    assert_eq!(row_text(&tty, 1, 19), "No keymap specified");
}

#[test]
fn quit_command_requests_exit() {
    let (mut sh, mut tty) = fresh();
    let act = type_line(&mut sh, &mut tty, "quit");
    assert_eq!(act, ShellAction::Quit);
    assert_eq!(row_text(&tty, 1, 16), "EXIT! (well, no)");
}

#[test]
fn help_command_prints_builtins() {
    let (mut sh, mut tty) = fresh();
    let act = type_line(&mut sh, &mut tty, "help");
    assert_eq!(act, ShellAction::Nothing);
    assert_eq!(row_text(&tty, 1, 15), "Primoria KShell");
    assert_eq!(row_text(&tty, 2, 9), "Commands:");
    assert_eq!(row_text(&tty, 3, 27), "  keymap: change the keymap");
}

#[test]
fn unknown_command_is_reported() {
    let (mut sh, mut tty) = fresh();
    let act = type_line(&mut sh, &mut tty, "frobnicate");
    assert_eq!(act, ShellAction::Nothing);
    assert_eq!(row_text(&tty, 1, 17), "Command not found");
}

#[test]
fn empty_line_does_nothing() {
    let (mut sh, mut tty) = fresh();
    let act = type_line(&mut sh, &mut tty, "   ");
    assert_eq!(act, ShellAction::Nothing);
    // no message: line 1 holds the redrawn prompt
    assert_eq!(row_text(&tty, 1, 2), "> ");
}

#[test]
fn line_capped_before_the_prompt_overflows_the_row() {
    let (mut sh, mut tty) = fresh();
    for _ in 0..100 {
        sh.keypressed('w', &mut tty);
    }
    // 80-wide row: prompt (2) + line + cursor cell must fit
    assert_eq!(sh.buf_len, 77);
}
