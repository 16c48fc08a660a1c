use primoria::keyboard::handle_scancode;
use primoria::keyboard::DecodedInput;
use primoria::keyboard::KeyboardDecoder;
use primoria::keyboard::Keymap;
use primoria::keyboard::RawKey;
use primoria::kshell::KShell;
use primoria::tty::Tty;

// scancode set 1 make codes
const SC_Q_KEY: u8 = 0x10; // the key marked Q on a UK board, A on an AZERTY one
const SC_U: u8 = 0x16;
const SC_I: u8 = 0x17;
const SC_T: u8 = 0x14;
const SC_ENTER: u8 = 0x1c;
const SC_HOME_PREFIX: u8 = 0xe0;
const SC_HOME: u8 = 0x47;

#[test]
fn boot_keymap_is_azerty() {
    let d = KeyboardDecoder::new();
    assert_eq!(d.layout, Keymap::Azerty);
}

#[test]
fn same_key_decodes_per_keymap() {
    let mut d = KeyboardDecoder::new();
    let azerty_key = d.add_scancode(SC_Q_KEY);
    assert_eq!(azerty_key, Some(DecodedInput::Unicode('a')));
    d.set_keymap(Keymap::Qwerty);
    assert_eq!(d.layout, Keymap::Qwerty);
    let qwerty_key = d.add_scancode(SC_Q_KEY);
    assert_eq!(qwerty_key, Some(DecodedInput::Unicode('q')));
}

#[test]
fn extended_code_decodes_to_editing_key() {
    let mut d = KeyboardDecoder::new();
    assert_eq!(d.add_scancode(SC_HOME_PREFIX), None);
    assert_eq!(d.add_scancode(SC_HOME), Some(DecodedInput::Raw(RawKey::Home)));
}

#[test]
fn scancodes_type_into_the_shell() {
    let mut d = KeyboardDecoder::new();
    let mut sh = KShell::new();
    let mut tty = Tty::new(80, 25);
    let quit = handle_scancode(&mut d, &mut sh, &mut tty, SC_Q_KEY);
    assert!(!quit);
    assert_eq!(sh.buf_len, 1);
    assert_eq!(sh.buffer[0], 'a');
    assert_eq!(tty.cell_at(0, 2).ch, 'a');
}

#[test]
fn quit_typed_over_the_wire_requests_exit() {
    let mut d = KeyboardDecoder::new();
    let mut sh = KShell::new();
    let mut tty = Tty::new(80, 25);
    d.set_keymap(Keymap::Qwerty);
    for sc in [SC_Q_KEY, SC_U, SC_I, SC_T] {
        let quit = handle_scancode(&mut d, &mut sh, &mut tty, sc);
        assert!(!quit);
    }
    assert_eq!(sh.buf_len, 4);
    let quit = handle_scancode(&mut d, &mut sh, &mut tty, SC_ENTER);
    assert!(quit);
    assert_eq!(sh.buf_len, 0);
}

#[test]
fn keymap_switch_through_the_shell_changes_decoding() {
    let mut d = KeyboardDecoder::new();
    let mut sh = KShell::new();
    let mut tty = Tty::new(80, 25);
    // type "keymap qwerty\n" on the AZERTY layout:
    // keymap -> same letter keys on both layouts except none here differ
    // k=0x25 e=0x12 y=0x15 m? AZERTY: the M key of UK boards is ',' --
    // avoid letter pitfalls: feed the decoded characters via tab completion.
    // 'k' = 0x25, 'e' = 0x12 are the same on both layouts.
    for sc in [0x25u8, 0x12] {
        handle_scancode(&mut d, &mut sh, &mut tty, sc);
    }
    handle_scancode(&mut d, &mut sh, &mut tty, 0x0f); // tab completes "keymap "
    assert_eq!(sh.buf_len, 7);
    // qwerty: q=0x10 w=0x11 e=0x12 r=0x13 t=0x14 y=0x15 -- but typed under
    // AZERTY, 0x10 is 'a': spell "qwerty" with the AZERTY positions instead:
    // on AZERTY, 'q' sits on the UK A key (0x1e), 'w' on the UK Z key (0x2c).
    for sc in [0x1eu8, 0x2c, 0x12, 0x13, 0x14, 0x15] {
        handle_scancode(&mut d, &mut sh, &mut tty, sc);
    }
    let quit = handle_scancode(&mut d, &mut sh, &mut tty, SC_ENTER);
    assert!(!quit);
    assert_eq!(d.layout, Keymap::Qwerty);
    // now the same physical key decodes as QWERTY
    let mut d2 = d;
    let key = d2.add_scancode(SC_Q_KEY);
    assert_eq!(key, Some(DecodedInput::Unicode('q')));
}
