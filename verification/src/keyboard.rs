//! The keyboard decoding pipeline: raw PS/2 scancodes in, characters and
//! editing keys out, under a switchable keymap.
//!
//! The byte-by-byte protocol decoding and the layout tables are the
//! `pc_keyboard` crate's work and are trusted; which decoder runs, how the
//! keymap is switched, and what the rest of the kernel sees of a key are
//! verified here.

use vstd::prelude::*;

use pc_keyboard::DecodedKey;

use crate::kshell::KShell;
use crate::kshell::PROMPT_LEN;
use crate::kshell::ShellAction;
use crate::tty::Tty;
use pc_keyboard::HandleControl;
use pc_keyboard::KeyCode;
use pc_keyboard::KeyEvent;
use pc_keyboard::PS2Keyboard;
use pc_keyboard::ScancodeSet1;
use pc_keyboard::layouts::Azerty;
use pc_keyboard::layouts::Uk105Key;

verus! {

#[verifier::external_type_specification]
#[verifier::external_body]
pub struct ExKeyEvent(KeyEvent);

#[verifier::external_type_specification]
#[verifier::external_body]
pub struct ExDecodedKey(DecodedKey);

#[verifier::external_type_specification]
#[verifier::external_body]
pub struct ExError(pc_keyboard::Error);

/// The outside decoder for the AZERTY layout over scancode set 1; its state
/// (protocol register, modifiers) is opaque to the verifier, so the methods
/// below are trusted and promise nothing of what they decode.
#[verifier::external_body]
pub struct AzertyDecoder {
    inner: PS2Keyboard<Azerty, ScancodeSet1>,
}

impl AzertyDecoder {
    /// Relies on pc_keyboard::PS2Keyboard::new: a fresh decoder, leaving
    /// control keys alone.
    #[verifier::external_body]
    fn new() -> AzertyDecoder {
        AzertyDecoder { inner: PS2Keyboard::new(ScancodeSet1::new(), Azerty, HandleControl::Ignore) }
    }

    /// Relies on pc_keyboard::PS2Keyboard::clear: resets the decoder's bit
    /// register.
    #[verifier::external_body]
    fn clear(&mut self) {
        self.inner.clear()
    }

    /// Relies on pc_keyboard::PS2Keyboard::add_byte: feeds one scancode byte
    /// to the protocol decoder; a full key event may come out, or nothing
    /// yet, or a protocol error. What comes out depends on the decoder's
    /// hidden state, so nothing more can be promised of it.
    #[verifier::external_body]
    fn add_byte(&mut self, byte: u8) -> Result<Option<KeyEvent>, pc_keyboard::Error> {
        self.inner.add_byte(byte)
    }

    /// Relies on pc_keyboard::PS2Keyboard::process_keyevent: turns a key
    /// event into a decoded key under the decoder's modifier state, or
    /// swallows it (e.g. a plain key release).
    #[verifier::external_body]
    fn process_keyevent(&mut self, ev: KeyEvent) -> Option<DecodedKey> {
        self.inner.process_keyevent(ev)
    }
}

/// The outside decoder for the UK 105-key (QWERTY) layout over scancode set
/// 1; opaque to the verifier like its AZERTY sibling.
#[verifier::external_body]
pub struct QwertyDecoder {
    inner: PS2Keyboard<Uk105Key, ScancodeSet1>,
}

impl QwertyDecoder {
    /// Relies on pc_keyboard::PS2Keyboard::new: a fresh decoder, leaving
    /// control keys alone.
    #[verifier::external_body]
    fn new() -> QwertyDecoder {
        QwertyDecoder {
            inner: PS2Keyboard::new(ScancodeSet1::new(), Uk105Key, HandleControl::Ignore),
        }
    }

    /// Relies on pc_keyboard::PS2Keyboard::clear: resets the decoder's bit
    /// register.
    #[verifier::external_body]
    fn clear(&mut self) {
        self.inner.clear()
    }

    /// Relies on pc_keyboard::PS2Keyboard::add_byte, as for the AZERTY
    /// decoder.
    #[verifier::external_body]
    fn add_byte(&mut self, byte: u8) -> Result<Option<KeyEvent>, pc_keyboard::Error> {
        self.inner.add_byte(byte)
    }

    /// Relies on pc_keyboard::PS2Keyboard::process_keyevent, as for the
    /// AZERTY decoder.
    #[verifier::external_body]
    fn process_keyevent(&mut self, ev: KeyEvent) -> Option<DecodedKey> {
        self.inner.process_keyevent(ev)
    }
}

/// The editing keys the kernel reacts to; everything else is `Other`.
#[derive(Debug, Clone, Copy, PartialEq, Eq, Structural)]
pub enum RawKey {
    ArrowLeft,
    ArrowRight,
    Home,
    End,
    Other,
}

/// What the rest of the kernel sees of a key: a printable character or an
/// editing key.
#[derive(Debug, Clone, Copy, PartialEq, Eq, Structural)]
pub enum DecodedInput {
    Unicode(char),
    Raw(RawKey),
}

/// Relies on pc_keyboard::DecodedKey: tells its two variants apart, and for
/// raw keys the four codes the kernel reacts to.
#[verifier::external_body]
fn convert_decoded(k: DecodedKey) -> DecodedInput {
    match k {
        DecodedKey::Unicode(c) => DecodedInput::Unicode(c),
        DecodedKey::RawKey(KeyCode::ArrowLeft) => DecodedInput::Raw(RawKey::ArrowLeft),
        DecodedKey::RawKey(KeyCode::ArrowRight) => DecodedInput::Raw(RawKey::ArrowRight),
        DecodedKey::RawKey(KeyCode::Home) => DecodedInput::Raw(RawKey::Home),
        DecodedKey::RawKey(KeyCode::End) => DecodedInput::Raw(RawKey::End),
        DecodedKey::RawKey(_) => DecodedInput::Raw(RawKey::Other),
    }
}

/// The two keymaps the keymap command can select.
#[derive(Debug, Clone, Copy, PartialEq, Eq, Structural)]
pub enum Keymap {
    Azerty,
    Qwerty,
}

/// The keyboard as the kernel owns it: one protocol decoder per keymap and
/// the keymap currently selected.
pub struct KeyboardDecoder {
    /// The keymap scancodes are decoded under.
    pub layout: Keymap,
    pub azerty: AzertyDecoder,
    pub qwerty: QwertyDecoder,
}

impl KeyboardDecoder {
    /// A fresh keyboard, decoding AZERTY as the kernel does at boot.
    pub fn new() -> (d: KeyboardDecoder)
        ensures
            d.layout == Keymap::Azerty,
    {
        KeyboardDecoder {
            layout: Keymap::Azerty,
            azerty: AzertyDecoder::new(),
            qwerty: QwertyDecoder::new(),
        }
    }

    /// Switches the keymap, resetting the decoder that was active so that a
    /// half-received scancode cannot leak across the switch.
    pub fn set_keymap(&mut self, keymap: Keymap)
        ensures
            final(self).layout == keymap,
    {
        match self.layout {
            Keymap::Azerty => self.azerty.clear(),
            Keymap::Qwerty => self.qwerty.clear(),
        }
        self.layout = keymap;
    }

    /// Feeds one scancode byte to the selected decoder. A key comes out only
    /// when the byte completes an event and the event decodes to a key;
    /// protocol errors and incomplete events produce nothing, as does a byte
    /// that only changes modifier state. The keymap never changes here.
    pub fn add_scancode(&mut self, scancode: u8) -> (key: Option<DecodedInput>)
        ensures
            final(self).layout == old(self).layout,
    {
        match self.layout {
            Keymap::Azerty => {
                match self.azerty.add_byte(scancode) {
                    Ok(Some(ev)) => {
                        match self.azerty.process_keyevent(ev) {
                            Some(k) => Some(convert_decoded(k)),
                            None => None,
                        }
                    },
                    _ => None,
                }
            },
            Keymap::Qwerty => {
                match self.qwerty.add_byte(scancode) {
                    Ok(Some(ev)) => {
                        match self.qwerty.process_keyevent(ev) {
                            Some(k) => Some(convert_decoded(k)),
                            None => None,
                        }
                    },
                    _ => None,
                }
            },
        }
    }
}

/// One keyboard interrupt's worth of work past the port read: decode the
/// scancode under the selected keymap and hand the key to the shell. A
/// printable key is typed, an editing key moves the cursor, and a command's
/// request is carried out here (keymap switch) or handed back (`quit`, so
/// the caller can leave the emulator). What the byte decodes to depends on
/// the decoder's hidden state, so only the state invariants are promised.
pub fn handle_scancode(
    kb: &mut KeyboardDecoder,
    shell: &mut KShell,
    tty: &mut Tty,
    scancode: u8,
) -> (quit: bool)
    requires
        old(shell)@.wf(),
        old(tty)@.wf(),
        old(tty)@.mode is Scrolling,
        old(shell)@.buf_len + PROMPT_LEN + 1 <= old(tty)@.width,
    ensures
        final(shell)@.wf(),
        final(tty)@.wf(),
        final(tty)@.mode is Scrolling,
        final(tty)@.width == old(tty)@.width,
        final(tty)@.height == old(tty)@.height,
        final(shell)@.buf_len + PROMPT_LEN + 1 <= final(tty)@.width,
{
    match kb.add_scancode(scancode) {
        None => false,
        Some(DecodedInput::Unicode(c)) => {
            let act = shell.keypressed(c, tty);
            match act {
                ShellAction::Quit => true,
                ShellAction::SetKeymap(m) => {
                    kb.set_keymap(m);
                    false
                },
                ShellAction::Nothing => false,
            }
        },
        Some(DecodedInput::Raw(r)) => {
            shell.keypressed_raw(r, tty);
            false
        },
    }
}

} // verus!
