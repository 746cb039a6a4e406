//! Keyboard input: raw PS/2 scancodes are decoded with the US layout of
//! `pc_keyboard` into keys, and each key is handed to the shell.
use vstd::prelude::*;
use pc_keyboard::layouts::Us104Key;
use pc_keyboard::{DecodedKey, HandleControl, KeyCode, KeyEvent, PS2Keyboard, ScancodeSet1};
use crate::shell::{key_post, shell_wf, Shell, ShellKey, ShellOutput};

verus! {

#[verifier::external_type_specification]
#[verifier::external_body]
pub struct ExKeyEvent(KeyEvent);

/// The keyboard decoder: scancode set 1, the US 104-key layout, Ctrl keys
/// left as they are. Verus does not take `PS2Keyboard`'s declaration (its
/// bounds are traits of `pc_keyboard`), so the decoder is held opaque.
#[verifier::external_body]
pub struct KeyDecoder {
    keyboard: PS2Keyboard<Us104Key, ScancodeSet1>,
}

/// `pc_keyboard`'s `PS2Keyboard::new` with scancode set 1, the US 104-key
/// layout and `HandleControl::Ignore`: a decoder in its starting state.
#[verifier::external_body]
fn new_ps2_keyboard() -> (k: KeyDecoder) {
    KeyDecoder { keyboard: PS2Keyboard::new(ScancodeSet1::new(), Us104Key, HandleControl::Ignore) }
}

/// `pc_keyboard`'s `PS2Keyboard::add_byte`: feeds one scancode byte to the
/// decoder's state machine; a key event when the byte completes one, and
/// nothing for a byte in the middle of a sequence or one it cannot use.
/// What comes back depends on the bytes fed before, so nothing is stated
/// of it.
#[verifier::external_body]
fn add_scancode_byte(kb: &mut KeyDecoder, byte: u8) -> (ev: Option<KeyEvent>) {
    match kb.keyboard.add_byte(byte) {
        Ok(ev) => ev,
        Err(_) => None,
    }
}

/// `pc_keyboard`'s `PS2Keyboard::process_keyevent`: turns a key event into
/// a key, following the shift and lock keys held so far. A character is
/// given as a character; the up and down arrows as themselves, any other
/// raw key as `Other`. What comes back depends on the keys seen before, so
/// nothing is stated of it.
#[verifier::external_body]
fn process_key_event(kb: &mut KeyDecoder, ev: KeyEvent) -> (k: Option<ShellKey>) {
    match kb.keyboard.process_keyevent(ev) {
        Some(DecodedKey::Unicode(c)) => Some(ShellKey::Unicode(c)),
        Some(DecodedKey::RawKey(KeyCode::ArrowUp)) => Some(ShellKey::ArrowUp),
        Some(DecodedKey::RawKey(KeyCode::ArrowDown)) => Some(ShellKey::ArrowDown),
        Some(DecodedKey::RawKey(_)) => Some(ShellKey::Other),
        None => None,
    }
}

impl KeyDecoder {
    /// A decoder in its starting state.
    pub fn new() -> (d: Self) {
        new_ps2_keyboard()
    }

    /// Feeds one scancode: the key it completes, if any. A byte that ends
    /// no key event gives no key without asking the layout.
    pub fn decode_scancode(&mut self, scancode: u8) -> (k: Option<ShellKey>) {
        match add_scancode_byte(self, scancode) {
            Some(ev) => process_key_event(self, ev),
            None => None,
        }
    }
}

/// One scancode for the shell: the key it completes, if any, is handled
/// as [`Shell::handle_input`] handles it; without a key nothing changes.
pub fn key_step(shell: &mut Shell, kb: &mut KeyDecoder, scancode: u8) -> (r: (Option<ShellKey>, Vec<ShellOutput>))
    requires
        shell_wf(old(shell)@),
    ensures
        shell_wf(final(shell)@),
        match r.0 {
            Some(key) => key_post(old(shell)@, final(shell)@, key, r.1@),
            None => final(shell)@ == old(shell)@ && r.1@.len() == 0,
        },
{
    let key = kb.decode_scancode(scancode);
    match key {
        Some(k) => {
            let outs = shell.handle_input(k);
            (key, outs)
        },
        None => (None, Vec::new()),
    }
}

} // verus!
