use ferrum_os::shell::{Shell, ShellKey, ShellOutput};
use ferrum_os::task::keyboard::{key_step, KeyDecoder};

#[test]
fn scancodes_decode_to_keys() {
    let mut kb = KeyDecoder::new();
    // 'a' pressed, then released
    assert!(matches!(kb.decode_scancode(0x1E), Some(ShellKey::Unicode('a'))));
    assert!(kb.decode_scancode(0x9E).is_none());
    // shift held gives the capital letter
    assert!(matches!(kb.decode_scancode(0x2A), Some(ShellKey::Other)));
    assert!(matches!(kb.decode_scancode(0x1E), Some(ShellKey::Unicode('A'))));
    assert!(kb.decode_scancode(0xAA).is_none());
    // extended arrow keys
    assert!(kb.decode_scancode(0xE0).is_none());
    assert!(matches!(kb.decode_scancode(0x48), Some(ShellKey::ArrowUp)));
    assert!(kb.decode_scancode(0xE0).is_none());
    assert!(matches!(kb.decode_scancode(0x50), Some(ShellKey::ArrowDown)));
}

#[test]
fn scancode_steps_reach_the_shell() {
    let mut sh = Shell::new(Vec::new());
    let mut kb = KeyDecoder::new();
    let (key, outs) = key_step(&mut sh, &mut kb, 0x23); // 'h'
    assert!(matches!(key, Some(ShellKey::Unicode('h'))));
    assert_eq!(outs.len(), 1);
    assert!(matches!(&outs[0], ShellOutput::Text(t) if t == &vec!['h']));
    let (key, outs) = key_step(&mut sh, &mut kb, 0xA3); // released
    assert!(key.is_none());
    assert!(outs.is_empty());
    let (_, outs) = key_step(&mut sh, &mut kb, 0x0E); // backspace
    assert!(matches!(outs[0], ShellOutput::Erase));
}
