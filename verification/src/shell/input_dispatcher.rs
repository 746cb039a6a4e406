//! Routing keys to whatever has the keyboard focus.
use vstd::prelude::*;
use crate::shell::{key_post, shell_wf, Shell, ShellKey, ShellOutput};

verus! {

/// What receives the keys.
#[derive(Debug, Clone, Copy, PartialEq, Eq, Structural)]
pub enum InputTarget {
    Shell,
    Process(u32),
    Nothing,
}

/// Hands each key to the focused receiver.
pub struct InputDispatcher {
    focus: InputTarget,
}

impl InputDispatcher {
    /// The receiver of the keys.
    pub closed spec fn spec_focus(&self) -> InputTarget {
        self.focus
    }

    /// The shell has the focus.
    pub fn new() -> (d: Self)
        ensures
            d.spec_focus() == InputTarget::Shell,
    {
        InputDispatcher { focus: InputTarget::Shell }
    }

    /// Gives `key` to the shell when it has the focus; a process or nothing
    /// with the focus ignores it.
    pub fn dispatch_key(&self, shell: &mut Shell, key: ShellKey) -> (outs: Vec<ShellOutput>)
        requires
            shell_wf(old(shell)@),
        ensures
            shell_wf(final(shell)@),
            self.spec_focus() == InputTarget::Shell ==> key_post(old(shell)@, final(shell)@, key, outs@),
            self.spec_focus() != InputTarget::Shell ==> final(shell)@ == old(shell)@ && outs@.len() == 0,
    {
        match self.focus {
            InputTarget::Shell => shell.handle_input(key),
            InputTarget::Process(_) => Vec::new(),
            InputTarget::Nothing => Vec::new(),
        }
    }

    /// Moves the focus.
    pub fn set_focus(&mut self, target: InputTarget)
        ensures
            final(self).spec_focus() == target,
    {
        self.focus = target;
    }
}

} // verus!
