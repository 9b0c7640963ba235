//! The receiver of what the engine emits.

use crate::types::ShortcutAction;
use vstd::prelude::*;

verus! {

/// Whoever acts on the engine's actions. Nothing is promised of what an
/// implementation does with them.
pub trait ShortcutHandler {
    fn handle_action(&self, action: ShortcutAction);

    fn handle_error(&self, error: String);
}

/// Hands `action` to `handler` if there is one to hand.
pub fn dispatch_action<H: ShortcutHandler>(handler: &H, action: Option<ShortcutAction>) -> (handed:
    bool)
    ensures
        handed == (action is Some),
{
    match action {
        Some(a) => {
            handler.handle_action(a);
            true
        },
        None => false,
    }
}

} // verus!
