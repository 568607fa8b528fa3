use vstd::prelude::*;

verus! {

/// What one user-interface context reports about the pointer and the keyboard.
#[derive(Debug, Clone, Copy, PartialEq, Eq, Structural)]
pub struct EguiContextState {
    pub wants_pointer_input: bool,
    pub is_pointer_over_area: bool,
    pub wants_keyboard_input: bool,
}

/// Which input devices the user interface currently claims for itself.
#[derive(Debug, Clone, Copy, PartialEq, Eq, Structural)]
pub struct EguiCapturedResources {
    pub mouse: bool,
    pub keyboard: bool,
}

impl Default for EguiCapturedResources {
    fn default() -> (resources: EguiCapturedResources)
        ensures
            !resources.mouse,
            !resources.keyboard,
    {
        EguiCapturedResources { mouse: false, keyboard: false }
    }
}

impl EguiCapturedResources {
    pub fn mouse_captured(&self) -> (captured: bool)
        ensures
            captured == self.mouse,
    {
        self.mouse
    }

    pub fn keyboard_captured(&self) -> (captured: bool)
        ensures
            captured == self.keyboard,
    {
        self.keyboard
    }
}

impl EguiContextState {
    /// Whether this context claims the pointer: by asking for pointer input,
    /// or by having the pointer over one of its areas.
    pub open spec fn claims_mouse(self) -> bool {
        self.wants_pointer_input || self.is_pointer_over_area
    }
}

/// Whether one of the first `n` contexts claims the pointer.
pub open spec fn any_claims_mouse(contexts: Seq<EguiContextState>, n: int) -> bool {
    exists|i: int| 0 <= i < n && (#[trigger] contexts[i]).claims_mouse()
}

/// Whether one of the first `n` contexts asks for keyboard input.
pub open spec fn any_claims_keyboard(contexts: Seq<EguiContextState>, n: int) -> bool {
    exists|i: int| 0 <= i < n && (#[trigger] contexts[i]).wants_keyboard_input
}

/// Folds the reports of all contexts into one answer per device: a device is
/// captured exactly when some context claims it.
pub fn check_egui_captured_resources(contexts: &Vec<EguiContextState>) -> (captured:
    EguiCapturedResources)
    ensures
        captured.mouse == any_claims_mouse(contexts@, contexts@.len() as int),
        captured.keyboard == any_claims_keyboard(contexts@, contexts@.len() as int),
{
    let mut acc = EguiCapturedResources::default();
    let mut i: usize = 0;
    while i < contexts.len()
        invariant
            i <= contexts.len(),
            acc.mouse == any_claims_mouse(contexts@, i as int),
            acc.keyboard == any_claims_keyboard(contexts@, i as int),
        decreases contexts.len() - i,
    {
        let ctx = contexts[i];
        proof {
            if ctx.claims_mouse() {
                assert(contexts@[i as int].claims_mouse());
            }
            if ctx.wants_keyboard_input {
                assert(contexts@[i as int].wants_keyboard_input);
            }
        }
        acc.mouse = acc.mouse || ctx.wants_pointer_input;
        acc.mouse = acc.mouse || ctx.is_pointer_over_area;
        acc.keyboard = acc.keyboard || ctx.wants_keyboard_input;
        i += 1;
    }
    acc
}

} // verus!
