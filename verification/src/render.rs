//! The fixed-layout renderer model.
//!
//! An interactive session draws a block of rows once: a reserved region of
//! placeholder lines for the explanation that has not arrived yet, a blank
//! separator, the command line, and the prompt line. The explanation, when
//! it comes, overwrites the reserved region in place — never by insertion —
//! so the command line keeps its absolute row for the whole session. The
//! terminal loop draws exactly the rows held here, repositioning the cursor
//! with `rows_above_prompt` and redrawing from the top of the block.

use vstd::prelude::*;

verus! {

/// How many placeholder lines are reserved for the explanation.
pub const RESERVED_LINES: usize = 15;

/// An upper bound on the reserved region, so the block as a whole stays
/// within any sane terminal-height budget.
pub const MAX_RESERVED: usize = 4096;

/// The rows of one interactive session's block, top to bottom.
pub struct RenderState {
    /// The text of every row of the block.
    pub rows: Vec<String>,
    /// The size of the reserved explanation region; fixed at session start.
    pub reserved: usize,
    /// Whether an explanation was requested, and hence a region reserved.
    pub has_explanation: bool,
}

impl RenderState {
    /// The block's shape never changes after layout: with an explanation
    /// region it holds `reserved` region rows, a blank row, the command row
    /// and the prompt row; without one only the command and prompt rows.
    pub open spec fn wf(self) -> bool {
        &&& self.reserved <= MAX_RESERVED
        &&& if self.has_explanation {
            self.rows@.len() == self.reserved + 3
        } else {
            self.rows@.len() == 2
        }
    }

    /// The absolute row of the command line inside the block.
    pub open spec fn command_row(self) -> int {
        if self.has_explanation {
            self.reserved + 1
        } else {
            0
        }
    }

    /// The absolute row of the prompt line inside the block.
    pub open spec fn prompt_row(self) -> int {
        self.command_row() + 1
    }
}

/// The placeholder drawn on each reserved row before the explanation comes.
pub fn placeholder_text() -> (r: &'static str)
    ensures
        r@ == "\u{b7}"@,
{
    "\u{b7}"
}

/// The prompt shown while the explanation is loading.
pub fn loading_text() -> (r: &'static str)
    ensures
        r@ == "Loading explanation..."@,
{
    "Loading explanation..."
}

/// The plain confirmation prompt.
pub fn confirm_text() -> (r: &'static str)
    ensures
        r@ == "Press Enter to run, Ctrl+C to cancel... "@,
{
    "Press Enter to run, Ctrl+C to cancel... "
}

/// The confirmation prompt for a DANGER-tagged command: Enter only copies.
pub fn danger_text() -> (r: &'static str)
    ensures
        r@ == "Press Enter to copy to clipboard, Ctrl+C to cancel... "@,
{
    "Press Enter to copy to clipboard, Ctrl+C to cancel... "
}

/// Lay the session block out once: placeholders, blank separator, command
/// and prompt when an explanation is coming, else just command and prompt.
pub fn layout_session(command: &str, has_explanation: bool, reserved: usize) -> (r: RenderState)
    requires
        reserved <= MAX_RESERVED,
    ensures
        r.wf(),
        r.has_explanation == has_explanation,
        r.reserved == reserved,
        r.rows@[r.command_row()]@ == command@,
        r.rows@[r.prompt_row()]@ == if has_explanation {
            "Loading explanation..."@
        } else {
            "Press Enter to run, Ctrl+C to cancel... "@
        },
        has_explanation ==> forall|i: int| 0 <= i < reserved ==> r.rows@[i]@ == "\u{b7}"@,
        has_explanation ==> r.rows@[reserved as int]@ == Seq::<char>::empty(),
{
    let mut rows: Vec<String> = Vec::new();
    if has_explanation {
        let mut i: usize = 0;
        while i < reserved
            invariant
                i <= reserved,
                rows@.len() == i,
                forall|j: int| 0 <= j < i ==> rows@[j]@ == "\u{b7}"@,
            decreases reserved - i,
        {
            rows.push(String::from_str(placeholder_text()));
            i += 1;
        }
        rows.push(String::new());
    }
    rows.push(String::from_str(command));
    if has_explanation {
        rows.push(String::from_str(loading_text()));
    } else {
        rows.push(String::from_str(confirm_text()));
    }
    RenderState { rows, reserved, has_explanation }
}

/// Overwrite the reserved region with the explanation lines, in place.
///
/// This is the layout-stability step: the block keeps its length, the
/// command line keeps its absolute row and its text, and the region shows
/// the first `min(lines.len(), reserved)` explanation lines — any excess is
/// dropped, never inserted. The prompt row switches to the confirmation
/// matching the safety tag.
pub fn apply_explanation(st: &mut RenderState, lines: &Vec<String>, danger: bool)
    requires
        old(st).wf(),
        old(st).has_explanation,
    ensures
        final(st).wf(),
        final(st).reserved == old(st).reserved,
        final(st).has_explanation == old(st).has_explanation,
        final(st).rows@.len() == old(st).rows@.len(),
        final(st).command_row() == old(st).command_row(),
        final(st).rows@[final(st).command_row()] == old(st).rows@[old(st).command_row()],
        final(st).rows@[old(st).reserved as int] == old(st).rows@[old(st).reserved as int],
        forall|i: int|
            0 <= i < old(st).reserved ==> final(st).rows@[i]@ == if i < lines@.len() {
                lines@[i]@
            } else {
                Seq::<char>::empty()
            },
        final(st).rows@[final(st).prompt_row()]@ == if danger {
            "Press Enter to copy to clipboard, Ctrl+C to cancel... "@
        } else {
            "Press Enter to run, Ctrl+C to cancel... "@
        },
{
    let reserved = st.reserved;
    let mut i: usize = 0;
    while i < reserved
        invariant
            st.wf(),
            st.has_explanation,
            st.reserved == old(st).reserved,
            st.has_explanation == old(st).has_explanation,
            st.rows@.len() == old(st).rows@.len(),
            reserved == st.reserved,
            i <= reserved,
            forall|j: int| reserved <= j < st.rows@.len() ==> st.rows@[j] == old(st).rows@[j],
            forall|j: int|
                0 <= j < i ==> st.rows@[j]@ == if j < lines@.len() {
                    lines@[j]@
                } else {
                    Seq::<char>::empty()
                },
            forall|j: int| i <= j < reserved ==> st.rows@[j] == old(st).rows@[j],
        decreases reserved - i,
    {
        if i < lines.len() {
            let line = lines[i].clone();
            st.rows[i] = line;
        } else {
            st.rows[i] = String::new();
        }
        i += 1;
    }
    let prompt = if danger {
        String::from_str(danger_text())
    } else {
        String::from_str(confirm_text())
    };
    let p = reserved + 2;
    st.rows[p] = prompt;
}

/// How many rows the cursor must move up from the line after the prompt to
/// reach the top of the reserved region: the region, the blank separator,
/// the command row and the prompt row.
pub fn rows_above_prompt(st: &RenderState) -> (r: usize)
    requires
        st.wf(),
        st.has_explanation,
    ensures
        r == st.reserved + 3,
        r == st.rows@.len(),
{
    st.reserved + 3
}

} // verus!
