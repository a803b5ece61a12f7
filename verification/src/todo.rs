//! Priorities of todo.txt tasks as the task list offers them: the values of the picker,
//! stepping through them from the keyboard, their labels, colours and element ids.

use vstd::prelude::*;
use crate::text::{push_char, string_of};

verus! {

/// The priorities the picker offers, in order: none, then `A` to `E`.
pub open spec fn priority_values() -> Seq<Option<char>> {
    seq![None, Some('A'), Some('B'), Some('C'), Some('D'), Some('E')]
}

/// The priorities the picker offers.
pub fn priority_value_list() -> (r: Vec<Option<char>>)
    ensures
        r@ == priority_values(),
{
    let r = vec![None, Some('A'), Some('B'), Some('C'), Some('D'), Some('E')];
    assert(r@ =~= priority_values());
    r
}

/// Where a task's priority stands among the picker's values; a priority the picker does
/// not offer, or none, stands at the first.
pub open spec fn priority_position(current: Option<char>) -> int {
    match current {
        Some(c) => if 'A' <= c && c <= 'E' {
            c as int - 'A' as int + 1
        } else {
            0
        },
        None => 0,
    }
}

/// The value the arrow keys move to: up goes to the previous value and wraps from the
/// first to the last; down goes to the next and wraps from the last to the first.
pub open spec fn stepped_priority(current: Option<char>, up: bool) -> Option<char> {
    let n = priority_values().len() as int;
    let i = priority_position(current);
    let j = if up {
        if i == 0 {
            n - 1
        } else {
            i - 1
        }
    } else if i + 1 < n {
        i + 1
    } else {
        0
    };
    priority_values()[j]
}

/// The todo.txt token of a priority: `(X)`, or the empty text for none.
pub open spec fn priority_token_spec(p: Option<char>) -> Seq<char> {
    match p {
        Some(c) => seq!['(', c, ')'],
        None => Seq::empty(),
    }
}

/// The todo.txt token of a priority, as the pill shows it and the task stores it.
pub fn priority_token(p: Option<char>) -> (r: String)
    ensures
        r@ == priority_token_spec(p),
{
    match p {
        Some(c) => {
            let mut r = string_of("(");
            push_char(&mut r, c);
            push_char(&mut r, ')');
            proof {
                reveal_strlit("(");
            }
            assert(r@ =~= seq!['(', c, ')']);
            r
        },
        None => String::new(),
    }
}

/// The index of `current` among the picker's values.
fn position_of(values: &Vec<Option<char>>, current: Option<char>) -> (r: usize)
    requires
        values@ == priority_values(),
    ensures
        r == priority_position(current),
{
    let c = match current {
        Some(c) => c,
        None => {
            return 0;
        },
    };
    let mut i: usize = 1;
    while i < values.len()
        invariant
            1 <= i <= values@.len(),
            values@ == priority_values(),
            current == Some(c),
            forall|j: int| 1 <= j < i ==> values@[j] != Some(c),
        decreases values.len() - i,
    {
        if values[i] == Some(c) {
            return i;
        }
        i = i + 1;
    }
    0
}

/// The token the priority pill commits when an arrow key is pressed on it.
pub fn step_priority(current: Option<char>, up: bool) -> (r: String)
    ensures
        r@ == priority_token_spec(stepped_priority(current, up)),
{
    let values = priority_value_list();
    let i = position_of(&values, current);
    let last = values.len() - 1;
    let j = if up {
        if i == 0 {
            last
        } else {
            i - 1
        }
    } else if i + 1 < values.len() {
        i + 1
    } else {
        0
    };
    priority_token(values[j])
}

/// The label of an entry of the priority menu: the letter, or `×` for none.
pub fn menu_label(p: Option<char>) -> (r: String)
    ensures
        r@ == (match p {
            Some(c) => seq![c],
            None => "×"@,
        }),
{
    match p {
        Some(c) => {
            let mut r = String::new();
            push_char(&mut r, c);
            assert(r@ =~= seq![c]);
            r
        },
        None => string_of("×"),
    }
}

/// The colour of a priority letter, as `0xRRGGBB`: red, orange, yellow, green and blue
/// for `A` to `E`, grey for any other.
pub open spec fn priority_rgb_spec(c: char) -> u32 {
    if c == 'A' {
        0xEF4444
    } else if c == 'B' {
        0xF97316
    } else if c == 'C' {
        0xEAB308
    } else if c == 'D' {
        0x22C55E
    } else if c == 'E' {
        0x3B82F6
    } else {
        0x9CA3AF
    }
}

/// The colour of a priority letter.
pub fn priority_rgb(c: char) -> (r: u32)
    ensures
        r == priority_rgb_spec(c),
{
    if c == 'A' {
        0xEF4444
    } else if c == 'B' {
        0xF97316
    } else if c == 'C' {
        0xEAB308
    } else if c == 'D' {
        0x22C55E
    } else if c == 'E' {
        0x3B82F6
    } else {
        0x9CA3AF
    }
}

/// The id of a priority menu entry: the row index shifted left by four bits (the bits
/// shifted out of a `u64` are lost), or'ed with the code point of the letter, `×` for none.
pub open spec fn priority_option_id_spec(flat_index: usize, pri_char: Option<char>) -> u64 {
    let code: u32 = match pri_char {
        Some(c) => c as u32,
        None => '×' as u32,
    };
    ((flat_index as u64) << 4u64) | (code as u64)
}

/// The id of a priority menu entry.
pub fn priority_option_id(flat_index: usize, pri_char: Option<char>) -> (r: u64)
    ensures
        r == priority_option_id_spec(flat_index, pri_char),
{
    let code: u32 = match pri_char {
        Some(c) => c as u32,
        None => '×' as u32,
    };
    ((flat_index as u64) << 4u64) | (code as u64)
}

/// Pressing up and then down on the pill, or down and then up, comes back to the same
/// value, for every value the picker offers.
pub proof fn law_priority_steps_undo_each_other(current: Option<char>, up: bool)
    requires
        priority_values().contains(current),
    ensures
        stepped_priority(stepped_priority(current, up), !up) == current,
{
    let k = choose|k: int| 0 <= k < priority_values().len() && priority_values()[k] == current;
    assert(priority_position(current) == k);
    let next = stepped_priority(current, up);
    assert(priority_values()[priority_position(next)] == next);
}


/// What a key pressed in a task's description field does.
#[derive(Clone, Copy, Debug, PartialEq, Eq, Structural)]
pub enum RowKeyAction {
    /// Shift+Enter: add a subtask under the task.
    AddSubtask,
    /// Enter: complete the task, or reopen it.
    ToggleComplete,
    /// Shift+Secondary+Backspace: delete the task.
    Delete,
    /// Move to the description of the visible task at this index.
    FocusTask(usize),
    /// Up from the first visible task: move to the search field.
    FocusSearch,
    /// Down from the last visible task: move to the new-task field.
    FocusNewTask,
    /// Anything else: nothing.
    Nothing,
}

/// The first position of `index` among the visible tasks.
pub open spec fn visible_position(visible: Seq<usize>, index: usize) -> Option<int> {
    if visible.contains(index) {
        Some(
            choose|p: int|
                0 <= p < visible.len() && visible[p] == index && forall|q: int|
                    0 <= q < p ==> visible[q] != index,
        )
    } else {
        None
    }
}

/// What a key does in the description field of task `index`, given the indices of the
/// visible tasks in order.
pub open spec fn row_key_spec(key: Seq<char>, shift: bool, secondary: bool, visible: Seq<usize>, index: usize) -> RowKeyAction {
    if key == "enter"@ {
        if shift {
            RowKeyAction::AddSubtask
        } else {
            RowKeyAction::ToggleComplete
        }
    } else if key == "backspace"@ && shift && secondary {
        RowKeyAction::Delete
    } else if key == "up"@ {
        match visible_position(visible, index) {
            Some(p) => if p > 0 {
                RowKeyAction::FocusTask(visible[p - 1])
            } else {
                RowKeyAction::FocusSearch
            },
            None => RowKeyAction::Nothing,
        }
    } else if key == "down"@ {
        match visible_position(visible, index) {
            Some(p) => if p < visible.len() - 1 {
                RowKeyAction::FocusTask(visible[p + 1])
            } else {
                RowKeyAction::FocusNewTask
            },
            None => RowKeyAction::Nothing,
        }
    } else {
        RowKeyAction::Nothing
    }
}

fn position_in(visible: &Vec<usize>, index: usize) -> (r: Option<usize>)
    ensures
        match r {
            Some(p) => p < visible@.len() && visible_position(visible@, index) == Some(p as int),
            None => visible_position(visible@, index) is None,
        },
{
    let mut i: usize = 0;
    while i < visible.len()
        invariant
            i <= visible@.len(),
            forall|q: int| 0 <= q < i ==> visible@[q] != index,
        decreases visible.len() - i,
    {
        if visible[i] == index {
            assert(visible@.contains(index));
            let ghost c = choose|p: int|
                0 <= p < visible@.len() && visible@[p] == index && forall|q: int|
                    0 <= q < p ==> visible@[q] != index;
            assert(c == i) by {
                if c < i {
                    assert(visible@[c] != index);
                }
                if c > i {
                    assert(visible@[i as int] != index);
                }
            }
            return Some(i);
        }
        i = i + 1;
    }
    assert(!visible@.contains(index)) by {
        if visible@.contains(index) {
            let k = choose|k: int| 0 <= k < visible@.len() && visible@[k] == index;
            assert(visible@[k] != index);
        }
    }
    None
}

/// What a key does in the description field of task `index`.
pub fn row_key_action(key: &str, shift: bool, secondary: bool, visible: &Vec<usize>, index: usize) -> (r: RowKeyAction)
    ensures
        r == row_key_spec(key@, shift, secondary, visible@, index),
{
    if crate::text::str_eq(key, "enter") {
        if shift {
            RowKeyAction::AddSubtask
        } else {
            RowKeyAction::ToggleComplete
        }
    } else if crate::text::str_eq(key, "backspace") && shift && secondary {
        RowKeyAction::Delete
    } else if crate::text::str_eq(key, "up") {
        match position_in(visible, index) {
            Some(p) => if p > 0 {
                RowKeyAction::FocusTask(visible[p - 1])
            } else {
                RowKeyAction::FocusSearch
            },
            None => RowKeyAction::Nothing,
        }
    } else if crate::text::str_eq(key, "down") {
        match position_in(visible, index) {
            Some(p) => if p < visible.len() - 1 {
                RowKeyAction::FocusTask(visible[p + 1])
            } else {
                RowKeyAction::FocusNewTask
            },
            None => RowKeyAction::Nothing,
        }
    } else {
        RowKeyAction::Nothing
    }
}

/// The pills of a task: `+project` for each project, then `@context` for each context.
pub open spec fn pill_labels_spec(projects: Seq<Seq<char>>, contexts: Seq<Seq<char>>) -> Seq<Seq<char>> {
    projects.map_values(|p: Seq<char>| seq!['+'] + p) + contexts.map_values(|c: Seq<char>| seq!['@'] + c)
}

fn push_labels(out: &mut Vec<String>, sign: char, names: &Vec<String>)
    ensures
        final(out)@.map_values(|s: String| s@) == old(out)@.map_values(|s: String| s@) + names@.map_values(
            |n: String| seq![sign] + n@,
        ),
{
    let ghost start = out@.map_values(|s: String| s@);
    let mut i: usize = 0;
    while i < names.len()
        invariant
            i <= names@.len(),
            out@.map_values(|s: String| s@) == start + names@.subrange(0, i as int).map_values(
                |n: String| seq![sign] + n@,
            ),
        decreases names.len() - i,
    {
        let mut label = String::new();
        push_char(&mut label, sign);
        crate::text::push_str(&mut label, names[i].as_str());
        let ghost before = out@.map_values(|s: String| s@);
        out.push(label);
        assert(out@.map_values(|s: String| s@) =~= before.push(seq![sign] + names@[i as int]@));
        assert(names@.subrange(0, i + 1).map_values(|n: String| seq![sign] + n@) =~= names@.subrange(
            0,
            i as int,
        ).map_values(|n: String| seq![sign] + n@).push(seq![sign] + names@[i as int]@));
        i = i + 1;
    }
    assert(names@.subrange(0, names@.len() as int) =~= names@);
}

/// The labels of a task's pills.
pub fn pill_labels(projects: &Vec<String>, contexts: &Vec<String>) -> (r: Vec<String>)
    ensures
        r@.map_values(|s: String| s@) == pill_labels_spec(
            projects@.map_values(|p: String| p@),
            contexts@.map_values(|c: String| c@),
        ),
{
    let mut out: Vec<String> = Vec::new();
    push_labels(&mut out, '+', projects);
    push_labels(&mut out, '@', contexts);
    assert(projects@.map_values(|n: String| seq!['+'] + n@) =~= projects@.map_values(|p: String| p@).map_values(
        |p: Seq<char>| seq!['+'] + p,
    ));
    assert(contexts@.map_values(|n: String| seq!['@'] + n@) =~= contexts@.map_values(|c: String| c@).map_values(
        |c: Seq<char>| seq!['@'] + c,
    ));
    assert(out@.map_values(|s: String| s@) =~= pill_labels_spec(
        projects@.map_values(|p: String| p@),
        contexts@.map_values(|c: String| c@),
    ));
    out
}
} // verus!
