//! The interactive state machine.
//!
//! One `ScannerState` lives for the whole session. Key events edit the target,
//! trigger a scan, move the result selection, or end the session. The outer
//! loop performs the network work of a scan and hands its outcome back through
//! [`ScannerState::scan`].
//!
//! Selection policy: moving the selection clamps at both ends. "Select next"
//! starts at the first entry when nothing is selected and stops at the last
//! entry; "select previous" starts at the last entry when nothing is selected
//! and stops at the first.

use vstd::prelude::*;
use crate::ports::port_list_spec;
use crate::scan::ScanOutcome;
use crate::scan::ScanResult;
use crate::scan::results_match;
use crate::scan::scan_target;

verus! {

/// A key event, already reduced to the keys the state machine reacts to.
/// Only presses are fed in; repeats and releases never reach the core.
#[derive(Debug, Clone, Copy, PartialEq, Eq, Structural)]
pub enum Key {
    Character(char),
    Backspace,
    Enter,
    Up,
    Down,
    Esc,
    Other,
}

/// What the outer loop must do after a key was handled.
#[derive(Debug, Clone, Copy, PartialEq, Eq, Structural)]
pub enum Action {
    /// Nothing beyond redrawing.
    Idle,
    /// Run a scan of the current target and hand the outcome to
    /// [`ScannerState::scan`].
    RunScan,
    /// End the session.
    Quit,
}

/// The whole interactive state: the target text being edited, the results of
/// the most recently completed scan, and the selection cursor over them.
#[derive(Debug)]
pub struct ScannerState {
    pub target: String,
    pub scan_result: Vec<ScanResult>,
    pub selection: Option<usize>,
}

/// The target after one Backspace: unchanged when empty, else without its
/// last character.
pub open spec fn target_after_backspace(t: Seq<char>) -> Seq<char> {
    if t.len() == 0 {
        t
    } else {
        t.drop_last()
    }
}

/// Where "select next" moves the cursor: to the first entry when nothing is
/// selected, else one down, clamped at the last entry.
pub open spec fn select_next_spec(sel: Option<usize>, n: usize) -> usize
    recommends
        n > 0,
{
    match sel {
        Option::None => 0usize,
        Option::Some(i) => if i + 1 < n {
            (i + 1) as usize
        } else {
            (n - 1) as usize
        },
    }
}

/// Where "select previous" moves the cursor: to the last entry when nothing
/// is selected, else one up, clamped at the first entry.
pub open spec fn select_prev_spec(sel: Option<usize>, n: usize) -> usize
    recommends
        n > 0,
{
    match sel {
        Option::None => (n - 1) as usize,
        Option::Some(i) => if i >= 1 {
            (i - 1) as usize
        } else {
            0usize
        },
    }
}

/// The target after appending the characters of `cs`, one
/// [`Key::Character`] event at a time, front to back.
pub open spec fn after_appends(t: Seq<char>, cs: Seq<char>) -> Seq<char>
    decreases cs.len(),
{
    if cs.len() == 0 {
        t
    } else {
        after_appends(t.push(cs.first()), cs.drop_first())
    }
}

/// The target after `n` [`Key::Backspace`] events.
pub open spec fn after_backspaces(t: Seq<char>, n: nat) -> Seq<char>
    decreases n,
{
    if n == 0 {
        t
    } else {
        after_backspaces(target_after_backspace(t), (n - 1) as nat)
    }
}

/// Appending characters one by one is concatenation.
proof fn lemma_after_appends_is_concat(t: Seq<char>, cs: Seq<char>)
    ensures
        after_appends(t, cs) == t + cs,
    decreases cs.len(),
{
    if cs.len() == 0 {
        assert(t + cs =~= t);
    } else {
        lemma_after_appends_is_concat(t.push(cs.first()), cs.drop_first());
        assert(t.push(cs.first()) + cs.drop_first() =~= t + cs);
    }
}

/// As many Backspaces as there are appended characters undo exactly the
/// appended part.
proof fn lemma_backspaces_undo_concat(t: Seq<char>, cs: Seq<char>)
    ensures
        after_backspaces(t + cs, cs.len()) == t,
    decreases cs.len(),
{
    if cs.len() == 0 {
        assert(t + cs =~= t);
    } else {
        assert((t + cs).len() > 0);
        assert(target_after_backspace(t + cs) =~= t + cs.drop_last());
        lemma_backspaces_undo_concat(t, cs.drop_last());
    }
}

/// Editing round trip: appending any characters and then pressing Backspace
/// an equal number of times returns the target to its prior value.
pub proof fn lemma_edit_round_trip(t: Seq<char>, cs: Seq<char>)
    ensures
        after_backspaces(after_appends(t, cs), cs.len()) == t,
{
    lemma_after_appends_is_concat(t, cs);
    lemma_backspaces_undo_concat(t, cs);
}

/// Clamped selection moves never leave the results: starting from any
/// in-bounds (or empty) selection over `n > 0` results, both moves land on an
/// index that is at least 0 and strictly below `n`.
pub proof fn lemma_selection_in_bounds(sel: Option<usize>, n: usize)
    requires
        n > 0,
        sel matches Option::Some(i) ==> i < n,
    ensures
        select_next_spec(sel, n) < n,
        select_prev_spec(sel, n) < n,
{
}

/// Relies on alloc's `String::push`: appends the given character to the end
/// of the string.
pub assume_specification[ String::push ](s: &mut String, ch: char)
    ensures
        final(s)@ == old(s)@.push(ch),
;

/// Relies on alloc's `String::pop`: removes and returns the last character,
/// or returns `None` and changes nothing when the string is empty.
pub assume_specification[ String::pop ](s: &mut String) -> (r: Option<char>)
    ensures
        old(s)@.len() == 0 ==> final(s)@ == old(s)@ && r is None,
        old(s)@.len() > 0 ==> final(s)@ == old(s)@.drop_last() && r == Option::Some(old(s)@.last()),
;

impl ScannerState {
    /// The selection, when present, points into the results.
    pub open spec fn wf(self) -> bool {
        self.selection matches Option::Some(i) ==> (i as int) < self.scan_result@.len()
    }

    /// The initial state: empty target, no results, nothing selected.
    pub fn new() -> (s: Self)
        ensures
            s.target@ == Seq::<char>::empty(),
            s.scan_result@ == Seq::<ScanResult>::empty(),
            s.selection is None,
            s.wf(),
    {
        ScannerState { target: String::new(), scan_result: Vec::new(), selection: Option::None }
    }

    /// Applies one key event and says what the outer loop must do next.
    ///
    /// Characters and Backspace edit the target; Enter asks for a scan; Up
    /// and Down move the selection (clamped, and only over non-empty
    /// results); Esc ends the session; anything else does nothing.
    pub fn handle_key(&mut self, key: Key) -> (a: Action)
        requires
            old(self).wf(),
        ensures
            final(self).wf(),
            final(self).scan_result == old(self).scan_result,
            match key {
                Key::Character(c) => {
                    &&& final(self).target@ == old(self).target@.push(c)
                    &&& final(self).selection == old(self).selection
                    &&& a == Action::Idle
                },
                Key::Backspace => {
                    &&& final(self).target@ == target_after_backspace(old(self).target@)
                    &&& final(self).selection == old(self).selection
                    &&& a == Action::Idle
                },
                Key::Enter => {
                    &&& *final(self) == *old(self)
                    &&& a == Action::RunScan
                },
                Key::Up => {
                    &&& final(self).target == old(self).target
                    &&& (old(self).scan_result@.len() == 0 ==> *final(self) == *old(self))
                    &&& (old(self).scan_result@.len() > 0 ==> final(self).selection == Option::Some(
                        select_prev_spec(old(self).selection, old(self).scan_result.len()),
                    ))
                    &&& a == Action::Idle
                },
                Key::Down => {
                    &&& final(self).target == old(self).target
                    &&& (old(self).scan_result@.len() == 0 ==> *final(self) == *old(self))
                    &&& (old(self).scan_result@.len() > 0 ==> final(self).selection == Option::Some(
                        select_next_spec(old(self).selection, old(self).scan_result.len()),
                    ))
                    &&& a == Action::Idle
                },
                Key::Esc => {
                    &&& *final(self) == *old(self)
                    &&& a == Action::Quit
                },
                Key::Other => {
                    &&& *final(self) == *old(self)
                    &&& a == Action::Idle
                },
            },
    {
        match key {
            Key::Character(c) => {
                self.target.push(c);
                Action::Idle
            },
            Key::Backspace => {
                let _ = self.target.pop();
                Action::Idle
            },
            Key::Enter => Action::RunScan,
            Key::Up => {
                if self.scan_result.len() > 0 {
                    let n = self.scan_result.len();
                    let sel = match self.selection {
                        Option::None => n - 1,
                        Option::Some(i) => if i >= 1 {
                            i - 1
                        } else {
                            0
                        },
                    };
                    self.selection = Option::Some(sel);
                }
                Action::Idle
            },
            Key::Down => {
                if self.scan_result.len() > 0 {
                    let n = self.scan_result.len();
                    let sel = match self.selection {
                        Option::None => 0,
                        Option::Some(i) => if i + 1 < n {
                            i + 1
                        } else {
                            n - 1
                        },
                    };
                    self.selection = Option::Some(sel);
                }
                Action::Idle
            },
            Key::Esc => Action::Quit,
            Key::Other => Action::Idle,
        }
    }

    /// Completes one scan request. An empty target means no work at all: the
    /// state, results included, stays exactly as it was. Otherwise the old
    /// results are replaced wholesale — by the fresh result sequence when the
    /// target resolved and every port was probed, by nothing when resolution
    /// failed — and the selection is cleared.
    pub fn scan(&mut self, outcome: &ScanOutcome)
        requires
            old(self).wf(),
            outcome matches ScanOutcome::Probed(v) ==> v@.len() == port_list_spec().len(),
        ensures
            final(self).wf(),
            final(self).target == old(self).target,
            old(self).target@.len() == 0 ==> *final(self) == *old(self),
            old(self).target@.len() > 0 ==> {
                &&& final(self).selection is None
                &&& (outcome matches ScanOutcome::ResolutionFailed ==> final(self).scan_result@.len()
                    == 0)
                &&& (outcome matches ScanOutcome::Probed(v) ==> results_match(
                    old(self).target@,
                    v@,
                    final(self).scan_result@,
                ))
            },
    {
        if self.target.as_str().is_empty() {
            return ;
        }
        self.selection = Option::None;
        let results = match outcome {
            ScanOutcome::ResolutionFailed => Vec::new(),
            ScanOutcome::Probed(v) => scan_target(&self.target, v),
        };
        self.scan_result = results;
    }
}

} // verus!
