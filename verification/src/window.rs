//! The window descriptor and its resolver: turning the loosely structured
//! `key = value` lines of a window-properties query into a typed descriptor,
//! defensively, so that missing or half-published metadata degrades to a
//! skipped window rather than a wrong action.

use vstd::prelude::*;

use crate::text::{
    find_line_with, find_of, find_sub, first_line_with, lines_of, split_lines, str_eq, trim,
    trimmed, views_of,
};

verus! {

/// The marker of the line that carries a window's visibility state.
pub open spec fn state_marker() -> Seq<char> {
    "window state:"@
}

/// The marker of the line that carries a window's owning process id.
pub open spec fn pid_marker() -> Seq<char> {
    "_NET_WM_PID"@
}

/// The visibility-state token of a properties text: the text after the state
/// marker in the first line containing it, with surrounding whitespace
/// removed; nothing when no line carries the marker.
pub open spec fn state_token_of(props: Seq<char>) -> Option<Seq<char>> {
    let lines = lines_of(props);
    match first_line_with(lines, state_marker()) {
        None => None,
        Some(i) => match find_of(lines[i], state_marker()) {
            None => None,
            Some(m) => Some(trimmed(lines[i].subrange(m + state_marker().len(), lines[i].len() as int))),
        },
    }
}

/// The owning process id of a properties text: the text after the first `=`
/// of the first line containing the process-id marker, with surrounding
/// whitespace removed; empty when that line or its `=` is missing.
pub open spec fn pid_of(props: Seq<char>) -> Seq<char> {
    let lines = lines_of(props);
    match first_line_with(lines, pid_marker()) {
        None => Seq::empty(),
        Some(i) => match find_of(lines[i], "="@) {
            None => Seq::empty(),
            Some(e) => trimmed(lines[i].subrange(e + 1, lines[i].len() as int)),
        },
    }
}

/// What resolving a properties text yields.
pub enum Outcome {
    /// No line carries the state marker: the window has no resolvable state
    /// (commonly it closed between enumeration and resolution) and must be
    /// skipped.
    NoState,
    /// The state token lies outside the two-value vocabulary: a contract
    /// violation of the underlying query.
    BadToken,
    /// The state token was mapped; `pid` is empty when the process-id line is
    /// missing or carries no value.
    Resolved { minimized: bool, pid: Seq<char> },
}

/// The outcome of resolving a properties text: the state token "Normal" maps
/// to not minimized, "Iconic" to minimized, anything else is a contract
/// violation.
pub open spec fn outcome_of(props: Seq<char>) -> Outcome {
    match state_token_of(props) {
        None => Outcome::NoState,
        Some(tok) => if tok == "Normal"@ {
            Outcome::Resolved { minimized: false, pid: pid_of(props) }
        } else if tok == "Iconic"@ {
            Outcome::Resolved { minimized: true, pid: pid_of(props) }
        } else {
            Outcome::BadToken
        },
    }
}

/// One on-screen window at a point in time: its identifier, whether it is
/// minimized, and the process that owns it (empty while unresolved).
#[derive(Clone, Debug)]
pub struct Window {
    is_minimized: bool,
    id: String,
    pid: String,
}

/// The mathematical value of a [`Window`].
#[verifier::ext_equal]
pub struct WindowView {
    pub is_minimized: bool,
    pub id: Seq<char>,
    pub pid: Seq<char>,
}

impl View for Window {
    type V = WindowView;

    closed spec fn view(&self) -> WindowView {
        WindowView { is_minimized: self.is_minimized, id: self.id@, pid: self.pid@ }
    }
}

/// How far a properties text resolved a window.
#[derive(Clone, Copy, Debug, PartialEq, Eq, Structural)]
pub enum Resolution {
    /// The state marker was found and mapped.
    Resolved,
    /// No state marker: the descriptor is unresolved and must be skipped.
    NoState,
}

/// Resolution failed loudly: the vocabulary of the underlying query was
/// violated.
#[derive(Clone, Copy, Debug, PartialEq, Eq, Structural)]
pub enum BuildError {
    /// The state token is neither "Normal" nor "Iconic".
    UnknownStateToken,
}

impl Default for Window {
    /// A blank descriptor, equal to [`Window::new`].
    fn default() -> (r: Self)
        ensures
            r@ == (WindowView {
                is_minimized: false,
                id: Seq::<char>::empty(),
                pid: Seq::<char>::empty(),
            }),
    {
        Window::new()
    }
}

impl Window {
    /// A blank descriptor: not minimized, empty identifier, empty process id.
    pub fn new() -> (r: Self)
        ensures
            r@ == (WindowView {
                is_minimized: false,
                id: Seq::<char>::empty(),
                pid: Seq::<char>::empty(),
            }),
    {
        Window { is_minimized: false, id: String::new(), pid: String::new() }
    }

    /// The descriptor with its identifier replaced.
    pub fn with_id(self, id: String) -> (r: Self)
        ensures
            r@ == (WindowView { id: id@, ..self@ }),
    {
        Window { id, ..self }
    }

    /// The descriptor with its minimization flag replaced.
    pub fn with_is_minimized(self, minimized: bool) -> (r: Self)
        ensures
            r@ == (WindowView { is_minimized: minimized, ..self@ }),
    {
        Window { is_minimized: minimized, ..self }
    }

    /// Whether the window is minimized.
    pub fn is_minimized(&self) -> (r: bool)
        ensures
            r == self@.is_minimized,
    {
        self.is_minimized
    }

    /// The window's identifier.
    pub fn id(&self) -> (r: String)
        ensures
            r@ == self@.id,
    {
        self.id.clone()
    }

    /// The owning process id; empty while unresolved.
    pub fn pid(&self) -> (r: String)
        ensures
            r@ == self@.pid,
    {
        self.pid.clone()
    }

    /// Fills the descriptor's state and process id from the window-properties
    /// text `props`, defensively: a missing state line leaves the descriptor
    /// unresolved (not minimized, empty process id) to be skipped, a missing
    /// or valueless process-id line leaves the process id empty, and a state
    /// token outside the vocabulary fails loudly without touching the
    /// descriptor.
    pub fn build(&mut self, props: &str) -> (r: Result<Resolution, BuildError>)
        ensures
            final(self)@.id == old(self)@.id,
            match r {
                Ok(res) => match outcome_of(props@) {
                    Outcome::NoState => res == Resolution::NoState && final(self)@.is_minimized
                        == false && final(self)@.pid == Seq::<char>::empty(),
                    Outcome::Resolved { minimized, pid } => res == Resolution::Resolved
                        && final(self)@.is_minimized == minimized && final(self)@.pid == pid,
                    Outcome::BadToken => false,
                },
                Err(e) => outcome_of(props@) == Outcome::BadToken && e
                    == BuildError::UnknownStateToken && final(self)@ == old(self)@,
            },
    {
        let lines = split_lines(props);
        let state_idx = find_line_with(&lines, "window state:");
        let i = match state_idx {
            None => {
                self.is_minimized = false;
                self.pid = String::new();
                return Ok(Resolution::NoState);
            },
            Some(i) => i,
        };
        let line = &lines[i];
        let m = find_sub(line.as_str(), "window state:").unwrap();
        let marker_len: usize = "window state:".unicode_len();
        let line_len: usize = line.as_str().unicode_len();
        let tok = trim(line.as_str().substring_char(m + marker_len, line_len));
        proof {
            assert(views_of(lines@)[i as int] == lines@[i as int]@);
            assert(state_token_of(props@) == Some(tok@));
        }
        let minimized: bool = if str_eq(tok, "Normal") {
            false
        } else if str_eq(tok, "Iconic") {
            true
        } else {
            return Err(BuildError::UnknownStateToken);
        };
        let pid_idx = find_line_with(&lines, "_NET_WM_PID");
        let pid = match pid_idx {
            None => String::new(),
            Some(p) => {
                let pline = &lines[p];
                proof {
                    assert(views_of(lines@)[p as int] == lines@[p as int]@);
                }
                match find_sub(pline.as_str(), "=") {
                    None => String::new(),
                    Some(e) => {
                        proof {
                            reveal_strlit("=");
                        }
                        let plen: usize = pline.as_str().unicode_len();
                        String::from_str(trim(pline.as_str().substring_char(e + 1, plen)))
                    },
                }
            },
        };
        proof {
            assert(pid_of(props@) == pid@);
        }
        self.is_minimized = minimized;
        self.pid = pid;
        Ok(Resolution::Resolved)
    }
}

/// The command line of the window-properties query for the window `id`.
pub fn props_query(id: &str) -> (r: String)
    ensures
        r@ == "xprop -id "@ + id@,
{
    let mut s = String::from_str("xprop -id ");
    s.append(id);
    s
}

/// A properties text with no state-marker line has no resolvable state: the
/// outcome is `NoState`, never a defaulted "not minimized".
pub proof fn lemma_skip_on_incomplete(props: Seq<char>)
    requires
        first_line_with(lines_of(props), state_marker()) is None,
    ensures
        outcome_of(props) is NoState,
{
}

/// A properties text with no process-id line resolves to an empty process id,
/// so a successfully mapped state still yields a descriptor that is skipped.
pub proof fn lemma_skip_on_missing_pid(props: Seq<char>)
    requires
        first_line_with(lines_of(props), pid_marker()) is None,
    ensures
        pid_of(props) == Seq::<char>::empty(),
        outcome_of(props) matches Outcome::Resolved { minimized, pid } ==> pid.len() == 0,
{
}

/// The closed state vocabulary: the token "Normal" maps to not minimized, the
/// token "Iconic" to minimized, and any other token is a contract violation,
/// never a silent default.
pub proof fn lemma_vocabulary_mapping(props: Seq<char>)
    ensures
        state_token_of(props) == Some("Normal"@) ==> outcome_of(props) == (Outcome::Resolved {
            minimized: false,
            pid: pid_of(props),
        }),
        state_token_of(props) == Some("Iconic"@) ==> outcome_of(props) == (Outcome::Resolved {
            minimized: true,
            pid: pid_of(props),
        }),
        forall|tok: Seq<char>|
            state_token_of(props) == Some(tok) && tok != "Normal"@ && tok != "Iconic"@
                ==> outcome_of(props) is BadToken,
{
    assert("Normal"@ != "Iconic"@) by {
        reveal_strlit("Normal");
        reveal_strlit("Iconic");
        assert("Normal"@[0] != "Iconic"@[0]);
    }
}

} // verus!
