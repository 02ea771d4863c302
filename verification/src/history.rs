//! The in-memory edit history of an asset: a bounded list of states with a
//! cursor, supporting undo and redo.

use std::collections::VecDeque;

use vstd::prelude::*;

verus! {

/// `std::time::SystemTime`, carried as an opaque value: the library only stores it.
#[verifier::external_type_specification]
#[verifier::external_body]
pub struct ExSystemTime(std::time::SystemTime);

/// The most states a history keeps; the oldest ones are dropped beyond it.
pub const MAX_HISTORY: usize = 64;

/// The states of `h` up to the current one at `i` and `s` after them: the
/// states after the current one are dropped.
pub open spec fn kept_with<S>(h: Seq<S>, i: int, s: S) -> Seq<S> {
    (if i + 1 < h.len() {
        h.subrange(0, i + 1)
    } else {
        h
    }).push(s)
}

/// The states kept after adding `s` to history `h` whose current state is at `i`:
/// the states after the current one are dropped, `s` is appended, and when that
/// makes the history longer than `MAX_HISTORY` the oldest state is dropped.
pub open spec fn history_after_add<S>(h: Seq<S>, i: int, s: S) -> Seq<S> {
    let kept = kept_with(h, i, s);
    if kept.len() > MAX_HISTORY {
        kept.subrange(1, kept.len() as int)
    } else {
        kept
    }
}

/// The position of the current state after adding a state to history `h`
/// whose current state is at `i`: one further on, or the same when the oldest
/// state was dropped (in a well-formed history, the added state).
pub open spec fn index_after_add<S>(h: Seq<S>, i: int, s: S) -> int {
    if kept_with(h, i, s).len() > MAX_HISTORY {
        i
    } else {
        i + 1
    }
}

/// A history `h` with current position `i` is well formed: it holds between one
/// and `MAX_HISTORY` states, and `i` points at one of them.
pub open spec fn history_wf<S>(h: Seq<S>, i: int) -> bool {
    &&& 1 <= h.len() <= MAX_HISTORY
    &&& 0 <= i < h.len()
}

/// In-memory buffer for an asset's state, with its edit history.
#[derive(Clone, Debug)]
pub struct AssetBuffer<S> {
    /// History of states, oldest first.
    pub history: VecDeque<S>,
    /// Position of the current state in `history`.
    pub current_state_i: usize,
    /// Whether the buffer has changes that were not saved.
    pub is_modified: bool,
    /// When the file was last read from or written to disk, if known.
    pub disk_timestamp: Option<std::time::SystemTime>,
}

impl<S> AssetBuffer<S> {
    /// The history holds between one and `MAX_HISTORY` states and the cursor
    /// points at one of them.
    pub open spec fn wf(&self) -> bool {
        history_wf(self.history@, self.current_state_i as int)
    }

    /// The current state.
    pub open spec fn spec_current(&self) -> S {
        self.history@[self.current_state_i as int]
    }

    /// A buffer whose only state is `initial`, unmodified, with no disk timestamp.
    pub fn new(initial: S) -> (b: Self)
        ensures
            b.wf(),
            b.history@ == seq![initial],
            b.current_state_i == 0,
            !b.is_modified,
            b.disk_timestamp.is_none(),
    {
        let mut history = VecDeque::with_capacity(MAX_HISTORY);
        history.push_back(initial);
        AssetBuffer { history, current_state_i: 0, is_modified: false, disk_timestamp: None }
    }

    /// The current state.
    pub fn current_state(&self) -> (s: &S)
        requires
            self.current_state_i < self.history@.len(),
        ensures
            *s == self.spec_current(),
    {
        &self.history[self.current_state_i]
    }

    /// Makes `new_state` the current state: the states after the current one are
    /// dropped, `new_state` is appended, the oldest state is dropped when the
    /// history would exceed `MAX_HISTORY`, and the buffer is marked modified.
    pub fn add_state(&mut self, new_state: S)
        requires
            old(self).current_state_i < usize::MAX,
        ensures
            old(self).wf() ==> final(self).wf(),
            final(self).history@ == history_after_add(
                old(self).history@,
                old(self).current_state_i as int,
                new_state,
            ),
            final(self).current_state_i == index_after_add(
                old(self).history@,
                old(self).current_state_i as int,
                new_state,
            ),
            final(self).is_modified,
            final(self).disk_timestamp == old(self).disk_timestamp,
    {
        let ghost h0 = self.history@;
        let ghost i0 = self.current_state_i as int;
        // Drop the states that could have been redone.
        if self.current_state_i + 1 < self.history.len() {
            self.history.truncate(self.current_state_i + 1);
        }
        self.history.push_back(new_state);
        self.current_state_i = self.current_state_i + 1;
        assert(self.history@ == kept_with(h0, i0, new_state));
        if self.history.len() > MAX_HISTORY {
            let _ = self.history.pop_front();
            if self.current_state_i > 0 {
                self.current_state_i = self.current_state_i - 1;
            }
        }
        self.is_modified = true;
        proof {
            if history_wf(h0, i0) {
                lemma_add_then_undo(h0, i0, new_state);
            }
        }
    }

    /// Whether there is a state before the current one.
    pub fn can_undo(&self) -> (b: bool)
        ensures
            b == (self.current_state_i > 0),
    {
        self.current_state_i > 0
    }

    /// Whether there is a state after the current one.
    pub fn can_redo(&self) -> (b: bool)
        requires
            self.history@.len() > 0,
        ensures
            b == (self.current_state_i + 1 < self.history@.len()),
    {
        self.current_state_i < self.history.len() - 1
    }

    /// Makes the previous state current, if there is one; says whether it did.
    pub fn undo(&mut self) -> (done: bool)
        ensures
            old(self).wf() ==> final(self).wf(),
            done == (old(self).current_state_i > 0),
            final(self).current_state_i == (if done {
                old(self).current_state_i - 1
            } else {
                old(self).current_state_i as int
            }),
            final(self).history@ == old(self).history@,
            final(self).is_modified == old(self).is_modified,
            final(self).disk_timestamp == old(self).disk_timestamp,
    {
        if self.can_undo() {
            self.current_state_i = self.current_state_i - 1;
            true
        } else {
            false
        }
    }

    /// Makes the next state current, if there is one; says whether it did.
    pub fn redo(&mut self) -> (done: bool)
        requires
            old(self).history@.len() > 0,
        ensures
            old(self).wf() ==> final(self).wf(),
            done == (old(self).current_state_i + 1 < old(self).history@.len()),
            final(self).current_state_i == (if done {
                old(self).current_state_i + 1
            } else {
                old(self).current_state_i as int
            }),
            final(self).history@ == old(self).history@,
            final(self).is_modified == old(self).is_modified,
            final(self).disk_timestamp == old(self).disk_timestamp,
    {
        if self.can_redo() {
            assert(self.current_state_i + 1 < self.history.len());
            self.current_state_i = self.current_state_i + 1;
            true
        } else {
            false
        }
    }

    /// Marks the buffer as saved: not modified.
    pub fn mark_saved(&mut self)
        ensures
            !final(self).is_modified,
            final(self).history@ == old(self).history@,
            final(self).current_state_i == old(self).current_state_i,
            final(self).disk_timestamp == old(self).disk_timestamp,
    {
        self.is_modified = false;
    }
}

/// Why an asset's state could not be loaded into a buffer; `path` is the file's
/// path as shown to the user.
#[derive(Debug, Clone, PartialEq)]
pub enum BufferError {
    /// The file could not be read.
    File { path: String, message: String },
    /// The file's text is not an effect asset.
    Parse { path: String, message: String },
    /// The effect asset could not be turned into editor state.
    Conversion { path: String, message: String },
}

/// How a buffer error is shown: its kind, the path and the message.
pub open spec fn spec_buffer_error_text(e: BufferError) -> Seq<char> {
    match e {
        BufferError::File { path, message } => "File error for "@ + path@ + ": "@ + message@,
        BufferError::Parse { path, message } => "Parse error for "@ + path@ + ": "@ + message@,
        BufferError::Conversion { path, message } => "Conversion error for "@ + path@ + ": "@
            + message@,
    }
}

impl BufferError {
    /// How the error is shown, e.g. `File error for fx.hanabi.ron: not found`.
    pub fn to_string(&self) -> (s: String)
        ensures
            s@ == spec_buffer_error_text(*self),
    {
        let (kind, path, message) = match self {
            BufferError::File { path, message } => ("File error for ", path, message),
            BufferError::Parse { path, message } => ("Parse error for ", path, message),
            BufferError::Conversion { path, message } => ("Conversion error for ", path, message),
        };
        let mut s = kind.to_string();
        s.append(path.as_str());
        s.append(": ");
        s.append(message.as_str());
        s
    }
}

/// Adding a state keeps the history well formed and makes the added state
/// current; nothing is left to redo; and one undo brings back the state that
/// was current before.
pub proof fn lemma_add_then_undo<S>(h: Seq<S>, i: int, s: S)
    requires
        history_wf(h, i),
    ensures
        history_wf(history_after_add(h, i, s), index_after_add(h, i, s)),
        history_after_add(h, i, s)[index_after_add(h, i, s)] == s,
        index_after_add(h, i, s) + 1 == history_after_add(h, i, s).len(),
        index_after_add(h, i, s) > 0,
        history_after_add(h, i, s)[index_after_add(h, i, s) - 1] == h[i],
{
    let kept = kept_with(h, i, s);
    assert(kept =~= h.subrange(0, i + 1).push(s));
    if kept.len() > MAX_HISTORY {
        assert(history_after_add(h, i, s) =~= kept.subrange(1, kept.len() as int));
    }
}

/// Adding a state keeps, before it, the states up to the current one, in
/// order, dropping only the oldest one when the history is full; the states
/// after the current one are gone.
pub proof fn lemma_add_keeps_earlier<S>(h: Seq<S>, i: int, s: S)
    requires
        history_wf(h, i),
    ensures
        i + 2 <= MAX_HISTORY ==> history_after_add(h, i, s) == h.subrange(0, i + 1).push(s),
        i + 2 > MAX_HISTORY ==> history_after_add(h, i, s) == h.subrange(1, i + 1).push(s),
{
    let kept = kept_with(h, i, s);
    assert(kept =~= h.subrange(0, i + 1).push(s));
    if kept.len() > MAX_HISTORY {
        assert(history_after_add(h, i, s) =~= h.subrange(1, i + 1).push(s));
    }
}

/// Undo followed by redo comes back to the same position; so does redo
/// followed by undo.
pub proof fn lemma_undo_redo_inverse<S>(h: Seq<S>, i: int)
    requires
        history_wf(h, i),
    ensures
        i > 0 ==> history_wf(h, i - 1) && (i - 1) + 1 < h.len(),
        i + 1 < h.len() ==> history_wf(h, i + 1) && i + 1 > 0,
{
}

} // verus!
