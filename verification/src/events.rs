//! Events that editor components send to the components that own them.

use vstd::prelude::*;

use crate::models::key_value::KeyValueEntry;

verus! {

/// Sent by the asset editor.
#[derive(Debug, Clone, PartialEq, Eq)]
pub enum AssetEditorEvent {
    Save,
}

/// Sent by a value inspector whose value changed.
#[derive(Debug, Clone)]
pub enum InspectorEvent<V> {
    /// The inspector's value has changed.
    Updated { v: V },
}

/// Sent by a block holding a single value.
#[derive(Debug, Clone)]
pub enum ScalarBlockEvent<V> {
    Changed { v: V },
}

/// Sent by a block holding a sequence of values.
#[derive(Debug, Clone)]
pub enum SequenceBlockEvent<V> {
    ItemChanged { index: usize, v: V },
    ItemAdded { index: usize, v: V },
    ItemRemoved { index: usize },
    ItemMoved { from_index: usize, to_index: usize },
}

/// Sent by a block holding named property values.
#[derive(Debug, Clone)]
pub enum KeyValueBlockEvent {
    EntryChanged { index: usize, entry: KeyValueEntry },
    EntryAdded { index: usize, entry: KeyValueEntry },
    EntryRemoved { index: usize },
}

/// Sent by an entry of the file browser.
#[derive(Debug, Clone, PartialEq, Eq)]
pub enum FileEntryEvent {
    Select { ix: usize },
    MoveUp { ix: usize },
    MoveDown { ix: usize },
    RenameStart { ix: usize },
    RenameConfirm { ix: usize, new_name: String },
    Copy { ix: usize },
    Delete { ix: usize },
}

/// Sent by the file browser's status bar.
#[derive(Debug, Clone, PartialEq, Eq)]
pub enum StatusBarEvent {
    RefreshRequested,
}

} // verus!
