//! The decisions of the file browser: which entry is selected after a keyboard
//! or mouse event or a deletion, and which files the name filter shows.

use vstd::prelude::*;

use crate::events::FileEntryEvent;
use crate::text::{chars_of, spec_to_lowercase, to_lowercase};

verus! {

/// What the browser does in answer to an event from one of its entries.
#[derive(Debug, Clone, PartialEq, Eq)]
pub enum BrowserAction {
    /// Select the entry at `ix`.
    SelectItem { ix: usize },
    /// Select no entry.
    ClearSelection,
    /// Rename the file at `ix` to `new_name`.
    RenameFile { ix: usize, new_name: String },
    /// Copy the file at `ix` under a new name.
    DuplicateFile { ix: usize },
    /// Delete the file at `ix`.
    DeleteFile { ix: usize },
    /// Nothing to do.
    Nothing,
}

/// The action for entry event `ev` when the browser shows `len` entries.
pub open spec fn spec_entry_action(ev: FileEntryEvent, len: nat) -> BrowserAction {
    match ev {
        FileEntryEvent::Select { ix } => BrowserAction::SelectItem { ix },
        FileEntryEvent::RenameStart { .. } => BrowserAction::ClearSelection,
        FileEntryEvent::MoveUp { ix } => if ix > 0 {
            BrowserAction::SelectItem { ix: (ix - 1) as usize }
        } else {
            BrowserAction::Nothing
        },
        FileEntryEvent::MoveDown { ix } => if ix + 1 < len {
            BrowserAction::SelectItem { ix: (ix + 1) as usize }
        } else {
            BrowserAction::Nothing
        },
        FileEntryEvent::RenameConfirm { ix, new_name } => BrowserAction::RenameFile { ix, new_name },
        FileEntryEvent::Copy { ix } => BrowserAction::DuplicateFile { ix },
        FileEntryEvent::Delete { ix } => BrowserAction::DeleteFile { ix },
    }
}

/// The action for the entry event `ev`, when the browser shows `len` entries:
/// moving up or down selects the neighbouring entry if there is one, starting a
/// rename clears the selection, and the others are passed on.
pub fn entry_event_action(ev: &FileEntryEvent, len: usize) -> (a: BrowserAction)
    ensures
        a == spec_entry_action(*ev, len as nat),
{
    match ev {
        FileEntryEvent::Select { ix } => BrowserAction::SelectItem { ix: *ix },
        FileEntryEvent::RenameStart { .. } => BrowserAction::ClearSelection,
        FileEntryEvent::MoveUp { ix } => {
            if *ix > 0 {
                BrowserAction::SelectItem { ix: *ix - 1 }
            } else {
                BrowserAction::Nothing
            }
        },
        FileEntryEvent::MoveDown { ix } => {
            if len > 0 && *ix < len - 1 {
                BrowserAction::SelectItem { ix: *ix + 1 }
            } else {
                BrowserAction::Nothing
            }
        },
        FileEntryEvent::RenameConfirm { ix, new_name } => BrowserAction::RenameFile {
            ix: *ix,
            new_name: new_name.clone(),
        },
        FileEntryEvent::Copy { ix } => BrowserAction::DuplicateFile { ix: *ix },
        FileEntryEvent::Delete { ix } => BrowserAction::DeleteFile { ix: *ix },
    }
}

/// Keyboard navigation moves the selection by one entry: moving up from any
/// entry but the first selects the one before it, and from the first does
/// nothing; moving down from any entry but the last selects the one after
/// it, and from the last does nothing; moving up and then down again comes
/// back to the same entry. A click selects the entry clicked, starting a
/// rename clears the selection, and copy, delete and rename act on the entry
/// they come from.
pub proof fn lemma_entry_navigation(ix: usize, len: nat, new_name: String)
    ensures
        ix > 0 ==> spec_entry_action((FileEntryEvent::MoveUp { ix }), len)
            == (BrowserAction::SelectItem { ix: (ix - 1) as usize }),
        ix == 0 ==> spec_entry_action((FileEntryEvent::MoveUp { ix }), len) == BrowserAction::Nothing,
        ix + 1 < len ==> spec_entry_action((FileEntryEvent::MoveDown { ix }), len)
            == (BrowserAction::SelectItem { ix: (ix + 1) as usize }),
        ix + 1 >= len ==> spec_entry_action((FileEntryEvent::MoveDown { ix }), len)
            == BrowserAction::Nothing,
        0 < ix < len ==> match spec_entry_action((FileEntryEvent::MoveUp { ix }), len) {
            (BrowserAction::SelectItem { ix: j }) => spec_entry_action(
                (FileEntryEvent::MoveDown { ix: j }),
                len,
            ) == (BrowserAction::SelectItem { ix }),
            _ => false,
        },
        spec_entry_action((FileEntryEvent::Select { ix }), len) == (BrowserAction::SelectItem { ix }),
        spec_entry_action((FileEntryEvent::RenameStart { ix }), len) == BrowserAction::ClearSelection,
        spec_entry_action((FileEntryEvent::Copy { ix }), len) == (BrowserAction::DuplicateFile { ix }),
        spec_entry_action((FileEntryEvent::Delete { ix }), len) == (BrowserAction::DeleteFile { ix }),
        spec_entry_action((FileEntryEvent::RenameConfirm { ix, new_name }), len)
            == (BrowserAction::RenameFile { ix, new_name }),
{
}

/// The selection once the file at `deleted` is gone: cleared if it was that
/// file, one lower if it came after it, unchanged otherwise.
pub open spec fn spec_selection_after_delete(selected: Option<usize>, deleted: usize) -> Option<usize> {
    match selected {
        Some(s) => if s == deleted {
            None
        } else if s > deleted {
            Some((s - 1) as usize)
        } else {
            Some(s)
        },
        None => None,
    }
}

/// The selection once the file at `deleted` is gone.
pub fn selection_after_delete(selected: Option<usize>, deleted: usize) -> (r: Option<usize>)
    ensures
        r == spec_selection_after_delete(selected, deleted),
{
    match selected {
        Some(s) => {
            if s == deleted {
                None
            } else if s > deleted {
                Some(s - 1)
            } else {
                Some(s)
            }
        },
        None => None,
    }
}

/// A deletion keeps the selection on the same file: the file selected before
/// the deletion, if it was not the deleted one, is still selected among the
/// files that remain.
pub proof fn lemma_delete_keeps_selected_file<F>(files: Seq<F>, selected: usize, deleted: usize)
    requires
        selected < files.len(),
        deleted < files.len(),
        selected != deleted,
    ensures
        spec_selection_after_delete(Some(selected), deleted) matches Some(s) && s < files.remove(
            deleted as int,
        ).len() && files.remove(deleted as int)[s as int] == files[selected as int],
{
}

/// What the browser's bottom bar offers: saving and reverting are enabled when
/// the selected file's buffer has unsaved changes, and the selected file, if any,
/// is named.
#[derive(Debug, Clone, Copy, PartialEq, Eq)]
pub struct BottomBarState {
    pub save_enabled: bool,
    pub revert_enabled: bool,
    /// The position of the file whose path is shown.
    pub shown_file: Option<usize>,
}

/// The bottom bar for selection `selected`, where `modified[i]` says whether
/// file `i`'s buffer has unsaved changes (`None` when it has no buffer).
pub fn bottom_bar_state(selected: Option<usize>, modified: &Vec<Option<bool>>) -> (r: BottomBarState)
    ensures
        match selected {
            Some(ix) if ix < modified@.len() => {
                let dirty = modified@[ix as int] == Some(true);
                r == BottomBarState { save_enabled: dirty, revert_enabled: dirty, shown_file: Some(ix) }
            },
            _ => r == BottomBarState { save_enabled: false, revert_enabled: false, shown_file: None },
        },
{
    match selected {
        Some(ix) => {
            if ix < modified.len() {
                let dirty = match modified[ix] {
                    Some(m) => m,
                    None => false,
                };
                BottomBarState { save_enabled: dirty, revert_enabled: dirty, shown_file: Some(ix) }
            } else {
                BottomBarState { save_enabled: false, revert_enabled: false, shown_file: None }
            }
        },
        None => BottomBarState { save_enabled: false, revert_enabled: false, shown_file: None },
    }
}

/// What a mouse click on a file entry does.
#[derive(Debug, Clone, Copy, PartialEq, Eq)]
pub enum ClickAction {
    /// Select the entry.
    Select,
    /// Start renaming the entry.
    StartRename,
    /// Nothing.
    Ignore,
}

/// The effect of a click counted `click_count` on an entry: none while it is
/// being renamed; a single click selects it and a double click starts renaming it.
pub fn click_action(is_renaming: bool, click_count: usize) -> (a: ClickAction)
    ensures
        a == (if is_renaming {
            ClickAction::Ignore
        } else if click_count == 1 {
            ClickAction::Select
        } else if click_count == 2 {
            ClickAction::StartRename
        } else {
            ClickAction::Ignore
        }),
{
    if is_renaming {
        ClickAction::Ignore
    } else if click_count == 1 {
        ClickAction::Select
    } else if click_count == 2 {
        ClickAction::StartRename
    } else {
        ClickAction::Ignore
    }
}

/// The event an entry sends for the arrow key `up` (or down): none while it is
/// being renamed.
pub fn arrow_key_event(ix: usize, is_renaming: bool, up: bool) -> (ev: Option<FileEntryEvent>)
    ensures
        ev == (if is_renaming {
            None
        } else if up {
            Some(FileEntryEvent::MoveUp { ix })
        } else {
            Some(FileEntryEvent::MoveDown { ix })
        }),
{
    if is_renaming {
        None
    } else if up {
        Some(FileEntryEvent::MoveUp { ix })
    } else {
        Some(FileEntryEvent::MoveDown { ix })
    }
}

/// The event an entry sends when a rename is confirmed with `new_name`: none
/// for an empty name.
pub fn rename_confirm_event(ix: usize, new_name: &str) -> (ev: Option<FileEntryEvent>)
    ensures
        new_name@.len() == 0 ==> ev.is_none(),
        new_name@.len() > 0 ==> (ev matches Some(FileEntryEvent::RenameConfirm { ix: i, new_name: n })
            && i == ix && n@ == new_name@),
{
    if new_name.is_empty() {
        None
    } else {
        Some(FileEntryEvent::RenameConfirm { ix, new_name: new_name.to_owned() })
    }
}

/// The buffer that the file at path `p` keeps when the file list is rebuilt:
/// the buffer of the last entry of `old` with that path that has one.
pub open spec fn kept_buffer<B>(old: Seq<(String, Option<B>)>, p: Seq<char>) -> Option<B>
    decreases old.len(),
{
    if old.len() == 0 {
        None
    } else if old.last().0@ == p && old.last().1 is Some {
        old.last().1
    } else {
        kept_buffer(old.drop_last(), p)
    }
}

/// The buffer that the file at `path` keeps, found among `old[..n]`.
fn find_kept_buffer<B: Clone>(old: &Vec<(String, Option<B>)>, path: &str, n: usize) -> (r: Option<B>)
    requires
        n <= old@.len(),
    ensures
        match kept_buffer(old@.take(n as int), path@) {
            Some(b) => r matches Some(c) && cloned(b, c),
            None => r is None,
        },
    decreases n,
{
    if n == 0 {
        return None;
    }
    let ghost prefix = old@.take(n as int);
    assert(prefix.drop_last() =~= old@.take(n - 1));
    assert(prefix.last() == old@[n - 1]);
    match &old[n - 1].1 {
        Some(b) => {
            if crate::text::str_eq(old[n - 1].0.as_str(), path) {
                return Some(b.clone());
            }
        },
        None => {},
    }
    find_kept_buffer(old, path, n - 1)
}

/// The buffers that the files at `new_paths` keep when the file list is rebuilt
/// from the entries `old` (each a path and its buffer, if loaded): each new
/// file keeps a copy of the buffer its path had, so unsaved edits survive a
/// refresh; a path seen several times keeps its last buffer.
pub fn carried_buffers<B: Clone>(old: &Vec<(String, Option<B>)>, new_paths: &Vec<String>) -> (r: Vec<Option<B>>)
    ensures
        r@.len() == new_paths@.len(),
        forall|j: int|
            0 <= j < new_paths@.len() ==> match kept_buffer(old@, new_paths@[j]@) {
                Some(b) => #[trigger] r@[j] matches Some(c) && cloned(b, c),
                None => r@[j] is None,
            },
{
    assert(old@.take(old@.len() as int) =~= old@);
    let mut r: Vec<Option<B>> = Vec::new();
    let mut j: usize = 0;
    while j < new_paths.len()
        invariant
            j <= new_paths@.len(),
            r@.len() == j,
            old@.take(old@.len() as int) == old@,
            forall|k: int|
                0 <= k < j ==> match kept_buffer(old@, new_paths@[k]@) {
                    Some(b) => #[trigger] r@[k] matches Some(c) && cloned(b, c),
                    None => r@[k] is None,
                },
        decreases new_paths@.len() - j,
    {
        let kept = find_kept_buffer(old, new_paths[j].as_str(), old.len());
        r.push(kept);
        j = j + 1;
    }
    r
}

/// `needle` occurs in `hay` as a contiguous run of characters.
pub open spec fn is_substring(needle: Seq<char>, hay: Seq<char>) -> bool {
    exists|i: int| 0 <= i <= hay.len() - needle.len() && #[trigger] hay.subrange(i, i + needle.len()) == needle
}

/// Whether `needle[..]` occurs in `hay` at position `i`.
fn occurs_at(needle: &Vec<char>, hay: &Vec<char>, i: usize) -> (b: bool)
    requires
        i + needle.len() <= hay.len(),
    ensures
        b == (hay@.subrange(i as int, i + needle.len()) == needle@),
{
    let mut k: usize = 0;
    while k < needle.len()
        invariant
            i + needle.len() <= hay.len(),
            k <= needle.len(),
            forall|j: int| 0 <= j < k ==> hay@[i + j] == needle@[j],
        decreases needle.len() - k,
    {
        if hay[i + k] != needle[k] {
            assert(hay@.subrange(i as int, i + needle.len())[k as int] != needle@[k as int]);
            return false;
        }
        k = k + 1;
    }
    assert(hay@.subrange(i as int, i + needle.len()) =~= needle@);
    true
}

/// Whether `needle` occurs in `hay` as a contiguous run of characters.
pub fn contains_chars(hay: &Vec<char>, needle: &Vec<char>) -> (b: bool)
    ensures
        b == is_substring(needle@, hay@),
{
    if needle.len() > hay.len() {
        return false;
    }
    let last = hay.len() - needle.len();
    let mut i: usize = 0;
    loop
        invariant
            last + needle.len() == hay.len(),
            i <= last,
            forall|j: int| 0 <= j < i ==> #[trigger] hay@.subrange(j, j + needle.len()) != needle@,
        decreases last - i,
    {
        if occurs_at(needle, hay, i) {
            return true;
        }
        if i == last {
            return false;
        }
        i = i + 1;
    }
}

/// Whether `name`, lowercased, contains `filter`, lowercased.
pub open spec fn spec_name_matches(name: Seq<char>, filter: Seq<char>) -> bool {
    is_substring(spec_to_lowercase(filter), spec_to_lowercase(name))
}

/// Whether the lowercased name `name_lower` contains the lowercased filter
/// `filter_lower`.
pub fn lowered_name_matches(name_lower: &str, filter_lower: &str) -> (b: bool)
    ensures
        b == is_substring(filter_lower@, name_lower@),
{
    contains_chars(&chars_of(name_lower), &chars_of(filter_lower))
}

/// Whether the file name `name` passes the name filter `filter`: the filter,
/// lowercased, occurs in the name, lowercased.
pub fn name_matches_filter(name: &str, filter: &str) -> (b: bool)
    ensures
        b == spec_name_matches(name@, filter@),
{
    let name_lower = to_lowercase(name);
    let filter_lower = to_lowercase(filter);
    lowered_name_matches(name_lower.as_str(), filter_lower.as_str())
}

/// The positions in `names` of the names that pass `filter`, in order.
pub open spec fn spec_filtered(names: Seq<Seq<char>>, filter: Seq<char>) -> Seq<int>
    decreases names.len(),
{
    if names.len() == 0 {
        Seq::empty()
    } else {
        let rest = spec_filtered(names.drop_last(), filter);
        if spec_name_matches(names.last(), filter) {
            rest.push(names.len() - 1)
        } else {
            rest
        }
    }
}

/// Names are ordered character by character: a name comes before every
/// longer name that starts with it, and where two names first differ, the
/// one with the smaller character there comes first.
pub proof fn lemma_chars_lt_order(a: Seq<char>, b: Seq<char>, i: int)
    requires
        0 <= i <= a.len(),
        i <= b.len(),
        a.subrange(0, i) == b.subrange(0, i),
    ensures
        i == a.len() && a.len() < b.len() ==> chars_lt(a, b),
        i < a.len() && i < b.len() && a[i] < b[i] ==> chars_lt(a, b),
        i < a.len() && i < b.len() && a[i] > b[i] ==> !chars_lt(a, b),
    decreases i,
{
    if i > 0 {
        assert(a[0] == a.subrange(0, i)[0]);
        assert(b[0] == b.subrange(0, i)[0]);
        assert(a.drop_first().subrange(0, i - 1) =~= a.subrange(0, i).drop_first());
        assert(b.drop_first().subrange(0, i - 1) =~= b.subrange(0, i).drop_first());
        lemma_chars_lt_order(a.drop_first(), b.drop_first(), i - 1);
        if i < a.len() {
            assert(a.drop_first()[i - 1] == a[i]);
        }
        if i < b.len() {
            assert(b.drop_first()[i - 1] == b[i]);
        }
    }
}

/// Whether `needle` stands somewhere in `hay` as a run of characters.
pub open spec fn occurs_in(needle: Seq<char>, hay: Seq<char>) -> bool {
    exists|j: int| 0 <= j && j + needle.len() <= hay.len() && #[trigger] hay.subrange(j, j + needle.len()) == needle
}

/// The name filter shows exactly the names whose lowercase form holds the
/// lowercase filter, each once, in the order of the list.
pub proof fn lemma_filter_shows_matching(names: Seq<Seq<char>>, filter: Seq<char>)
    ensures
        forall|k: int|
            0 <= k < spec_filtered(names, filter).len() ==> 0 <= #[trigger] spec_filtered(names, filter)[k]
                < names.len() && occurs_in(
                spec_to_lowercase(filter),
                spec_to_lowercase(names[spec_filtered(names, filter)[k]]),
            ),
        forall|k: int, l: int|
            0 <= k < l < spec_filtered(names, filter).len() ==> #[trigger] spec_filtered(names, filter)[k]
                < #[trigger] spec_filtered(names, filter)[l],
        forall|i: int|
            0 <= i < names.len() && occurs_in(spec_to_lowercase(filter), spec_to_lowercase(#[trigger] names[i]))
                ==> spec_filtered(names, filter).contains(i),
    decreases names.len(),
{
    let f = spec_filtered(names, filter);
    let lf = spec_to_lowercase(filter);
    if names.len() > 0 {
        let init = names.drop_last();
        lemma_filter_shows_matching(init, filter);
        let r = spec_filtered(init, filter);
        assert forall|i: int| 0 <= i < init.len() implies init[i] == names[i] by {}
        let last = names.len() - 1;
        let ln = spec_to_lowercase(names[last]);
        if occurs_in(lf, ln) {
            let j = choose|j: int| 0 <= j && j + lf.len() <= ln.len() && #[trigger] ln.subrange(j, j + lf.len()) == lf;
            assert(ln.subrange(j, j + lf.len()) == lf);
            assert(spec_name_matches(names.last(), filter));
        }
        if spec_name_matches(names.last(), filter) {
            let j = choose|j: int| 0 <= j <= ln.len() - lf.len() && #[trigger] ln.subrange(j, j + lf.len()) == lf;
            assert(ln.subrange(j, j + lf.len()) == lf);
            assert(occurs_in(lf, ln));
            assert(f == r.push(last));
            assert(f[r.len() as int] == last);
            assert forall|k: int| 0 <= k < r.len() implies f[k] == r[k] by {}
        } else {
            assert(f == r);
        }
        assert forall|i: int|
            0 <= i < names.len() && occurs_in(lf, spec_to_lowercase(#[trigger] names[i])) implies f.contains(i) by {
            if i < last {
                assert(init[i] == names[i]);
                let k = choose|k: int| 0 <= k < r.len() && r[k] == i;
                assert(f[k] == i);
            } else {
                assert(f[r.len() as int] == i);
            }
        }
    }
}

/// The views of a list of strings.
pub open spec fn string_views(v: Seq<String>) -> Seq<Seq<char>> {
    v.map_values(|s: String| s@)
}

/// `selected` is the place in `shown` of the last shown name equal to `wanted`,
/// or `None` when there is no such name or no name is wanted.
pub open spec fn spec_selection_in(
    names: Seq<Seq<char>>,
    shown: Seq<usize>,
    wanted: Option<Seq<char>>,
    selected: Option<usize>,
) -> bool {
    match selected {
        Some(k) => {
            &&& wanted matches Some(n)
            &&& k < shown.len()
            &&& names[shown[k as int] as int] == n
            &&& forall|l: int| k < l < shown.len() ==> names[#[trigger] shown[l] as int] != n
        },
        None => wanted matches Some(n) ==> forall|l: int|
            0 <= l < shown.len() ==> names[#[trigger] shown[l] as int] != n,
    }
}

/// The view of an optional string slice.
pub open spec fn opt_view(s: Option<&str>) -> Option<Seq<char>> {
    match s {
        Some(t) => Some(t@),
        None => None,
    }
}

/// The file list shown for the name filter `filter`: the positions in `names` of
/// the names that pass it, in order, and, when `selected_name` is given, the
/// place in that list of the last shown name equal to it.
pub fn filter_file_list(names: &Vec<String>, filter: &str, selected_name: Option<&str>) -> (r: (
    Vec<usize>,
    Option<usize>,
))
    ensures
        r.0@.map_values(|i: usize| i as int) == spec_filtered(string_views(names@), filter@),
        spec_selection_in(string_views(names@), r.0@, opt_view(selected_name), r.1),
{
    let mut shown: Vec<usize> = Vec::new();
    let mut selected: Option<usize> = None;
    let mut i: usize = 0;
    while i < names.len()
        invariant
            i <= names@.len(),
            shown@.map_values(|i: usize| i as int) == spec_filtered(
                string_views(names@).take(i as int),
                filter@,
            ),
            forall|l: int| 0 <= l < shown@.len() ==> #[trigger] shown@[l] < i,
            spec_selection_in(string_views(names@), shown@, opt_view(selected_name), selected),
        decreases names@.len() - i,
    {
        let ghost views = string_views(names@);
        assert(views.take(i + 1).drop_last() =~= views.take(i as int));
        assert(views.take(i + 1).last() == names@[i as int]@);
        if name_matches_filter(names[i].as_str(), filter) {
            let k = shown.len();
            shown.push(i);
            assert(shown@.map_values(|i: usize| i as int) =~= spec_filtered(
                views.take(i as int),
                filter@,
            ).push(i as int));
            match selected_name {
                Some(n) => {
                    if crate::text::str_eq(names[i].as_str(), n) {
                        selected = Some(k);
                    }
                },
                None => {},
            }
        }
        i = i + 1;
    }
    assert(string_views(names@).take(names@.len() as int) =~= string_views(names@));
    (shown, selected)
}


/// `a` comes strictly before `b` in lexicographic order of their characters
/// (the order of `String`'s `Ord`, since UTF-8 keeps the order of code points).
pub open spec fn chars_lt(a: Seq<char>, b: Seq<char>) -> bool
    decreases a.len(),
{
    if a.len() == 0 {
        b.len() > 0
    } else if b.len() == 0 {
        false
    } else if a[0] != b[0] {
        a[0] < b[0]
    } else {
        chars_lt(a.drop_first(), b.drop_first())
    }
}

/// No name comes before itself.
pub proof fn lemma_chars_lt_irreflexive(a: Seq<char>)
    ensures
        !chars_lt(a, a),
    decreases a.len(),
{
    if a.len() > 0 {
        lemma_chars_lt_irreflexive(a.drop_first());
    }
}

/// If `a` comes before `b` and `b` before `c`, then `a` comes before `c`.
pub proof fn lemma_chars_lt_transitive(a: Seq<char>, b: Seq<char>, c: Seq<char>)
    requires
        chars_lt(a, b),
        chars_lt(b, c),
    ensures
        chars_lt(a, c),
    decreases a.len(),
{
    if a.len() > 0 && b.len() > 0 && c.len() > 0 && a[0] == b[0] && b[0] == c[0] {
        lemma_chars_lt_transitive(a.drop_first(), b.drop_first(), c.drop_first());
    }
}

/// Of two different names, one comes before the other.
pub proof fn lemma_chars_lt_total(a: Seq<char>, b: Seq<char>)
    requires
        a != b,
    ensures
        chars_lt(a, b) || chars_lt(b, a),
    decreases a.len(),
{
    if a.len() > 0 && b.len() > 0 && a[0] == b[0] {
        assert(a =~= seq![a[0]] + a.drop_first());
        assert(b =~= seq![b[0]] + b.drop_first());
        lemma_chars_lt_total(a.drop_first(), b.drop_first());
    } else if a.len() == 0 && b.len() == 0 {
        assert(a =~= b);
    }
}

/// Whether `a` comes strictly before `b` in lexicographic order.
pub fn chars_less(a: &Vec<char>, b: &Vec<char>) -> (r: bool)
    ensures
        r == chars_lt(a@, b@),
{
    let mut k: usize = 0;
    assert(a@.subrange(0, a@.len() as int) =~= a@);
    assert(b@.subrange(0, b@.len() as int) =~= b@);
    loop
        invariant
            k <= a@.len(),
            k <= b@.len(),
            chars_lt(a@, b@) == chars_lt(a@.subrange(k as int, a@.len() as int), b@.subrange(
                k as int,
                b@.len() as int,
            )),
        decreases a@.len() - k,
    {
        let ghost sa = a@.subrange(k as int, a@.len() as int);
        let ghost sb = b@.subrange(k as int, b@.len() as int);
        if k == a.len() {
            return k < b.len();
        }
        if k == b.len() {
            return false;
        }
        if a[k] != b[k] {
            return a[k] < b[k];
        }
        assert(sa.drop_first() =~= a@.subrange(k + 1, a@.len() as int));
        assert(sb.drop_first() =~= b@.subrange(k + 1, b@.len() as int));
        k = k + 1;
    }
}

/// Entry `i` is listed before entry `j`: its name comes first, or the names are
/// equal and it came first (the sort keeps equal names in their order).
pub open spec fn listed_before(names: Seq<Seq<char>>, i: int, j: int) -> bool {
    chars_lt(names[i], names[j]) || (names[i] == names[j] && i < j)
}

/// `order` lists every position of `names` once, sorted by name, equal names
/// in the order they were given.
pub open spec fn is_name_order(names: Seq<Seq<char>>, order: Seq<usize>) -> bool {
    &&& order.len() == names.len()
    &&& forall|k: int| 0 <= k < order.len() ==> #[trigger] order[k] < names.len()
    &&& forall|k: int, l: int|
        0 <= k < l < order.len() ==> listed_before(names, #[trigger] order[k] as int, #[trigger] order[l] as int)
}

/// The positions of `names` in the order of a stable sort by name.
pub fn sort_order_by_name(names: &Vec<String>) -> (order: Vec<usize>)
    ensures
        is_name_order(string_views(names@), order@),
        order@.no_duplicates(),
{
    let ghost views = string_views(names@);
    let mut keys: Vec<Vec<char>> = Vec::new();
    let mut j: usize = 0;
    while j < names.len()
        invariant
            j <= names@.len(),
            keys@.len() == j,
            views == string_views(names@),
            forall|k: int| 0 <= k < j ==> #[trigger] keys@[k]@ == views[k],
        decreases names@.len() - j,
    {
        keys.push(chars_of(names[j].as_str()));
        j = j + 1;
    }
    let mut order: Vec<usize> = Vec::new();
    let mut i: usize = 0;
    while i < keys.len()
        invariant
            keys@.len() == names@.len() == views.len(),
            views == string_views(names@),
            forall|k: int| 0 <= k < keys@.len() ==> #[trigger] keys@[k]@ == views[k],
            i <= keys@.len(),
            order@.len() == i,
            forall|k: int| 0 <= k < order@.len() ==> #[trigger] order@[k] < i,
            forall|k: int, l: int|
                0 <= k < l < order@.len() ==> listed_before(views, #[trigger] order@[k] as int, #[trigger] order@[l] as int),
        decreases keys@.len() - i,
    {
        let mut p: usize = 0;
        while p < order.len() && !chars_less(&keys[i], &keys[order[p]])
            invariant
                keys@.len() == views.len(),
                forall|k: int| 0 <= k < keys@.len() ==> #[trigger] keys@[k]@ == views[k],
                i < keys@.len(),
                forall|k: int| 0 <= k < order@.len() ==> #[trigger] order@[k] < i,
                p <= order@.len(),
                forall|k: int| 0 <= k < p ==> !chars_lt(views[i as int], views[#[trigger] order@[k] as int]),
            decreases order@.len() - p,
        {
            p = p + 1;
        }
        let ghost old_order = order@;
        order.insert(p, i);
        proof {
            let o = order@;
            assert forall|k: int, l: int| 0 <= k < l < o.len() implies listed_before(views, #[trigger] o[k] as int, #[trigger] o[l] as int) by {
                let ii = i as int;
                let pp = p as int;
                if l < pp {
                    assert(o[k] == old_order[k] && o[l] == old_order[l]);
                } else if l == pp {
                    assert(o[k] == old_order[k] && o[l] == i);
                    if views[old_order[k] as int] != views[ii] {
                        lemma_chars_lt_total(views[old_order[k] as int], views[ii]);
                    }
                } else if k < pp {
                    assert(o[k] == old_order[k] && o[l] == old_order[l - 1]);
                } else if k == pp {
                    assert(o[k] == i && o[l] == old_order[l - 1]);
                    let y = old_order[l - 1] as int;
                    let x = old_order[pp] as int;
                    assert(chars_lt(views[ii], views[x]));
                    if l - 1 > pp {
                        assert(listed_before(views, x, y));
                        if chars_lt(views[x], views[y]) {
                            lemma_chars_lt_transitive(views[ii], views[x], views[y]);
                        }
                    }
                } else {
                    assert(o[k] == old_order[k - 1] && o[l] == old_order[l - 1]);
                }
            }
        }
        i = i + 1;
    }
    proof {
        let o = order@;
        assert forall|k: int, l: int| 0 <= k < o.len() && 0 <= l < o.len() && k != l implies o[k] != o[l] by {
            if k < l {
                assert(listed_before(views, o[k] as int, o[l] as int));
                if o[k] == o[l] {
                    lemma_chars_lt_irreflexive(views[o[k] as int]);
                }
            } else {
                assert(listed_before(views, o[l] as int, o[k] as int));
                if o[k] == o[l] {
                    lemma_chars_lt_irreflexive(views[o[k] as int]);
                }
            }
        }
    }
    order
}

} // verus!
