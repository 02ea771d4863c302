//! The value logic of the inspector blocks: a labelled single value, and a
//! labelled sequence of values that can grow, shrink and be reordered.

use vstd::prelude::*;

use crate::events::{InspectorEvent, KeyValueBlockEvent, SequenceBlockEvent};
use crate::expr::xval::{float_of_int, nat_text, push_nat_text};
use crate::models::key_value::{KeyValue, KeyValueEntry};

verus! {

/// A labelled single value, shown at row `index` of its section.
pub struct ScalarBlock<V> {
    pub label: String,
    pub value: V,
    pub index: usize,
}

impl<V: Clone> ScalarBlock<V> {
    /// A block at row 0 showing `val`.
    pub fn new(label: String, val: V) -> (b: Self)
        ensures
            b.label@ == label@,
            b.value == val,
            b.index == 0,
    {
        ScalarBlock { label, value: val, index: 0 }
    }

    /// The same block, shown at row `index`.
    pub fn with_index(self, index: usize) -> (b: Self)
        ensures
            b.label == self.label,
            b.value == self.value,
            b.index == index,
    {
        let mut b = self;
        b.index = index;
        b
    }

    /// Copies the block's value into `target`.
    pub fn apply(&self, target: &mut V)
        ensures
            cloned(self.value, *final(target)),
    {
        *target = self.value.clone();
    }
}

/// Where the value of an added item comes from.
pub enum NewValueStrategy<V> {
    /// A copy of the last item, or of the given value when there is none.
    MostRecentOr(V),
    /// A copy of the given value.
    Value(V),
}

/// The value an added item copies: the last item under `MostRecentOr` when
/// there is one, otherwise the strategy's own value.
pub open spec fn new_value_source<V>(items: Seq<V>, strategy: NewValueStrategy<V>) -> V {
    match strategy {
        NewValueStrategy::MostRecentOr(v) => if items.len() > 0 {
            items.last()
        } else {
            v
        },
        NewValueStrategy::Value(v) => v,
    }
}

/// `s` with the item at `i` and the one before it trading places.
pub open spec fn moved_up<V>(s: Seq<V>, i: int) -> Seq<V> {
    s.update(i - 1, s[i]).update(i, s[i - 1])
}

/// `s` with the item at `i` and the one after it trading places.
pub open spec fn moved_down<V>(s: Seq<V>, i: int) -> Seq<V> {
    s.update(i, s[i + 1]).update(i + 1, s[i])
}

/// Each item of `b` is a copy of the item of `a` at the same position.
pub open spec fn all_cloned<V: Clone>(a: Seq<V>, b: Seq<V>) -> bool {
    &&& a.len() == b.len()
    &&& forall|i: int| 0 <= i < a.len() ==> cloned(a[i], #[trigger] b[i])
}

/// `ev` reports all of `items`: it carries a copy of each, in order.
pub open spec fn reports_all<V: Clone>(ev: InspectorEvent<Vec<V>>, items: Seq<V>) -> bool {
    match ev {
        InspectorEvent::Updated { v } => all_cloned(items, v@),
    }
}

/// A labelled sequence of values.
pub struct SequenceBlock<V> {
    pub label: String,
    pub items: Vec<V>,
    pub new_val: NewValueStrategy<V>,
}

impl<V: Clone> SequenceBlock<V> {
    /// A block holding `initial`; added items copy the last item, or `V::default()`
    /// when the block is empty.
    pub fn new(label: String, initial: Vec<V>) -> (b: Self)
        where V: Default
        ensures
            b.label@ == label@,
            b.items@ == initial@,
            b.new_val matches NewValueStrategy::MostRecentOr(v) && call_ensures(V::default, (), v),
    {
        SequenceBlock { label, items: initial, new_val: NewValueStrategy::MostRecentOr(V::default()) }
    }

    /// The same block with another strategy for added items.
    pub fn with_new_val(self, new_val: NewValueStrategy<V>) -> (b: Self)
        ensures
            b.label == self.label,
            b.items@ == self.items@,
            b.new_val == new_val,
    {
        let mut b = self;
        b.new_val = new_val;
        b
    }

    /// A copy of the value that an added item takes.
    pub fn next_value(&self) -> (v: V)
        ensures
            cloned(new_value_source(self.items@, self.new_val), v),
    {
        match &self.new_val {
            NewValueStrategy::MostRecentOr(val) => {
                if self.items.len() > 0 {
                    self.items[self.items.len() - 1].clone()
                } else {
                    val.clone()
                }
            },
            NewValueStrategy::Value(val) => val.clone(),
        }
    }

    /// Appends a copy of the value chosen by the block's strategy, and reports
    /// the item added at the end, then all values.
    pub fn add_item(&mut self) -> (ev: (SequenceBlockEvent<V>, InspectorEvent<Vec<V>>))
        ensures
            final(self).items@.len() == old(self).items@.len() + 1,
            final(self).items@.drop_last() == old(self).items@,
            cloned(new_value_source(old(self).items@, old(self).new_val), final(self).items@.last()),
            ev.0 matches SequenceBlockEvent::ItemAdded { index, v } && index == old(self).items@.len()
                && cloned(final(self).items@.last(), v),
            reports_all(ev.1, final(self).items@),
            final(self).label == old(self).label,
            final(self).new_val == old(self).new_val,
    {
        let val = self.next_value();
        let index = self.items.len();
        let reported = val.clone();
        self.items.push(val);
        assert(self.items@.drop_last() =~= old(self).items@);
        let all = InspectorEvent::Updated { v: self.values() };
        (SequenceBlockEvent::ItemAdded { index, v: reported }, all)
    }

    /// Removes the item at `index`, if there is one, and reports it, then all values.
    pub fn remove_item(&mut self, index: usize) -> (ev: Option<(SequenceBlockEvent<V>, InspectorEvent<Vec<V>>)>)
        ensures
            index < old(self).items@.len() ==> final(self).items@ == old(self).items@.remove(
                index as int,
            ) && (ev matches Some((e, all)) && e == SequenceBlockEvent::<V>::ItemRemoved { index }
                && reports_all(all, final(self).items@)),
            index >= old(self).items@.len() ==> final(self).items@ == old(self).items@ && ev
                is None,
            final(self).label == old(self).label,
            final(self).new_val == old(self).new_val,
    {
        if index < self.items.len() {
            let _ = self.items.remove(index);
            let all = InspectorEvent::Updated { v: self.values() };
            Some((SequenceBlockEvent::ItemRemoved { index }, all))
        } else {
            None
        }
    }

    /// Moves the item at `index` one place towards the front, if it is not the
    /// first, and reports the move, then all values in their new order.
    pub fn move_item_up(&mut self, index: usize) -> (ev: Option<(SequenceBlockEvent<V>, InspectorEvent<Vec<V>>)>)
        ensures
            0 < index < old(self).items@.len() ==> final(self).items@ == moved_up(
                old(self).items@,
                index as int,
            ) && (ev matches Some((e, all)) && e == SequenceBlockEvent::<V>::ItemMoved {
                from_index: index,
                to_index: (index - 1) as usize,
            } && reports_all(all, final(self).items@)),
            !(0 < index < old(self).items@.len()) ==> final(self).items@ == old(self).items@
                && ev is None,
            final(self).label == old(self).label,
            final(self).new_val == old(self).new_val,
    {
        if index > 0 && index < self.items.len() {
            let item = self.items.remove(index);
            self.items.insert(index - 1, item);
            assert(self.items@ =~= moved_up(old(self).items@, index as int));
            let all = InspectorEvent::Updated { v: self.values() };
            Some((SequenceBlockEvent::ItemMoved { from_index: index, to_index: index - 1 }, all))
        } else {
            None
        }
    }

    /// Moves the item at `index` one place towards the back, if it is not the
    /// last, and reports the move, then all values in their new order.
    pub fn move_item_down(&mut self, index: usize) -> (ev: Option<(SequenceBlockEvent<V>, InspectorEvent<Vec<V>>)>)
        requires
            old(self).items@.len() > 0,
        ensures
            index + 1 < old(self).items@.len() ==> final(self).items@ == moved_down(
                old(self).items@,
                index as int,
            ) && (ev matches Some((e, all)) && e == SequenceBlockEvent::<V>::ItemMoved {
                from_index: index,
                to_index: (index + 1) as usize,
            } && reports_all(all, final(self).items@)),
            index + 1 >= old(self).items@.len() ==> final(self).items@ == old(self).items@
                && ev is None,
            final(self).label == old(self).label,
            final(self).new_val == old(self).new_val,
    {
        if index < self.items.len() - 1 {
            let item = self.items.remove(index);
            self.items.insert(index + 1, item);
            assert(self.items@ =~= moved_down(old(self).items@, index as int));
            let all = InspectorEvent::Updated { v: self.values() };
            Some((SequenceBlockEvent::ItemMoved { from_index: index, to_index: index + 1 }, all))
        } else {
            None
        }
    }

    /// Copies of all items, in order.
    pub fn values(&self) -> (v: Vec<V>)
        ensures
            all_cloned(self.items@, v@),
    {
        let mut v: Vec<V> = Vec::new();
        let mut i: usize = 0;
        while i < self.items.len()
            invariant
                i <= self.items@.len(),
                v@.len() == i,
                forall|j: int| 0 <= j < i ==> cloned(self.items@[j], #[trigger] v@[j]),
            decreases self.items@.len() - i,
        {
            v.push(self.items[i].clone());
            i = i + 1;
        }
        v
    }

    /// Replaces the contents of `target` with copies of all items, in order.
    pub fn apply(&self, target: &mut Vec<V>)
        ensures
            all_cloned(self.items@, final(target)@),
    {
        *target = self.values();
    }
}

/// The key of the `n`-th entry added to a key-value block: `item_n`.
pub open spec fn item_key(n: nat) -> Seq<char> {
    "item_"@ + nat_text(n)
}

/// A labelled list of named property values.
pub struct KeyValueBlock {
    pub label: String,
    pub items: Vec<KeyValueEntry>,
}

impl KeyValueBlock {
    /// A block holding `values`.
    pub fn new(label: String, values: Vec<KeyValueEntry>) -> (b: KeyValueBlock)
        ensures
            b.label == label,
            b.items@ == values@,
    {
        KeyValueBlock { label, items: values }
    }

    /// Appends a real zero named `item_n`, where `n` is the new number of
    /// entries, and reports it, then all entries.
    pub fn add_item(&mut self) -> (ev: (KeyValueBlockEvent, InspectorEvent<Vec<KeyValueEntry>>))
        requires
            old(self).items@.len() < u64::MAX,
        ensures
            final(self).items@.len() == old(self).items@.len() + 1,
            final(self).items@.drop_last() == old(self).items@,
            final(self).items@.last().key@ == item_key(old(self).items@.len() + 1),
            final(self).items@.last().value matches KeyValue::Float(f) && f@ == float_of_int(0),
            ev.0 matches KeyValueBlockEvent::EntryAdded { index, entry } && index == old(self).items@.len()
                && cloned(final(self).items@.last(), entry),
            reports_all(ev.1, final(self).items@),
            final(self).label == old(self).label,
    {
        let mut key = String::new();
        key.append("item_");
        push_nat_text(&mut key, self.items.len() as u64 + 1);
        proof {
            reveal_strlit("item_");
        }
        assert(key@ =~= item_key(old(self).items@.len() + 1));
        let entry = KeyValueEntry::new(key, KeyValue::default());
        let index = self.items.len();
        let reported = entry.clone();
        self.items.push(entry);
        assert(self.items@.drop_last() =~= old(self).items@);
        let all = InspectorEvent::Updated { v: self.values() };
        (KeyValueBlockEvent::EntryAdded { index, entry: reported }, all)
    }

    /// Removes the entry at `index`, if there is one, and reports it, then all entries.
    pub fn remove_item(&mut self, index: usize) -> (ev: Option<(KeyValueBlockEvent, InspectorEvent<Vec<KeyValueEntry>>)>)
        ensures
            index < old(self).items@.len() ==> final(self).items@ == old(self).items@.remove(
                index as int,
            ) && (ev matches Some((KeyValueBlockEvent::EntryRemoved { index: i }, all)) && i == index
                && reports_all(all, final(self).items@)),
            index >= old(self).items@.len() ==> final(self).items@ == old(self).items@ && ev
                is None,
            final(self).label == old(self).label,
    {
        if index < self.items.len() {
            let _ = self.items.remove(index);
            let all = InspectorEvent::Updated { v: self.values() };
            Some((KeyValueBlockEvent::EntryRemoved { index }, all))
        } else {
            None
        }
    }

    /// Copies of all entries, in order.
    pub fn values(&self) -> (v: Vec<KeyValueEntry>)
        ensures
            all_cloned(self.items@, v@),
    {
        let mut v: Vec<KeyValueEntry> = Vec::new();
        let mut i: usize = 0;
        while i < self.items.len()
            invariant
                i <= self.items@.len(),
                v@.len() == i,
                forall|j: int| 0 <= j < i ==> cloned(self.items@[j], #[trigger] v@[j]),
            decreases self.items@.len() - i,
        {
            v.push(self.items[i].clone());
            i = i + 1;
        }
        v
    }

    /// Replaces the contents of `target` with copies of all entries, in order.
    pub fn apply(&self, target: &mut Vec<KeyValueEntry>)
        ensures
            all_cloned(self.items@, final(target)@),
    {
        *target = self.values();
    }
}

/// Moving an item up trades it with the one before it and leaves every other
/// item where it was; moving an item down trades it with the one after it.
pub proof fn lemma_moves_trade_neighbours<V>(s: Seq<V>, i: int)
    ensures
        0 < i < s.len() ==> {
            &&& moved_up(s, i).len() == s.len()
            &&& moved_up(s, i)[i - 1] == s[i]
            &&& moved_up(s, i)[i] == s[i - 1]
            &&& forall|j: int| 0 <= j < s.len() && j != i && j != i - 1 ==> #[trigger] moved_up(s, i)[j] == s[j]
        },
        0 <= i && i + 1 < s.len() ==> {
            &&& moved_down(s, i).len() == s.len()
            &&& moved_down(s, i)[i + 1] == s[i]
            &&& moved_down(s, i)[i] == s[i + 1]
            &&& forall|j: int| 0 <= j < s.len() && j != i && j != i + 1 ==> #[trigger] moved_down(s, i)[j] == s[j]
        },
{
}

/// Moving an item up and then moving it back down restores the sequence.
pub proof fn lemma_move_up_then_down<V>(s: Seq<V>, i: int)
    requires
        0 < i < s.len(),
    ensures
        moved_up(s, i).len() == s.len(),
        moved_down(moved_up(s, i), i - 1) == s,
{
    assert(moved_down(moved_up(s, i), i - 1) =~= s);
}

/// Moving an item down and then moving it back up restores the sequence.
pub proof fn lemma_move_down_then_up<V>(s: Seq<V>, i: int)
    requires
        0 <= i && i + 1 < s.len(),
    ensures
        moved_down(s, i).len() == s.len(),
        moved_up(moved_down(s, i), i + 1) == s,
{
    assert(moved_up(moved_down(s, i), i + 1) =~= s);
}

} // verus!
