//! Tables whose entries are found by a text.
use vstd::prelude::*;

use crate::text;

verus! {

/// A table whose entries are found by a text.
#[derive(Debug)]
pub struct TextTable<T> {
    entries: Vec<(String, T)>,
}

/// The map of a list of entries; of two with the same key the later one counts.
pub open spec fn entry_map<T>(entries: Seq<(String, T)>) -> Map<Seq<char>, T>
    decreases entries.len(),
{
    if entries.len() == 0 {
        Map::empty()
    } else {
        entry_map(entries.drop_last()).insert(entries.last().0@, entries.last().1)
    }
}

/// Whether no key occurs twice.
pub open spec fn keys_distinct(keys: Seq<Seq<char>>) -> bool {
    forall|i: int, j: int| 0 <= i < j < keys.len() ==> #[trigger] keys[i] != #[trigger] keys[j]
}

/// Whether a list holds each key of a map once, and nothing else.
pub open spec fn lists_keys<T>(keys: Seq<Seq<char>>, map: Map<Seq<char>, T>) -> bool {
    &&& keys_distinct(keys)
    &&& forall|i: int| 0 <= i < keys.len() ==> map.dom().contains(#[trigger] keys[i])
    &&& forall|key: Seq<char>| #[trigger] map.dom().contains(key) ==> keys.contains(key)
}

spec fn entry_keys<T>(entries: Seq<(String, T)>) -> Seq<Seq<char>> {
    entries.map_values(|entry: (String, T)| entry.0@)
}

proof fn entry_map_holds<T>(entries: Seq<(String, T)>)
    ensures
        forall|i: int|
            0 <= i < entries.len() ==> entry_map(entries).dom().contains(
                (#[trigger] entries[i]).0@,
            ),
        keys_distinct(entry_keys(entries)) ==> forall|i: int|
            0 <= i < entries.len() ==> entry_map(entries)[(#[trigger] entries[i]).0@]
                == entries[i].1,
        forall|key: Seq<char>| #[trigger]
            entry_map(entries).dom().contains(key) ==> exists|i: int|
                0 <= i < entries.len() && (#[trigger] entries[i]).0@ == key,
    decreases entries.len(),
{
    if entries.len() > 0 {
        let before = entries.drop_last();
        let last = entries.last();
        entry_map_holds(before);
        assert forall|i: int| 0 <= i < entries.len() implies entry_map(entries).dom().contains(
            (#[trigger] entries[i]).0@,
        ) by {
            if i < before.len() {
                assert(before[i] == entries[i]);
            }
        }
        if keys_distinct(entry_keys(entries)) {
            let keys = entry_keys(entries);
            assert forall|i: int, j: int| 0 <= i < j < before.len() implies #[trigger] entry_keys(
                before,
            )[i] != #[trigger] entry_keys(before)[j] by {
                assert(keys[i] != keys[j]);
            }
            assert forall|i: int| 0 <= i < entries.len() implies entry_map(
                entries,
            )[(#[trigger] entries[i]).0@] == entries[i].1 by {
                if i < before.len() {
                    assert(before[i] == entries[i]);
                    assert(keys[i] != keys[entries.len() - 1]);
                }
            }
        }
        assert forall|key: Seq<char>| #[trigger] entry_map(entries).dom().contains(
            key,
        ) implies exists|i: int|
            0 <= i < entries.len() && (#[trigger] entries[i]).0@ == key by {
            if key == last.0@ {
                assert(entries[entries.len() - 1].0@ == key);
            } else {
                assert(entry_map(before).dom().contains(key));
                let i = choose|i: int| 0 <= i < before.len() && (#[trigger] before[i]).0@ == key;
                assert(entries[i] == before[i]);
            }
        }
    }
}

proof fn entry_map_is<T>(entries: Seq<(String, T)>, map: Map<Seq<char>, T>)
    requires
        keys_distinct(entry_keys(entries)),
        forall|i: int|
            0 <= i < entries.len() ==> map.dom().contains((#[trigger] entries[i]).0@)
                && map[entries[i].0@] == entries[i].1,
        forall|key: Seq<char>| #[trigger]
            map.dom().contains(key) ==> exists|i: int|
                0 <= i < entries.len() && (#[trigger] entries[i]).0@ == key,
    ensures
        entry_map(entries) == map,
{
    entry_map_holds(entries);
    assert forall|key: Seq<char>| entry_map(entries).dom().contains(key) == map.dom().contains(
        key,
    ) by {
        if entry_map(entries).dom().contains(key) {
            let i = choose|i: int| 0 <= i < entries.len() && (#[trigger] entries[i]).0@ == key;
            assert(map.dom().contains(entries[i].0@));
        }
        if map.dom().contains(key) {
            let i = choose|i: int| 0 <= i < entries.len() && (#[trigger] entries[i]).0@ == key;
            assert(entry_map(entries).dom().contains(entries[i].0@));
        }
    }
    assert forall|key: Seq<char>| map.dom().contains(key) implies entry_map(entries)[key]
        == map[key] by {
        let i = choose|i: int| 0 <= i < entries.len() && (#[trigger] entries[i]).0@ == key;
        assert(entry_map(entries)[entries[i].0@] == entries[i].1);
    }
    assert(entry_map(entries) =~= map);
}

impl<T> View for TextTable<T> {
    type V = Map<Seq<char>, T>;

    closed spec fn view(&self) -> Map<Seq<char>, T> {
        entry_map(self.entries@)
    }
}

impl<T> TextTable<T> {
    /// The invariant: no key occurs twice.
    pub closed spec fn wf(&self) -> bool {
        keys_distinct(entry_keys(self.entries@))
    }

    /// The keys, in the order in which they came in.
    pub closed spec fn keys(&self) -> Seq<Seq<char>> {
        entry_keys(self.entries@)
    }

    /// The empty table.
    pub fn new() -> (table: Self)
        ensures
            table.wf(),
            table@ == Map::<Seq<char>, T>::empty(),
    {
        TextTable { entries: Vec::new() }
    }

    /// The keys of a table are those of its map, each once.
    pub proof fn keys_are_listed(&self)
        requires
            self.wf(),
        ensures
            lists_keys(self.keys(), self@),
    {
        let entries = self.entries@;
        entry_map_holds(entries);
        assert forall|key: Seq<char>| #[trigger] self@.dom().contains(
            key,
        ) implies self.keys().contains(key) by {
            let i = choose|i: int| 0 <= i < entries.len() && (#[trigger] entries[i]).0@ == key;
            assert(self.keys()[i] == key);
        }
        assert forall|i: int| 0 <= i < self.keys().len() implies self@.dom().contains(
            #[trigger] self.keys()[i],
        ) by {
            assert(self.keys()[i] == entries[i].0@);
        }
    }

    pub fn len(&self) -> (len: usize)
        ensures
            len == self.keys().len(),
    {
        self.entries.len()
    }

    /// The entry at a place in the order.
    pub fn at(&self, i: usize) -> (entry: &T)
        requires
            self.wf(),
            i < self.keys().len(),
        ensures
            self@.dom().contains(self.keys()[i as int]),
            *entry == self@[self.keys()[i as int]],
    {
        proof {
            entry_map_holds(self.entries@);
            assert(self.entries@[i as int].0@ == self.keys()[i as int]);
        }
        &self.entries[i].1
    }

    fn position(&self, key: &str) -> (position: Option<usize>)
        requires
            self.wf(),
        ensures
            match position {
                Some(i) => i < self.entries.len() && self.entries@[i as int].0@ == key@
                    && self@.dom().contains(key@) && self@[key@] == self.entries@[i as int].1,
                None => !self@.dom().contains(key@),
            },
    {
        let mut i: usize = 0;
        while i < self.entries.len()
            invariant
                i <= self.entries.len(),
                self.wf(),
                forall|j: int| 0 <= j < i ==> (#[trigger] self.entries@[j]).0@ != key@,
            decreases self.entries.len() - i,
        {
            if text::same_text(&self.entries[i].0, key) {
                proof {
                    entry_map_holds(self.entries@);
                    assert(self.entries@[i as int].0@ == key@);
                }
                return Some(i);
            }
            i += 1;
        }
        proof {
            entry_map_holds(self.entries@);
        }
        None
    }

    pub fn contains(&self, key: &str) -> (found: bool)
        requires
            self.wf(),
        ensures
            found == self@.dom().contains(key@),
    {
        self.position(key).is_some()
    }

    pub fn get(&self, key: &str) -> (found: Option<&T>)
        requires
            self.wf(),
        ensures
            match found {
                Some(entry) => self@.dom().contains(key@) && *entry == self@[key@],
                None => !self@.dom().contains(key@),
            },
    {
        match self.position(key) {
            Some(i) => Some(&self.entries[i].1),
            None => None,
        }
    }

    /// Takes the entry of a key out of the table.
    pub fn take(&mut self, key: &str) -> (found: Option<T>)
        requires
            old(self).wf(),
        ensures
            final(self).wf(),
            final(self)@ == old(self)@.remove(key@),
            match found {
                Some(entry) => old(self)@.dom().contains(key@) && entry == old(self)@[key@],
                None => !old(self)@.dom().contains(key@),
            },
    {
        match self.position(key) {
            Some(i) => {
                let ghost before = self.entries@;
                let (_, entry) = self.entries.remove(i);
                proof {
                    removed_entry(before, i as int);
                }
                Some(entry)
            },
            None => {
                assert(self@.remove(key@) =~= self@);
                None
            },
        }
    }

    /// Puts an entry into the table, in the place of an earlier one with its key.
    pub fn insert(&mut self, key: String, entry: T)
        requires
            old(self).wf(),
        ensures
            final(self).wf(),
            final(self)@ == old(self)@.insert(key@, entry),
    {
        let _ = self.take(&key);
        let ghost before = self.entries@;
        let ghost pair = (key, entry);
        self.entries.push((key, entry));
        proof {
            pushed_entry(before, pair);
            assert(old(self)@.remove(pair.0@).insert(pair.0@, pair.1) =~= old(self)@.insert(
                pair.0@,
                pair.1,
            ));
        }
    }
}

proof fn removed_entry<T>(entries: Seq<(String, T)>, position: int)
    requires
        keys_distinct(entry_keys(entries)),
        0 <= position < entries.len(),
    ensures
        keys_distinct(entry_keys(entries.remove(position))),
        entry_map(entries.remove(position)) == entry_map(entries).remove(entries[position].0@),
{
    let fewer = entries.remove(position);
    let keys = entry_keys(entries);
    let map = entry_map(entries).remove(entries[position].0@);
    entry_map_holds(entries);
    assert forall|i: int, j: int| 0 <= i < j < fewer.len() implies #[trigger] entry_keys(fewer)[i]
        != #[trigger] entry_keys(fewer)[j] by {
        let a = if i < position {
            i
        } else {
            i + 1
        };
        let b = if j < position {
            j
        } else {
            j + 1
        };
        assert(keys[a] != keys[b]);
    }
    assert forall|i: int| 0 <= i < fewer.len() implies map.dom().contains((#[trigger] fewer[i]).0@)
        && map[fewer[i].0@] == fewer[i].1 by {
        let a = if i < position {
            i
        } else {
            i + 1
        };
        assert(fewer[i] == entries[a]);
        assert(keys[a] != keys[position]);
    }
    assert forall|key: Seq<char>| #[trigger] map.dom().contains(key) implies exists|i: int|
        0 <= i < fewer.len() && (#[trigger] fewer[i]).0@ == key by {
        assert(entry_map(entries).dom().contains(key));
        let a = choose|a: int| 0 <= a < entries.len() && (#[trigger] entries[a]).0@ == key;
        let i = if a < position {
            a
        } else {
            a - 1
        };
        assert(fewer[i] == entries[a]);
    }
    entry_map_is(fewer, map);
}

proof fn pushed_entry<T>(entries: Seq<(String, T)>, pair: (String, T))
    requires
        keys_distinct(entry_keys(entries)),
        !entry_map(entries).dom().contains(pair.0@),
    ensures
        keys_distinct(entry_keys(entries.push(pair))),
        entry_map(entries.push(pair)) == entry_map(entries).insert(pair.0@, pair.1),
{
    let more = entries.push(pair);
    let keys = entry_keys(entries);
    entry_map_holds(entries);
    assert(more.drop_last() =~= entries);
    assert forall|i: int, j: int| 0 <= i < j < more.len() implies #[trigger] entry_keys(more)[i]
        != #[trigger] entry_keys(more)[j] by {
        assert(more[i] == entries[i]);
        assert(entry_map(entries).dom().contains(entries[i].0@));
        if j < entries.len() {
            assert(keys[i] != keys[j]);
        }
    }
}

/// Of entries with the same key the later one counts, and every entry counts that has a key of
/// its own.
pub proof fn later_entries_count<T>(
    entries: Seq<(String, T)>,
    more: Seq<(String, T)>,
    one: (String, T),
)
    ensures
        entry_map(entries + more) == entry_map(entries).union_prefer_right(entry_map(more)),
        entry_map(seq![one]) == map![one.0@ => one.1],
    decreases more.len(),
{
    if more.len() == 0 {
        assert(entries + more =~= entries);
    } else {
        later_entries_count(entries, more.drop_last(), one);
        assert((entries + more).drop_last() =~= entries + more.drop_last());
        assert((entries + more).last() == more.last());
    }
    assert(entry_map(entries + more) =~= entry_map(entries).union_prefer_right(entry_map(more)));
    assert(seq![one].drop_last() =~= Seq::empty());
    assert(seq![one].last() == one);
    assert(entry_map(seq![one].drop_last()) =~= Map::empty());
    assert(entry_map(seq![one]) =~= map![one.0@ => one.1]);
}

/// A list of the keys holds each key of the map at one place, and nothing else.
pub proof fn keys_stand_at_one_place<T>(
    keys: Seq<Seq<char>>,
    map: Map<Seq<char>, T>,
    i: int,
    j: int,
)
    requires
        lists_keys(keys, map),
    ensures
        forall|key: Seq<char>| #[trigger] keys.contains(key) <==> map.dom().contains(key),
        0 <= i < j < keys.len() ==> keys[i] != keys[j],
{
}

} // verus!
