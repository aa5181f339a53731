//! Tables that are looked up by a text.

use vstd::prelude::*;

use crate::text::same;

verus! {

/// A table with a value for each of some texts.
#[derive(Debug)]
pub struct Table<V> {
    rows: Vec<(String, V)>,
}

/// What rows hold. Of two rows with the same text the first one counts.
pub open spec fn held<V>(rows: Seq<(String, V)>) -> Map<Seq<char>, V>
    decreases rows.len(),
{
    if rows.len() == 0 {
        Map::empty()
    } else {
        held(rows.drop_first()).insert(rows[0].0@, rows[0].1)
    }
}

impl<V> View for Table<V> {
    type V = Map<Seq<char>, V>;

    closed spec fn view(&self) -> Map<Seq<char>, V> {
        held(self.rows@)
    }
}

/// The first row with a text is what the rows hold for it.
proof fn lemma_held<V>(rows: Seq<(String, V)>, key: Seq<char>, i: int)
    requires
        0 <= i <= rows.len(),
        forall|j: int| 0 <= j < i ==> (#[trigger] rows[j]).0@ != key,
    ensures
        i == rows.len() ==> !held(rows).contains_key(key),
        i < rows.len() && rows[i].0@ == key ==> held(rows).contains_key(key) && held(rows)[key]
            == rows[i].1,
    decreases rows.len(),
{
    if rows.len() > 0 && i > 0 {
        let rest = rows.drop_first();
        assert forall|j: int| 0 <= j < i - 1 implies (#[trigger] rest[j]).0@ != key by {
            assert(rest[j] == rows[j + 1]);
        }
        lemma_held(rest, key, i - 1);
        assert(rows[0].0@ != key);
        if i < rows.len() {
            assert(rest[i - 1] == rows[i]);
        }
    }
}

/// A value that takes the place of the first one for its text.
proof fn lemma_held_update<V>(rows: Seq<(String, V)>, i: int, key: String, value: V)
    requires
        0 <= i < rows.len(),
        rows[i].0@ == key@,
        forall|j: int| 0 <= j < i ==> (#[trigger] rows[j]).0@ != key@,
    ensures
        held(rows.update(i, (key, value))) == held(rows).insert(key@, value),
    decreases rows.len(),
{
    let after = rows.update(i, (key, value));
    let rest = rows.drop_first();
    if i == 0 {
        assert(after.drop_first() =~= rest);
        assert(held(after) =~= held(rows).insert(key@, value));
    } else {
        assert forall|j: int| 0 <= j < i - 1 implies (#[trigger] rest[j]).0@ != key@ by {
            assert(rest[j] == rows[j + 1]);
        }
        lemma_held_update(rest, i - 1, key, value);
        assert(after.drop_first() =~= rest.update(i - 1, (key, value)));
        assert(rows[0].0@ != key@);
        assert(held(after) =~= held(rows).insert(key@, value));
    }
}

/// A row behind the others, for a text that they do not have.
proof fn lemma_held_push<V>(rows: Seq<(String, V)>, key: String, value: V)
    requires
        !held(rows).contains_key(key@),
    ensures
        held(rows.push((key, value))) == held(rows).insert(key@, value),
    decreases rows.len(),
{
    let after = rows.push((key, value));
    if rows.len() == 0 {
        assert(after.drop_first() =~= rows);
        assert(held(after) =~= held(rows).insert(key@, value));
    } else {
        lemma_held_push(rows.drop_first(), key, value);
        assert(after.drop_first() =~= rows.drop_first().push((key, value)));
        assert(held(after) =~= held(rows).insert(key@, value));
    }
}

/// The first row with a text, taken out. Another row may have the same text.
proof fn lemma_held_remove<V>(rows: Seq<(String, V)>, i: int)
    requires
        0 <= i < rows.len(),
        forall|j: int| 0 <= j < i ==> (#[trigger] rows[j]).0@ != rows[i].0@,
    ensures
        held(rows.remove(i)).remove(rows[i].0@) == held(rows).remove(rows[i].0@),
    decreases rows.len(),
{
    let key = rows[i].0@;
    let after = rows.remove(i);
    let rest = rows.drop_first();
    if i == 0 {
        assert(after =~= rest);
        assert(held(after).remove(key) =~= held(rows).remove(key));
    } else {
        assert(rest[i - 1] == rows[i]);
        assert forall|j: int| 0 <= j < i - 1 implies (#[trigger] rest[j]).0@ != key by {
            assert(rest[j] == rows[j + 1]);
        }
        lemma_held_remove(rest, i - 1);
        assert(after.drop_first() =~= rest.remove(i - 1));
        assert(rows[0].0@ != key);
        assert(held(after).remove(key) =~= held(rest.remove(i - 1)).remove(key).insert(
            rows[0].0@,
            rows[0].1,
        ));
        assert(held(rows).remove(key) =~= held(rest).remove(key).insert(rows[0].0@, rows[0].1));
    }
}

impl<V> Table<V> {
    /// A table with nothing in it.
    pub fn new() -> (r: Table<V>)
        ensures
            r@ == Map::<Seq<char>, V>::empty(),
    {
        Table { rows: Vec::new() }
    }

    fn row_of(&self, key: &str) -> (r: usize)
        ensures
            r <= self.rows@.len(),
            r < self.rows@.len() ==> self.rows@[r as int].0@ == key@,
            forall|j: int| 0 <= j < r ==> (#[trigger] self.rows@[j]).0@ != key@,
    {
        let mut i: usize = 0;
        while i < self.rows.len()
            invariant
                i <= self.rows@.len(),
                forall|j: int| 0 <= j < i ==> (#[trigger] self.rows@[j]).0@ != key@,
            decreases self.rows@.len() - i,
        {
            if same(self.rows[i].0.as_str(), key) {
                return i;
            }
            i = i + 1;
        }
        i
    }

    /// The value for a text.
    pub fn get(&self, key: &str) -> (r: Option<&V>)
        ensures
            match r {
                Some(value) => self@.contains_key(key@) && *value == self@[key@],
                None => !self@.contains_key(key@),
            },
    {
        let i = self.row_of(key);
        proof {
            lemma_held(self.rows@, key@, i as int);
        }
        if i < self.rows.len() {
            Some(&self.rows[i].1)
        } else {
            None
        }
    }

    /// Whether there is a value for a text.
    pub fn contains_key(&self, key: &str) -> (r: bool)
        ensures
            r == self@.contains_key(key@),
    {
        self.get(key).is_some()
    }

    /// Whether there is no value at all.
    pub fn is_empty(&self) -> (r: bool)
        ensures
            r == (self@ == Map::<Seq<char>, V>::empty()),
    {
        if self.rows.len() > 0 {
            assert(self@.contains_key(self.rows@[0].0@));
            assert(!Map::<Seq<char>, V>::empty().contains_key(self.rows@[0].0@));
        }
        self.rows.len() == 0
    }

    /// Takes every value out.
    pub fn clear(&mut self)
        ensures
            final(self)@ == Map::<Seq<char>, V>::empty(),
    {
        self.rows.clear();
    }

    /// Gives a text a value, in place of the one that it may have.
    pub fn insert(&mut self, key: String, value: V)
        ensures
            final(self)@ == old(self)@.insert(key@, value),
    {
        let i = self.row_of(key.as_str());
        let ghost before = self.rows@;
        proof {
            lemma_held(before, key@, i as int);
        }
        if i < self.rows.len() {
            proof {
                lemma_held_update(before, i as int, key, value);
            }
            self.rows.set(i, (key, value));
        } else {
            proof {
                lemma_held_push(before, key, value);
            }
            self.rows.push((key, value));
        }
    }

    /// Takes the value for a text out.
    pub fn remove(&mut self, key: &str)
        ensures
            final(self)@ == old(self)@.remove(key@),
    {
        let ghost before = self@;
        let mut i: usize = self.row_of(key);
        while i < self.rows.len()
            invariant
                i <= self.rows@.len(),
                i < self.rows@.len() ==> self.rows@[i as int].0@ == key@,
                forall|j: int| 0 <= j < i ==> (#[trigger] self.rows@[j]).0@ != key@,
                self@.remove(key@) == before.remove(key@),
            decreases self.rows@.len(),
        {
            proof {
                lemma_held_remove(self.rows@, i as int);
            }
            self.rows.remove(i);
            i = self.row_of(key);
        }
        proof {
            lemma_held(self.rows@, key@, i as int);
        }
        assert(self@.remove(key@) =~= self@);
    }
}

} // verus!
