//! A map from key names to values that keeps its names in order.
use crate::text;
use vstd::prelude::*;
use vstd::string::*;

verus! {

/// Rows of names and values in the order of the names, each name once.
pub open spec fn in_order<V>(rows: Seq<(Seq<char>, V)>) -> bool {
    forall|i: int, j: int|
        0 <= i < j < rows.len() ==> text::text_less((#[trigger] rows[i]).0, (#[trigger] rows[j]).0)
}

/// Whether a row holds the name.
pub open spec fn has_row<V>(rows: Seq<(Seq<char>, V)>, name: Seq<char>) -> bool {
    exists|i: int| 0 <= i < rows.len() && (#[trigger] rows[i]).0 == name
}

/// A row that holds the name.
pub open spec fn row_of<V>(rows: Seq<(Seq<char>, V)>, name: Seq<char>) -> int {
    choose|i: int| 0 <= i < rows.len() && (#[trigger] rows[i]).0 == name
}

/// The map that rows stand for.
pub open spec fn map_of<V>(rows: Seq<(Seq<char>, V)>) -> Map<Seq<char>, V> {
    Map::new(|name: Seq<char>| has_row(rows, name), |name: Seq<char>| rows[row_of(rows, name)].1)
}

/// A map from key names to values, with the names in the order of texts.
#[derive(Debug)]
pub struct KeyMap<V> {
    entries: Vec<(String, V)>,
}

impl<V> View for KeyMap<V> {
    type V = Map<Seq<char>, V>;

    open spec fn view(&self) -> Map<Seq<char>, V> {
        map_of(self.rows())
    }
}

impl<V> KeyMap<V> {
    /// The names and values in order.
    pub closed spec fn rows(&self) -> Seq<(Seq<char>, V)> {
        self.entries@.map_values(|e: (String, V)| (e.0@, e.1))
    }

    /// The rows are in order.
    pub open spec fn wf(&self) -> bool {
        in_order(self.rows())
    }
}

/// A row holds what the map gives its name.
pub proof fn lemma_row<V>(rows: Seq<(Seq<char>, V)>, i: int)
    requires
        in_order(rows),
        0 <= i < rows.len(),
    ensures
        map_of(rows).contains_key(rows[i].0),
        map_of(rows)[rows[i].0] == rows[i].1,
        row_of(rows, rows[i].0) == i,
{
    let name = rows[i].0;
    let j = row_of(rows, name);
    assert(rows[j].0 == name);
    text::lemma_text_less_irreflexive(name);
    if i < j {
        assert(text::text_less(rows[i].0, rows[j].0));
    } else if j < i {
        assert(text::text_less(rows[j].0, rows[i].0));
    }
}

/// The rows in order are determined by the map that they stand for.
pub proof fn law_rows_are_determined<V>(a: Seq<(Seq<char>, V)>, b: Seq<(Seq<char>, V)>)
    requires
        in_order(a),
        in_order(b),
        map_of(a) == map_of(b),
    ensures
        a == b,
    decreases a.len(),
{
    if a.len() == 0 {
        if b.len() > 0 {
            lemma_row(b, 0);
            assert(has_row(a, b[0].0));
        }
        assert(a =~= b);
    } else {
        lemma_row(a, 0);
        assert(has_row(b, a[0].0));
        lemma_row(b, 0);
        assert(has_row(a, b[0].0));
        let i = row_of(b, a[0].0);
        let j = row_of(a, b[0].0);
        if i > 0 && j > 0 {
            assert(text::text_less(b[0].0, b[i].0));
            assert(text::text_less(a[0].0, a[j].0));
            text::lemma_text_less_transitive(a[0].0, b[0].0, a[0].0);
            text::lemma_text_less_irreflexive(a[0].0);
        }
        assert(a[0].0 == b[0].0);
        assert(a[0] == b[0]);
        let x = a.drop_first();
        let y = b.drop_first();
        lemma_drop_first(a);
        lemma_drop_first(b);
        law_rows_are_determined(x, y);
        assert(a =~= seq![a[0]] + x);
        assert(b =~= seq![b[0]] + y);
    }
}

proof fn lemma_drop_first<V>(rows: Seq<(Seq<char>, V)>)
    requires
        in_order(rows),
        rows.len() > 0,
    ensures
        in_order(rows.drop_first()),
        map_of(rows.drop_first()) == map_of(rows).remove(rows[0].0),
{
    let rest = rows.drop_first();
    assert forall|i: int, j: int| 0 <= i < j < rest.len() implies text::text_less(
        (#[trigger] rest[i]).0,
        (#[trigger] rest[j]).0,
    ) by {
        assert(text::text_less(rows[i + 1].0, rows[j + 1].0));
    }
    assert forall|name: Seq<char>| has_row(rest, name) <==> (has_row(rows, name) && name
        != rows[0].0) by {
        if has_row(rest, name) {
            let i = row_of(rest, name);
            assert(rows[i + 1].0 == name);
            assert(text::text_less(rows[0].0, rows[i + 1].0));
            text::lemma_text_less_irreflexive(name);
        }
        if has_row(rows, name) && name != rows[0].0 {
            let i = row_of(rows, name);
            assert(rest[i - 1].0 == name);
        }
    }
    assert forall|name: Seq<char>| has_row(rest, name) implies map_of(rest)[name] == map_of(
        rows,
    )[name] by {
        let i = row_of(rest, name);
        lemma_row(rest, i);
        assert(rows[i + 1] == rest[i]);
        lemma_row(rows, i + 1);
    }
    assert(map_of(rest) =~= map_of(rows).remove(rows[0].0));
}

/// There are as many rows as names.
pub proof fn lemma_row_count<V>(rows: Seq<(Seq<char>, V)>)
    requires
        in_order(rows),
    ensures
        map_of(rows).dom().finite(),
        map_of(rows).dom().len() == rows.len(),
    decreases rows.len(),
{
    if rows.len() == 0 {
        assert(map_of(rows).dom() =~= Set::empty());
    } else {
        lemma_drop_first(rows);
        lemma_row_count(rows.drop_first());
        lemma_row(rows, 0);
        let all = map_of(rows).dom();
        let rest = map_of(rows.drop_first()).dom();
        assert(rest =~= all.remove(rows[0].0));
        assert(all =~= rest.insert(rows[0].0));
    }
}

impl<V: Copy> KeyMap<V> {
    /// A map without names.
    pub fn new() -> (r: KeyMap<V>)
        ensures
            r.wf(),
            r@ == Map::<Seq<char>, V>::empty(),
            r.rows() == Seq::<(Seq<char>, V)>::empty(),
    {
        let r: KeyMap<V> = KeyMap { entries: Vec::new() };
        assert(r.rows() =~= seq![]);
        assert(r@ =~= Map::empty());
        r
    }

    /// The number of names.
    pub fn len(&self) -> (r: usize)
        requires
            self.wf(),
        ensures
            r == self.rows().len(),
            self@.dom().finite(),
            r == self@.dom().len(),
    {
        proof {
            lemma_row_count(self.rows());
        }
        self.entries.len()
    }

    /// The name in a row.
    pub fn name(&self, row: usize) -> (r: &str)
        requires
            row < self.rows().len(),
        ensures
            r@ == self.rows()[row as int].0,
    {
        self.entries[row].0.as_str()
    }

    /// The value in a row.
    pub fn value(&self, row: usize) -> (r: V)
        requires
            row < self.rows().len(),
        ensures
            r == self.rows()[row as int].1,
    {
        self.entries[row].1
    }

    /// The first row whose name does not come before `name`.
    fn place(&self, name: &str) -> (r: usize)
        requires
            self.wf(),
        ensures
            r <= self.rows().len(),
            forall|i: int| 0 <= i < r ==> text::text_less((#[trigger] self.rows()[i]).0, name@),
            r < self.rows().len() ==> !text::text_less(self.rows()[r as int].0, name@),
    {
        let mut i: usize = 0;
        while i < self.entries.len() && text::comes_before(self.entries[i].0.as_str(), name)
            invariant
                i <= self.rows().len(),
                self.rows().len() == self.entries@.len(),
                forall|j: int| 0 <= j < i ==> text::text_less((#[trigger] self.rows()[j]).0, name@),
            decreases self.entries@.len() - i,
        {
            i += 1;
        }
        i
    }

    /// The row of `name`, if it is in the map.
    fn find(&self, name: &str) -> (r: Option<usize>)
        requires
            self.wf(),
        ensures
            match r {
                Some(i) => i < self.rows().len() && self.rows()[i as int].0 == name@
                    && self@.contains_key(name@),
                None => !self@.contains_key(name@),
            },
    {
        let i: usize = self.place(name);
        if i < self.entries.len() && text::same_text(self.entries[i].0.as_str(), name) {
            assert(self.rows()[i as int].0 == name@);
            return Some(i);
        }
        proof {
            if has_row(self.rows(), name@) {
                let j = row_of(self.rows(), name@);
                text::lemma_text_less_irreflexive(name@);
                if j > i {
                    assert(text::text_less(self.rows()[i as int].0, self.rows()[j].0));
                }
            }
        }
        None
    }

    /// Whether the map holds `name`.
    pub fn contains(&self, name: &str) -> (r: bool)
        requires
            self.wf(),
        ensures
            r == self@.contains_key(name@),
    {
        match self.find(name) {
            Some(_) => true,
            None => false,
        }
    }

    /// Gives `name` a value.
    pub fn insert(&mut self, name: String, value: V)
        requires
            old(self).wf(),
        ensures
            final(self).wf(),
            final(self)@ == old(self)@.insert(name@, value),
    {
        let ghost before = self.rows();
        let ghost text = name@;
        let i: usize = self.place(name.as_str());
        if i < self.entries.len() && text::same_text(self.entries[i].0.as_str(), name.as_str()) {
            self.entries.set(i, (name, value));
            assert(self.rows() =~= before.update(i as int, (text, value)));
            proof {
                lemma_update(before, i as int, value);
            }
        } else {
            self.entries.insert(i, (name, value));
            assert(self.rows() =~= before.insert(i as int, (text, value)));
            proof {
                lemma_insert(before, i as int, text, value);
            }
        }
    }

    /// Takes `name` out of the map and says whether it was there.
    pub fn remove(&mut self, name: &str) -> (r: bool)
        requires
            old(self).wf(),
        ensures
            final(self).wf(),
            final(self)@ == old(self)@.remove(name@),
            r == old(self)@.contains_key(name@),
    {
        let ghost before = self.rows();
        match self.find(name) {
            Some(i) => {
                self.entries.remove(i);
                assert(self.rows() =~= before.remove(i as int));
                proof {
                    lemma_remove(before, i as int);
                }
                true
            },
            None => {
                assert(self@ =~= self@.remove(name@));
                false
            },
        }
    }
}

proof fn lemma_update<V>(rows: Seq<(Seq<char>, V)>, i: int, value: V)
    requires
        in_order(rows),
        0 <= i < rows.len(),
    ensures
        in_order(rows.update(i, (rows[i].0, value))),
        map_of(rows.update(i, (rows[i].0, value))) == map_of(rows).insert(rows[i].0, value),
{
    let after = rows.update(i, (rows[i].0, value));
    assert forall|a: int, b: int| 0 <= a < b < after.len() implies text::text_less(
        (#[trigger] after[a]).0,
        (#[trigger] after[b]).0,
    ) by {
        assert(text::text_less(rows[a].0, rows[b].0));
    }
    lemma_row(rows, i);
    assert forall|name: Seq<char>| has_row(after, name) <==> has_row(rows, name) by {
        if has_row(after, name) {
            assert(rows[row_of(after, name)].0 == name);
        }
        if has_row(rows, name) {
            assert(after[row_of(rows, name)].0 == name);
        }
    }
    assert forall|name: Seq<char>| has_row(after, name) implies map_of(after)[name] == map_of(
        rows,
    ).insert(rows[i].0, value)[name] by {
        let a = row_of(after, name);
        lemma_row(after, a);
        lemma_row(rows, a);
        assert(rows[a].0 == name);
        if a != i {
            if name == rows[i].0 {
                lemma_row(rows, i);
            }
        }
    }
    assert(map_of(after) =~= map_of(rows).insert(rows[i].0, value));
}

proof fn lemma_insert<V>(rows: Seq<(Seq<char>, V)>, i: int, name: Seq<char>, value: V)
    requires
        in_order(rows),
        0 <= i <= rows.len(),
        forall|a: int| 0 <= a < i ==> text::text_less((#[trigger] rows[a]).0, name),
        i < rows.len() ==> !text::text_less(rows[i].0, name) && rows[i].0 != name,
    ensures
        in_order(rows.insert(i, (name, value))),
        map_of(rows.insert(i, (name, value))) == map_of(rows).insert(name, value),
{
    let after = rows.insert(i, (name, value));
    assert forall|a: int| i <= a < rows.len() implies text::text_less(
        name,
        (#[trigger] rows[a]).0,
    ) by {
        text::lemma_text_less_total(rows[i].0, name);
        if a > i {
            assert(text::text_less(rows[i].0, rows[a].0));
            text::lemma_text_less_transitive(name, rows[i].0, rows[a].0);
        }
    }
    assert forall|a: int, b: int| 0 <= a < b < after.len() implies text::text_less(
        (#[trigger] after[a]).0,
        (#[trigger] after[b]).0,
    ) by {
        if a < i && b < i {
            assert(text::text_less(rows[a].0, rows[b].0));
        } else if a < i && b > i {
            assert(text::text_less(rows[a].0, rows[b - 1].0));
        } else if a > i {
            assert(text::text_less(rows[a - 1].0, rows[b - 1].0));
        } else if b == i {
            assert(text::text_less(rows[a].0, name));
        } else {
            assert(text::text_less(name, rows[b - 1].0));
        }
    }
    assert forall|q: Seq<char>| has_row(after, q) <==> (has_row(rows, q) || q == name) by {
        if has_row(after, q) {
            let a = row_of(after, q);
            if a < i {
                assert(rows[a].0 == q);
            } else if a > i {
                assert(rows[a - 1].0 == q);
            }
        }
        if has_row(rows, q) {
            let a = row_of(rows, q);
            if a < i {
                assert(after[a].0 == q);
            } else {
                assert(after[a + 1].0 == q);
            }
        }
        if q == name {
            assert(after[i].0 == q);
        }
    }
    lemma_row(after, i);
    assert forall|q: Seq<char>| has_row(after, q) implies map_of(after)[q] == map_of(rows).insert(
        name,
        value,
    )[q] by {
        let a = row_of(after, q);
        lemma_row(after, a);
        if a < i {
            lemma_row(rows, a);
        } else if a > i {
            lemma_row(rows, a - 1);
        }
    }
    assert(map_of(after) =~= map_of(rows).insert(name, value));
}

/// The last row adds its name and value to what the rows before it stand for.
pub proof fn lemma_last_row<V>(rows: Seq<(Seq<char>, V)>)
    requires
        in_order(rows),
        rows.len() > 0,
    ensures
        in_order(rows.drop_last()),
        map_of(rows) == map_of(rows.drop_last()).insert(rows.last().0, rows.last().1),
{
    let rest = rows.drop_last();
    assert forall|i: int, j: int| 0 <= i < j < rest.len() implies text::text_less(
        (#[trigger] rest[i]).0,
        (#[trigger] rest[j]).0,
    ) by {
        assert(text::text_less(rows[i].0, rows[j].0));
    }
    assert forall|i: int| 0 <= i < rest.len() implies text::text_less(
        (#[trigger] rest[i]).0,
        rows.last().0,
    ) by {
        assert(text::text_less(rows[i].0, rows[rows.len() - 1].0));
    }
    lemma_insert(rest, rest.len() as int, rows.last().0, rows.last().1);
    assert(rest.insert(rest.len() as int, rows.last()) =~= rows);
}

proof fn lemma_remove<V>(rows: Seq<(Seq<char>, V)>, i: int)
    requires
        in_order(rows),
        0 <= i < rows.len(),
    ensures
        in_order(rows.remove(i)),
        map_of(rows.remove(i)) == map_of(rows).remove(rows[i].0),
{
    let after = rows.remove(i);
    let name = rows[i].0;
    assert forall|a: int, b: int| 0 <= a < b < after.len() implies text::text_less(
        (#[trigger] after[a]).0,
        (#[trigger] after[b]).0,
    ) by {
        let x = if a < i {
            a
        } else {
            a + 1
        };
        let y = if b < i {
            b
        } else {
            b + 1
        };
        assert(text::text_less(rows[x].0, rows[y].0));
    }
    assert forall|q: Seq<char>| has_row(after, q) <==> (has_row(rows, q) && q != name) by {
        if has_row(after, q) {
            let a = row_of(after, q);
            let x = if a < i {
                a
            } else {
                a + 1
            };
            assert(rows[x].0 == q);
            lemma_row(rows, x);
            lemma_row(rows, i);
        }
        if has_row(rows, q) && q != name {
            let a = row_of(rows, q);
            let x = if a < i {
                a
            } else {
                a - 1
            };
            assert(after[x].0 == q);
        }
    }
    assert forall|q: Seq<char>| has_row(after, q) implies map_of(after)[q] == map_of(rows)[q] by {
        let a = row_of(after, q);
        lemma_row(after, a);
        lemma_row(
            rows,
            if a < i {
                a
            } else {
                a + 1
            },
        );
    }
    assert(map_of(after) =~= map_of(rows).remove(name));
}

/// The map holds a name exactly if a row does, with the value of that row.
pub proof fn law_map_holds_the_rows<V>(rows: Seq<(Seq<char>, V)>, name: Seq<char>, value: V)
    requires
        in_order(rows),
    ensures
        map_of(rows).contains_key(name) <==> exists|i: int|
            0 <= i < rows.len() && (#[trigger] rows[i]).0 == name,
        (map_of(rows).contains_key(name) && map_of(rows)[name] == value) <==> exists|i: int|
            0 <= i < rows.len() && #[trigger] rows[i] == (name, value),
{
    if map_of(rows).contains_key(name) {
        let i = row_of(rows, name);
        assert(rows[i].0 == name);
        lemma_row(rows, i);
        assert(rows[i] == (name, map_of(rows)[name]));
    }
    if exists|i: int| 0 <= i < rows.len() && #[trigger] rows[i] == (name, value) {
        let i = choose|i: int| 0 <= i < rows.len() && #[trigger] rows[i] == (name, value);
        assert(rows[i].0 == name);
        lemma_row(rows, i);
    }
}

} // verus!
