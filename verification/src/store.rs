use vstd::prelude::*;

verus! {

/// One stored to-do record.
#[derive(Clone)]
pub struct Todo {
    pub id: usize,
    pub title: String,
    pub completed: bool,
}

/// The mathematical value of a record.
pub ghost struct TodoV {
    pub id: usize,
    pub title: Seq<char>,
    pub completed: bool,
}

impl View for Todo {
    type V = TodoV;

    open spec fn view(&self) -> TodoV {
        TodoV { id: self.id, title: self.title@, completed: self.completed }
    }
}

/// The first position holding `id`, or a negative value when none does.
pub open spec fn find_id(s: Seq<TodoV>, id: usize) -> int
    decreases s.len(),
{
    if s.len() == 0 {
        -1
    } else if s[0].id == id {
        0
    } else {
        let r = find_id(s.drop_first(), id);
        if r < 0 {
            -1
        } else {
            r + 1
        }
    }
}

pub proof fn lemma_find_id(s: Seq<TodoV>, id: usize)
    ensures
        find_id(s, id) < 0 ==> forall|i: int| 0 <= i < s.len() ==> s[i].id != id,
        find_id(s, id) >= 0 ==> find_id(s, id) < s.len() && s[find_id(s, id)].id == id && (forall|
            i: int,
        |
            0 <= i < find_id(s, id) ==> s[i].id != id),
    decreases s.len(),
{
    if s.len() > 0 && s[0].id != id {
        lemma_find_id(s.drop_first(), id);
        assert(forall|i: int|
            1 <= i < s.len() ==> #[trigger] s[i] == s.drop_first()[i - 1]);
    }
}

/// The record keyed by each identifier it holds.
pub open spec fn map_of(s: Seq<TodoV>) -> Map<usize, TodoV>
    decreases s.len(),
{
    if s.len() == 0 {
        Map::empty()
    } else {
        map_of(s.drop_last()).insert(s.last().id, s.last())
    }
}

/// No two positions hold the same identifier.
pub open spec fn unique_ids(s: Seq<TodoV>) -> bool {
    forall|i: int, j: int| 0 <= i < j < s.len() ==> s[i].id != s[j].id
}

pub proof fn lemma_map_of_contains(s: Seq<TodoV>, id: usize)
    ensures
        map_of(s).contains_key(id) <==> exists|i: int| 0 <= i < s.len() && s[i].id == id,
    decreases s.len(),
{
    if s.len() > 0 {
        lemma_map_of_contains(s.drop_last(), id);
        if s.last().id == id {
            assert(s[s.len() - 1].id == id);
        } else if map_of(s.drop_last()).contains_key(id) {
            let i = choose|i: int| 0 <= i < s.len() - 1 && s.drop_last()[i].id == id;
            assert(s[i].id == id);
        } else if exists|i: int| 0 <= i < s.len() && s[i].id == id {
            let i = choose|i: int| 0 <= i < s.len() && s[i].id == id;
            assert(i < s.len() - 1 ==> s.drop_last()[i].id == id);
        }
    }
}

pub proof fn lemma_map_of_index(s: Seq<TodoV>, i: int)
    requires
        unique_ids(s),
        0 <= i < s.len(),
    ensures
        map_of(s).contains_key(s[i].id),
        map_of(s)[s[i].id] == s[i],
    decreases s.len(),
{
    if i < s.len() - 1 {
        assert(forall|k: int|
            0 <= k < s.len() - 1 ==> #[trigger] s.drop_last()[k] == s[k]);
        lemma_map_of_index(s.drop_last(), i);
        assert(s.last().id != s[i].id);
    }
}

pub proof fn lemma_map_of_push(s: Seq<TodoV>, t: TodoV)
    ensures
        map_of(s.push(t)) == map_of(s).insert(t.id, t),
{
    assert(s.push(t).drop_last() =~= s);
    assert(s.push(t).last() == t);
}

pub proof fn lemma_map_of_update(s: Seq<TodoV>, i: int, t: TodoV)
    requires
        unique_ids(s),
        0 <= i < s.len(),
        t.id == s[i].id,
    ensures
        map_of(s.update(i, t)) == map_of(s).insert(t.id, t),
    decreases s.len(),
{
    let bl = s.drop_last();
    assert(forall|k: int| 0 <= k < s.len() - 1 ==> #[trigger] bl[k] == s[k]);
    if i == s.len() - 1 {
        assert(s.update(i, t).drop_last() =~= bl);
        assert(s.update(i, t).last() == t);
        assert(map_of(s.update(i, t)) == map_of(bl).insert(t.id, t));
        assert(map_of(bl).insert(s.last().id, s.last()).insert(t.id, t) =~= map_of(bl).insert(
            t.id,
            t,
        ));
    } else {
        assert(s.update(i, t).drop_last() =~= bl.update(i, t));
        assert(s.update(i, t).last() == s.last());
        lemma_map_of_update(bl, i, t);
        assert(s.last().id != t.id);
        assert(map_of(bl).insert(t.id, t).insert(s.last().id, s.last()) =~= map_of(bl).insert(
            s.last().id,
            s.last(),
        ).insert(t.id, t));
    }
}

pub proof fn lemma_map_of_remove(s: Seq<TodoV>, i: int)
    requires
        unique_ids(s),
        0 <= i < s.len(),
    ensures
        map_of(s.remove(i)) == map_of(s).remove(s[i].id),
    decreases s.len(),
{
    let bl = s.drop_last();
    assert(forall|k: int| 0 <= k < s.len() - 1 ==> #[trigger] bl[k] == s[k]);
    if i == s.len() - 1 {
        assert(s.remove(i) =~= bl);
        lemma_map_of_contains(bl, s.last().id);
        assert(forall|k: int| 0 <= k < bl.len() ==> bl[k].id != s.last().id);
        assert(map_of(bl).insert(s.last().id, s.last()).remove(s.last().id) =~= map_of(bl));
    } else {
        assert(s.remove(i).drop_last() =~= bl.remove(i));
        assert(s.remove(i).last() == s.last());
        lemma_map_of_remove(bl, i);
        assert(s.last().id != s[i].id);
        assert(map_of(bl).remove(s[i].id).insert(s.last().id, s.last()) =~= map_of(bl).insert(
            s.last().id,
            s.last(),
        ).remove(s[i].id));
    }
}

pub proof fn lemma_map_of_len(s: Seq<TodoV>)
    requires
        unique_ids(s),
    ensures
        map_of(s).dom().finite(),
        map_of(s).dom().len() == s.len(),
    decreases s.len(),
{
    if s.len() > 0 {
        let bl = s.drop_last();
        assert(forall|k: int| 0 <= k < s.len() - 1 ==> #[trigger] bl[k] == s[k]);
        lemma_map_of_len(bl);
        lemma_map_of_contains(bl, s.last().id);
        assert(forall|k: int| 0 <= k < bl.len() ==> bl[k].id != s.last().id);
        assert(!map_of(bl).dom().contains(s.last().id));
        assert(map_of(s).dom() =~= map_of(bl).dom().insert(s.last().id));
    }
}

/// The shared record store: a keyed collection of records.  Records are kept
/// in creation order; identifiers are assigned as count-plus-one at creation,
/// so after deletions a fresh identifier can coincide with a live one, and
/// creation then replaces that record, as an insert into a keyed map does.
pub struct Store {
    records: Vec<Todo>,
}

impl View for Store {
    type V = Map<usize, TodoV>;

    open spec fn view(&self) -> Map<usize, TodoV> {
        map_of(self.records())
    }
}

impl Store {
    /// The records in insertion order.
    pub closed spec fn records(&self) -> Seq<TodoV> {
        self.records@.map_values(|t: Todo| t@)
    }

    /// Each record's identifier appears once.
    pub open spec fn wf(&self) -> bool {
        unique_ids(self.records())
    }

    pub fn new() -> (s: Store)
        ensures
            s.wf(),
            s.records() == Seq::<TodoV>::empty(),
            s@ == Map::<usize, TodoV>::empty(),
    {
        let s = Store { records: Vec::new() };
        proof {
            assert(s.records() =~= Seq::<TodoV>::empty());
        }
        s
    }

    /// The number of records held.
    pub fn len(&self) -> (n: usize)
        ensures
            n == self.records().len(),
            self.wf() ==> n == self@.dom().len(),
    {
        proof {
            if self.wf() {
                lemma_map_of_len(self.records());
            }
        }
        self.records.len()
    }

    fn index_of(&self, id: usize) -> (r: Option<usize>)
        ensures
            r matches Some(i) ==> find_id(self.records(), id) == i as int,
            r is None ==> find_id(self.records(), id) < 0,
    {
        let n = self.records.len();
        let mut i: usize = 0;
        while i < n
            invariant
                i <= n,
                n == self.records().len(),
                forall|k: int| 0 <= k < i ==> self.records()[k].id != id,
            decreases n - i,
        {
            if self.records[i].id == id {
                proof {
                    lemma_find_id(self.records(), id);
                    let r = find_id(self.records(), id);
                    assert(self.records()[i as int].id == id);
                    assert(r >= 0 && self.records()[r].id == id);
                    assert(r == i as int);
                }
                return Some(i);
            }
            i = i + 1;
        }
        proof {
            lemma_find_id(self.records(), id);
            assert(find_id(self.records(), id) < 0) by {
                if find_id(self.records(), id) >= 0 {
                    assert(self.records()[find_id(self.records(), id)].id == id);
                }
            }
        }
        None
    }

    /// The record for `id`, when the store holds one.
    pub fn get(&self, id: usize) -> (r: Option<&Todo>)
        requires
            self.wf(),
        ensures
            r matches Some(t) ==> self@.contains_key(id) && t@ == self@[id],
            r is None ==> !self@.contains_key(id),
    {
        proof {
            lemma_map_of_contains(self.records(), id);
            lemma_find_id(self.records(), id);
        }
        match self.index_of(id) {
            Some(i) => {
                proof {
                    lemma_map_of_index(self.records(), i as int);
                }
                Some(&self.records[i])
            },
            None => None,
        }
    }

    /// Inserts `todo` under its identifier, replacing the record that held
    /// it, if any.
    pub fn insert(&mut self, todo: Todo)
        requires
            old(self).wf(),
        ensures
            final(self).wf(),
            final(self)@ == old(self)@.insert(todo.id, todo@),
            ({
                let f = find_id(old(self).records(), todo.id);
                final(self).records() == if f >= 0 {
                    old(self).records().update(f, todo@)
                } else {
                    old(self).records().push(todo@)
                }
            }),
    {
        let ghost s0 = self.records();
        let ghost tv = todo@;
        match self.index_of(todo.id) {
            Some(i) => {
                proof {
                    lemma_find_id(s0, todo.id);
                }
                self.records.remove(i);
                self.records.insert(i, todo);
                proof {
                    assert(self.records() =~= s0.update(i as int, tv));
                    lemma_map_of_update(s0, i as int, tv);
                    assert(unique_ids(self.records()));
                }
            },
            None => {
                proof {
                    lemma_find_id(s0, todo.id);
                }
                self.records.push(todo);
                proof {
                    assert(self.records() =~= s0.push(tv));
                    lemma_map_of_push(s0, tv);
                    assert(unique_ids(self.records()));
                }
            },
        }
    }

    /// Removes the record for `id`; tells whether one was held.
    pub fn remove(&mut self, id: usize) -> (r: bool)
        requires
            old(self).wf(),
        ensures
            final(self).wf(),
            r == old(self)@.contains_key(id),
            final(self)@ == old(self)@.remove(id),
            ({
                let f = find_id(old(self).records(), id);
                final(self).records() == if f >= 0 {
                    old(self).records().remove(f)
                } else {
                    old(self).records()
                }
            }),
    {
        let ghost s0 = self.records();
        proof {
            lemma_map_of_contains(s0, id);
            lemma_find_id(s0, id);
        }
        match self.index_of(id) {
            Some(i) => {
                self.records.remove(i);
                proof {
                    assert(self.records() =~= s0.remove(i as int));
                    lemma_map_of_remove(s0, i as int);
                    assert(unique_ids(self.records())) by {
                        assert(forall|k: int|
                            0 <= k < s0.remove(i as int).len() ==> #[trigger] s0.remove(
                                i as int,
                            )[k] == if k < i as int {
                                s0[k]
                            } else {
                                s0[k + 1]
                            });
                    }
                    assert(old(self)@.contains_key(id));
                }
                true
            },
            None => {
                proof {
                    assert(final(self)@ =~= old(self)@.remove(id));
                }
                false
            },
        }
    }

    /// A borrow of the records in insertion order, for serialization.
    pub fn all(&self) -> (r: &Vec<Todo>)
        ensures
            r@.map_values(|t: Todo| t@) == self.records(),
    {
        &self.records
    }
}

} // verus!
