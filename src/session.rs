//! The table of running sessions: at most one process per user, each with
//! its recent output, and the replace-and-install step that terminates the
//! process it displaces.

use crate::buffer::{last_n, OutputBuffer, OUTPUT_CAPACITY};
use vstd::prelude::*;

verus! {

/// What the table holds for one user: the id given to the process when it
/// was installed, the process itself, and its recent output.
pub struct SessionView<P> {
    pub id: u64,
    pub process: P,
    pub lines: Seq<String>,
}

/// The table's contents, by user key.
pub type TableView<P> = Map<Seq<char>, SessionView<P>>;

/// No two users' entries carry the same process id.
pub open spec fn ids_distinct<P>(m: TableView<P>) -> bool {
    forall|k1: Seq<char>, k2: Seq<char>|
        #![trigger m[k1], m[k2]]
        m.contains_key(k1) && m.contains_key(k2) && k1 != k2 ==> m[k1].id != m[k2].id
}

/// Every id in the table lies below `next`, the id that the next install gets.
pub open spec fn ids_below<P>(m: TableView<P>, next: u64) -> bool {
    forall|k: Seq<char>| #[trigger] m.contains_key(k) ==> m[k].id < next
}

/// Every output held in the table is within the buffer's capacity.
pub open spec fn outputs_bounded<P>(m: TableView<P>) -> bool {
    forall|k: Seq<char>| #[trigger] m.contains_key(k) ==> m[k].lines.len() <= OUTPUT_CAPACITY
}

/// The table after a process with id `id` has been installed for `key`,
/// replacing whatever was there.
pub open spec fn replaced<P>(m: TableView<P>, key: Seq<char>, id: u64, process: P) -> TableView<P> {
    m.insert(key, SessionView { id, process, lines: Seq::empty() })
}

/// The process that an install for `key` evicts from `m`, if any.
pub open spec fn evicted<P>(m: TableView<P>, key: Seq<char>) -> Option<P> {
    if m.contains_key(key) {
        Some(m[key].process)
    } else {
        None
    }
}

struct Session<P> {
    key: String,
    id: u64,
    process: P,
    output: OutputBuffer,
}

impl<P> Session<P> {
    spec fn view(&self) -> SessionView<P> {
        SessionView { id: self.id, process: self.process, lines: self.output.view() }
    }
}

/// The sessions of all users: at most one process per user key, each with its
/// own output buffer.
pub struct SessionTable<P> {
    entries: Vec<Session<P>>,
    model: Ghost<TableView<P>>,
    next_id: u64,
}

impl<P> SessionTable<P> {
    /// The sessions held, by user key.
    pub closed spec fn view(&self) -> TableView<P> {
        self.model@
    }

    /// The id that the next install will give.
    pub closed spec fn next_id(&self) -> u64 {
        self.next_id
    }

    pub closed spec fn inv(&self) -> bool {
        &&& forall|i: int|
            0 <= i < self.entries@.len() ==> {
                &&& self.model@.contains_key(#[trigger] self.entries@[i].key@)
                &&& self.model@[self.entries@[i].key@] == self.entries@[i].view()
                &&& self.entries@[i].output.wf()
            }
        &&& forall|k: Seq<char>|
            #[trigger] self.model@.contains_key(k) ==> exists|i: int|
                0 <= i < self.entries@.len() && self.entries@[i].key@ == k
        &&& forall|i: int, j: int|
            0 <= i < self.entries@.len() && 0 <= j < self.entries@.len() && i != j
                ==> self.entries@[i].key@ != self.entries@[j].key@
    }

    pub open spec fn wf(&self) -> bool {
        &&& self.inv()
        &&& ids_distinct(self.view())
        &&& ids_below(self.view(), self.next_id())
        &&& outputs_bounded(self.view())
    }

    pub fn new() -> (r: SessionTable<P>)
        ensures
            r.wf(),
            r.view() == TableView::<P>::empty(),
    {
        SessionTable { entries: Vec::new(), model: Ghost(Map::empty()), next_id: 0 }
    }

    /// Whether an install can still be given a fresh id.
    pub fn can_install(&self) -> (r: bool)
        ensures
            r == (self.next_id() < u64::MAX),
    {
        self.next_id < u64::MAX
    }

    /// The position of the entry for `key`, if there is one.
    fn find(&self, key: &String) -> (r: Option<usize>)
        requires
            self.wf(),
        ensures
            match r {
                Some(i) => i < self.entries@.len() && self.entries@[i as int].key@ == key@,
                None => !self.view().contains_key(key@),
            },
    {
        let mut i: usize = 0;
        while i < self.entries.len()
            invariant
                i <= self.entries@.len(),
                forall|j: int| 0 <= j < i ==> self.entries@[j].key@ != key@,
            decreases self.entries@.len() - i,
        {
            if self.entries[i].key == *key {
                return Some(i);
            }
            i += 1;
        }
        None
    }

    /// Whether `key` has a session.
    pub fn contains_key(&self, key: &String) -> (r: bool)
        requires
            self.wf(),
        ensures
            r == self.view().contains_key(key@),
    {
        match self.find(key) {
            Some(i) => {
                assert(self.entries@[i as int].key@ == key@);
                true
            },
            None => false,
        }
    }

    /// The id of the process installed for `key`, if any.
    pub fn session_id(&self, key: &String) -> (r: Option<u64>)
        requires
            self.wf(),
        ensures
            r == (if self.view().contains_key(key@) {
                Some(self.view()[key@].id)
            } else {
                None::<u64>
            }),
    {
        match self.find(key) {
            Some(i) => {
                assert(self.entries@[i as int].key@ == key@);
                Some(self.entries[i].id)
            },
            None => None,
        }
    }

    /// The recent output of `key`'s process, oldest line first; empty when
    /// `key` has no session.
    pub fn get_output(&self, key: &String) -> (r: Vec<String>)
        requires
            self.wf(),
        ensures
            r@ == (if self.view().contains_key(key@) {
                self.view()[key@].lines
            } else {
                Seq::<String>::empty()
            }),
    {
        match self.find(key) {
            Some(i) => {
                assert(self.entries@[i as int].key@ == key@);
                self.entries[i].output.snapshot()
            },
            None => Vec::new(),
        }
    }

    /// Takes the entry for `key` out of the table.
    fn take(&mut self, key: &String) -> (r: Option<Session<P>>)
        requires
            old(self).wf(),
        ensures
            final(self).inv(),
            final(self).next_id() == old(self).next_id(),
            final(self).view() == old(self).view().remove(key@),
            match r {
                Some(s) => {
                    &&& old(self).view().contains_key(key@)
                    &&& s.key@ == key@
                    &&& s.view() == old(self).view()[key@]
                    &&& s.output.wf()
                },
                None => !old(self).view().contains_key(key@),
            },
    {
        match self.find(key) {
            None => {
                assert(self.model@.remove(key@) =~= self.model@);
                None
            },
            Some(i) => {
                let ghost before = self.entries@;
                let ghost m = self.model@;
                assert(m.contains_key(before[i as int].key@));
                let s = self.entries.remove(i);
                self.model = Ghost(m.remove(key@));
                assert forall|j: int| 0 <= j < self.entries@.len() implies {
                    &&& self.model@.contains_key(#[trigger] self.entries@[j].key@)
                    &&& self.model@[self.entries@[j].key@] == self.entries@[j].view()
                    &&& self.entries@[j].output.wf()
                } by {
                    let oj = if j < i { j } else { j + 1 };
                    assert(self.entries@[j] == before[oj]);
                    assert(m.contains_key(before[oj].key@));
                }
                assert forall|k: Seq<char>| #[trigger] self.model@.contains_key(k) implies exists|j: int|
                    0 <= j < self.entries@.len() && self.entries@[j].key@ == k by {
                    let oj = choose|oj: int| 0 <= oj < before.len() && before[oj].key@ == k;
                    assert(oj != i);
                    let j = if oj < i { oj } else { oj - 1 };
                    assert(self.entries@[j] == before[oj]);
                }
                assert forall|a: int, b: int|
                    0 <= a < self.entries@.len() && 0 <= b < self.entries@.len() && a != b
                    implies self.entries@[a].key@ != self.entries@[b].key@ by {
                    let oa = if a < i { a } else { a + 1 };
                    let ob = if b < i { b } else { b + 1 };
                    assert(self.entries@[a] == before[oa]);
                    assert(self.entries@[b] == before[ob]);
                }
                Some(s)
            },
        }
    }

    /// Adds an entry for a key that has none.
    fn put(&mut self, s: Session<P>)
        requires
            old(self).inv(),
            !old(self).view().contains_key(s.key@),
            s.output.wf(),
        ensures
            final(self).inv(),
            final(self).next_id() == old(self).next_id(),
            final(self).view() == old(self).view().insert(s.key@, s.view()),
    {
        let ghost before = self.entries@;
        let ghost m = self.model@;
        let ghost k = s.key@;
        let ghost v = s.view();
        self.entries.push(s);
        self.model = Ghost(m.insert(k, v));
        assert forall|j: int| 0 <= j < before.len() implies before[j].key@ != k by {
            assert(m.contains_key(before[j].key@));
        }
        assert forall|j: int| 0 <= j < self.entries@.len() implies {
            &&& self.model@.contains_key(#[trigger] self.entries@[j].key@)
            &&& self.model@[self.entries@[j].key@] == self.entries@[j].view()
            &&& self.entries@[j].output.wf()
        } by {
            if j < before.len() {
                assert(self.entries@[j] == before[j]);
                assert(m.contains_key(before[j].key@));
            }
        }
        assert forall|key: Seq<char>| #[trigger] self.model@.contains_key(key) implies exists|j: int|
            0 <= j < self.entries@.len() && self.entries@[j].key@ == key by {
            if key == k {
                assert(self.entries@[before.len() as int].key@ == k);
            } else {
                let j = choose|j: int| 0 <= j < before.len() && before[j].key@ == key;
                assert(self.entries@[j] == before[j]);
            }
        }
    }

    /// Installs `process` as `key`'s session with an empty output, under a
    /// fresh id. The process that `key` had before, if any, is taken out of
    /// the table and handed back so that the caller can terminate it.
    pub fn insert_replacing(&mut self, key: String, process: P) -> (r: (u64, Option<P>))
        requires
            old(self).wf(),
            old(self).next_id() < u64::MAX,
        ensures
            final(self).wf(),
            r.0 == old(self).next_id(),
            final(self).next_id() == old(self).next_id() + 1,
            final(self).view() == replaced(old(self).view(), key@, r.0, process),
            r.1 == evicted(old(self).view(), key@),
    {
        let ghost m = self.view();
        let prev = self.take(&key);
        let id = self.next_id;
        let ghost k = key@;
        let ghost before = *self;
        self.next_id = id + 1;
        proof {
            assert forall|k: Seq<char>| #[trigger] self.model@.contains_key(k) implies exists|j: int|
                0 <= j < self.entries@.len() && self.entries@[j].key@ == k by {
                let j = choose|j: int| 0 <= j < before.entries@.len() && before.entries@[j].key@ == k;
                assert(self.entries@[j].key@ == k);
            }
        }
        let s = Session { key, id, process, output: OutputBuffer::new() };
        self.put(s);
        assert(self.view() =~= replaced(m, k, id, process));
        let ghost m2 = self.view();
        assert forall|k1: Seq<char>, k2: Seq<char>|
            m2.contains_key(k1) && m2.contains_key(k2) && k1 != k2
            implies #[trigger] m2[k1].id != #[trigger] m2[k2].id by {
            if k1 != k && k2 != k {
                assert(m[k1].id != m[k2].id);
            } else if k1 == k {
                assert(m.contains_key(k2));
            } else {
                assert(m.contains_key(k1));
            }
        }
        assert forall|k1: Seq<char>| #[trigger] m2.contains_key(k1) implies m2[k1].id < self.next_id
            && m2[k1].lines.len() <= OUTPUT_CAPACITY by {
            if k1 != k {
                assert(m.contains_key(k1));
            }
        }
        match prev {
            Some(p) => (id, Some(p.process)),
            None => (id, None),
        }
    }

    /// Appends `line` to the output of `key`'s session, provided that the
    /// session still runs the process with id `id`; a line from a process that
    /// has since been replaced or removed is dropped. Returns whether the line
    /// was kept.
    pub fn push_output(&mut self, key: &String, id: u64, line: String) -> (r: bool)
        requires
            old(self).wf(),
        ensures
            final(self).wf(),
            final(self).next_id() == old(self).next_id(),
            r == (old(self).view().contains_key(key@) && old(self).view()[key@].id == id),
            r ==> final(self).view() == old(self).view().insert(
                key@,
                SessionView {
                    lines: last_n(old(self).view()[key@].lines.push(line), OUTPUT_CAPACITY as nat),
                    ..old(self).view()[key@]
                },
            ),
            !r ==> final(self).view() == old(self).view(),
    {
        let ghost m = self.view();
        match self.find(key) {
            None => false,
            Some(i) => {
                if self.entries[i].id != id {
                    return false;
                }
                let taken = self.take(key);
                match taken {
                    Some(mut s) => {
                        s.output.push(line);
                        self.put(s);
                        assert(self.view() =~= m.insert(
                            key@,
                            SessionView {
                                lines: last_n(m[key@].lines.push(line), OUTPUT_CAPACITY as nat),
                                ..m[key@]
                            },
                        ));
                        true
                    },
                    None => false,
                }
            },
        }
    }

    /// Drops `key`'s session without terminating its process, which is handed
    /// back.
    pub fn remove(&mut self, key: &String) -> (r: Option<P>)
        requires
            old(self).wf(),
        ensures
            final(self).wf(),
            final(self).next_id() == old(self).next_id(),
            final(self).view() == old(self).view().remove(key@),
            r == evicted(old(self).view(), key@),
    {
        match self.take(key) {
            Some(s) => Some(s.process),
            None => None,
        }
    }
}


/// Two installs for one key, one after the other: the key then holds the
/// second process alone, the first was handed back for termination by the
/// second install, no entry carries the first install's id any more, and no
/// other key was touched.
pub proof fn lemma_replace_twice<P>(m: TableView<P>, key: Seq<char>, id1: u64, p1: P, id2: u64, p2: P)
    requires
        ids_below(m, id1),
        id1 < id2,
    ensures
        ({
            let m1 = replaced(m, key, id1, p1);
            let m2 = replaced(m1, key, id2, p2);
            &&& evicted(m1, key) == Some(p1)
            &&& m2.contains_key(key)
            &&& m2[key].id == id2
            &&& m2[key].process == p2
            &&& m2.dom() == m.dom().insert(key)
            &&& forall|k: Seq<char>| k != key && #[trigger] m.contains_key(k) ==> m2[k] == m[k]
            &&& forall|k: Seq<char>| #[trigger] m2.contains_key(k) ==> m2[k].id != id1
        }),
{
    let m1 = replaced(m, key, id1, p1);
    let m2 = replaced(m1, key, id2, p2);
    assert(m2.dom() =~= m.dom().insert(key));
    assert forall|k: Seq<char>| #[trigger] m2.contains_key(k) implies m2[k].id != id1 by {
        if k != key {
            assert(m.contains_key(k));
        }
    }
}

/// Two installs for one key that race are applied one after the other (each
/// holds the table exclusively), in either order. Whichever came second, no
/// entry of the resulting table carries the id of a process that either
/// install handed back for termination, and the table keeps its ids distinct
/// and below the next id.
pub proof fn lemma_no_resurrect_after_kill<P>(m: TableView<P>, next: u64, key: Seq<char>, pa: P, pb: P)
    requires
        ids_distinct(m),
        ids_below(m, next),
        next < u64::MAX - 1,
    ensures
        ({
            let m1 = replaced(m, key, next, pa);
            let m2 = replaced(m1, key, (next + 1) as u64, pb);
            &&& evicted(m1, key) == Some(pa)
            &&& m2[key].process == pb
            &&& forall|k: Seq<char>| #[trigger] m2.contains_key(k) ==> m2[k].id != next
            &&& m.contains_key(key) ==> forall|k: Seq<char>| #[trigger] m2.contains_key(k)
                ==> m2[k].id != m[key].id
            &&& ids_distinct(m2)
            &&& ids_below(m2, (next + 2) as u64)
        }),
{
    let m1 = replaced(m, key, next, pa);
    let m2 = replaced(m1, key, (next + 1) as u64, pb);
    assert forall|k: Seq<char>| #[trigger] m2.contains_key(k) implies m2[k].id != next && m2[k].id
        < next + 2 && (m.contains_key(key) ==> m2[k].id != m[key].id) by {
        if k != key {
            assert(m.contains_key(k));
            if m.contains_key(key) {
                assert(m[k].id != m[key].id);
            }
        } else if m.contains_key(key) {
            assert(m[key].id < next);
        }
    }
    assert forall|k1: Seq<char>, k2: Seq<char>|
        m2.contains_key(k1) && m2.contains_key(k2) && k1 != k2
        implies #[trigger] m2[k1].id != #[trigger] m2[k2].id by {
        if k1 != key && k2 != key {
            assert(m[k1].id != m[k2].id);
        } else if k1 == key {
            assert(m.contains_key(k2));
        } else {
            assert(m.contains_key(k1));
        }
    }
}

} // verus!
