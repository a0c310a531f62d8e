//! The server registry: per user, a directory whose entries stand for the
//! known server names.  An entry is a zero-byte marker whose name is the
//! server name and whose existence is the only state.
//!
//! This type is the registry's semantics: the set of entry names, a list
//! that enumerates them, and an idempotent create.  The surrounding shell
//! mirrors it onto the directory `/tmp/tmux-<user_id>`: it loads the current
//! entry names through `create`, and touches a new marker file exactly when
//! `create` answers that the name was not yet present.

use vstd::prelude::*;

verus! {

/// No two entries carry the same name: what a directory guarantees.
pub open spec fn distinct(entries: Seq<Seq<char>>) -> bool {
    forall|i: int, j: int| 0 <= i < j < entries.len() ==> entries[i] != entries[j]
}

/// What a create leaves behind: the entries unchanged when the name is
/// already present, the name appended otherwise.
pub open spec fn spec_create(entries: Seq<Seq<char>>, name: Seq<char>) -> Seq<Seq<char>> {
    if entries.contains(name) {
        entries
    } else {
        entries.push(name)
    }
}

/// How many entries carry the name.
pub open spec fn marker_count(entries: Seq<Seq<char>>, name: Seq<char>) -> nat
    decreases entries.len(),
{
    if entries.len() == 0 {
        0
    } else {
        marker_count(entries.drop_last(), name) + (if entries.last() == name {
            1nat
        } else {
            0nat
        })
    }
}

/// The known server names of one user, in enumeration order.
pub struct Registry {
    entries: Vec<String>,
}

impl View for Registry {
    type V = Seq<Seq<char>>;

    closed spec fn view(&self) -> Seq<Seq<char>> {
        self.entries.deep_view()
    }
}

impl Registry {
    /// The registry never holds two entries of one name.
    pub open spec fn wf(&self) -> bool {
        distinct(self@)
    }

    /// A fresh registry, as a user with no prior registry directory has it:
    /// no entries at all.
    pub fn new() -> (r: Registry)
        ensures
            r@ == Seq::<Seq<char>>::empty(),
            r.wf(),
    {
        let r = Registry { entries: Vec::new() };
        proof {
            assert(r@ =~= Seq::<Seq<char>>::empty());
        }
        r
    }

    /// Whether an entry of this name is present.
    pub fn contains(&self, name: &String) -> (r: bool)
        ensures
            r == self@.contains(name@),
    {
        let mut i: usize = 0;
        while i < self.entries.len()
            invariant
                0 <= i <= self.entries.len(),
                self@.len() == self.entries.len(),
                forall|m: int| 0 <= m < i ==> self@[m] != name@,
            decreases self.entries.len() - i,
        {
            if self.entries[i].eq(name) {
                proof {
                    assert(self@[i as int] == name@);
                }
                return true;
            }
            i = i + 1;
        }
        proof {
            if self@.contains(name@) {
                let w = choose|m: int| 0 <= m < self@.len() && self@[m] == name@;
                assert(self@[w] != name@);
            }
        }
        false
    }

    /// The entry names, in enumeration order.  An empty registry yields an
    /// empty list, never an error.
    pub fn list(&self) -> (names: Vec<String>)
        ensures
            names.deep_view() == self@,
    {
        let mut names: Vec<String> = Vec::new();
        let mut i: usize = 0;
        while i < self.entries.len()
            invariant
                0 <= i <= self.entries.len(),
                self@.len() == self.entries.len(),
                names.deep_view() =~= self@.subrange(0, i as int),
            decreases self.entries.len() - i,
        {
            let ghost pre = names.deep_view();
            let ghost prev = names@;
            names.push(self.entries[i].clone());
            proof {
                assert forall|m: int| 0 <= m < pre.len() + 1 implies #[trigger] names.deep_view()[m]
                    == pre.push(self@[i as int])[m] by {
                    if m < pre.len() {
                        assert(names@[m] == prev[m]);
                    }
                }
                assert(names.deep_view() =~= pre.push(self@[i as int]));
                assert(pre.push(self@[i as int]) =~= self@.subrange(0, i + 1));
            }
            i = i + 1;
        }
        proof {
            assert(names.deep_view() =~= self@);
        }
        names
    }

    /// Registers a name: present already, nothing changes; absent, one new
    /// entry of that name appears.  Either way the call succeeds; the answer
    /// says whether a new marker has to be put on disk.
    pub fn create(&mut self, name: &String) -> (created: bool)
        requires
            old(self).wf(),
        ensures
            final(self)@ == spec_create(old(self)@, name@),
            created == !old(self)@.contains(name@),
            final(self).wf(),
    {
        if self.contains(name) {
            return false;
        }
        self.entries.push(name.clone());
        proof {
            assert(self@ =~= old(self)@.push(name@));
            assert forall|i: int, j: int| 0 <= i < j < self@.len() implies self@[i] != self@[j] by {
                if j < self@.len() - 1 {
                    assert(old(self)@[i] != old(self)@[j]);
                } else {
                    assert(self@[j] == name@);
                    assert(old(self)@[i] == self@[i]);
                    assert(!old(self)@.contains(name@));
                }
            }
        }
        true
    }
}

/// Appending an entry raises the count of its own name by one and leaves
/// every other name's count alone.
pub proof fn lemma_marker_count_push(entries: Seq<Seq<char>>, x: Seq<char>, name: Seq<char>)
    ensures
        marker_count(entries.push(x), name) == marker_count(entries, name) + (if x == name {
            1nat
        } else {
            0nat
        }),
{
    assert(entries.push(x).drop_last() =~= entries);
    assert(entries.push(x).last() == x);
}

/// A name that no entry carries has count zero.
pub proof fn lemma_marker_count_absent(entries: Seq<Seq<char>>, name: Seq<char>)
    requires
        !entries.contains(name),
    ensures
        marker_count(entries, name) == 0,
    decreases entries.len(),
{
    if entries.len() > 0 {
        assert(!entries.drop_last().contains(name)) by {
            if entries.drop_last().contains(name) {
                let w = choose|m: int|
                    0 <= m < entries.drop_last().len() && entries.drop_last()[m] == name;
                assert(entries[w] == name);
            }
        }
        assert(entries.last() != name) by {
            assert(entries[entries.len() - 1] == entries.last());
        }
        lemma_marker_count_absent(entries.drop_last(), name);
    }
}

/// In a duplicate-free registry, a name some entry carries has count one.
pub proof fn lemma_marker_count_present(entries: Seq<Seq<char>>, name: Seq<char>)
    requires
        distinct(entries),
        entries.contains(name),
    ensures
        marker_count(entries, name) == 1,
    decreases entries.len(),
{
    let prefix = entries.drop_last();
    if entries.last() == name {
        assert(!prefix.contains(name)) by {
            if prefix.contains(name) {
                let w = choose|m: int| 0 <= m < prefix.len() && prefix[m] == name;
                assert(entries[w] == name);
                assert(entries[entries.len() - 1] == name);
            }
        }
        lemma_marker_count_absent(prefix, name);
    } else {
        let w = choose|m: int| 0 <= m < entries.len() && entries[m] == name;
        assert(entries[entries.len() - 1] != name);
        assert(w < entries.len() - 1);
        assert(prefix[w] == name);
        assert(distinct(prefix)) by {
            assert(forall|i: int, j: int|
                0 <= i < j < prefix.len() ==> entries[i] == prefix[i] && entries[j] == prefix[j]);
        }
        lemma_marker_count_present(prefix, name);
    }
}

/// Idempotence of create: a second create of the same name changes nothing,
/// and in a duplicate-free registry exactly one marker of that name remains.
pub proof fn lemma_create_idempotent(entries: Seq<Seq<char>>, name: Seq<char>)
    requires
        distinct(entries),
    ensures
        spec_create(spec_create(entries, name), name) == spec_create(entries, name),
        marker_count(spec_create(entries, name), name) == 1,
        distinct(spec_create(entries, name)),
{
    let once = spec_create(entries, name);
    if entries.contains(name) {
        lemma_marker_count_present(entries, name);
    } else {
        assert(once == entries.push(name));
        assert(once[entries.len() as int] == name);
        assert(once.contains(name));
        assert(distinct(once)) by {
            assert forall|i: int, j: int| 0 <= i < j < once.len() implies once[i] != once[j] by {
                if j < once.len() - 1 {
                    assert(entries[i] != entries[j]);
                } else {
                    assert(once[j] == name);
                    assert(once[i] == entries[i]);
                    assert(!entries.contains(name));
                }
            }
        }
        lemma_marker_count_absent(entries, name);
        lemma_marker_count_push(entries, name, name);
    }
}

} // verus!
