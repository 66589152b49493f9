//! The table that leads from the name of a record type to the queue of the
//! stage that applies updates to records of that type.

use crate::type_set::{distinct, lemma_position_of, lemma_push_distinct, position_of, same_text};
use crossbeam_channel::Sender;
use vstd::prelude::*;

verus! {

/// The sending end of one stage's queue, with the name of the stage's type.
#[verifier::reject_recursive_types(T)]
pub struct NamedSender<T> {
    name: &'static str,
    sender: Sender<T>,
}

/// The queues of the registered stages, by name. No name stands in the table
/// twice.
#[verifier::reject_recursive_types(T)]
pub struct ChannelMap<T> {
    entries: Vec<NamedSender<T>>,
}

impl<T> ChannelMap<T> {
    /// The names in the table, in the order in which they were registered.
    pub closed spec fn names(&self) -> Seq<Seq<char>> {
        Seq::new(self.entries@.len(), |i: int| self.entries@[i].name@)
    }

    /// The sending ends in the table: the end at a position belongs to the
    /// queue of the stage whose name stands at that position.
    pub closed spec fn senders(&self) -> Seq<Sender<T>> {
        Seq::new(self.entries@.len(), |i: int| self.entries@[i].sender)
    }

    /// Whether the table holds no name twice. Every table does.
    #[verifier::type_invariant]
    pub open spec fn wf(&self) -> bool {
        distinct(self.names())
    }

    /// The empty table.
    pub fn new() -> (map: Self)
        ensures
            map.names() == Seq::<Seq<char>>::empty(),
            map.senders() == Seq::<Sender<T>>::empty(),
    {
        let map = ChannelMap { entries: Vec::new() };
        proof {
            assert(map.names() =~= Seq::<Seq<char>>::empty());
            assert(map.senders() =~= Seq::<Sender<T>>::empty());
        }
        map
    }

    /// The number of names in the table.
    pub fn len(&self) -> (n: usize)
        ensures
            n == self.names().len(),
            n == self.senders().len(),
            self.wf(),
    {
        proof {
            use_type_invariant(self);
        }
        self.entries.len()
    }

    /// The position of `name` in the table, if it is registered.
    pub fn position(&self, name: &str) -> (found: Option<usize>)
        ensures
            match found {
                Some(at) => position_of(self.names(), name@) == Some(at as int),
                None => position_of(self.names(), name@) is None,
            },
    {
        let ghost all = self.names();
        let mut i: usize = 0;
        proof {
            assert(all.skip(0) =~= all);
        }
        while i < self.entries.len()
            invariant
                i <= self.entries.len(),
                all == self.names(),
                match position_of(all.skip(i as int), name@) {
                    Some(at) => position_of(all, name@) == Some(at + i),
                    None => position_of(all, name@) is None,
                },
            decreases self.entries.len() - i,
        {
            proof {
                assert(all.skip(i as int)[0] == self.entries@[i as int].name@);
                assert(all.skip(i as int).drop_first() =~= all.skip(i as int + 1));
            }
            if same_text(self.entries[i].name, name) {
                return Some(i);
            }
            i = i + 1;
        }
        proof {
            assert(all.skip(i as int).len() == 0);
        }
        None
    }

    /// Tells whether `name` is registered.
    pub fn contains(&self, name: &str) -> (found: bool)
        ensures
            found == self.names().contains(name@),
    {
        proof {
            lemma_position_of(self.names(), name@);
        }
        self.position(name).is_some()
    }

    /// Registers the queue of which `sender` is an end under `name`. A name
    /// that is registered already keeps its queue: the table stays as it is
    /// and `false` is returned.
    pub fn insert(&mut self, name: &'static str, sender: Sender<T>) -> (added: bool)
        ensures
            added == !old(self).names().contains(name@),
            added ==> final(self).names() == old(self).names().push(name@),
            added ==> final(self).senders() == old(self).senders().push(sender),
            !added ==> final(self).names() == old(self).names(),
            !added ==> final(self).senders() == old(self).senders(),
    {
        proof {
            use_type_invariant(&*self);
        }
        if self.contains(name) {
            return false;
        }
        let ghost before = self.names();
        let ghost ends = self.senders();
        let mut entries: Vec<NamedSender<T>> = Vec::new();
        core::mem::swap(&mut self.entries, &mut entries);
        entries.push(NamedSender { name, sender });
        proof {
            lemma_push_distinct(before, name@);
            assert(Seq::new(entries@.len(), |i: int| entries@[i].name@) =~= before.push(name@));
            assert(Seq::new(entries@.len(), |i: int| entries@[i].sender) =~= ends.push(sender));
        }
        core::mem::swap(&mut self.entries, &mut entries);
        true
    }

    /// The sending end of the queue of the stage registered under `name`:
    /// the end that stands where the name stands. `None` if no stage is
    /// registered under the name.
    pub fn get(&self, name: &str) -> (found: Option<&Sender<T>>)
        ensures
            self.names().len() == self.senders().len(),
            match position_of(self.names(), name@) {
                Some(at) => found == Some(&self.senders()[at]),
                None => found is None,
            },
            found is Some <==> self.names().contains(name@),
    {
        proof {
            lemma_position_of(self.names(), name@);
        }
        match self.position(name) {
            None => None,
            Some(at) => Some(&self.entries[at].sender),
        }
    }
}

} // verus!
