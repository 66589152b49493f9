//! Ordered sets of type names.
//!
//! A record type is known to the inspector by the name under which it was
//! registered. A set keeps the names in the order of registration and holds
//! no name twice, so that a name stands for one position in the set.

use core::marker::PhantomData;
use vstd::prelude::*;
use vstd::string::StringSliceAdditionalSpecFns;
use vstd::utf8::{decode_utf8, encode_utf8, encode_utf8_decode_utf8};

verus! {

/// The texts of a list of names.
pub open spec fn name_texts(names: Seq<&'static str>) -> Seq<Seq<char>> {
    Seq::new(names.len(), |i: int| names[i]@)
}

/// Whether no text occurs twice in the list.
pub open spec fn distinct(texts: Seq<Seq<char>>) -> bool {
    forall|i: int, j: int| 0 <= i < j < texts.len() ==> texts[i] != texts[j]
}

/// The position of the first occurrence of `name` in `texts`, if it occurs.
pub open spec fn position_of(texts: Seq<Seq<char>>, name: Seq<char>) -> Option<int>
    decreases texts.len(),
{
    if texts.len() == 0 {
        None
    } else if texts[0] == name {
        Some(0)
    } else {
        match position_of(texts.drop_first(), name) {
            Some(at) => Some(at + 1),
            None => None,
        }
    }
}

/// `position_of` finds a name exactly when it is in the list, and the
/// position it gives holds that name and is the first that does.
pub proof fn lemma_position_of(texts: Seq<Seq<char>>, name: Seq<char>)
    ensures
        position_of(texts, name) is Some <==> texts.contains(name),
        position_of(texts, name) matches Some(at) ==> {
            &&& 0 <= at < texts.len()
            &&& texts[at] == name
            &&& forall|i: int| 0 <= i < at ==> texts[i] != name
        },
    decreases texts.len(),
{
    if texts.len() > 0 {
        if texts[0] == name {
            assert(texts.contains(name));
        } else {
            let rest = texts.drop_first();
            lemma_position_of(rest, name);
            if rest.contains(name) {
                let i = choose|i: int| 0 <= i < rest.len() && rest[i] == name;
                assert(texts[i + 1] == name);
            }
            if texts.contains(name) {
                let i = choose|i: int| 0 <= i < texts.len() && texts[i] == name;
                assert(rest[i - 1] == name);
            }
            if position_of(texts, name) is Some {
                let at = position_of(texts, name)->0;
                assert(texts[at] == rest[at - 1]);
                assert forall|i: int| 0 <= i < at implies texts[i] != name by {
                    if i > 0 {
                        assert(texts[i] == rest[i - 1]);
                    }
                }
            }
        }
    }
}

/// In a list without repetition, a name stands at one position only: the
/// position of the name at `at` is `at`.
pub proof fn lemma_position_of_distinct(texts: Seq<Seq<char>>, at: int)
    requires
        distinct(texts),
        0 <= at < texts.len(),
    ensures
        position_of(texts, texts[at]) == Some(at),
{
    lemma_position_of(texts, texts[at]);
    assert(texts.contains(texts[at]));
    let found = position_of(texts, texts[at])->0;
    if found < at {
        assert(texts[found] != texts[at]);
    }
}

/// Tells whether two names are the same text.
pub fn same_text(a: &str, b: &str) -> (same: bool)
    ensures
        same == (a@ == b@),
{
    let left = a.as_bytes();
    let right = b.as_bytes();
    proof {
        encode_utf8_decode_utf8(a@);
        encode_utf8_decode_utf8(b@);
    }
    if left.len() != right.len() {
        return false;
    }
    let mut i: usize = 0;
    while i < left.len()
        invariant
            left@ == encode_utf8(a@),
            right@ == encode_utf8(b@),
            left@.len() == right@.len(),
            i <= left@.len(),
            forall|j: int| 0 <= j < i ==> left@[j] == right@[j],
        decreases left.len() - i,
    {
        if left[i] != right[i] {
            return false;
        }
        i = i + 1;
    }
    proof {
        assert(left@ =~= right@);
        assert(decode_utf8(encode_utf8(a@)) == decode_utf8(encode_utf8(b@)));
    }
    true
}

/// Looks a name up in a list of names.
pub fn find_name(names: &Vec<&'static str>, name: &str) -> (found: Option<usize>)
    ensures
        match found {
            Some(at) => position_of(name_texts(names@), name@) == Some(at as int),
            None => position_of(name_texts(names@), name@) is None,
        },
{
    let ghost all = name_texts(names@);
    let mut i: usize = 0;
    proof {
        assert(all.skip(0) =~= all);
    }
    while i < names.len()
        invariant
            i <= names.len(),
            all == name_texts(names@),
            match position_of(all.skip(i as int), name@) {
                Some(at) => position_of(all, name@) == Some(at + i),
                None => position_of(all, name@) is None,
            },
        decreases names.len() - i,
    {
        if same_text(names[i], name) {
            proof {
                assert(all.skip(i as int)[0] == names@[i as int]@);
            }
            return Some(i);
        }
        proof {
            assert(all.skip(i as int)[0] == names@[i as int]@);
            assert(all.skip(i as int).drop_first() =~= all.skip(i as int + 1));
        }
        i = i + 1;
    }
    proof {
        assert(all.skip(i as int).len() == 0);
    }
    None
}

/// Why a name could not be added to a set.
#[derive(Debug, Clone, Copy, PartialEq, Eq, Structural)]
pub enum RegistrationError {
    /// The name is in the set already.
    DuplicateName,
}

/// An ordered set of names: the names in the order in which they were added,
/// none of them twice.
pub struct NameSet {
    names: Vec<&'static str>,
}

impl NameSet {
    /// The names in the set, in the order in which they were added.
    pub closed spec fn texts(&self) -> Seq<Seq<char>> {
        name_texts(self.names@)
    }

    /// Whether the set holds no name twice. Every set does.
    #[verifier::type_invariant]
    pub open spec fn wf(&self) -> bool {
        distinct(self.texts())
    }

    /// The empty set.
    pub fn new() -> (set: Self)
        ensures
            set.texts() == Seq::<Seq<char>>::empty(),
    {
        let set = NameSet { names: Vec::new() };
        proof {
            assert(set.texts() =~= Seq::<Seq<char>>::empty());
        }
        set
    }

    /// The number of names in the set.
    pub fn len(&self) -> (n: usize)
        ensures
            n == self.texts().len(),
            self.wf(),
    {
        proof {
            use_type_invariant(self);
        }
        self.names.len()
    }

    /// The names in the set, in the order in which they were added.
    pub fn names(&self) -> (names: &Vec<&'static str>)
        ensures
            name_texts(names@) == self.texts(),
            self.wf(),
    {
        proof {
            use_type_invariant(self);
        }
        &self.names
    }

    /// The position of `name` in the set, if it has been added.
    pub fn position(&self, name: &str) -> (found: Option<usize>)
        ensures
            match found {
                Some(at) => position_of(self.texts(), name@) == Some(at as int),
                None => position_of(self.texts(), name@) is None,
            },
            self.wf(),
    {
        proof {
            use_type_invariant(self);
        }
        find_name(&self.names, name)
    }

    /// Tells whether `name` has been added.
    pub fn contains(&self, name: &str) -> (found: bool)
        ensures
            found == self.texts().contains(name@),
            self.wf(),
    {
        proof {
            lemma_position_of(self.texts(), name@);
        }
        self.position(name).is_some()
    }

    /// Adds `name` at the end of the set. A name that is in the set already
    /// is not added again: the set stays as it is and `false` is returned.
    pub fn insert(&mut self, name: &'static str) -> (added: bool)
        ensures
            added == !old(self).texts().contains(name@),
            added ==> final(self).texts() == old(self).texts().push(name@),
            !added ==> final(self).texts() == old(self).texts(),
            final(self).wf(),
    {
        proof {
            use_type_invariant(&*self);
        }
        if self.contains(name) {
            return false;
        }
        let ghost before = self.texts();
        let mut names: Vec<&'static str> = Vec::new();
        core::mem::swap(&mut self.names, &mut names);
        names.push(name);
        proof {
            lemma_push_distinct(before, name@);
            assert(name_texts(names@) =~= before.push(name@));
        }
        core::mem::swap(&mut self.names, &mut names);
        true
    }
}

/// The texts reached from `own` by adding those of `other` that `own` does
/// not hold, if none of them is held; `None` if one is.
pub open spec fn union_of(own: Seq<Seq<char>>, other: Seq<Seq<char>>) -> Option<Seq<Seq<char>>> {
    if exists|i: int| 0 <= i < other.len() && own.contains(#[trigger] other[i]) {
        None
    } else {
        Some(own + other)
    }
}

/// An ordered set of type names. The type parameter lists, in the order of
/// registration, the record types that the names stand for; only code that
/// sets up typed stages reads it.
pub struct TypeSet<T> {
    names: NameSet,
    _phantom: PhantomData<T>,
}

impl<T> TypeSet<T> {
    /// The names in the set, in the order in which they were added.
    pub closed spec fn texts(&self) -> Seq<Seq<char>> {
        self.names.texts()
    }

    /// Whether the set holds no name twice. Every set that this module hands
    /// out does.
    pub open spec fn wf(&self) -> bool {
        distinct(self.texts())
    }

    /// The names in the set, in the order in which they were added.
    pub fn names(&self) -> (names: &Vec<&'static str>)
        ensures
            name_texts(names@) == self.texts(),
            self.wf(),
    {
        self.names.names()
    }

    /// The names of the set as an ordered set without a type.
    pub fn name_set(&self) -> (names: &NameSet)
        ensures
            names.texts() == self.texts(),
    {
        &self.names
    }

    /// The number of names in the set.
    pub fn len(&self) -> (n: usize)
        ensures
            n == self.texts().len(),
            self.wf(),
    {
        self.names.len()
    }

    /// The position of `name` in the set, if it has been added.
    pub fn position(&self, name: &str) -> (found: Option<usize>)
        ensures
            match found {
                Some(at) => position_of(self.texts(), name@) == Some(at as int),
                None => position_of(self.texts(), name@) is None,
            },
    {
        self.names.position(name)
    }

    /// The set with one more type, registered under the name `value`, added
    /// at the end. A name that is in the set already is refused.
    pub fn with<U>(self, value: &'static str) -> (result: Result<
        TypeSet<(T, (U,))>,
        RegistrationError,
    >)
        ensures
            match result {
                Ok(set) => {
                    &&& !self.texts().contains(value@)
                    &&& set.texts() == self.texts().push(value@)
                    &&& set.wf()
                },
                Err(error) => error == RegistrationError::DuplicateName && self.texts().contains(
                    value@,
                ),
            },
    {
        let mut names = self.names;
        if names.insert(value) {
            Ok(TypeSet { names, _phantom: PhantomData })
        } else {
            Err(RegistrationError::DuplicateName)
        }
    }

    /// The set with every type of `set` added at the end, in the order of
    /// `set`. If a name of `set` is in this set already, the union is
    /// refused.
    #[verifier::loop_isolation(false)]
    pub fn with_set<U>(self, set: &TypeSet<U>) -> (result: Result<
        TypeSet<(T, U)>,
        RegistrationError,
    >)
        ensures
            match result {
                Ok(union) => union_of(self.texts(), set.texts()) == Some(union.texts())
                    && union.wf(),
                Err(error) => error == RegistrationError::DuplicateName && union_of(
                    self.texts(),
                    set.texts(),
                ) is None,
            },
    {
        let ghost own = self.texts();
        let ghost other = set.texts();
        let mut names = self.names;
        let added = set.names.names();
        let mut i: usize = 0;
        proof {
            assert(own + other.take(0) =~= own);
        }
        while i < added.len()
            invariant
                i <= added.len(),
                name_texts(added@) == other,
                distinct(other),
                names.texts() == own + other.take(i as int),
                forall|k: int| 0 <= k < i ==> !own.contains(#[trigger] other[k]),
            decreases added.len() - i,
        {
            let name: &'static str = added[i];
            let ghost sofar = names.texts();
            proof {
                assert(other[i as int] == name@);
                if sofar.contains(name@) {
                    let at = choose|at: int| 0 <= at < sofar.len() && sofar[at] == name@;
                    if at >= own.len() {
                        assert(sofar[at] == other[at - own.len()]);
                        assert(false);
                    } else {
                        assert(own[at] == name@);
                        assert(own.contains(other[i as int]));
                    }
                }
                if own.contains(name@) {
                    let at = choose|at: int| 0 <= at < own.len() && own[at] == name@;
                    assert(sofar[at] == name@);
                }
            }
            if !names.insert(name) {
                proof {
                    assert(own.contains(other[i as int]));
                }
                return Err(RegistrationError::DuplicateName);
            }
            proof {
                assert(sofar.push(name@) =~= own + other.take(i as int + 1));
            }
            i = i + 1;
        }
        proof {
            assert(other.take(other.len() as int) =~= other);
            use_type_invariant(&names);
        }
        Ok(TypeSet { names, _phantom: PhantomData })
    }
}

impl TypeSet<()> {
    /// The empty set.
    pub fn new() -> (set: Self)
        ensures
            set.texts() == Seq::<Seq<char>>::empty(),
            set.wf(),
    {
        TypeSet { names: NameSet::new(), _phantom: PhantomData }
    }
}

/// A list without repetition stays so when a text that it does not hold is
/// added at its end.
pub proof fn lemma_push_distinct(texts: Seq<Seq<char>>, name: Seq<char>)
    requires
        distinct(texts),
        !texts.contains(name),
    ensures
        distinct(texts.push(name)),
{
    let longer = texts.push(name);
    assert forall|i: int, j: int| 0 <= i < j < longer.len() implies longer[i] != longer[j] by {
        if j == texts.len() {
            assert(texts.contains(texts[i]));
        }
    }
}

} // verus!
