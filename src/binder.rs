use vstd::prelude::*;
use crate::error::BindingError;
use crate::value::{first_repeat, first_repeated_name, has_name, lookup, names_distinct, position, lemma_lookup_at, lemma_lookup_absent, Value};

verus! {

/// Values bound to parameter names, each name once, in the order given.
#[derive(Debug, PartialEq, Eq)]
pub struct Bindings {
    pub(crate) entries: Vec<(String, Value)>,
}

impl Bindings {
    /// The bound names and values, in order.
    pub closed spec fn entries(&self) -> Seq<(String, Value)> {
        self.entries@
    }

    /// No name is bound twice.
    pub open spec fn wf(&self) -> bool {
        names_distinct(self.entries())
    }

    /// Whether a parameter of this name is bound.
    pub open spec fn binds(&self, name: Seq<char>) -> bool {
        has_name(self.entries(), name)
    }

    /// No bindings at all.
    pub fn new() -> (r: Bindings)
        ensures
            r.entries() == Seq::<(String, Value)>::empty(),
            r.wf(),
    {
        Bindings { entries: Vec::new() }
    }

    /// Binds each name to its value. A name given twice is refused rather
    /// than overwritten: the error carries the first name that recurs.
    pub fn bind(pairs: Vec<(String, Value)>) -> (r: Result<Bindings, BindingError>)
        ensures
            r is Ok <==> names_distinct(pairs@),
            r matches Ok(b) ==> b.entries() == pairs@ && b.wf(),
            r matches Err(e) ==> e matches BindingError::DuplicateBinding(n) && first_repeat(
                pairs@,
                n@,
            ),
    {
        match first_repeated_name(&pairs) {
            Some(name) => Err(BindingError::DuplicateBinding(name)),
            None => Ok(Bindings { entries: pairs }),
        }
    }

    /// Adds one binding after the others, unless the name is bound already.
    pub fn insert(&mut self, name: String, value: Value) -> (r: Result<(), BindingError>)
        requires
            old(self).wf(),
        ensures
            final(self).wf(),
            old(self).binds(name@) ==> r == Err::<(), BindingError>(
                BindingError::DuplicateBinding(name),
            ) && final(self).entries() == old(self).entries(),
            !old(self).binds(name@) ==> r is Ok && final(self).entries() == old(
                self,
            ).entries().push((name, value)),
    {
        match position(&self.entries, self.entries.len(), &name) {
            Some(_) => Err(BindingError::DuplicateBinding(name)),
            None => {
                proof {
                    assert(self.entries@.take(self.entries@.len() as int) == self.entries@);
                }
                self.entries.push((name, value));
                Ok(())
            },
        }
    }

    /// Whether a parameter of this name is bound.
    pub fn contains(&self, name: &String) -> (r: bool)
        ensures
            r == self.binds(name@),
    {
        proof {
            assert(self.entries@.take(self.entries@.len() as int) == self.entries@);
        }
        position(&self.entries, self.entries.len(), name).is_some()
    }

    /// The number of bindings.
    pub fn len(&self) -> (r: usize)
        ensures
            r == self.entries().len(),
    {
        self.entries.len()
    }

    /// The value bound to a name, if any.
    pub fn get(&self, name: &str) -> (r: Option<&Value>)
        ensures
            match r {
                Some(v) => lookup(self.entries(), name@) == Some(*v),
                None => lookup(self.entries(), name@) is None,
            },
    {
        let key = String::from_str(name);
        match position(&self.entries, self.entries.len(), &key) {
            Some(i) => {
                proof {
                    lemma_lookup_at(self.entries@, name@, i as int);
                }
                Some(&self.entries[i].1)
            },
            None => {
                proof {
                    assert(self.entries@.take(self.entries@.len() as int) == self.entries@);
                    lemma_lookup_absent(self.entries@, name@);
                }
                None
            },
        }
    }

    /// The bindings, in order.
    pub fn pairs(&self) -> (r: &Vec<(String, Value)>)
        ensures
            r@ == self.entries(),
    {
        &self.entries
    }

    /// Hands the bindings back as name and value pairs, in order.
    pub fn into_pairs(self) -> (r: Vec<(String, Value)>)
        ensures
            r@ == self.entries(),
    {
        self.entries
    }
}

/// A name given twice is refused, whatever else is given.
pub proof fn lemma_duplicate_names_refused(pairs: Seq<(String, Value)>, i: int, j: int)
    requires
        0 <= i < j < pairs.len(),
        pairs[i].0@ == pairs[j].0@,
    ensures
        !names_distinct(pairs),
{
}

/// Distinct names are never refused as duplicates, and the error, when there
/// is one, names a binding that does recur.
pub proof fn lemma_distinct_names_accepted(pairs: Seq<(String, Value)>, name: Seq<char>)
    ensures
        names_distinct(pairs) ==> !first_repeat(pairs, name),
        first_repeat(pairs, name) ==> exists|i: int, j: int|
            0 <= i < j < pairs.len() && #[trigger] pairs[i].0@ == name && #[trigger] pairs[j].0@
                == name,
{
    if first_repeat(pairs, name) {
        let j = choose|j: int|
            0 <= j < pairs.len() && #[trigger] pairs[j].0@ == name && names_distinct(pairs.take(j))
                && has_name(pairs.take(j), name);
        let i = choose|i: int| 0 <= i < pairs.take(j).len() && #[trigger] pairs.take(j)[i].0@ == name;
        assert(pairs[i] == pairs.take(j)[i]);
    }
}

} // verus!
