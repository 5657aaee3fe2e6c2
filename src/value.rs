use vstd::prelude::*;

verus! {

/// The identifier part of a record identifier.
#[derive(Clone, Debug, PartialEq, Eq)]
pub enum Id {
    Number(i64),
    String(String),
    /// An opaque token that the engine generated.
    Generated(String),
}

/// A record identifier: a table name and an identifier within it.
#[derive(Clone, Debug, PartialEq, Eq)]
pub struct RecordId {
    pub tb: String,
    pub id: Id,
}

/// A point in time, as seconds and nanoseconds since the Unix epoch.
#[derive(Clone, Copy, Debug, PartialEq, Eq, Structural)]
pub struct Timestamp {
    pub secs: i64,
    pub nanos: u32,
}

/// Any value the datastore accepts or returns.
#[derive(Debug, PartialEq, Eq)]
pub enum Value {
    Null,
    Bool(bool),
    Number(i64),
    Strand(String),
    Datetime(Timestamp),
    Array(Vec<Value>),
    Object(Object),
    Thing(RecordId),
}

/// A mapping from field name to value that keeps the order of insertion.
#[derive(Debug, PartialEq, Eq)]
pub struct Object {
    pub(crate) entries: Vec<(String, Value)>,
}

/// No two entries share a name.
pub open spec fn names_distinct(entries: Seq<(String, Value)>) -> bool {
    forall|i: int, j: int|
        0 <= i < j < entries.len() ==> #[trigger] entries[i].0@ != #[trigger] entries[j].0@
}

/// Some entry carries this name.
pub open spec fn has_name(entries: Seq<(String, Value)>, name: Seq<char>) -> bool {
    exists|i: int| 0 <= i < entries.len() && #[trigger] entries[i].0@ == name
}

/// The value of the first entry that carries this name.
pub open spec fn lookup(entries: Seq<(String, Value)>, name: Seq<char>) -> Option<Value>
    decreases entries.len(),
{
    if entries.len() == 0 {
        None
    } else if entries[0].0@ == name {
        Some(entries[0].1)
    } else {
        lookup(entries.drop_first(), name)
    }
}

/// The boolean that a value holds, if it is one.
pub open spec fn bool_of(v: Value) -> Option<bool> {
    match v {
        Value::Bool(b) => Some(b),
        _ => None,
    }
}

/// The integer that a value holds, if it is a number.
pub open spec fn int_of(v: Value) -> Option<i64> {
    match v {
        Value::Number(n) => Some(n),
        _ => None,
    }
}

/// The text that a value holds, if it is a string.
pub open spec fn text_of(v: Value) -> Option<Seq<char>> {
    match v {
        Value::Strand(s) => Some(s@),
        _ => None,
    }
}

/// The number held, narrowed to 32 bits, if it fits there exactly.
pub open spec fn i32_of(v: Value) -> Option<i32> {
    match v {
        Value::Number(n) => if i32::MIN <= n <= i32::MAX {
            Some(n as i32)
        } else {
            None
        },
        _ => None,
    }
}

/// The number held, as an unsigned integer, if it is not negative.
pub open spec fn u64_of(v: Value) -> Option<u64> {
    match v {
        Value::Number(n) => if n >= 0 {
            Some(n as u64)
        } else {
            None
        },
        _ => None,
    }
}

/// The first index below `upto` whose entry carries `name`.
pub(crate) fn position(entries: &Vec<(String, Value)>, upto: usize, name: &String) -> (r: Option<
    usize,
>)
    requires
        upto <= entries@.len(),
    ensures
        match r {
            Some(i) => i < upto && entries@[i as int].0@ == name@ && !has_name(
                entries@.take(i as int),
                name@,
            ),
            None => !has_name(entries@.take(upto as int), name@),
        },
{
    let mut i: usize = 0;
    while i < upto
        invariant
            i <= upto <= entries@.len(),
            !has_name(entries@.take(i as int), name@),
        decreases upto - i,
    {
        if entries[i].0 == *name {
            return Some(i);
        }
        proof {
            assert(entries@.take(i + 1) == entries@.take(i as int).push(entries@[i as int]));
        }
        i = i + 1;
    }
    None
}

/// The first match found by `position` is what `lookup` yields.
pub(crate) proof fn lemma_lookup_at(entries: Seq<(String, Value)>, name: Seq<char>, i: int)
    requires
        0 <= i < entries.len(),
        entries[i].0@ == name,
        !has_name(entries.take(i), name),
    ensures
        lookup(entries, name) == Some(entries[i].1),
    decreases i,
{
    if i > 0 {
        assert(entries[0] == entries.take(i)[0]);
        let rest = entries.drop_first();
        assert forall|k: int| 0 <= k < rest.take(i - 1).len() implies #[trigger] rest.take(
            i - 1,
        )[k].0@ != name by {
            assert(rest.take(i - 1)[k] == entries.take(i)[k + 1]);
        }
        lemma_lookup_at(rest, name, i - 1);
    }
}

/// Where no entry carries the name, `lookup` yields nothing.
pub(crate) proof fn lemma_lookup_absent(entries: Seq<(String, Value)>, name: Seq<char>)
    requires
        !has_name(entries, name),
    ensures
        lookup(entries, name) is None,
    decreases entries.len(),
{
    if entries.len() > 0 {
        assert(entries[0].0@ != name);
        let rest = entries.drop_first();
        assert forall|k: int| 0 <= k < rest.len() implies #[trigger] rest[k].0@ != name by {
            assert(rest[k] == entries[k + 1]);
        }
        lemma_lookup_absent(rest, name);
    }
}

impl Object {
    /// The entries, in the order they were inserted.
    pub closed spec fn entries(&self) -> Seq<(String, Value)> {
        self.entries@
    }

    /// Field names are unique.
    pub open spec fn wf(&self) -> bool {
        names_distinct(self.entries())
    }

    /// The value of a field, if the object has it.
    pub open spec fn field(&self, name: Seq<char>) -> Option<Value> {
        lookup(self.entries(), name)
    }

    /// An object with no fields.
    pub fn new() -> (r: Object)
        ensures
            r.entries() == Seq::<(String, Value)>::empty(),
            r.wf(),
    {
        Object { entries: Vec::new() }
    }

    /// Builds an object from named values, keeping their order. A name that
    /// occurs twice is refused and handed back.
    pub fn from_pairs(pairs: Vec<(String, Value)>) -> (r: Result<Object, String>)
        ensures
            names_distinct(pairs@) <==> r is Ok,
            r matches Ok(o) ==> o.entries() == pairs@ && o.wf(),
            r matches Err(name) ==> first_repeat(pairs@, name@),
    {
        match first_repeated_name(&pairs) {
            Some(name) => Err(name),
            None => Ok(Object { entries: pairs }),
        }
    }

    /// Adds a field after the others; the name must be new.
    pub fn push_new(&mut self, name: String, value: Value)
        requires
            old(self).wf(),
            !has_name(old(self).entries(), name@),
        ensures
            final(self).wf(),
            final(self).entries() == old(self).entries().push((name, value)),
    {
        self.entries.push((name, value));
    }

    /// Adds a field after the others, unless the name is taken: then the
    /// object is left as it was and the value is handed back.
    pub fn insert(&mut self, name: String, value: Value) -> (r: Option<Value>)
        requires
            old(self).wf(),
        ensures
            final(self).wf(),
            has_name(old(self).entries(), name@) ==> r == Some(value) && final(self).entries()
                == old(self).entries(),
            !has_name(old(self).entries(), name@) ==> r is None && final(self).entries() == old(
                self,
            ).entries().push((name, value)),
    {
        proof {
            assert(self.entries@.take(self.entries@.len() as int) == self.entries@);
        }
        match position(&self.entries, self.entries.len(), &name) {
            Some(_) => Some(value),
            None => {
                self.entries.push((name, value));
                None
            },
        }
    }

    /// The fields, in order.
    pub fn pairs(&self) -> (r: &Vec<(String, Value)>)
        ensures
            r@ == self.entries(),
    {
        &self.entries
    }

    /// Hands the fields back as name and value pairs, in order.
    pub fn into_pairs(self) -> (r: Vec<(String, Value)>)
        ensures
            r@ == self.entries(),
    {
        self.entries
    }

    /// The number of fields.
    pub fn len(&self) -> (r: usize)
        ensures
            r == self.entries().len(),
    {
        self.entries.len()
    }

    /// Looks a field up by name; an absent field yields `None`.
    pub fn get(&self, name: &str) -> (r: Option<&Value>)
        ensures
            match r {
                Some(v) => self.field(name@) == Some(*v),
                None => self.field(name@) is None,
            },
    {
        let key = String::from_str(name);
        match position(&self.entries, self.entries.len(), &key) {
            Some(i) => {
                proof {
                    lemma_lookup_at(self.entries@, name@, i as int);
                }
                Some(&self.entries[i].1)
            },
            None => {
                proof {
                    assert(self.entries@.take(self.entries@.len() as int) == self.entries@);
                    lemma_lookup_absent(self.entries@, name@);
                }
                None
            },
        }
    }
}

/// `name` is the name at the first index where a name recurs.
pub open spec fn first_repeat(pairs: Seq<(String, Value)>, name: Seq<char>) -> bool {
    exists|j: int|
        0 <= j < pairs.len() && #[trigger] pairs[j].0@ == name && names_distinct(pairs.take(j))
            && has_name(pairs.take(j), name)
}

/// The first name that occurs a second time, if any does.
pub(crate) fn first_repeated_name(pairs: &Vec<(String, Value)>) -> (r: Option<String>)
    ensures
        r is None <==> names_distinct(pairs@),
        r matches Some(name) ==> first_repeat(pairs@, name@),
{
    let mut j: usize = 0;
    while j < pairs.len()
        invariant
            j <= pairs@.len(),
            names_distinct(pairs@.take(j as int)),
        decreases pairs@.len() - j,
    {
        match position(pairs, j, &pairs[j].0) {
            Some(i) => {
                proof {
                    let p = pairs@.take(j as int);
                    assert(p[i as int] == pairs@[i as int]);
                    assert(has_name(p, pairs@[j as int].0@));
                    assert(!names_distinct(pairs@)) by {
                        assert(pairs@[i as int].0@ == pairs@[j as int].0@);
                    }
                }
                return Some(pairs[j].0.clone());
            },
            None => {
                proof {
                    let p = pairs@.take(j as int);
                    let q = pairs@.take(j + 1);
                    assert forall|a: int, b: int| 0 <= a < b < q.len() implies #[trigger] q[a].0@
                        != #[trigger] q[b].0@ by {
                        if b == j {
                            assert(q[a] == p[a]);
                        } else {
                            assert(q[a] == p[a] && q[b] == p[b]);
                        }
                    }
                }
            },
        }
        j = j + 1;
    }
    proof {
        assert(pairs@.take(pairs@.len() as int) == pairs@);
    }
    None
}

impl Value {
    /// Wraps a boolean.
    pub fn from_bool(b: bool) -> (r: Value)
        ensures
            r == Value::Bool(b),
    {
        Value::Bool(b)
    }

    /// Wraps a 64-bit signed integer.
    pub fn from_i64(n: i64) -> (r: Value)
        ensures
            r == Value::Number(n),
    {
        Value::Number(n)
    }

    /// Wraps a 32-bit signed integer; every such integer fits.
    pub fn from_i32(n: i32) -> (r: Value)
        ensures
            r == Value::Number(n as i64),
    {
        Value::Number(n as i64)
    }

    /// Wraps an unsigned integer, or fails where the number does not fit the
    /// signed 64-bit representation.
    pub fn from_u64(n: u64) -> (r: Option<Value>)
        ensures
            n <= i64::MAX ==> r == Some(Value::Number(n as i64)),
            n > i64::MAX ==> r is None,
    {
        if n <= i64::MAX as u64 {
            Some(Value::Number(n as i64))
        } else {
            None
        }
    }

    /// Wraps a copy of the text.
    pub fn from_text(s: &str) -> (r: Value)
        ensures
            r matches Value::Strand(t) && t@ == s@,
    {
        Value::Strand(String::from_str(s))
    }

    /// Wraps an owned string.
    pub fn from_string(s: String) -> (r: Value)
        ensures
            r == Value::Strand(s),
    {
        Value::Strand(s)
    }

    /// Wraps a sequence of values, keeping their order.
    pub fn from_vec(items: Vec<Value>) -> (r: Value)
        ensures
            r matches Value::Array(a) && a@ == items@,
    {
        Value::Array(items)
    }

    /// Wraps an object, keeping the order of its fields.
    pub fn from_object(o: Object) -> (r: Value)
        ensures
            r == Value::Object(o),
    {
        Value::Object(o)
    }

    /// Wraps a record identifier.
    pub fn from_record_id(t: RecordId) -> (r: Value)
        ensures
            r == Value::Thing(t),
    {
        Value::Thing(t)
    }

    /// The boolean held, if this is one.
    pub fn as_bool(&self) -> (r: Option<bool>)
        ensures
            r == bool_of(*self),
    {
        match self {
            Value::Bool(b) => Some(*b),
            _ => None,
        }
    }

    /// The number held, if this is one.
    pub fn as_i64(&self) -> (r: Option<i64>)
        ensures
            r == int_of(*self),
    {
        match self {
            Value::Number(n) => Some(*n),
            _ => None,
        }
    }

    /// The number held, if this is one that 32 bits hold exactly.
    pub fn as_i32(&self) -> (r: Option<i32>)
        ensures
            r == i32_of(*self),
    {
        match self {
            Value::Number(n) => if i32::MIN as i64 <= *n && *n <= i32::MAX as i64 {
                Some(*n as i32)
            } else {
                None
            },
            _ => None,
        }
    }

    /// The number held, if this is one that is not negative.
    pub fn as_u64(&self) -> (r: Option<u64>)
        ensures
            r == u64_of(*self),
    {
        match self {
            Value::Number(n) => if *n >= 0 {
                Some(*n as u64)
            } else {
                None
            },
            _ => None,
        }
    }

    /// The text held, if this is a string.
    pub fn as_text(&self) -> (r: Option<&String>)
        ensures
            match r {
                Some(t) => text_of(*self) == Some(t@),
                None => text_of(*self) is None,
            },
    {
        match self {
            Value::Strand(s) => Some(s),
            _ => None,
        }
    }

    /// The object held, if this is one.
    pub fn as_object(&self) -> (r: Option<&Object>)
        ensures
            match r {
                Some(o) => *self == Value::Object(*o),
                None => !(*self is Object),
            },
    {
        match self {
            Value::Object(o) => Some(o),
            _ => None,
        }
    }

    /// Whether this is the absent value.
    pub fn is_null(&self) -> (r: bool)
        ensures
            r == (*self is Null),
    {
        match self {
            Value::Null => true,
            _ => false,
        }
    }
}

/// A boolean turned into a value and back is unchanged.
pub proof fn lemma_bool_round_trip(b: bool)
    ensures
        bool_of(Value::Bool(b)) == Some(b),
{
}

/// A 64-bit integer turned into a value and back is unchanged.
pub proof fn lemma_i64_round_trip(n: i64)
    ensures
        int_of(Value::Number(n)) == Some(n),
{
}

/// A 32-bit integer turned into a value and back is unchanged.
pub proof fn lemma_i32_round_trip(n: i32)
    ensures
        i32_of(Value::Number(n as i64)) == Some(n),
{
}

/// Reading a number back into 32 bits either gives it exactly or fails:
/// it never wraps or truncates.
pub proof fn lemma_i32_narrowing_exact(n: i64)
    ensures
        i32_of(Value::Number(n)) matches Some(m) ==> m as i64 == n,
        i32_of(Value::Number(n)) is None <==> (n < i32::MIN || n > i32::MAX),
{
}

/// An unsigned integer either fails to become a value (it does not fit) or
/// comes back unchanged.
pub proof fn lemma_u64_round_trip(n: u64)
    ensures
        n <= i64::MAX ==> u64_of(Value::Number(n as i64)) == Some(n),
{
}

/// A text turned into a value and back is unchanged.
pub proof fn lemma_text_round_trip(s: String)
    ensures
        text_of(Value::Strand(s)) == Some(s@),
{
}

} // verus!
