use vstd::prelude::*;
use crate::error::DecodeError;
use crate::query::is_name_char;
use crate::value::{Id, Object, RecordId, Value};

verus! {

/// The character of a decimal digit.
pub open spec fn digit_char(d: nat) -> char {
    if d == 0 {
        '0'
    } else if d == 1 {
        '1'
    } else if d == 2 {
        '2'
    } else if d == 3 {
        '3'
    } else if d == 4 {
        '4'
    } else if d == 5 {
        '5'
    } else if d == 6 {
        '6'
    } else if d == 7 {
        '7'
    } else if d == 8 {
        '8'
    } else {
        '9'
    }
}

/// A natural number in decimal, without leading zeros.
pub open spec fn nat_text(n: nat) -> Seq<char>
    decreases n,
{
    if n < 10 {
        seq![digit_char(n)]
    } else {
        nat_text(n / 10) + seq![digit_char(n % 10)]
    }
}

/// An integer in decimal, with a leading `-` where it is negative.
pub open spec fn int_text(n: int) -> Seq<char> {
    if n < 0 {
        seq!['-'] + nat_text((-n) as nat)
    } else {
        nat_text(n as nat)
    }
}

/// An ASCII decimal digit.
pub open spec fn is_digit(c: char) -> bool {
    '0' <= c && c <= '9'
}

/// A name that the datastore's parser reads bare: only ASCII letters, digits
/// and `_`, and not all digits (nor empty).
pub open spec fn is_bare_name(s: Seq<char>) -> bool {
    &&& forall|i: int| 0 <= i < s.len() ==> is_name_char(#[trigger] s[i])
    &&& exists|i: int| 0 <= i < s.len() && !is_digit(#[trigger] s[i])
}

/// One character inside brackets: a closing bracket gets a backslash.
pub open spec fn bracketed_char(c: char) -> Seq<char> {
    if c == '⟩' {
        seq!['\\', '⟩']
    } else {
        seq![c]
    }
}

/// The characters of a name as they stand inside brackets.
pub open spec fn bracketed_body(s: Seq<char>) -> Seq<char>
    decreases s.len(),
{
    if s.len() == 0 {
        Seq::empty()
    } else {
        bracketed_body(s.drop_last()) + bracketed_char(s.last())
    }
}

/// A table name or string identifier as the datastore writes it: bare where
/// its parser reads it bare, else between `⟨` and `⟩`.
pub open spec fn escaped_name(s: Seq<char>) -> Seq<char> {
    if is_bare_name(s) {
        s
    } else {
        seq!['⟨'] + bracketed_body(s) + seq!['⟩']
    }
}

/// The text of an identifier.
pub open spec fn id_text(id: Id) -> Seq<char> {
    match id {
        Id::Number(n) => int_text(n as int),
        Id::String(s) => escaped_name(s@),
        Id::Generated(s) => escaped_name(s@),
    }
}

/// The canonical text of a record identifier: `table:identifier`, each part
/// escaped so that the text reads back as the same identifier.
pub open spec fn record_id_text(t: RecordId) -> Seq<char> {
    escaped_name(t.tb@) + seq![':'] + id_text(t.id)
}

/// The name of the identifier field.
pub open spec fn id_field() -> Seq<char> {
    seq!['i', 'd']
}

/// What `extract_id` yields for a record.
pub open spec fn extracted_id(record: Object) -> Result<Seq<char>, DecodeError> {
    match record.field(id_field()) {
        Some(Value::Thing(t)) => Ok(record_id_text(t)),
        _ => Err(DecodeError::MissingId),
    }
}

fn digit_str(d: u64) -> (r: &'static str)
    requires
        d < 10,
    ensures
        r@ == seq![digit_char(d as nat)],
{
    if d == 0 {
        proof { reveal_strlit("0"); }
        "0"
    } else if d == 1 {
        proof { reveal_strlit("1"); }
        "1"
    } else if d == 2 {
        proof { reveal_strlit("2"); }
        "2"
    } else if d == 3 {
        proof { reveal_strlit("3"); }
        "3"
    } else if d == 4 {
        proof { reveal_strlit("4"); }
        "4"
    } else if d == 5 {
        proof { reveal_strlit("5"); }
        "5"
    } else if d == 6 {
        proof { reveal_strlit("6"); }
        "6"
    } else if d == 7 {
        proof { reveal_strlit("7"); }
        "7"
    } else if d == 8 {
        proof { reveal_strlit("8"); }
        "8"
    } else {
        proof { reveal_strlit("9"); }
        "9"
    }
}

fn push_nat(out: &mut String, n: u64)
    ensures
        final(out)@ == old(out)@ + nat_text(n as nat),
    decreases n,
{
    if n >= 10 {
        push_nat(out, n / 10);
        out.append(digit_str(n % 10));
        proof {
            assert(old(out)@ + nat_text(n as nat) == old(out)@ + nat_text((n / 10) as nat) + seq![
                digit_char((n % 10) as nat),
            ]);
        }
    } else {
        out.append(digit_str(n));
    }
}

fn push_int(out: &mut String, n: i64)
    ensures
        final(out)@ == old(out)@ + int_text(n as int),
{
    if n < 0 {
        proof { reveal_strlit("-"); }
        out.append("-");
        let m: u64 = (0i128 - n as i128) as u64;
        push_nat(out, m);
        proof {
            assert(old(out)@ + int_text(n as int) == old(out)@ + seq!['-'] + nat_text(m as nat));
        }
    } else {
        push_nat(out, n as u64);
    }
}

/// The record identifier that the datastore's parser reads from a text, where
/// it reads one with a numeric or string identifier.
pub uninterp spec fn parsed_record_id(text: Seq<char>) -> Option<RecordId>;

/// Relies on surrealdb::sql::thing, the datastore's parser for `table:id`
/// text: its result depends on the text alone, and empty text is refused.
/// Identifiers that are arrays, objects or generators have no counterpart here.
#[verifier::external_body]
fn parse_thing(text: &str) -> (r: Option<RecordId>)
    ensures
        r == parsed_record_id(text@),
        text@.len() == 0 ==> r is None,
{
    match surrealdb::sql::thing(text) {
        Ok(t) => match t.id {
            surrealdb::sql::Id::Number(n) => Some(RecordId { tb: t.tb, id: Id::Number(n) }),
            surrealdb::sql::Id::String(s) => Some(RecordId { tb: t.tb, id: Id::String(s) }),
            surrealdb::sql::Id::Array(_) => None,
            surrealdb::sql::Id::Object(_) => None,
            surrealdb::sql::Id::Generate(_) => None,
        },
        Err(_) => None,
    }
}

/// What `record_id_param` yields for a text.
pub open spec fn record_id_param_of(text: Seq<char>) -> Option<Value> {
    match parsed_record_id(text) {
        Some(t) => Some(Value::Thing(t)),
        None => None,
    }
}

/// Reads identifier text, as `extract_id` renders it, back into a value that
/// a later query can bind; text that names no record yields `None`.
pub fn record_id_param(text: &str) -> (r: Option<Value>)
    ensures
        r == record_id_param_of(text@),
        text@.len() == 0 ==> r is None,
{
    match parse_thing(text) {
        Some(t) => Some(Value::Thing(t)),
        None => None,
    }
}

fn is_bare_name_exec(s: &str) -> (r: bool)
    ensures
        r == is_bare_name(s@),
{
    let n = s.unicode_len();
    let mut all_name = true;
    let mut some_letter = false;
    let mut i: usize = 0;
    while i < n
        invariant
            n == s@.len(),
            i <= n,
            all_name == forall|j: int| 0 <= j < i ==> is_name_char(#[trigger] s@[j]),
            some_letter == exists|j: int| 0 <= j < i && !is_digit(#[trigger] s@[j]),
        decreases n - i,
    {
        let c = s.get_char(i);
        if !(('a' <= c && c <= 'z') || ('A' <= c && c <= 'Z') || ('0' <= c && c <= '9') || c
            == '_') {
            all_name = false;
        }
        if !('0' <= c && c <= '9') {
            some_letter = true;
        }
        i = i + 1;
    }
    all_name && some_letter
}

/// Relies on String::push, which appends one character.
#[verifier::external_body]
fn push_char(out: &mut String, c: char)
    ensures
        final(out)@ == old(out)@.push(c),
{
    out.push(c);
}

fn push_name(out: &mut String, s: &str)
    ensures
        final(out)@ == old(out)@ + escaped_name(s@),
{
    if is_bare_name_exec(s) {
        out.append(s);
        return;
    }
    push_char(out, '⟨');
    let ghost start = out@;
    let n = s.unicode_len();
    let mut i: usize = 0;
    while i < n
        invariant
            n == s@.len(),
            i <= n,
            out@ == start + bracketed_body(s@.take(i as int)),
        decreases n - i,
    {
        let c = s.get_char(i);
        let ghost before = out@;
        if c == '⟩' {
            push_char(out, '\\');
            push_char(out, '⟩');
            proof {
                assert(out@ =~= before + bracketed_char(c));
            }
        } else {
            out.append(s.substring_char(i, i + 1));
            proof {
                assert(s@.subrange(i as int, i + 1) =~= bracketed_char(c));
            }
        }
        proof {
            let p = s@.take(i as int + 1);
            assert(p.drop_last() == s@.take(i as int));
            assert(p.last() == c);
            assert(bracketed_body(p) == bracketed_body(s@.take(i as int)) + bracketed_char(c));
            assert(out@ == before + bracketed_char(c));
            assert(out@ =~= start + bracketed_body(p));
        }
        i = i + 1;
    }
    proof {
        assert(s@.take(n as int) == s@);
    }
    push_char(out, '⟩');
}

impl RecordId {
    /// Renders the identifier as `table:identifier`, escaped as the datastore
    /// writes it, a form that a later query can take as a parameter.
    pub fn to_text(&self) -> (r: String)
        ensures
            r@ == record_id_text(*self),
    {
        let mut out = String::new();
        push_name(&mut out, self.tb.as_str());
        proof { reveal_strlit(":"); }
        out.append(":");
        match &self.id {
            Id::Number(n) => push_int(&mut out, *n),
            Id::String(s) => push_name(&mut out, s.as_str()),
            Id::Generated(s) => push_name(&mut out, s.as_str()),
        }
        out
    }
}

impl Object {
    /// The record's identifier as text: the `id` field must hold a record
    /// identifier, else the record has none.
    pub fn extract_id(&self) -> (r: Result<String, DecodeError>)
        ensures
            match extracted_id(*self) {
                Ok(t) => r matches Ok(s) && s@ == t,
                Err(e) => r == Err::<String, DecodeError>(e),
            },
    {
        let name = "id";
        proof {
            reveal_strlit("id");
            assert(name@ =~= id_field());
        }
        match self.get(name) {
            Some(Value::Thing(t)) => Ok(t.to_text()),
            _ => Err(DecodeError::MissingId),
        }
    }
}

} // verus!
