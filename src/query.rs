use vstd::prelude::*;
use crate::binder::Bindings;
use crate::decode::QueryResponse;
use crate::error::{BindingError, ExecutionError};

verus! {

/// Characters that may follow the `$` sigil in a placeholder name.
pub open spec fn is_name_char(c: char) -> bool {
    ('a' <= c && c <= 'z') || ('A' <= c && c <= 'Z') || ('0' <= c && c <= '9') || c == '_'
}

/// Characters that separate words without starting a statement.
pub open spec fn is_blank(c: char) -> bool {
    c == ' ' || c == '\t' || c == '\n' || c == '\r'
}

/// The first index at or after `k` that does not continue a name.
pub open spec fn name_end(t: Seq<char>, k: int) -> int
    decreases t.len() - k,
{
    if k < 0 || k >= t.len() || !is_name_char(t[k]) {
        k
    } else {
        name_end(t, k + 1)
    }
}

/// A placeholder starts at `i`: a `$` followed by at least one name character.
pub open spec fn placeholder_at(t: Seq<char>, i: int) -> bool {
    0 <= i && i + 1 < t.len() && t[i] == '$' && is_name_char(t[i + 1])
}

/// The name of the placeholder that starts at `i`.
pub open spec fn placeholder_name(t: Seq<char>, i: int) -> Seq<char> {
    t.subrange(i + 1, name_end(t, i + 1))
}

/// Every placeholder that starts before `upto` is bound.
pub open spec fn bound_before(t: Seq<char>, b: Bindings, upto: int) -> bool {
    forall|i: int| 0 <= i < upto && #[trigger] placeholder_at(t, i) ==> b.binds(placeholder_name(t, i))
}

/// Every placeholder of the template is bound.
pub open spec fn all_bound(t: Seq<char>, b: Bindings) -> bool {
    bound_before(t, b, t.len() as int)
}

/// `name` is the first placeholder of the template that nothing binds.
pub open spec fn first_unbound(t: Seq<char>, b: Bindings, name: Seq<char>) -> bool {
    exists|i: int|
        #[trigger] placeholder_at(t, i) && placeholder_name(t, i) == name && !b.binds(name)
            && bound_before(t, b, i)
}

/// Where a scan of a template stands.
#[derive(Clone, Copy, Debug, PartialEq, Eq, Structural)]
pub enum Scan {
    /// Between tokens of the query language.
    Code,
    /// Inside a string opened by this quote.
    Quoted(char),
    /// Inside a string opened by this quote, just after a backslash.
    Escaped(char),
    /// Inside a comment that runs to the end of the line.
    LineComment,
    /// On the `*` that opens a block comment.
    BlockOpening,
    /// Inside a block comment.
    Block,
    /// Inside a block comment, just after a `*`.
    BlockStar,
}

/// Characters that open a quoted string.
pub open spec fn is_quote(c: char) -> bool {
    c == '\'' || c == '"'
}

/// The character after the first, if there is one.
pub open spec fn lookahead(t: Seq<char>) -> Option<char> {
    if t.len() > 1 {
        Some(t[1])
    } else {
        None
    }
}

/// `c`, followed by `next`, opens a comment: `#`, `--` or `//` to the end of
/// the line, or `/*` up to `*/`.
pub open spec fn opens_comment(c: char, next: Option<char>) -> bool {
    c == '#' || (c == '-' && next == Some('-')) || (c == '/' && (next == Some('/') || next == Some(
        '*',
    )))
}

/// Reading `c` here is part of a statement, not a blank, separator or comment.
pub open spec fn begins_statement(mode: Scan, c: char, next: Option<char>) -> bool {
    mode == Scan::Code && c != ';' && !is_blank(c) && !opens_comment(c, next)
}

/// Reading `c` here ends the current statement.
pub open spec fn ends_statement(mode: Scan, c: char) -> bool {
    mode == Scan::Code && c == ';'
}

/// Where the scan stands after reading `c`, followed by `next`.
pub open spec fn scan_step(mode: Scan, c: char, next: Option<char>) -> Scan {
    match mode {
        Scan::Code => if c == '/' && next == Some('*') {
            Scan::BlockOpening
        } else if opens_comment(c, next) {
            Scan::LineComment
        } else if is_quote(c) {
            Scan::Quoted(c)
        } else {
            Scan::Code
        },
        Scan::Quoted(q) => if c == '\\' {
            Scan::Escaped(q)
        } else if c == q {
            Scan::Code
        } else {
            Scan::Quoted(q)
        },
        Scan::Escaped(q) => Scan::Quoted(q),
        Scan::LineComment => if c == '\n' {
            Scan::Code
        } else {
            Scan::LineComment
        },
        Scan::BlockOpening => Scan::Block,
        Scan::Block => if c == '*' {
            Scan::BlockStar
        } else {
            Scan::Block
        },
        Scan::BlockStar => if c == '/' {
            Scan::Code
        } else if c == '*' {
            Scan::BlockStar
        } else {
            Scan::Block
        },
    }
}

/// The number of statements in the rest of a template: each stretch between
/// semicolons that holds something besides blanks and comments counts once,
/// and a semicolon inside a string or a comment separates nothing. `inside`
/// says whether such a stretch has begun, `mode` where the scan stands.
pub open spec fn statements_from(t: Seq<char>, inside: bool, mode: Scan) -> nat
    decreases t.len(),
{
    if t.len() == 0 {
        0
    } else {
        let c = t[0];
        let next = lookahead(t);
        let begins = begins_statement(mode, c, next);
        (if begins && !inside { 1nat } else { 0nat }) + statements_from(
            t.drop_first(),
            if ends_statement(mode, c) { false } else if begins { true } else { inside },
            scan_step(mode, c, next),
        )
    }
}

/// The number of semicolon-delimited statements in a template.
pub open spec fn statement_count(t: Seq<char>) -> nat {
    statements_from(t, false, Scan::Code)
}

/// No semicolon, quote, or character that may open a comment occurs.
pub open spec fn plain_text(t: Seq<char>) -> bool {
    forall|i: int|
        0 <= i < t.len() ==> t[i] != ';' && !is_quote(#[trigger] t[i]) && t[i] != '#' && t[i]
            != '-' && t[i] != '/'
}

proof fn lemma_plain_rest(t: Seq<char>)
    requires
        t.len() > 0,
        plain_text(t),
    ensures
        plain_text(t.drop_first()),
        t[0] != ';' && !is_quote(t[0]) && t[0] != '#' && t[0] != '-' && t[0] != '/',
{
    assert forall|i: int| 0 <= i < t.drop_first().len() implies t.drop_first()[i] != ';'
        && !is_quote(#[trigger] t.drop_first()[i]) && t.drop_first()[i] != '#'
        && t.drop_first()[i] != '-' && t.drop_first()[i] != '/' by {
        assert(t.drop_first()[i] == t[i + 1]);
    }
}

/// In plain text, no further statement begins once one has.
proof fn lemma_no_separator_inside(t: Seq<char>)
    requires
        plain_text(t),
    ensures
        statements_from(t, true, Scan::Code) == 0,
    decreases t.len(),
{
    if t.len() > 0 {
        lemma_plain_rest(t);
        lemma_no_separator_inside(t.drop_first());
    }
}

/// Plain text that starts with a word is one statement.
pub proof fn lemma_single_statement(t: Seq<char>)
    requires
        t.len() > 0,
        !is_blank(t[0]),
        plain_text(t),
    ensures
        statement_count(t) == 1,
{
    lemma_plain_rest(t);
    lemma_no_separator_inside(t.drop_first());
}

fn is_name_char_exec(c: char) -> (r: bool)
    ensures
        r == is_name_char(c),
{
    ('a' <= c && c <= 'z') || ('A' <= c && c <= 'Z') || ('0' <= c && c <= '9') || c == '_'
}

fn scan_step_exec(mode: Scan, c: char, next: Option<char>) -> (r: Scan)
    ensures
        r == scan_step(mode, c, next),
{
    match mode {
        Scan::Code => if c == '/' && next == Some('*') {
            Scan::BlockOpening
        } else if comment_opener(c, next) {
            Scan::LineComment
        } else if c == '\'' || c == '"' {
            Scan::Quoted(c)
        } else {
            Scan::Code
        },
        Scan::Quoted(q) => if c == '\\' {
            Scan::Escaped(q)
        } else if c == q {
            Scan::Code
        } else {
            Scan::Quoted(q)
        },
        Scan::Escaped(q) => Scan::Quoted(q),
        Scan::LineComment => if c == '\n' {
            Scan::Code
        } else {
            Scan::LineComment
        },
        Scan::BlockOpening => Scan::Block,
        Scan::Block => if c == '*' {
            Scan::BlockStar
        } else {
            Scan::Block
        },
        Scan::BlockStar => if c == '/' {
            Scan::Code
        } else if c == '*' {
            Scan::BlockStar
        } else {
            Scan::Block
        },
    }
}

fn comment_opener(c: char, next: Option<char>) -> (r: bool)
    ensures
        r == opens_comment(c, next),
{
    let follows_dash = match next {
        Some(n) => n == '-',
        None => false,
    };
    let follows_slash = match next {
        Some(n) => n == '/' || n == '*',
        None => false,
    };
    c == '#' || (c == '-' && follows_dash) || (c == '/' && follows_slash)
}

/// Counts the semicolon-delimited statements of a template.
pub fn count_statements(template: &str) -> (r: usize)
    ensures
        r == statement_count(template@),
{
    let n = template.unicode_len();
    let mut i: usize = 0;
    let mut count: usize = 0;
    let mut inside = false;
    let mut mode = Scan::Code;
    proof {
        assert(template@.subrange(0, n as int) == template@);
    }
    while i < n
        invariant
            n == template@.len(),
            i <= n,
            count <= i,
            count + statements_from(template@.subrange(i as int, n as int), inside, mode)
                == statement_count(template@),
        decreases n - i,
    {
        let c = template.get_char(i);
        let next: Option<char> = if i + 1 < n {
            Some(template.get_char(i + 1))
        } else {
            None
        };
        proof {
            let rest = template@.subrange(i as int, n as int);
            assert(rest[0] == c);
            assert(lookahead(rest) == next);
            assert(rest.drop_first() == template@.subrange(i + 1, n as int));
        }
        let in_code = match mode {
            Scan::Code => true,
            _ => false,
        };
        let begins = in_code && c != ';' && !(c == ' ' || c == '\t' || c == '\n' || c == '\r')
            && !comment_opener(c, next);
        if begins && !inside {
            count = count + 1;
        }
        if in_code && c == ';' {
            inside = false;
        } else if begins {
            inside = true;
        }
        mode = scan_step_exec(mode, c, next);
        i = i + 1;
    }
    count
}

/// The end of the name that starts at `k`.
fn scan_name(template: &str, n: usize, k: usize) -> (r: usize)
    requires
        n == template@.len(),
        k <= n,
    ensures
        r == name_end(template@, k as int),
        k <= r <= n,
{
    let mut j: usize = k;
    while j < n && is_name_char_exec(template.get_char(j))
        invariant
            n == template@.len(),
            k <= j <= n,
            name_end(template@, j as int) == name_end(template@, k as int),
        decreases n - j,
    {
        j = j + 1;
    }
    j
}

/// The first placeholder of the template that the bindings leave unbound.
pub fn find_unbound(template: &str, bindings: &Bindings) -> (r: Option<String>)
    ensures
        r is None <==> all_bound(template@, *bindings),
        r matches Some(name) ==> first_unbound(template@, *bindings, name@),
{
    let n = template.unicode_len();
    let mut i: usize = 0;
    while i < n
        invariant
            n == template@.len(),
            i <= n,
            bound_before(template@, *bindings, i as int),
        decreases n - i,
    {
        if i + 1 < n && template.get_char(i) == '$' && is_name_char_exec(template.get_char(i + 1)) {
            let end = scan_name(template, n, i + 1);
            let name = String::from_str(template.substring_char(i + 1, end));
            if !bindings.contains(&name) {
                proof {
                    assert(placeholder_at(template@, i as int));
                }
                return Some(name);
            }
        }
        i = i + 1;
    }
    None
}

/// Opens the transaction that makes a strict batch all or nothing.
pub const BEGIN_BATCH: &'static str = "BEGIN TRANSACTION;\n";

/// Commits a strict batch. The line break ends a trailing line comment of
/// the template, and an empty statement between semicolons is no statement.
pub const COMMIT_BATCH: &'static str = "\n;COMMIT TRANSACTION;";

/// The text sent to the engine: a strict batch runs inside one transaction,
/// which adds no response of its own.
pub open spec fn engine_text_of(template: Seq<char>, strict: bool) -> Seq<char> {
    if strict {
        BEGIN_BATCH@ + template + COMMIT_BATCH@
    } else {
        template
    }
}

/// A query checked against its bindings and ready to send.
#[derive(Debug)]
pub struct PreparedQuery {
    pub(crate) template: String,
    pub(crate) bindings: Bindings,
    pub(crate) strict: bool,
    pub(crate) statements: usize,
}

impl PreparedQuery {
    pub closed spec fn template_view(&self) -> Seq<char> {
        self.template@
    }

    pub closed spec fn bindings_view(&self) -> Bindings {
        self.bindings
    }

    pub closed spec fn strict_view(&self) -> bool {
        self.strict
    }

    /// How many responses the engine owes: one per statement.
    pub closed spec fn statements_view(&self) -> nat {
        self.statements as nat
    }

    /// The template holds a statement, each placeholder is bound, and one
    /// response is owed per statement.
    pub open spec fn wf(&self) -> bool {
        &&& self.statements_view() == statement_count(self.template_view())
        &&& self.statements_view() > 0
        &&& all_bound(self.template_view(), self.bindings_view())
    }

    /// Assembles a query that is known to be well formed.
    pub(crate) fn assemble(template: String, bindings: Bindings, strict: bool, statements: usize) -> (r:
        PreparedQuery)
        requires
            statements == statement_count(template@),
            statements > 0,
            all_bound(template@, bindings),
        ensures
            r.wf(),
            r.template_view() == template@,
            r.bindings_view() == bindings,
            r.strict_view() == strict,
            r.statements_view() == statements,
    {
        PreparedQuery { template, bindings, strict, statements }
    }

    /// The template text, passed to the engine as it stands.
    pub fn template(&self) -> (r: &String)
        ensures
            r@ == self.template_view(),
    {
        &self.template
    }

    /// The bindings that resolve the template's placeholders.
    pub fn bindings(&self) -> (r: &Bindings)
        ensures
            *r == self.bindings_view(),
    {
        &self.bindings
    }

    /// The text to send: the template, inside one transaction where the
    /// batch is strict.
    pub fn engine_text(&self) -> (r: String)
        ensures
            r@ == engine_text_of(self.template_view(), self.strict_view()),
    {
        if self.strict {
            let mut out = String::from_str(BEGIN_BATCH);
            out.append(self.template.as_str());
            out.append(COMMIT_BATCH);
            out
        } else {
            self.template.clone()
        }
    }

    /// Whether the batch must commit all or nothing.
    pub fn strict(&self) -> (r: bool)
        ensures
            r == self.strict_view(),
    {
        self.strict
    }

    /// The number of statements, and so of responses owed.
    pub fn statements(&self) -> (r: usize)
        ensures
            r == self.statements_view(),
    {
        self.statements
    }
}

/// Checks a request before it is sent: the template must hold a statement
/// and every placeholder must be bound.
pub fn prepare(template: String, bindings: Bindings, strict: bool) -> (r: Result<
    PreparedQuery,
    ExecutionError,
>)
    ensures
        statement_count(template@) == 0 ==> r matches Err(ExecutionError::EmptyTemplate),
        statement_count(template@) > 0 && !all_bound(template@, bindings) ==> (r matches Err(
            ExecutionError::Binding(BindingError::UnboundPlaceholder(name)),
        ) && first_unbound(template@, bindings, name@)),
        statement_count(template@) > 0 && all_bound(template@, bindings) ==> (r matches Ok(q)
            && q.template_view() == template@ && q.bindings_view() == bindings && q.strict_view()
            == strict && q.statements_view() == statement_count(template@) && q.wf()),
{
    let statements = count_statements(template.as_str());
    if statements == 0 {
        return Err(ExecutionError::EmptyTemplate);
    }
    match find_unbound(template.as_str(), &bindings) {
        Some(name) => Err(ExecutionError::Binding(BindingError::UnboundPlaceholder(name))),
        None => Ok(PreparedQuery { template, bindings, strict, statements }),
    }
}

/// What the engine call gave back, before it is checked.
#[derive(Debug)]
pub enum EngineOutcome {
    /// The engine answered with these responses.
    Answered(Vec<QueryResponse>),
    /// The transport failed.
    ConnectionFailed(String),
    /// The engine refused the whole request.
    Rejected(String),
}

/// Checks what the engine gave back for a prepared query: the responses are
/// handed on only when there is exactly one per statement.
pub fn complete(query: &PreparedQuery, outcome: EngineOutcome) -> (r: Result<
    Vec<QueryResponse>,
    ExecutionError,
>)
    requires
        query.wf(),
    ensures
        outcome matches EngineOutcome::ConnectionFailed(m) ==> (r matches Err(
            ExecutionError::Connection(m2),
        ) && m2 == m),
        outcome matches EngineOutcome::Rejected(m) ==> (r matches Err(ExecutionError::Engine(m2))
            && m2 == m),
        outcome matches EngineOutcome::Answered(rs) ==> (if rs@.len() == query.statements_view() {
            r matches Ok(rs2) && rs2@ == rs@
        } else {
            r matches Err(ExecutionError::Incomplete { requested, produced }) && requested
                == query.statements_view() && produced == rs@.len()
        }),
        r matches Ok(rs) ==> rs@.len() == statement_count(query.template_view()),
{
    match outcome {
        EngineOutcome::Answered(rs) => {
            if rs.len() == query.statements {
                Ok(rs)
            } else {
                Err(ExecutionError::Incomplete { requested: query.statements, produced: rs.len() })
            }
        },
        EngineOutcome::ConnectionFailed(m) => Err(ExecutionError::Connection(m)),
        EngineOutcome::Rejected(m) => Err(ExecutionError::Engine(m)),
    }
}

} // verus!
