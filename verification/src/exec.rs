//! The policy around external queries: what a query's outcome is, which
//! outcomes are kept for reuse, which are reported, and how much output is kept.
use vstd::prelude::*;

use crate::text::{concat2, concat3, owned, views};

verus! {

/// Ceiling, in milliseconds, on how long a single external query may run.
pub const DEFAULT_TIMEOUT_MILLIS: u64 = 3000;

/// Captured stdout beyond this many bytes is discarded.
pub const MAX_OUTPUT_BYTES: usize = 65536;

/// Output of a completed external query, bounded to `MAX_OUTPUT_BYTES`.
#[derive(Debug)]
pub struct QueryOutput {
    pub success: bool,
    pub stdout: String,
    pub truncated: bool,
}

/// Why an external query produced no usable output.
#[derive(Debug)]
pub enum QueryFailure {
    /// The process did not exit before the timeout and was killed.
    Timeout,
    /// The process could not be started at all.
    SpawnFailed(String),
}

pub type QueryResult = Result<QueryOutput, QueryFailure>;

pub open spec fn describe_spec(f: QueryFailure) -> Seq<char> {
    match f {
        QueryFailure::Timeout => "did not finish within the timeout and was killed"@,
        QueryFailure::SpawnFailed(reason) => "could not be started: "@ + reason@,
    }
}

impl QueryFailure {
    pub fn describe(&self) -> (r: String)
        ensures
            r@ == describe_spec(*self),
    {
        match self {
            QueryFailure::Timeout => owned("did not finish within the timeout and was killed"),
            QueryFailure::SpawnFailed(reason) => concat2("could not be started: ", reason.as_str()),
        }
    }
}

/// A copy of a query's outcome.
pub fn clone_result(r: &QueryResult) -> (c: QueryResult)
    ensures
        c == *r,
{
    match r {
        Ok(o) => Ok(QueryOutput { success: o.success, stdout: o.stdout.clone(), truncated: o.truncated }),
        Err(QueryFailure::Timeout) => Err(QueryFailure::Timeout),
        Err(QueryFailure::SpawnFailed(reason)) => Err(QueryFailure::SpawnFailed(reason.clone())),
    }
}

/// A query as it is cached: the program's path and its arguments.
pub struct QueryKey {
    pub program: Seq<char>,
    pub arguments: Seq<Seq<char>>,
}

struct CacheEntry {
    program: String,
    arguments: Vec<String>,
    result: QueryResult,
}

/// The bookkeeping of the queries made during one run: how long each may
/// take, the outcome of each distinct query, and what was reported so far.
pub struct CommandRunner {
    timeout_millis: u64,
    cache: Vec<CacheEntry>,
    diagnostics: Vec<String>,
}

/// The outcome recorded for `key`: that of the earliest entry with that key.
pub open spec fn lookup(entries: Seq<(QueryKey, QueryResult)>, key: QueryKey) -> Option<QueryResult>
    decreases entries.len(),
{
    if entries.len() == 0 {
        None
    } else if entries[0].0 == key {
        Some(entries[0].1)
    } else {
        lookup(entries.drop_first(), key)
    }
}

/// The note printed for a query's outcome, where it deserves one.
pub open spec fn diagnostic_for(key: QueryKey, result: QueryResult) -> Option<Seq<char>> {
    let invocation = "`"@ + key.program + " "@ + join_spaces(key.arguments) + "`"@;
    match result {
        Err(failure) => Some(invocation + " "@ + describe_spec(failure)),
        Ok(output) => if output.truncated {
            Some(invocation + " output was truncated to 65536 bytes"@)
        } else {
            None
        },
    }
}

/// The words joined by single spaces.
pub open spec fn join_spaces(words: Seq<Seq<char>>) -> Seq<char>
    decreases words.len(),
{
    if words.len() == 0 {
        Seq::<char>::empty()
    } else if words.len() == 1 {
        words[0]
    } else {
        join_spaces(words.drop_last()) + " "@ + words.last()
    }
}

pub fn join_with_spaces(words: &Vec<String>) -> (r: String)
    ensures
        r@ == join_spaces(views(words@)),
{
    let mut r = String::new();
    let mut i: usize = 0;
    while i < words.len()
        invariant
            i <= words@.len(),
            r@ == join_spaces(views(words@).take(i as int)),
        decreases words@.len() - i,
    {
        proof {
            assert(views(words@).take(i + 1).drop_last() =~= views(words@).take(i as int));
        }
        if i > 0 {
            r.append(" ");
        } else {
            proof {
                assert(views(words@).take(0) =~= Seq::<Seq<char>>::empty());
            }
        }
        r.append(words[i].as_str());
        i = i + 1;
    }
    proof {
        assert(views(words@).take(words@.len() as int) =~= views(words@));
    }
    r
}

impl CommandRunner {
    /// The queries recorded so far, oldest first.
    pub closed spec fn entries(&self) -> Seq<(QueryKey, QueryResult)> {
        self.cache@.map_values(
            |e: CacheEntry|
                (QueryKey { program: e.program@, arguments: views(e.arguments@) }, e.result),
        )
    }

    /// The notes recorded so far, in the order the queries ran.
    pub closed spec fn notes(&self) -> Seq<Seq<char>> {
        views(self.diagnostics@)
    }

    pub closed spec fn timeout(&self) -> u64 {
        self.timeout_millis
    }

    pub fn new() -> (r: CommandRunner)
        ensures
            r.timeout() == DEFAULT_TIMEOUT_MILLIS,
            r.entries().len() == 0,
            r.notes().len() == 0,
    {
        CommandRunner::with_timeout(DEFAULT_TIMEOUT_MILLIS)
    }

    pub fn with_timeout(timeout_millis: u64) -> (r: CommandRunner)
        ensures
            r.timeout() == timeout_millis,
            r.entries().len() == 0,
            r.notes().len() == 0,
    {
        let r = CommandRunner { timeout_millis, cache: Vec::new(), diagnostics: Vec::new() };
        proof {
            assert(r.entries() =~= Seq::<(QueryKey, QueryResult)>::empty());
        }
        r
    }

    pub fn timeout_millis(&self) -> (r: u64)
        ensures
            r == self.timeout(),
    {
        self.timeout_millis
    }

    /// The outcome already recorded for this query, if it ran before.
    pub fn cached(&self, program: &str, arguments: &Vec<String>) -> (r: Option<QueryResult>)
        ensures
            r == lookup(self.entries(), QueryKey { program: program@, arguments: views(arguments@) }),
    {
        let ghost key = QueryKey { program: program@, arguments: views(arguments@) };
        let mut i: usize = 0;
        assert(self.entries().skip(0) =~= self.entries());
        while i < self.cache.len()
            invariant
                key == (QueryKey { program: program@, arguments: views(arguments@) }),
                i <= self.cache@.len(),
                self.entries().len() == self.cache@.len(),
                lookup(self.entries(), key) == lookup(self.entries().skip(i as int), key),
            decreases self.cache@.len() - i,
        {
            let entry = &self.cache[i];
            let ghost ekey = QueryKey { program: entry.program@, arguments: views(entry.arguments@) };
            proof {
                assert(self.entries().skip(i as int).drop_first() =~= self.entries().skip(i + 1));
                assert(self.entries().skip(i as int)[0] == self.entries()[i as int]);
                assert(self.entries()[i as int] == (ekey, entry.result));
            }
            let same_program = str_matches(entry.program.as_str(), program);
            let same_arguments = same_words(&entry.arguments, arguments);
            if same_program && same_arguments {
                proof {
                    assert(ekey.program == key.program);
                    assert(ekey.arguments == key.arguments);
                }
                return Some(clone_result(&entry.result));
            }
            proof {
                assert(ekey != key);
                let rest = self.entries().skip(i as int);
                assert(rest[0].0 != key);
                assert(lookup(rest, key) == lookup(rest.drop_first(), key));
            }
            i = i + 1;
        }
        proof {
            assert(self.entries().skip(i as int) =~= Seq::<(QueryKey, QueryResult)>::empty());
        }
        None
    }

    /// Records the outcome of a query that has just run: it is kept for
    /// reuse, and a failure or a truncation is noted.
    pub fn record(&mut self, program: &str, arguments: &Vec<String>, result: &QueryResult)
        ensures
            final(self).timeout() == old(self).timeout(),
            final(self).entries() == old(self).entries().push(
                (QueryKey { program: program@, arguments: views(arguments@) }, *result),
            ),
            final(self).notes() == match diagnostic_for(
                QueryKey { program: program@, arguments: views(arguments@) },
                *result,
            ) {
                Some(note) => old(self).notes().push(note),
                None => old(self).notes(),
            },
    {
        let invocation = concat3("`", program, " ");
        let mut invocation = invocation;
        invocation.append(join_with_spaces(arguments).as_str());
        invocation.append("`");
        let ghost old_notes = views(self.diagnostics@);
        match result {
            Err(failure) => {
                let mut note = invocation;
                note.append(" ");
                note.append(failure.describe().as_str());
                self.diagnostics.push(note);
            },
            Ok(output) => {
                if output.truncated {
                    let mut note = invocation;
                    note.append(" output was truncated to 65536 bytes");
                    self.diagnostics.push(note);
                }
            },
        }
        proof {
            assert(views(self.diagnostics@) =~= match diagnostic_for(
                QueryKey { program: program@, arguments: views(arguments@) },
                *result,
            ) {
                Some(note) => old_notes.push(note),
                None => old_notes,
            });
        }
        let ghost old_entries = self.entries();
        self.cache.push(
            CacheEntry {
                program: owned(program),
                arguments: clone_words(arguments),
                result: clone_result(result),
            },
        );
        proof {
            assert(self.entries() =~= old_entries.push(
                (QueryKey { program: program@, arguments: views(arguments@) }, *result),
            ));
        }
    }

    /// Failures and truncations recorded so far, in execution order.
    pub fn diagnostics(&self) -> (r: Vec<String>)
        ensures
            views(r@) == self.notes(),
    {
        clone_words(&self.diagnostics)
    }
}

impl Default for CommandRunner {
    fn default() -> (r: CommandRunner)
        ensures
            r.timeout() == DEFAULT_TIMEOUT_MILLIS,
            r.entries().len() == 0,
            r.notes().len() == 0,
    {
        CommandRunner::new()
    }
}

fn str_matches(a: &str, b: &str) -> (r: bool)
    ensures
        r == (a@ == b@),
{
    crate::text::str_eq(a, b)
}

fn same_words(a: &Vec<String>, b: &Vec<String>) -> (r: bool)
    ensures
        r == (views(a@) == views(b@)),
{
    if a.len() != b.len() {
        proof {
            assert(views(a@).len() != views(b@).len());
        }
        return false;
    }
    let mut i: usize = 0;
    while i < a.len()
        invariant
            a@.len() == b@.len(),
            i <= a@.len(),
            forall|j: int| 0 <= j < i ==> a@[j]@ == b@[j]@,
        decreases a@.len() - i,
    {
        if !str_matches(a[i].as_str(), b[i].as_str()) {
            proof {
                assert(views(a@)[i as int] != views(b@)[i as int]);
            }
            return false;
        }
        i = i + 1;
    }
    proof {
        assert(views(a@) =~= views(b@));
    }
    true
}

pub fn clone_words(v: &Vec<String>) -> (r: Vec<String>)
    ensures
        views(r@) == views(v@),
{
    let mut r: Vec<String> = Vec::new();
    let mut i: usize = 0;
    while i < v.len()
        invariant
            i <= v@.len(),
            views(r@) == views(v@).take(i as int),
        decreases v@.len() - i,
    {
        let ghost before = r@;
        let item = v[i].clone();
        r.push(item);
        proof {
            assert(r@ == before.push(item));
            assert(views(r@) =~= views(before).push(item@));
            assert(views(v@).take(i + 1) =~= views(v@).take(i as int).push(v@[i as int]@));
        }
        i = i + 1;
    }
    proof {
        assert(views(v@).take(v@.len() as int) =~= views(v@));
    }
    r
}

/// A query's outcome for the same key is the one first recorded for it: once
/// recorded, a query is answered from the record and never run again.
pub proof fn lemma_recorded_query_is_answered_from_record(
    entries: Seq<(QueryKey, QueryResult)>,
    key: QueryKey,
    result: QueryResult,
)
    requires
        lookup(entries, key) is None,
    ensures
        lookup(entries.push((key, result)), key) == Some(result),
    decreases entries.len(),
{
    if entries.len() > 0 {
        assert(entries.push((key, result)).drop_first() =~= entries.drop_first().push((key, result)));
        lemma_recorded_query_is_answered_from_record(entries.drop_first(), key, result);
    }
}

/// Recording a query leaves the recorded outcome of every other query as it was.
pub proof fn lemma_record_keeps_other_queries(
    entries: Seq<(QueryKey, QueryResult)>,
    key: QueryKey,
    result: QueryResult,
    other: QueryKey,
)
    requires
        lookup(entries, other) is Some || other != key,
    ensures
        lookup(entries.push((key, result)), other) == lookup(entries, other),
    decreases entries.len(),
{
    if entries.len() > 0 {
        assert(entries.push((key, result)).drop_first() =~= entries.drop_first().push((key, result)));
        if entries[0].0 != other {
            lemma_record_keeps_other_queries(entries.drop_first(), key, result, other);
        }
    }
}

// ---------------------------------------------------------------------------
// Bounded capture of a query's stdout
// ---------------------------------------------------------------------------

/// What is kept of a stream read in chunks: the first `MAX_OUTPUT_BYTES`
/// bytes, and whether anything beyond them was dropped.
pub open spec fn kept(total: Seq<u8>) -> Seq<u8> {
    if total.len() <= MAX_OUTPUT_BYTES {
        total
    } else {
        total.take(MAX_OUTPUT_BYTES as int)
    }
}

/// Keeps what fits of `chunk` after `buffer`, and notes whether anything was dropped.
pub fn capture_chunk(buffer: &mut Vec<u8>, truncated: &mut bool, chunk: &[u8])
    requires
        old(buffer)@.len() <= MAX_OUTPUT_BYTES,
    ensures
        final(buffer)@.len() <= MAX_OUTPUT_BYTES,
        final(buffer)@ == kept(old(buffer)@ + chunk@),
        *final(truncated) == (*old(truncated) || old(buffer)@.len() + chunk@.len() > MAX_OUTPUT_BYTES),
{
    let room = MAX_OUTPUT_BYTES - buffer.len();
    let take = if chunk.len() < room {
        chunk.len()
    } else {
        room
    };
    let ghost before = buffer@;
    let mut i: usize = 0;
    while i < take
        invariant
            take <= chunk@.len(),
            take <= room,
            room == MAX_OUTPUT_BYTES - before.len(),
            i <= take,
            buffer@ == before + chunk@.take(i as int),
        decreases take - i,
    {
        buffer.push(chunk[i]);
        proof {
            assert(chunk@.take(i + 1) =~= chunk@.take(i as int).push(chunk@[i as int]));
        }
        i = i + 1;
    }
    proof {
        if before.len() + chunk@.len() <= MAX_OUTPUT_BYTES {
            assert(chunk@.take(take as int) =~= chunk@);
        } else {
            assert(buffer@ =~= (before + chunk@).take(MAX_OUTPUT_BYTES as int));
        }
    }
    if take < chunk.len() {
        *truncated = true;
    }
}

/// Capturing chunk by chunk keeps the same bytes as capturing the whole stream
/// at once, and reports truncation exactly when the stream was longer than the bound.
pub proof fn lemma_capture_is_prefix_of_stream(earlier: Seq<u8>, chunk: Seq<u8>)
    ensures
        kept(kept(earlier) + chunk) == kept(earlier + chunk),
        (earlier.len() > MAX_OUTPUT_BYTES || kept(earlier).len() + chunk.len() > MAX_OUTPUT_BYTES)
            == ((earlier + chunk).len() > MAX_OUTPUT_BYTES),
{
    if earlier.len() > MAX_OUTPUT_BYTES {
        assert(kept(kept(earlier) + chunk) =~= kept(earlier + chunk));
    } else {
        assert(kept(earlier) == earlier);
    }
}

/// The bytes of a stream read in `chunks`, in order.
pub open spec fn joined(chunks: Seq<Seq<u8>>) -> Seq<u8>
    decreases chunks.len(),
{
    if chunks.len() == 0 {
        Seq::empty()
    } else {
        joined(chunks.drop_last()) + chunks.last()
    }
}

/// What `capture_chunk`, called on each chunk in turn from an empty buffer,
/// leaves: the buffer and whether anything was dropped.
pub open spec fn captured(chunks: Seq<Seq<u8>>) -> (Seq<u8>, bool)
    decreases chunks.len(),
{
    if chunks.len() == 0 {
        (Seq::empty(), false)
    } else {
        let before = captured(chunks.drop_last());
        (
            kept(before.0 + chunks.last()),
            before.1 || before.0.len() + chunks.last().len() > MAX_OUTPUT_BYTES,
        )
    }
}

/// Reading a whole stream chunk by chunk keeps its first `MAX_OUTPUT_BYTES`
/// bytes, whatever the chunks, and reports truncation exactly when the stream
/// was longer.
pub proof fn lemma_capture_of_whole_stream(chunks: Seq<Seq<u8>>)
    ensures
        captured(chunks).0 == kept(joined(chunks)),
        captured(chunks).1 == (joined(chunks).len() > MAX_OUTPUT_BYTES),
    decreases chunks.len(),
{
    if chunks.len() > 0 {
        let rest = chunks.drop_last();
        lemma_capture_of_whole_stream(rest);
        lemma_capture_is_prefix_of_stream(joined(rest), chunks.last());
    }
}

} // verus!
