use vstd::prelude::*;
use std::collections::VecDeque;
use crate::error::DecodeError;
use crate::value::{Object, Value};

verus! {

/// One statement's answer from the engine.
#[derive(Debug, PartialEq, Eq)]
pub struct QueryResponse {
    /// The statement text, where the engine echoes it.
    pub sql: Option<String>,
    /// How long the statement took, in nanoseconds.
    pub time_nanos: u64,
    /// The statement's value, or the engine's error message.
    pub result: Result<Value, String>,
}

/// What the first response holds, as a record set: its elements, or why it
/// holds none.
pub open spec fn decoded(responses: Seq<QueryResponse>) -> Result<Seq<Value>, DecodeError> {
    if responses.len() == 0 {
        Err(DecodeError::EmptyResponse)
    } else {
        match responses[0].result {
            Err(e) => Err(DecodeError::Upstream(e)),
            Ok(Value::Array(items)) => Ok(items@),
            Ok(_) => Err(DecodeError::UnexpectedShape),
        }
    }
}

/// One element of a record set, as a record or as the failure to be one.
pub open spec fn decode_element(v: Value) -> Result<Object, DecodeError> {
    match v {
        Value::Object(o) => Ok(o),
        _ => Err(DecodeError::ElementNotObject),
    }
}

/// The elements of a record set, handed out one at a time, in the engine's
/// order. Each is taken once: the sequence cannot be restarted.
#[derive(Debug)]
pub struct RecordStream {
    items: VecDeque<Value>,
}

impl RecordStream {
    /// The elements not yet handed out.
    pub closed spec fn remaining(&self) -> Seq<Value> {
        self.items@
    }

    /// The number of elements not yet handed out.
    pub fn len(&self) -> (r: usize)
        ensures
            r == self.remaining().len(),
    {
        self.items.len()
    }

    /// The next element, as a record, or as an error where it is not an
    /// object; `None` once all are taken. An element that fails does not end
    /// the sequence.
    pub fn next(&mut self) -> (r: Option<Result<Object, DecodeError>>)
        ensures
            old(self).remaining().len() == 0 ==> r is None && final(self).remaining() == old(
                self,
            ).remaining(),
            old(self).remaining().len() > 0 ==> r == Some(decode_element(old(self).remaining()[0]))
                && final(self).remaining() == old(self).remaining().drop_first(),
    {
        match self.items.pop_front() {
            Some(v) => Some(decode_one(v)),
            None => None,
        }
    }

    /// Takes every remaining element, each decoded on its own.
    pub fn collect_all(self) -> (r: Vec<Result<Object, DecodeError>>)
        ensures
            r@.len() == self.remaining().len(),
            forall|i: int| 0 <= i < r@.len() ==> #[trigger] r@[i] == decode_element(self.remaining()[i]),
    {
        let ghost all = self.remaining();
        let mut s = self;
        let mut out: Vec<Result<Object, DecodeError>> = Vec::new();
        while s.len() > 0
            invariant
                out@.len() + s.remaining().len() == all.len(),
                s.remaining() == all.subrange(out@.len() as int, all.len() as int),
                forall|i: int| 0 <= i < out@.len() ==> #[trigger] out@[i] == decode_element(all[i]),
            decreases s.remaining().len(),
        {
            let ghost before = s.remaining();
            match s.next() {
                Some(d) => {
                    proof {
                        assert(before[0] == all[out@.len() as int]);
                        assert(before.drop_first() == all.subrange(out@.len() as int + 1, all.len() as int));
                    }
                    out.push(d);
                },
                None => {},
            }
        }
        out
    }
}

fn decode_one(v: Value) -> (r: Result<Object, DecodeError>)
    ensures
        r == decode_element(v),
{
    match v {
        Value::Object(o) => Ok(o),
        _ => Err(DecodeError::ElementNotObject),
    }
}

/// Turns the responses of one execution into the records of the first one.
/// Later responses are not looked at.
pub fn decode_records(responses: Vec<QueryResponse>) -> (r: Result<RecordStream, DecodeError>)
    ensures
        match decoded(responses@) {
            Ok(items) => r matches Ok(s) && s.remaining() == items,
            Err(e) => r == Err::<RecordStream, DecodeError>(e),
        },
{
    let mut responses = responses;
    if responses.len() == 0 {
        return Err(DecodeError::EmptyResponse);
    }
    let first = responses.swap_remove(0);
    match first.result {
        Err(e) => Err(DecodeError::Upstream(e)),
        Ok(Value::Array(items)) => {
            let mut items = items;
            let ghost all = items@;
            let mut queue: VecDeque<Value> = VecDeque::new();
            while items.len() > 0
                invariant
                    items@ + queue@ == all,
                decreases items@.len(),
            {
                let ghost pre = items@;
                match items.pop() {
                    Some(v) => {
                        queue.push_front(v);
                        proof {
                            assert(pre == items@.push(v));
                            assert(items@ + queue@ == pre + (queue@.drop_first()));
                        }
                    },
                    None => {},
                }
            }
            proof {
                assert(items@ + queue@ == queue@);
            }
            Ok(RecordStream { items: queue })
        },
        Ok(_) => Err(DecodeError::UnexpectedShape),
    }
}

/// The missing-response error is kept for a missing response: it comes back
/// exactly when there is no response at all.
pub proof fn lemma_empty_response_only_when_missing(responses: Seq<QueryResponse>)
    ensures
        decoded(responses) == Err::<Seq<Value>, DecodeError>(DecodeError::EmptyResponse)
            <==> responses.len() == 0,
{
}

/// An empty record set decodes into an empty sequence, not into an error.
pub proof fn lemma_empty_result_set(responses: Seq<QueryResponse>, items: Vec<Value>)
    requires
        responses.len() > 0,
        responses[0].result == Ok::<Value, String>(Value::Array(items)),
        items@.len() == 0,
    ensures
        decoded(responses) == Ok::<Seq<Value>, DecodeError>(Seq::<Value>::empty()),
{
    assert(items@ =~= Seq::<Value>::empty());
}

} // verus!
