//! Messages that a guest publishes, and the topic under which the broker
//! sees them.

use vstd::prelude::*;
use vstd::string::StringExecFns;
use std::collections::HashMap;

verus! {

/// A message to be published: its payload and its headers.
#[derive(Debug, Clone)]
pub struct Message {
    pub payload: Vec<u8>,
    pub headers: HashMap<String, String>,
}

/// A copy of a slice of bytes.
pub fn copy_slice(bytes: &[u8]) -> (r: Vec<u8>)
    ensures
        r@ == bytes@,
{
    let mut out: Vec<u8> = Vec::new();
    let mut i: usize = 0;
    while i < bytes.len()
        invariant
            i <= bytes.len(),
            out@ == bytes@.take(i as int),
        decreases bytes.len() - i,
    {
        out.push(bytes[i]);
        i = i + 1;
        assert(out@ =~= bytes@.take(i as int));
    }
    assert(bytes@.take(bytes@.len() as int) =~= bytes@);
    out
}

impl Message {
    /// A message with a copy of `payload` and no headers.
    pub fn new(payload: &[u8]) -> (r: Message)
        ensures
            r.payload@ == payload@,
            r.headers@.len() == 0,
    {
        Message { payload: copy_slice(payload), headers: HashMap::new() }
    }
}

/// The topic that the broker sees for a guest's topic: the name of the
/// deployment, a hyphen and the guest's topic.
pub open spec fn broker_topic_text(env: Seq<char>, topic: Seq<char>) -> Seq<char> {
    env + "-"@ + topic
}

/// The topic that the broker sees for the topic of a guest in deployment `env`.
pub fn broker_topic(env: &str, topic: &str) -> (r: String)
    ensures
        r@ == broker_topic_text(env@, topic@),
{
    let mut text = String::from_str(env);
    text.append("-");
    text.append(topic);
    text
}

} // verus!
