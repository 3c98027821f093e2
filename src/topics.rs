//! Names of the bus topics. The kernel goes out on `ekc-init`, workers announce
//! themselves on `ekc-reg`, and each worker `<id>` takes images on
//! `ekc-send-<id>` and returns results on `ekc-recv-<id>`.
use vstd::prelude::*;

verus! {

/// Topic on which the coordinator publishes the kernel source.
pub const INIT_TOPIC: &'static str = "ekc-init";

/// Topic on which a worker publishes its identity once its pipeline is built.
pub const REGISTER_TOPIC: &'static str = "ekc-reg";

/// Prefix of the topic on which a worker receives images.
pub const SEND_TOPIC_PREFIX: &'static str = "ekc-send-";

/// Prefix of the topic on which a worker returns results.
pub const RESULT_TOPIC_PREFIX: &'static str = "ekc-recv-";

pub open spec fn send_topic_of(id: Seq<char>) -> Seq<char> {
    SEND_TOPIC_PREFIX@ + id
}

pub open spec fn result_topic_of(id: Seq<char>) -> Seq<char> {
    RESULT_TOPIC_PREFIX@ + id
}

/// The topic on which worker `id` receives images.
pub fn send_topic(id: &str) -> (r: String)
    ensures
        r@ == send_topic_of(id@),
{
    String::from_str(SEND_TOPIC_PREFIX).concat(id)
}

/// The topic on which worker `id` returns results.
pub fn result_topic(id: &str) -> (r: String)
    ensures
        r@ == result_topic_of(id@),
{
    String::from_str(RESULT_TOPIC_PREFIX).concat(id)
}

/// Whether `s` begins with `prefix`.
pub fn has_prefix(s: &str, prefix: &str) -> (r: bool)
    ensures
        r == prefix@.is_prefix_of(s@),
{
    let n: usize = s.unicode_len();
    let p: usize = prefix.unicode_len();
    if p > n {
        return false;
    }
    let mut i: usize = 0;
    while i < p
        invariant
            p <= n,
            n == s@.len(),
            p == prefix@.len(),
            i <= p,
            forall|k: int| 0 <= k < i ==> s@[k] == prefix@[k],
        decreases p - i,
    {
        if s.get_char(i) != prefix.get_char(i) {
            return false;
        }
        i += 1;
    }
    true
}

/// Whether `a` and `b` are the same text.
pub fn same_text(a: &str, b: &str) -> (r: bool)
    ensures
        r == (a@ == b@),
{
    if a.unicode_len() != b.unicode_len() {
        return false;
    }
    let r = has_prefix(a, b);
    assert(r ==> a@ =~= b@);
    r
}

/// The worker whose result topic `topic` is, if it is one.
pub fn worker_of_result_topic(topic: &str) -> (r: Option<String>)
    ensures
        r is Some <==> RESULT_TOPIC_PREFIX@.is_prefix_of(topic@),
        r is Some ==> topic@ == result_topic_of(r->0@),
{
    if !has_prefix(topic, RESULT_TOPIC_PREFIX) {
        return None;
    }
    let p: usize = RESULT_TOPIC_PREFIX.unicode_len();
    let n: usize = topic.unicode_len();
    let id = topic.substring_char(p, n);
    assert(topic@ =~= RESULT_TOPIC_PREFIX@ + id@);
    Some(String::from_str(id))
}

} // verus!
