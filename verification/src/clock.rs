//! The network clock: well-known web sites are asked, in a random order and
//! at most three of them, for the `Date` header of their reply; the first
//! date that parses is the current time. When none answers, the local clock
//! is used.

use vstd::prelude::*;
use rand::seq::SliceRandom;

verus! {

/// A web site whose replies carry the current date.
#[derive(Debug)]
pub struct TimeSource {
    pub name: String,
    pub url: String,
}

/// How many sites are asked at most.
pub const MAX_QUERIES: usize = 3;

/// The names of the sites asked for the time, in their listed order.
pub open spec fn spec_source_names() -> Seq<Seq<char>> {
    seq![
        "2345"@,
        "网易"@,
        "知乎"@,
        "豆瓣"@,
        "百度"@,
        "国家授时中心"@,
        "360安全卫士"@,
        "beijing-time"@,
        "腾讯"@,
    ]
}

/// The addresses of the sites asked for the time, in their listed order.
pub open spec fn spec_source_urls() -> Seq<Seq<char>> {
    seq![
        "http://www.2345.com"@,
        "http://www.163.com"@,
        "http://www.zhihu.com"@,
        "http://www.douban.com"@,
        "http://www.baidu.com"@,
        "http://www.ntsc.ac.cn"@,
        "http://www.360.cn"@,
        "http://www.beijing-time.org"@,
        "http://www.qq.com"@,
    ]
}

fn source(name: &str, url: &str) -> (r: TimeSource)
    ensures
        r.name@ == name@,
        r.url@ == url@,
{
    TimeSource { name: String::from_str(name), url: String::from_str(url) }
}

/// The sites asked for the time.
pub fn time_sources() -> (r: Vec<TimeSource>)
    ensures
        r@.len() == spec_source_urls().len(),
        forall|i: int|
            0 <= i < r@.len() ==> (#[trigger] r@[i]).url@ == spec_source_urls()[i] && r@[i].name@
                == spec_source_names()[i],
{
    let mut v: Vec<TimeSource> = Vec::new();
    v.push(source("2345", "http://www.2345.com"));
    v.push(source("网易", "http://www.163.com"));
    v.push(source("知乎", "http://www.zhihu.com"));
    v.push(source("豆瓣", "http://www.douban.com"));
    v.push(source("百度", "http://www.baidu.com"));
    v.push(source("国家授时中心", "http://www.ntsc.ac.cn"));
    v.push(source("360安全卫士", "http://www.360.cn"));
    v.push(source("beijing-time", "http://www.beijing-time.org"));
    v.push(source("腾讯", "http://www.qq.com"));
    v
}

/// rand's thread-local random number generator.
#[verifier::external_type_specification]
#[verifier::external_body]
pub struct ExThreadRng(rand::rngs::ThreadRng);

/// rand's `rng()`: a handle on the thread-local generator. Nothing is
/// stated of it.
#[verifier::external_body]
fn thread_rng() -> rand::rngs::ThreadRng {
    rand::rng()
}

/// rand's `SliceRandom::shuffle` (a Fisher-Yates shuffle by swaps): the
/// vector ends up holding the same elements, in an order that rests on
/// chance.
#[verifier::external_body]
fn shuffle_indices(v: &mut Vec<usize>, rng: &mut rand::rngs::ThreadRng)
    ensures
        final(v)@.len() == old(v)@.len(),
        final(v)@.to_multiset() == old(v)@.to_multiset(),
{
    v.shuffle(rng)
}

/// `order` holds each index below `n` exactly once.
pub open spec fn is_order_of(order: Seq<usize>, n: nat) -> bool {
    &&& order.len() == n
    &&& forall|i: int| 0 <= i < order.len() ==> #[trigger] order[i] < n
    &&& order.no_duplicates()
}

/// A random order in which to ask `n` sites: each index below `n` once.
pub fn query_order(n: usize) -> (r: Vec<usize>)
    ensures
        is_order_of(r@, n as nat),
{
    let mut v: Vec<usize> = Vec::new();
    let mut i: usize = 0;
    while i < n
        invariant
            i <= n,
            v@.len() == i,
            forall|k: int| 0 <= k < i ==> #[trigger] v@[k] == k,
        decreases n - i,
    {
        v.push(i);
        i += 1;
    }
    let ghost before = v@;
    assert(before.no_duplicates());
    let mut rng = thread_rng();
    shuffle_indices(&mut v, &mut rng);
    proof {
        broadcast use vstd::seq_lib::group_to_multiset_ensures;
        before.lemma_multiset_has_no_duplicates();
        v@.lemma_multiset_has_no_duplicates_conv();
        assert forall|k: int| 0 <= k < v@.len() implies #[trigger] v@[k] < n by {
            assert(v@.contains(v@[k]));
            assert(v@.to_multiset().count(v@[k]) > 0);
            assert(before.contains(v@[k]));
        }
    }
    v
}

/// The time in milliseconds since the Unix epoch that an RFC 2822 date
/// text denotes, when it is one (chrono's `parse_from_rfc2822` followed by
/// `timestamp_millis`).
pub uninterp spec fn rfc2822_millis(text: Seq<char>) -> Option<int>;

/// chrono's `DateTime::parse_from_rfc2822`, then `timestamp_millis` of the
/// parsed date: claims only that the result is a function of the text.
#[verifier::external_body]
fn parse_rfc2822_millis(text: &str) -> (r: Option<i64>)
    ensures
        match r {
            Some(t) => rfc2822_millis(text@) == Some(t as int),
            None => rfc2822_millis(text@) is None,
        },
{
    match chrono::DateTime::parse_from_rfc2822(text) {
        Ok(date) => Some(date.timestamp_millis()),
        Err(_) => None,
    }
}

/// Where a consultation of the network clock stands.
#[derive(Debug)]
pub struct ClockQuery {
    /// The order in which the sites are asked (indices into the list).
    pub order: Vec<usize>,
    /// How many of them are asked at most.
    pub limit: usize,
    /// The position in `order` of the site asked last.
    pub attempt: usize,
}

/// What to do next.
#[derive(Debug, PartialEq, Eq, Structural)]
pub enum ClockAction {
    /// Ask the site with this index for the date.
    Ask(usize),
    /// Wait a moment before going on.
    Pause,
    /// Use the local clock instead.
    UseLocalClock,
    /// The current time, in milliseconds since the Unix epoch.
    Done(i64),
}

impl ClockQuery {
    /// The state is one of a consultation of `n` sites: the order holds each
    /// of them once and at most three are asked.
    pub open spec fn wf(self, n: nat) -> bool {
        &&& is_order_of(self.order@, n)
        &&& self.limit == if n < MAX_QUERIES { n } else { MAX_QUERIES as nat }
        &&& self.attempt <= self.limit
    }
}

/// Starts a consultation of `n` sites: asks the first one of a random
/// order, or falls back to the local clock when there is none.
pub fn begin_clock_query(n: usize) -> (r: (ClockQuery, ClockAction))
    ensures
        r.0.wf(n as nat),
        r.0.attempt == 0,
        n > 0 ==> r.1 == ClockAction::Ask(r.0.order@[0]),
        n == 0 ==> r.1 == ClockAction::UseLocalClock,
{
    let order = query_order(n);
    let limit: usize = if n < MAX_QUERIES { n } else { MAX_QUERIES };
    if limit > 0 {
        let first: usize = order[0];
        (ClockQuery { order, limit, attempt: 0 }, ClockAction::Ask(first))
    } else {
        (ClockQuery { order, limit, attempt: 0 }, ClockAction::UseLocalClock)
    }
}

/// The reply of the site asked last: done when it carried a date that
/// parses, else pause before going on. `date` is the text of the `Date`
/// header, absent when the request failed or had no such header.
pub fn clock_reply(q: ClockQuery, date: Option<&str>) -> (r: (ClockQuery, ClockAction))
    ensures
        r.0 == q,
        match date {
            Some(d) => match rfc2822_millis(d@) {
                Some(t) => r.1 == ClockAction::Done(t as i64) && t == t as i64,
                None => r.1 == ClockAction::Pause,
            },
            None => r.1 == ClockAction::Pause,
        },
{
    match date {
        Some(d) => match parse_rfc2822_millis(d) {
            Some(t) => (q, ClockAction::Done(t)),
            None => (q, ClockAction::Pause),
        },
        None => (q, ClockAction::Pause),
    }
}

/// After the pause that follows a failed reply: asks the next site in the
/// order, or uses the local clock once the limit of sites was asked. A
/// consultation that has already asked its limit stays where it is and uses
/// the local clock.
pub fn clock_resume(q: ClockQuery) -> (r: (ClockQuery, ClockAction))
    ensures
        q.attempt >= q.limit ==> r.0 == q && r.1 == ClockAction::UseLocalClock,
        q.attempt < q.limit ==> {
            &&& r.0.order == q.order
            &&& r.0.limit == q.limit
            &&& r.0.attempt == q.attempt + 1
            &&& r.0.attempt < r.0.limit && r.0.attempt < q.order@.len() ==> r.1 == ClockAction::Ask(
                q.order@[r.0.attempt as int],
            )
            &&& !(r.0.attempt < r.0.limit && r.0.attempt < q.order@.len()) ==> r.1
                == ClockAction::UseLocalClock
        },
        forall|n: nat| q.wf(n) ==> #[trigger] r.0.wf(n),
{
    if q.attempt >= q.limit {
        return (q, ClockAction::UseLocalClock);
    }
    let next: usize = q.attempt + 1;
    if next < q.limit && next < q.order.len() {
        let site: usize = q.order[next];
        (ClockQuery { order: q.order, limit: q.limit, attempt: next }, ClockAction::Ask(site))
    } else {
        (ClockQuery { order: q.order, limit: q.limit, attempt: next }, ClockAction::UseLocalClock)
    }
}

/// No site is asked twice in one consultation, and at most three are asked:
/// the sites asked are those at the positions below the limit in the order.
pub proof fn lemma_sites_asked_once(q: ClockQuery, n: nat, i: int, j: int)
    requires
        q.wf(n),
        0 <= i < j < q.limit,
    ensures
        q.order@[i] != q.order@[j],
        q.limit <= MAX_QUERIES,
{
}

} // verus!
