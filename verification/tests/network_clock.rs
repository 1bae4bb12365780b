use aura_factory::clock::{
    begin_clock_query, clock_reply, clock_resume, query_order, time_sources, ClockAction,
};

#[test]
fn query_order_is_a_permutation() {
    for n in [0usize, 1, 2, 9, 20] {
        let mut o = query_order(n);
        o.sort();
        assert_eq!(o, (0..n).collect::<Vec<usize>>());
    }
}

#[test]
fn sources_are_listed() {
    let s = time_sources();
    assert_eq!(s.len(), 9);
    assert_eq!(s[0].name, "2345");
    assert_eq!(s[0].url, "http://www.2345.com");
    assert_eq!(s[5].name, "国家授时中心");
    assert_eq!(s[5].url, "http://www.ntsc.ac.cn");
    assert_eq!(s[8].url, "http://www.qq.com");
}

#[test]
fn reply_with_date_is_done() {
    let (q, a) = begin_clock_query(9);
    assert!(matches!(a, ClockAction::Ask(i) if i < 9));
    let (_, a) = clock_reply(q, Some("Wed, 18 Feb 2015 23:16:09 GMT"));
    assert_eq!(a, ClockAction::Done(1424301369000));
}

#[test]
fn reply_with_offset_date() {
    let (q, _) = begin_clock_query(3);
    let (_, a) = clock_reply(q, Some("Thu, 01 Jan 1970 01:00:00 +0100"));
    assert_eq!(a, ClockAction::Done(0));
}

#[test]
fn failed_replies_pause_then_ask_next() {
    let (q, first) = begin_clock_query(9);
    let mut asked = vec![first];
    let (q, a) = clock_reply(q, None);
    assert_eq!(a, ClockAction::Pause);
    let (q, a) = clock_resume(q);
    asked.push(a);
    let (q, a) = clock_reply(q, Some("not a date"));
    assert_eq!(a, ClockAction::Pause);
    let (q, a) = clock_resume(q);
    asked.push(a);
    let (q, a) = clock_reply(q, None);
    assert_eq!(a, ClockAction::Pause);
    let (_, a) = clock_resume(q);
    assert_eq!(a, ClockAction::UseLocalClock);
    let mut sites: Vec<usize> = asked
        .iter()
        .map(|a| match a {
            ClockAction::Ask(i) => *i,
            _ => panic!("expected a site to ask"),
        })
        .collect();
    sites.sort();
    sites.dedup();
    assert_eq!(sites.len(), 3);
}

#[test]
fn no_sources_uses_local_clock() {
    let (q, a) = begin_clock_query(0);
    assert_eq!(a, ClockAction::UseLocalClock);
    assert_eq!(q.limit, 0);
}

#[test]
fn fewer_sources_than_limit() {
    let (q, a) = begin_clock_query(2);
    assert_eq!(q.limit, 2);
    assert!(matches!(a, ClockAction::Ask(_)));
    let (q, _) = clock_reply(q, None);
    let (q, a) = clock_resume(q);
    assert!(matches!(a, ClockAction::Ask(_)));
    let (q, _) = clock_reply(q, None);
    let (_, a) = clock_resume(q);
    assert_eq!(a, ClockAction::UseLocalClock);
}

#[test]
fn resume_after_limit_stays_on_local_clock() {
    let (q, _) = begin_clock_query(1);
    let (q, _) = clock_reply(q, None);
    let (q, a) = clock_resume(q);
    assert_eq!(a, ClockAction::UseLocalClock);
    assert_eq!(q.attempt, 1);
    let (q, a) = clock_resume(q);
    assert_eq!(a, ClockAction::UseLocalClock);
    assert_eq!(q.attempt, 1);
}
