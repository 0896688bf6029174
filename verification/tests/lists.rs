use xaio::ready_fifo::ReadyFifo;
use xaio::ready_list::ReadyList;
use xaio::request::Request;
use xaio::request_list::RequestList;
use xaio::request_queue::RequestQueue;
use xaio::sub::Sub;
use xaio::sub_list::SubList;

fn arena(n: usize) -> Vec<Request> {
    vec![Request::default(); n]
}

#[test]
fn it_works() {
    let result = xaio::add(2, 2);
    assert_eq!(result, 4);
}

#[test]
fn request_list_test_empty() {
    let mut reqs = arena(1);
    let a = 0usize;
    let mut l = RequestList::new();
    assert!(l.is_empty());
    assert!(!l.contains(&reqs, None));
    assert!(!l.contains(&reqs, Some(a)));
    assert!(l.pop_front(&mut reqs).is_none());
    assert!(!reqs[a].in_a_list());
    l.push_front(&mut reqs, a);
    assert!(l.contains(&reqs, Some(a)));
    assert!(!l.is_empty());
    assert!(reqs[a].in_a_list());
    assert_eq!(l.pop_front(&mut reqs), Some(a));
    assert!(l.is_empty());
    assert!(l.pop_front(&mut reqs).is_none());
    assert!(!reqs[a].in_a_list());
    assert!(!l.contains(&reqs, Some(a)));
}

#[test]
fn test_push_back() {
    let mut reqs = arena(3);
    let (a, b, c) = (0usize, 1usize, 2usize);
    let mut l = RequestList::new();
    assert!(l.is_empty());
    assert!(!l.contains(&reqs, None));
    assert!(!l.contains(&reqs, Some(a)));
    assert!(l.pop_front(&mut reqs).is_none());
    assert!(!reqs[a].in_a_list());
    l.push_back(&mut reqs, a);
    assert!(l.contains(&reqs, Some(a)));
    assert!(!l.is_empty());
    assert!(reqs[a].in_a_list());
    assert_eq!(l.pop_front(&mut reqs), Some(a));
    assert!(l.is_empty());
    assert!(l.pop_front(&mut reqs).is_none());
    assert!(!reqs[a].in_a_list());
    assert!(!l.contains(&reqs, Some(a)));
    assert!(!l.contains(&reqs, Some(b)));
    assert!(!l.contains(&reqs, Some(c)));
    l.push_front(&mut reqs, a);
    assert!(l.contains(&reqs, Some(a)));
    assert!(!l.contains(&reqs, Some(b)));
    assert!(!l.contains(&reqs, Some(c)));
    l.push_back(&mut reqs, b);
    assert!(l.contains(&reqs, Some(a)));
    assert!(l.contains(&reqs, Some(b)));
    assert!(!l.contains(&reqs, Some(c)));
    l.push_back(&mut reqs, c);
    assert!(l.contains(&reqs, Some(a)) && reqs[a].in_a_list());
    assert!(l.contains(&reqs, Some(b)) && reqs[b].in_a_list());
    assert!(l.contains(&reqs, Some(c)) && reqs[c].in_a_list());

    assert_eq!(l.pop_front(&mut reqs), Some(a));
    assert!(!l.contains(&reqs, Some(a)) && !reqs[a].in_a_list());
    assert_eq!(l.pop_front(&mut reqs), Some(b));
    assert!(!l.contains(&reqs, Some(b)) && !reqs[b].in_a_list());
    assert_eq!(l.pop_front(&mut reqs), Some(c));
    assert!(!l.contains(&reqs, Some(c)) && !reqs[c].in_a_list());
}

#[test]
fn request_list_test_two() {
    let mut reqs = arena(3);
    let (a, b, c) = (0usize, 1usize, 2usize);
    let mut l = RequestList::new();
    let mut l2 = RequestList::new();
    l2.push_front(&mut reqs, c);
    assert!(l.is_empty());
    assert!(l.pop_front(&mut reqs).is_none());
    assert!(!reqs[a].in_a_list());
    assert!(!reqs[b].in_a_list());
    assert!(reqs[c].in_a_list());
    assert!(!l.contains(&reqs, Some(a)));
    assert!(!l.contains(&reqs, Some(b)));
    assert!(!l.contains(&reqs, Some(c)));
    l.push_front(&mut reqs, a);
    assert!(l.contains(&reqs, Some(a)));
    assert!(!l.contains(&reqs, Some(b)));
    assert!(!l.contains(&reqs, Some(c)));
    l.push_front(&mut reqs, b);
    assert!(l.contains(&reqs, Some(a)));
    assert!(l.contains(&reqs, Some(b)));
    assert!(!l.contains(&reqs, Some(c)));
    assert!(!l.is_empty());
    assert!(reqs[a].in_a_list());
    assert!(reqs[b].in_a_list());
    assert_eq!(l.pop_front(&mut reqs), Some(b));
    assert!(l.contains(&reqs, Some(a)));
    assert!(!l.contains(&reqs, Some(b)));
    assert!(!l.contains(&reqs, Some(c)));
    assert!(!l.is_empty());
    assert!(reqs[a].in_a_list());
    assert!(!reqs[b].in_a_list());
    assert_eq!(l.pop_front(&mut reqs), Some(a));
    assert!(!l.contains(&reqs, Some(a)));
    assert!(!l.contains(&reqs, Some(b)));
    assert!(!l.contains(&reqs, Some(c)));
    assert!(l.is_empty());
    assert!(l.pop_front(&mut reqs).is_none());
    assert!(!reqs[a].in_a_list());
    assert_eq!(l2.pop_front(&mut reqs), Some(c));
}

#[test]
fn request_list_test_remove() {
    let mut reqs = arena(3);
    let (a, b, c) = (0usize, 1usize, 2usize);
    let mut l = RequestList::new();
    let mut l2 = RequestList::new();

    l.push_front(&mut reqs, a);
    l.push_front(&mut reqs, b);
    l.push_front(&mut reqs, c);
    assert!(l.remove(&mut reqs, Some(c)));
    assert!(l.remove(&mut reqs, Some(b)));
    assert!(l.remove(&mut reqs, Some(a)));
    assert!(!l.remove(&mut reqs, Some(a)));
    assert!(!reqs[a].in_a_list());
    assert!(!reqs[b].in_a_list());
    assert!(!reqs[c].in_a_list());

    l.push_front(&mut reqs, a);
    l.push_front(&mut reqs, b);
    l.push_front(&mut reqs, c);
    assert!(reqs[a].in_a_list());
    assert!(reqs[b].in_a_list());
    assert!(reqs[c].in_a_list());
    assert!(l.remove(&mut reqs, Some(a)));
    assert!(l.remove(&mut reqs, Some(b)));
    assert!(l.remove(&mut reqs, Some(c)));

    l.push_front(&mut reqs, a);
    l.push_front(&mut reqs, b);
    l.push_front(&mut reqs, c);
    assert!(l.remove(&mut reqs, Some(b)));
    assert!(l.remove(&mut reqs, Some(a)));
    assert!(l.remove(&mut reqs, Some(c)));

    l.push_front(&mut reqs, a);
    l.push_front(&mut reqs, b);
    l.push_front(&mut reqs, c);
    assert!(l.remove(&mut reqs, Some(b)));
    assert!(l.remove(&mut reqs, Some(c)));
    assert!(l.remove(&mut reqs, Some(a)));

    l.push_front(&mut reqs, a);
    l.push_front(&mut reqs, b);
    l2.push_front(&mut reqs, c);
    assert!(l.remove(&mut reqs, Some(a)));
    assert!(!l.remove(&mut reqs, Some(c)));
    assert!(l.remove(&mut reqs, Some(b)));
    assert!(l2.remove(&mut reqs, Some(c)));
    assert!(!l.remove(&mut reqs, None));
}

fn subs(n: usize) -> Vec<Sub> {
    let mut v = Vec::new();
    for _ in 0..n {
        v.push(Sub::default());
    }
    v
}

#[test]
fn sub_list_test_empty() {
    let mut s = subs(1);
    let a = 0usize;
    let mut l = SubList::new();
    assert!(l.is_empty());
    assert!(!l.contains(&s, None));
    assert!(!l.contains(&s, Some(a)));
    assert!(l.pop_front(&mut s).is_none());
    assert!(!s[a].in_a_list());
    l.push_front(&mut s, a);
    assert!(l.contains(&s, Some(a)));
    assert!(!l.is_empty());
    assert!(s[a].in_a_list());
    assert_eq!(l.pop_front(&mut s), Some(a));
    assert!(l.is_empty());
    assert!(l.pop_front(&mut s).is_none());
    assert!(!s[a].in_a_list());
    assert!(!l.contains(&s, Some(a)));
}

#[test]
fn sub_list_test_two() {
    let mut s = subs(3);
    let (a, b, c) = (0usize, 1usize, 2usize);
    let mut l = SubList::new();
    let mut l2 = SubList::new();
    l2.push_front(&mut s, c);
    assert!(l.is_empty());
    assert!(l.pop_front(&mut s).is_none());
    assert!(!s[a].in_a_list());
    assert!(!s[b].in_a_list());
    assert!(s[c].in_a_list());
    assert!(!l.contains(&s, Some(a)));
    assert!(!l.contains(&s, Some(b)));
    assert!(!l.contains(&s, Some(c)));
    l.push_front(&mut s, a);
    assert!(l.contains(&s, Some(a)));
    assert!(!l.contains(&s, Some(b)));
    assert!(!l.contains(&s, Some(c)));
    l.push_front(&mut s, b);
    assert!(l.contains(&s, Some(a)));
    assert!(l.contains(&s, Some(b)));
    assert!(!l.contains(&s, Some(c)));
    assert!(!l.is_empty());
    assert!(s[a].in_a_list());
    assert!(s[b].in_a_list());
    assert_eq!(l.pop_front(&mut s), Some(b));
    assert!(l.contains(&s, Some(a)));
    assert!(!l.contains(&s, Some(b)));
    assert!(!l.contains(&s, Some(c)));
    assert!(!l.is_empty());
    assert!(s[a].in_a_list());
    assert!(!s[b].in_a_list());
    assert_eq!(l.pop_front(&mut s), Some(a));
    assert!(!l.contains(&s, Some(a)));
    assert!(!l.contains(&s, Some(b)));
    assert!(!l.contains(&s, Some(c)));
    assert!(l.is_empty());
    assert!(l.pop_front(&mut s).is_none());
    assert!(!s[a].in_a_list());
    assert_eq!(l2.pop_front(&mut s), Some(c));
}

#[test]
fn sub_list_test_remove() {
    let mut s = subs(3);
    let (a, b, c) = (0usize, 1usize, 2usize);
    let mut l = SubList::new();
    let mut l2 = SubList::new();

    l.push_front(&mut s, a);
    l.push_front(&mut s, b);
    l.push_front(&mut s, c);
    assert!(l.remove(&mut s, Some(c)));
    assert!(l.remove(&mut s, Some(b)));
    assert!(l.remove(&mut s, Some(a)));
    assert!(!l.remove(&mut s, Some(a)));
    assert!(!s[a].in_a_list());
    assert!(!s[b].in_a_list());
    assert!(!s[c].in_a_list());

    l.push_front(&mut s, a);
    l.push_front(&mut s, b);
    l.push_front(&mut s, c);
    assert!(s[a].in_a_list());
    assert!(s[b].in_a_list());
    assert!(s[c].in_a_list());
    assert!(l.remove(&mut s, Some(a)));
    assert!(l.remove(&mut s, Some(b)));
    assert!(l.remove(&mut s, Some(c)));

    l.push_front(&mut s, a);
    l.push_front(&mut s, b);
    l.push_front(&mut s, c);
    assert!(l.remove(&mut s, Some(b)));
    assert!(l.remove(&mut s, Some(a)));
    assert!(l.remove(&mut s, Some(c)));

    l.push_front(&mut s, a);
    l.push_front(&mut s, b);
    l.push_front(&mut s, c);
    assert!(l.remove(&mut s, Some(b)));
    assert!(l.remove(&mut s, Some(c)));
    assert!(l.remove(&mut s, Some(a)));

    l.push_front(&mut s, a);
    l.push_front(&mut s, b);
    l2.push_front(&mut s, c);
    assert!(l.remove(&mut s, Some(a)));
    assert!(!l.remove(&mut s, Some(c)));
    assert!(l.remove(&mut s, Some(b)));
    assert!(l2.remove(&mut s, Some(c)));
    assert!(!l.remove(&mut s, None));
}

#[test]
fn ready_fifo_test_simple() {
    let mut reqs = arena(4);
    let (pa, pb, pc) = (0usize, 1usize, 2usize);

    let mut ready0 = ReadyFifo::new();
    assert!(ready0.pop_front(&mut reqs).is_none());
    assert!(ready0.is_empty());

    ready0.push_back(&mut reqs, pa);
    assert!(!ready0.is_empty());

    assert_eq!(ready0.pop_front(&mut reqs).unwrap(), pa);
    assert!(ready0.is_empty());

    ready0.push_back(&mut reqs, pa);
    assert!(!ready0.is_empty());
    ready0.push_back(&mut reqs, pb);
    assert!(!ready0.is_empty());
    ready0.push_back(&mut reqs, pc);
    assert!(!ready0.is_empty());

    assert_eq!(ready0.pop_front(&mut reqs).unwrap(), pa);
    assert_eq!(ready0.pop_front(&mut reqs).unwrap(), pb);
    assert_eq!(ready0.pop_front(&mut reqs).unwrap(), pc);
    assert!(ready0.is_empty());

    let mut ready1 = ReadyFifo::new();
    ready0.push_back(&mut reqs, pa);
    assert!(!ready0.is_empty());
    ready0.push_back(&mut reqs, pb);
    ready1.push_back(&mut reqs, pc);
    assert!(!ready1.is_empty());

    ready0.push_back_all(&mut reqs, &mut ready1);
    assert!(!ready0.is_empty());
    assert!(ready1.is_empty());

    assert_eq!(ready0.pop_front(&mut reqs).unwrap(), pa);
    assert_eq!(ready0.pop_front(&mut reqs).unwrap(), pb);
    assert_eq!(ready0.pop_front(&mut reqs).unwrap(), pc);
    assert!(ready0.is_empty());

    ready1.push_back(&mut reqs, pa);
    ready1.push_back(&mut reqs, pb);
    ready1.push_back(&mut reqs, pc);
    assert!(!ready1.is_empty());
    ready0.push_back_all(&mut reqs, &mut ready1);
    assert!(!ready0.is_empty());
    assert!(ready1.is_empty());
    assert_eq!(ready0.pop_front(&mut reqs).unwrap(), pa);
    assert_eq!(ready0.pop_front(&mut reqs).unwrap(), pb);
    assert_eq!(ready0.pop_front(&mut reqs).unwrap(), pc);
    assert!(ready0.is_empty());

    ready0.push_back(&mut reqs, pa);
    assert!(!ready0.is_empty());
    ready0.push_back_all(&mut reqs, &mut ready1);
    assert_eq!(ready0.pop_front(&mut reqs).unwrap(), pa);
    assert!(ready0.is_empty());
}

#[test]
fn test_not_parked() {
    let mut reqs = arena(3);
    let (a, b, c) = (0usize, 1usize, 2usize);
    let mut rq = RequestQueue::new();
    let mut ready = ReadyList::new();
    rq.push(&mut reqs, a);
    rq.push(&mut reqs, b);
    rq.push(&mut reqs, c);
    {
        assert_eq!(rq.park_begin(i32::MAX), 0);
        rq.park_end(&mut reqs, &mut ready);
    }
    assert_eq!(ready.pop_front(&mut reqs), Some(a));
    assert_eq!(ready.pop_front(&mut reqs), Some(b));
    assert_eq!(ready.pop_front(&mut reqs), Some(c));

    {
        assert_eq!(rq.park_begin(0), 0);
        rq.park_end(&mut reqs, &mut ready);
    }
    assert_eq!(ready.len(), 0);
}

#[test]
fn test_parked() {
    let mut reqs = arena(4);
    let (a, b, c, d) = (0usize, 1usize, 2usize, 3usize);
    let mut rq = RequestQueue::new();
    let mut ready = ReadyList::new();
    {
        assert_eq!(rq.park_begin(i32::MAX), i32::MAX);
        rq.push(&mut reqs, a);
        rq.push(&mut reqs, b);
        rq.push(&mut reqs, c);
        rq.park_end(&mut reqs, &mut ready);
    }
    ready.push_back(&mut reqs, d);
    assert_eq!(ready.pop_front(&mut reqs), Some(a));
    assert_eq!(ready.pop_front(&mut reqs), Some(b));
    assert_eq!(ready.pop_front(&mut reqs), Some(c));
    assert_eq!(ready.pop_front(&mut reqs), Some(d));

    {
        assert_eq!(rq.park_begin(0), 0);
        rq.push(&mut reqs, a);
        rq.push(&mut reqs, b);
        rq.push(&mut reqs, c);
        rq.park_end(&mut reqs, &mut ready);
    }
    ready.push_back(&mut reqs, d);
    assert_eq!(ready.pop_front(&mut reqs), Some(a));
    assert_eq!(ready.pop_front(&mut reqs), Some(b));
    assert_eq!(ready.pop_front(&mut reqs), Some(c));
    assert_eq!(ready.pop_front(&mut reqs), Some(d));
}

#[test]
fn park_begin_waits_forever_when_nothing_is_queued() {
    let mut reqs = arena(1);
    let mut rq = RequestQueue::new();
    let mut ready = ReadyList::new();
    assert_eq!(rq.park_begin(-1), -1);
    // Already parked: the next caller does not wait.
    assert_eq!(rq.park_begin(-1), 0);
    rq.push(&mut reqs, 0);
    assert_eq!(rq.park_end(&mut reqs, &mut ready), 1);
    assert_eq!(rq.park_begin(0), 0);
    assert_eq!(rq.park_begin(-5), -5);
}

#[test]
fn interleaved_producers_keep_their_order() {
    let n = 1024usize;
    let mut reqs = arena(2 * n);
    let mut rq = RequestQueue::new();
    let mut ready = ReadyList::new();
    let (mut next0, mut next1) = (0usize, 0usize);
    let mut step = 0usize;
    while next0 < n || next1 < n {
        step = step.wrapping_mul(1103515245).wrapping_add(12345);
        if next1 == n || (next0 < n && (step >> 16) % 2 == 0) {
            rq.push(&mut reqs, 2 * next0);
            next0 += 1;
        } else {
            rq.push(&mut reqs, 2 * next1 + 1);
            next1 += 1;
        }
    }
    assert_eq!(rq.park_end(&mut reqs, &mut ready), (2 * n) as i32);
    assert_eq!(ready.len(), 2 * n);
    let mut seen = vec![false; 2 * n];
    let (mut last0, mut last1) = (None, None);
    while let Some(r) = ready.pop_front(&mut reqs) {
        assert!(!seen[r]);
        seen[r] = true;
        let last = if r % 2 == 0 { &mut last0 } else { &mut last1 };
        if let Some(l) = *last {
            assert!(l < r);
        }
        *last = Some(r);
    }
    assert!(seen.iter().all(|s| *s));
}
