use rand::seq::SliceRandom;
use xaio::details::timer_heap::TimerHeap;
use xaio::error::IoError;

#[test]
fn timer_heap_test_simple() {
    let mut th = TimerHeap::new(32).unwrap();
    assert_eq!(th.len(), 0);
    assert_eq!(th.next_deadline(u64::MAX), u64::MAX);
    assert!(th.push(5usize, 5u64).is_ok());
    assert!(matches!(th.push(5usize, 99u64), Err(IoError::AlreadyExists)));
    assert_eq!(th.len(), 1);
    assert_eq!(th.next_deadline(u64::MAX), 5u64);
    assert!(th.push(18usize, 18u64).is_ok());
    assert_eq!(th.len(), 2);
    assert_eq!(th.next_deadline(u64::MAX), 5u64);
    assert!(th.remove(5usize));
    assert!(!th.remove(5usize));
    assert_eq!(th.len(), 1);
    assert_eq!(th.next_deadline(u64::MAX), 18u64);
    assert!(th.remove(18usize));
    assert!(!th.remove(18usize));
    assert_eq!(th.len(), 0);
    assert_eq!(th.next_deadline(u64::MAX), u64::MAX);
}

#[test]
fn test_random() {
    let mut th = TimerHeap::new(32).unwrap();
    let mut rng = rand::thread_rng();
    let mut data: Vec<u64> = (0..65536).collect();
    data.shuffle(&mut rng);
    for v in data.iter() {
        assert!(th.push(*v as usize, *v).is_ok());
    }
    data.sort();
    for v in data.iter() {
        if (v & 1u64) != 0 {
            let popped_token = th.pop();
            assert!(popped_token.is_some());
            assert_eq!(popped_token.unwrap(), *v as usize);
        } else {
            let popped_token = th.next();
            assert!(popped_token.is_some());
            let popped_token = popped_token.unwrap();
            assert_eq!(popped_token, *v as usize);
            assert!(th.remove(popped_token));
        }
    }
}
