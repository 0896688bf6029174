use xaio::ucontext::context::UContext;
use xaio::ucontext::stack::{Stack, DEFAULT_TOTAL_SIZE};

#[test]
fn test_page() {
    let stack = Stack::with_size(0);
    assert_eq!(stack.total_size(), Stack::page_size() + Stack::guard_size());

    let stack = Stack::with_size(Stack::page_size() - 1);
    assert_eq!(stack.total_size(), Stack::page_size() + Stack::guard_size());

    let stack = Stack::with_size(Stack::page_size());
    assert_eq!(stack.total_size(), Stack::page_size() + Stack::guard_size());

    let stack = Stack::with_size(Stack::page_size() * 4);
    assert_eq!(stack.total_size(), Stack::page_size() + Stack::guard_size() * 4);

    let stack = Stack::new();
    assert_eq!(stack.total_size(), DEFAULT_TOTAL_SIZE);
}

#[test]
fn test_coro() {
    let root = UContext::<fn()>::get(0x7000_0000).unwrap();
    assert!(root.is_started());
    assert_eq!(root.stack_total_size(), 0);
    let mut uctx = UContext::pinned(|| println!("Run"), UContext::<fn()>::default_size()).unwrap();
    let guard = Stack::guard_size();
    assert!(uctx.init_with(Some(0x1000_0000), guard));
    assert!(uctx.is_started());
    let entry = uctx.take_entry().unwrap();
    entry();
    assert!(uctx.take_entry().is_none());
}
