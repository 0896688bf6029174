# xaio

Building blocks of an asynchronous I/O runtime, verified with Verus.

- `src/` is the verified library: intrusive request lists kept in an arena
  (`request_list`, `ready_list`, `ready_fifo`, `sub_list`), the queue that
  hands requests completed on other threads back to their owner
  (`request_queue`), the timer heap (`details::timer_heap`), the readiness
  pass over waiting socket requests (`pending_ops`), the `poll` selector's
  array and registrations (`sys::poll`), descriptor watchers (`fd_map`),
  coroutine stacks and contexts (`ucontext`), io_uring setup, probing and
  submission entries (`sys::iouring`, `sys::sqe`), driver configurations
  (`driver`), and the decisions of the I/O loops (`io_steps`, `file`,
  `thread_pool`, `sys::iocp`, `sys::epoll`, `time`).
- `tests/` exercises the library.
- `app/` is a small program around the library: the system calls, threads,
  and the loops that alternate them with the library's decisions.
