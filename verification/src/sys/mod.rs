pub mod epoll;
pub mod iocp;
pub mod iouring;
pub mod poll;
pub mod sqe;
pub mod thread;
