pub mod timer_heap;
