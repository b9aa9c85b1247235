//! Thread scheduling, per-CPU bookkeeping and domain plumbing of a
//! single-address-space kernel, with their contracts proved.
//!
//! - `sched`: the thread metadata table shared with the scheduler domain.
//! - `sched_domain`: the scheduler domain, which picks the next thread from the table.
//! - `kthread`: kernel threads, the run decision at each tick, continuation stacks and
//!   rebalance queues; `thread_map` holds the kernel's threads by id.
//! - `thread`: a scheduler with an active and a passive run queue.
//! - `tls`: per-CPU identity and the layout of the per-CPU thread-local copies.
//! - `lapic`: the local APIC's registers and how it is brought up.
//! - `load_domain`: the address arithmetic of loading a domain.
//! - `dom_c`, `dom_c_domain`: the interface of test domain C and the domain itself.
//! - `rref`: what may live on the shared heap and how it is cleaned up.
//! - `shared_cache`: the block buffer cache of the file system.

pub mod dom_c;
pub mod dom_c_domain;
pub mod kthread;
pub mod lapic;
pub mod load_domain;
pub mod rref;
pub mod sched;
pub mod sched_domain;
pub mod shared_cache;
pub mod thread;
pub mod thread_map;
pub mod tls;
