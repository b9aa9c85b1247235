# redleaf

Thread scheduling and kernel bookkeeping of a single-address-space kernel whose
subsystems run as isolated domains, written in Verus with its contracts proved.

- `src/` is the verified library: the thread metadata table and the scheduler domain
  that picks from it, the kernel's run decision at each tick, continuation stacks,
  rebalance queues, a two-queue scheduler, per-CPU layout, the APIC bring-up sequence,
  the file system's block cache and the test domain C.
- `app/` is the glue the library cannot hold: register access, the register switch,
  stack allocation, ELF loading and the global state the library is called on.
- `tests/` runs the library on concrete values.
