# axdevice

A verified device layer for a hypervisor: a PCI root complex with its
configuration space, BARs and topology planning; ivshmem links with their
layout, registers, doorbells and endpoints; stage-2 direct mappings; serial
devices and the early console; interrupt bindings; and the protocol of the
ivshmem guest tests.

- `src/` is the library. Its functions carry contracts that Verus proves, but
  for two calls out of the library, which are believed as they are stated:
  `size_text` in `serial/console.rs` and `utf8_text` in `smoke/mailbox.rs`.
  Public proof functions named `law_*` state what holds across functions.
- `app/` is ordinary Rust around it: locks, trait objects, device registers,
  processes and files.
- `tests/` runs the library on concrete values.

Handlers, sinks and device models appear in the library as numbers that `app/`
resolves. What comes from outside (allocator answers, register readings, the
time, page-table outcomes) reaches the library as an argument. What is to happen
outside (page-table steps, stores to shared memory, register writes) is returned
in the order in which it happens.
