# vain

The decision-making core of the Vain x86_64 kernel, written in Verus and proved against
its contracts: the frame bitmap allocator, page-table entries and a model of the four-level walk, the priority run queue and
scheduler, synchronous endpoints and notifications, capability tables and the objects they name, the kernel and
process bump allocators, ELF image checks and segment layout, ACPI table parsing, the
descriptor tables, the serial and framebuffer consoles and the PS/2 scancode translation.

- `src/` is the verified library. Each module states its model as spec functions and
  proves the properties that hold across operations as `lemma_*` proof functions or as
  invariants that the operations keep (the endpoint invariant, the allocators' `wf`).
- `app/` is the kernel around it: boot protocol requests, port and MSR access, inline
  assembly, context switches, interrupt handlers and the locks.
- `tests/` runs the library on concrete values.
