# hlq_os

The verified part of a small x86_64 kernel.

- `src/vga_writer.rs`: the text-mode screen writer. The writer holds the bytes of
  text-mode memory; its contracts say which cells each call writes and where the
  cursor goes.
- `src/interrupts.rs`: gate descriptors, the interrupt descriptor table and the
  descriptor that loads it, and the reports the exception handlers show.
- `src/decimal.rs`: decimal numerals of `u64` values.
- `app/`: the entry point, the exception entry stubs, `lidt`, the CR2 read and the
  copy of the writer's buffer into text-mode memory.
