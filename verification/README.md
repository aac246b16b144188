# rcore_os

The mailbox, scheduling-queue, address-space and system-call logic of a small
RISC-V teaching kernel (rCore, with inter-process mail), written in Verus.

- `src/fs/mail.rs` — the per-process mailbox: a ring of 16 mails of up to
  256 bytes (`MailBoxBuffer`), its queue-of-mails model and laws, and the
  lock-protected `MailBox` shared between tasks.
- `src/fs/mod.rs` — the `File` trait behind file descriptors.
- `src/task/` — the ready queue and mailbox registry (`TaskManager`), page
  range relations, mapped areas of an address space and their insertion and
  removal.
- `src/syscall/` — decoding of trap numbers and argument registers, and the
  file, mail, memory-mapping, priority, time and wait system calls over
  explicit kernel state.
- `src/user/` — the traps each user-side call builds (with the proof that
  the kernel decodes them back into the same request) and the user shell's
  line editing and pipeline planning.
- `src/console.rs` — the configured log threshold.
- `app/` — plumbing the verifier does not see: console output, the global
  task manager behind its lock, the trap instruction and the user programs'
  loops.
