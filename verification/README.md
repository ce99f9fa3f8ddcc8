# lockmem

Locks every committed page of a Windows process (found by pid or by name) in
its working set, growing the working set when the kernel's quota is too small
and acquiring `SeDebugPrivilege` when access is denied.

- `src/` is the verified library (Verus): it decides which regions to lock,
  drives the lock / grow-working-set / lock-again exchange with the kernel,
  reads the process snapshot and the token's privileges, decodes the UTF-16
  names the kernel reports, and parses the command line. Every function has a
  contract; the laws that span several calls are proof functions next to the
  code they speak of.
- `app/` is the program: the Win32 and NT calls, the console output and
  `main`. It hands the library plain values and acts on what it returns.
- `tests/` runs the library on concrete values.
