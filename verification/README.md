# perf_monitor

Runs a command and monitors it while it runs: CPU usage, child processes,
and (from the same library) virtual memory, disk traffic, heap and stack
sizes and threads; the record is saved as `monitor.json`. Started under the
name `service`, the program prints a summary of each frame seen on the first
interface that has a hardware address.

- `src/` is the verified library (Verus): the bucketed running average
  (`avg`), sample statistics (`stats`), the decisions of the polling loops and
  the reading of `/proc` text (`monitoring`, `text`), the choice of a
  duration's unit (`duration`), the command line (`args`), the signal text of
  a finished child (`process`) and the frame summary (`packet`, reading the
  headers with `pnet`).
- `app/` runs the loops: it starts the child, polls it through `sysinfo`,
  reads `/proc`, captures frames, formats floating-point figures and writes
  JSON and logs.
- `tests/` exercises the library on concrete values.
