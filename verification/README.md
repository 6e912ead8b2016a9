# bproc

Per-process network bandwidth monitoring and throttling, with the logic
proved correct by Verus.

- `src/` is the verified library: packet parsing and traffic
  classification, the token bucket of the egress filter, connection
  accounting per process and interface, throttle bookkeeping for every
  backend (HTB, IFB, police, nftables, dummynet, cgroup filters), the
  argument lists of the `tc`, `nft`, `ip` and `dnctl` commands, the setup
  sequences as state machines, socket-table and `lsof` parsing, and the
  key bindings and command-line rules. Contracts are stated over `Seq`,
  `Map` and spec functions; laws that span several calls are public proof
  functions named `lemma_*`.
- `tests/` runs the library on concrete values.
- `app/` is the program around it: argument parsing, packet capture, the
  tables under `/proc`, running commands, the configuration file, and
  floating-point formatting of rates.
