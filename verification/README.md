# xdpsock

Configuration, frame bookkeeping and UMEM access logic for Linux AF_XDP
sockets, verified with Verus.

Layout:

- `src/` — the verified library:
  - `util.rs`: the power-of-two check used by every queue size.
  - `socket/config.rs`: socket flags, `SocketConfig` and its builder.
  - `umem/config.rs`: `UmemConfig` and its builder.
  - `umem/frame.rs`: frame descriptors, reading and writing frame data in
    the UMEM memory, and the layout of the frames of a fresh UMEM.
  - `xsk/tx.rs`, `xsk/rx.rs`: which frames are free, on a kernel queue or
    holding received data, on the sending and on the receiving side.
  - `iface.rs`: interface counters built from `(name, value)` entries.
- `tests/`: tests of the library.
- `app/`: the kernel-facing half — `mmap`, the libbpf rings and sockets,
  the threads and channels of `Xsk2`, reading sysfs, and `Display` for the
  errors. It calls the library for every decision.
