# knofoo_vm

The core of a small desktop virtual-machine manager, written in Verus: the
logic is proved against its contracts, and the program around it only moves
bytes between the library and the outside world. What the contracts do not
reach is the inside of the standard library's channels and locks: the switch
states which ports it hands a frame to, not what a receiver later reads.

- `src/net` — the virtual network a guest sees: IPv4/UDP framing and the
  header checksum, a DHCP server, the framing half of a DNS forwarder, an L2
  switch shared by the machines of a graph, and the routing of guest frames.
- `src/virtio` — device protocol state: the serial agent channel, the GPU
  framebuffer with dirty-row tracking, keyboard mapping, the NICs, and a
  9P2000.L server for the shared folder (requests are decoded into
  file-system operations; their outcomes are encoded into replies).
- `src/hypervisor` — the machine model, boot-image inspection (MBR, El
  Torito, FAT32 EFI partitions, ISO 9660 directories), the QEMU command line,
  the RFB client's messages and pointer state, and KVM dirty-page rectangles.
- `src/vault.rs`, `src/listing.rs`, `src/machine.rs` — naming and ordering of
  vault items, and the machine manager's decisions.
- `src/text.rs`, `src/bytes.rs`, `src/b64.rs` — text, byte and base64 helpers.
- `app/` — the desktop application: commands for the user interface,
  backends that run QEMU or KVM, sockets, files and threads.
- `tests/` — tests of the library on concrete values.
