# riscos

A small library for writing RISC OS programs in Rust: command-line arguments
decoded by OS_ReadArgs, files, VDU text output, TCP sockets, and desktop tasks
with icons on the icon bar.

## Layout

- `src/` is the verified library. It holds what the library computes or
  decides, with contracts proved by Verus:
  - `env`, `env/arg`: the argument kinds (`Switch`, `String`, `Named`, pairs),
    the syntax string they describe the command line with, and the typed values
    read back from OS_ReadArgs' output slots.
  - `wimp`: the icon block handed to Wimp_CreateIcon, and the meaning of the
    block that Wimp_Poll fills in.
  - `net`: IPv4 addresses, their dotted form, the socket address block, the host
    name buffer handed to the resolver.
  - `path`, `fs`: the NUL-terminated path buffer, and the outcomes of the file calls.
  - `vdu`: the bytes that text is sent to the VDU drivers as.
  - `rt`: the heap allocator's size rounding and its grow-and-retry schedule.
  - `helper`: NUL-terminated strings.
  - `bounded`: the `heapless` buffers used above, with their trusted contracts.
- `app/` is the part that talks to the operating system: the SWI calls (inline
  `swi` on ARM), the types that close handles when dropped, the trait impls of
  `embedded-io` and `core::fmt`, the heap allocator and the program entry. Two
  small decisions of the allocator stay there with the calls they sit between:
  a failed claim grows the heap once and claims again, and a slot resize counts
  as growth when the new slot is larger than the old.
- `tests/` runs the library on concrete values.
