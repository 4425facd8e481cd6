# kernel_net

The network subsystem of a kernel, as a library whose behaviour is stated in
contracts and proved with Verus: interfaces and routes, sockets (TCP, UDP, raw,
packet, netlink and UNIX), the socket system calls, and the bookkeeping of the
protocol stacks.

- `src/` is the library. It holds no locks and does no I/O. What only a protocol
  stack can do (smoltcp's), or only the program's memory can tell, comes in as a
  plain value and goes out as a plan or an order. Where an operation needs the
  stack in the middle, it comes in two parts: the first says what the stack has
  to do, the second takes in what it did.
- `tests/` runs the library on concrete values.
- `app/` is the kernel's side: devices, stacks, user memory and the loop that
  runs the stacks.

Proof functions whose names begin with `law_` state what holds across calls.
