# rp_usb_host

USB host driver logic for the RP2040 and RP235x controllers, verified with Verus.

The controller polls interrupt endpoints on its own, one dedicated endpoint per pipe. Every other
pipe takes turns on one shared endpoint, EPX. The library decides: who gets an endpoint and a
buffer, whose turn it is on EPX, what a transaction's outcome is, how a transfer is cut into
packets, and what an interrupt means. It touches no hardware. Register words come in as plain
integers, and what is to be done comes out as a list of steps (`regs::Op`), to be carried out in
order and in the same critical section as the decision.

- `layout`, `regs`, `types`: memory layout, register words and steps, plain values.
- `bits`: machine words read as sets.
- `interrupt_pipes`, `arbiter`, `epx`: the shared state.
- `channel`, `transaction`, `epx_transaction`: pipes, and one transaction on EPX from queueing to
  release.
- `transfer`, `interrupt_transfer`: transfers of any length, on EPX and on dedicated endpoints.
- `host`, `irq`: bring-up, root port, pipe allocation and the interrupt.
- `laws`: what holds of the driver as a whole.
- `uid`: the chip's unique ID and its hexadecimal form.

`app/` carries the steps out on an RP235x and offers the pipes through the
`embassy_usb_driver::host` traits.
