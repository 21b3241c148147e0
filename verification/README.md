# lib

Compiled pipeline plans, reusable per-job packet storage, and the checks that
hold a packet to a plan, written in Verus with their contracts proved.

- `src/pipeline.rs`: buffer slots, kernel kinds, buffer/kernel/stage
  declarations, compiled plans and their builder, plan validation and packet
  validation, with the spec functions that say what a valid plan and a fitting
  packet are and which error comes first.
- `src/job.rs`: job status and the job packet: typed buffers addressed by slot,
  created or retyped on demand, read and written through typed views.
- `src/order.rs`: slots and kernel kinds ordered by their raw values.
- `src/cancel.rs`: the shared cancellation flag.
- `src/error.rs`: the error type and its text.
- `src/text.rs`: decimal rendering of numbers.
- `src/laws.rs`: properties across operations (what is written reads back,
  other slots stay untouched, a slot gets one buffer, a missing slot is
  appended, builders collect in call order, cleared packets still fit,
  valid plans and fitting packets report no problem).
- `app/lib.rs`: float views of `f32` buffers (stored as IEEE-754 bit patterns in
  the library), closure access to several `f32` buffers at once, and `Display`
  for errors.
