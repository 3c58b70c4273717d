# reims_vgpu

The decision logic of a paravirtual GPU device, written in Verus. Everything
under `src/` is proved against its contract; nothing there touches guest memory,
a device handle, a clock or a thread. What those answer comes in as plain values,
and what is to be done with them goes out as plain values.

## Layout

- `admission`, `scope`, `checkpoints`, `fifo_progress`: who may run, for how long
  a proof lives, and what is counted of it.
- `coverage`, `storage`, `isolation`, `interlock_diagnostic`, `hazards`: which
  guest bytes a draw reads and writes, and when two sets of them are proved apart.
- `gather`, `planar`, `input_snapshot`, `sampled`: when bytes read earlier may
  stand for guest memory now.
- `native_pipeline`, `vulkan`, `pixel`: what a draw's pipeline is made of.
- `inputs`, `metal_storage`, `native_seed`, `buffer_source`, `output`,
  `primary_store`, `secondary_store`: the routes texels take into a draw and out
  of it.
- `text`: the numbers and lists that report lines are made of.

`app/` holds what surrounds the library: locks and condition variables, thread
locals, wall clocks, floating-point clear values, the loops that do the outside
work a step function asks for, and the conversions from the shader translator's
and the graphics bindings' vocabularies.

## Reading the contracts

A public function's `ensures` speaks of spec functions of the same module, which
say what the answer is for every input. Sequences of outside work appear as step
functions: each takes what was just answered and returns what to ask for next.
Functions named `law_*` are proofs about those spec functions: what every
operation keeps, what is never served stale, what ends.
