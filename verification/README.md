# libcudf-rs

The decision logic of a GPU query engine built on NVIDIA's cuDF and Apache
DataFusion, written in Verus: every function of the library carries a contract
that Verus proves.

cuDF does the GPU work (sorting, joins, group-by aggregation, uploads and
downloads of Arrow data). What this library holds is what decides that work:

- `planner`, `optimizer`, `plan`: the physical planner rules that move supported
  operators onto the GPU, insert loads and unloads (and batch coalescing) at
  every host/GPU boundary, and number the GPU segments that share a CUDA stream.
- `sort`, `sort_stream`: sort orders and the arguments of cuDF's sorts; the full
  and top-K sort streams as state machines.
- `aggregate`, `aggregate_stream`: the cuDF aggregations, the aggregate modes,
  the layout of state and output columns, which aggregates the GPU takes over,
  and the chunked aggregation stream as a state machine.
- `binary_op`, `decimal`, `expr`: the operator table, decimal division
  rescaling, and the conversion of host expressions.
- `datatype`: Arrow data types and the schema maps at the host/GPU boundary.
- `task_context`, `load`: the per-segment stream registry and the checks of the
  load, unload and filter operators.
- `pinned`: the reaper that keeps pinned upload buffers alive until the GPU is
  done with them, and the decisions of the task that drives it.
- `codes`, `stream`: the enumerations shared with the cuDF C++ library.

`app/` holds the host side: conversion from and to `arrow_schema` types, the
Tokio task that drives the pinned-upload reaper, and the lock around the stream
registry. `tests/` runs the library on concrete values.
