//! A static-memory inference runtime for quantized neural networks.
//!
//! - `micro_allocator`: a bump arena with aligned and offset allocation.
//! - `quantization`, `padding`, `micro_activation`: the integer arithmetic
//!   shared by the kernels.
//! - `micro_tensor`, `micro_op_resolver`: tensors, nodes, registrations and
//!   the operator registry.
//! - `micro_allocation_info`, `greedy_memory_planner`: usage intervals and the
//!   greedy placement of scratch tensors in one shared region.
//! - `micro_graph`: building a subgraph and running it; the interpreter.
//! - `micro_kernels`, `micro_conv`, `micro_pool`: the 8-bit kernels.

pub mod errors;
pub mod micro_allocator;
pub mod quantization;
pub mod micro_allocation_info;
pub mod greedy_memory_planner;
pub mod padding;
pub mod micro_tensor;
pub mod micro_op_resolver;
pub mod micro_graph;
pub mod micro_activation;
pub mod micro_kernels;
pub mod micro_conv;
pub mod micro_pool;
pub mod builtin_op_data;
