//! Frame-graph scheduling and GPU memory sub-allocation, verified with Verus.
mod bitmask;
pub mod mapping;
pub mod free_list;
pub mod arena;
pub mod barrier;
pub mod command;
pub mod command_buffer;
pub mod deps;
pub mod descriptor;
pub mod device_select;
pub mod domain;
pub mod executor;
pub mod executor_plan;
pub mod frame;
pub mod frame_sync;
pub mod gpu_alloc;
pub mod input;
pub mod lane;
pub mod layout_helpers;
pub mod pipeline_config;
pub mod presentation;
pub mod queue_caps;
pub mod queue_lane;
pub mod record;
pub mod recorder;
pub mod rendering;
pub mod resource;
pub mod return_queue;
pub mod schedule;
pub mod type_states;
pub mod vk_values;
pub mod types;
pub mod window;

pub use mapping::{mapping_insert, mapping_search, NULL, SL_BITS, SL_COUNT, FL_COUNT, MIN_FL, FL_OFFSET, MIN_ALLOC, SMALL_STEP_SHIFT};
pub use free_list::{FreeList, MemNode};
