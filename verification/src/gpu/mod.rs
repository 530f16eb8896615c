//! Queue lanes, submission identifiers and progress tracking.

pub mod ids;
pub mod roles;
pub mod lane_key;
pub mod submission;
pub mod tokens;
pub mod lane_progress;
pub mod epoch;
pub mod progress;
pub mod future;
pub mod future_set;
pub mod device_select;
pub mod lane_vec;
pub mod queue_group_table;
pub mod queue_group_vec;
pub mod retire;
pub mod surface;
pub mod frame_allocator;
pub mod device_plan;
pub mod extensions;
pub mod queue_lane;
pub mod command_buffer;
pub mod command_batch;
pub mod command_pool;
pub mod command_allocator;
pub mod retire_queue;
pub mod swapchain;
pub mod queue_group_check;
