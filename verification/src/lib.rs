//! A logger with widgets for terminal user interfaces that show what was logged.
//!
//! The logger keeps events in circular buffers (`circular`, `logger`) and decides with a level
//! filter per target (`level`, `config`) what it records. The widgets share a state (`state`)
//! that follows the keys of the user; they lay out a list of targets (`target_widget`) and the
//! log (`log_widget`), alone or side by side (`smart_widget`), and draw them in a buffer of
//! cells (`screen`).

pub mod circular;
pub mod clock;
pub mod config;
pub mod error;
pub mod level;
pub mod log_widget;
pub mod logger;
pub mod screen;
pub mod smart_widget;
pub mod state;
pub mod target_widget;
pub mod text;
pub mod tracing_subscriber;

pub use crate::circular::CircularBuffer;
pub use crate::error::TuiLoggerError;
pub use crate::level::Level;
pub use crate::level::LevelFilter;
pub use crate::log_widget::TuiLoggerLevelOutput;
pub use crate::log_widget::TuiLoggerWidget;
pub use crate::logger::set_buffer_depth;
pub use crate::logger::set_default_level;
pub use crate::logger::set_level_for_target;
pub use crate::smart_widget::TuiLoggerSmartWidget;
pub use crate::state::TuiWidgetEvent;
pub use crate::state::TuiWidgetState;
pub use crate::target_widget::TuiLoggerTargetWidget;
pub use crate::tracing_subscriber::tracing_subscriber_layer;
pub use crate::tracing_subscriber::TuiTracingSubscriberLayer;
