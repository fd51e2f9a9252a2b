//! Verified core of a battery-powered environmental sensing node with an
//! electronic-ink display: the persistent clock, the retained reading
//! history, the channel and state machines of the sensor pipeline and the
//! duty cycle, and the display's protocol and framebuffer.

pub mod clock;
pub mod time_source;

pub mod sample;
pub mod history;
pub mod channel;
pub mod sensor;
pub mod display_task;
pub mod duty_cycle;

pub mod framebuffer;
pub mod command;
pub mod display;

pub mod random;
