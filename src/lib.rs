pub mod checksum;
pub mod frame;
pub mod messages;
pub mod dongle;
