//! HDMI-CEC control over HTTP and MQTT: the verified core.

pub mod adapter;
pub mod assets;
pub mod assoc;
pub mod busstate;
pub mod cec;
pub mod dispatch;
pub mod events;
pub mod exec;
pub mod json;
pub mod mqtt;
pub mod server;
pub mod settings;
pub mod steward;
pub mod strategies;
pub mod strategy_run;
pub mod supervisor;
pub mod text;
pub mod time;
pub mod topology;
pub mod types;
pub mod ui;
pub mod ui_ctx;
pub mod update;
pub mod util;
