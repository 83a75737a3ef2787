//! Verified core logic of an ESP32 Wi-Fi provisioning and MQTT device.
pub mod bounded;
pub mod dhcp;
pub mod http;
pub mod led;
pub mod mqtt;
pub mod runtime;
pub mod text;
pub mod wifi;
