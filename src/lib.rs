pub mod bgx;
pub mod command;
pub mod con_param;
pub mod fw;
pub mod mac;
pub mod response;
pub mod scan;
pub mod scan_result;
pub mod text;
pub mod usb;
