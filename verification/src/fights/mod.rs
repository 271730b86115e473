pub mod timeline;
pub mod kazzara;
pub mod assault;
pub mod experiments;
