//! Classes: their file format and its decoder, their descriptors, and what
//! runs of them: typed slots, instances and frames.

pub mod attribute;
pub mod classfile;
pub mod classpath;
pub mod definition;
pub mod descriptor;
pub mod frame;
pub mod instance;
pub mod method;
