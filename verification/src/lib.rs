//! Desktop launcher catalogue: finds the application descriptors of a desktop,
//! turns each into a display entry with a resolved icon path, and lays the
//! entries out as pages of JSON text.

pub mod apps;
