pub mod vpath;
pub mod pathmap;
pub mod diag;
pub mod bundle;
pub mod assets;
pub mod serve;
pub mod sources;
pub mod scope;
pub mod render;
pub mod focus;
pub mod laws;
pub mod watch;
