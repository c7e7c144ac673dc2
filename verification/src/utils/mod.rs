pub mod disk;
pub mod paths;
pub mod progress;
pub mod scale;
pub mod single;
