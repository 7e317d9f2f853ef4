//! Building blocks shared by the backends.

pub mod vaapi;
