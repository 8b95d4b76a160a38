//! Configuration of the wire codec.

use vstd::prelude::*;

verus! {

/// The default for [`Config::max_buf_size`]: 4 MiB.
pub const DEFAULT_MAX_BUF_SIZE: usize = 4194304;

/// Options of the protocol engine.
#[derive(Clone, Debug)]
pub struct Config {
    /// The largest frame length, in bytes, that the decoder accepts.
    pub max_buf_size: usize,
}

impl Config {
    /// Replaces the maximum frame length and hands the configuration back.
    pub fn with_max_buf_size(self, max_buf_size: usize) -> (out: Self)
        ensures
            out.max_buf_size == max_buf_size,
    {
        Config { max_buf_size }
    }
}

impl Default for Config {
    fn default() -> (out: Self)
        ensures
            out.max_buf_size == DEFAULT_MAX_BUF_SIZE,
    {
        Config { max_buf_size: DEFAULT_MAX_BUF_SIZE }
    }
}

} // verus!
