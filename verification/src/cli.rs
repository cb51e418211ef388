//! The command line's settings and the checks on its size arguments.
use vstd::prelude::*;

use crate::config::{Config, ConfigBuilder, ConfigView, Protocol, TransferMechanism, MAX_BLOCK_BYTES};
use crate::size::{parse_size, Size, SizeError};

verus! {

/// The settings given on the command line.
pub struct Cli {
    pub protocol: Protocol,
    pub mechanism: TransferMechanism,
    pub seed: u64,
    pub payload: Size,
    pub batch: Size,
    pub generate_results: bool,
}

/// The largest payload a run accepts, in bytes (1 GB).
pub const MAX_PAYLOAD_BYTES: usize = 1073741824;

/// Reads a batch (block) size, which must be below 64 KB.
pub fn parse_batch_size(s: &str) -> (r: Result<Size, String>)
    requires
        parse_size(s@) matches Ok(size) ==> size.byte_count() <= usize::MAX,
    ensures
        match parse_size(s@) {
            Err(e) => r matches Err(m) && m@ == e.text(),
            Ok(size) => if size.byte_count() >= 64 * 1024 {
                r matches Err(m) && m@ == "Batch size must be 64KB or less"@
            } else {
                r == Ok::<Size, String>(size)
            },
        },
{
    let size = match Size::parse(s) {
        Ok(size) => size,
        Err(e) => return Err(e.message()),
    };
    if size.to_bytes() >= 64 * 1024 {
        Err("Batch size must be 64KB or less".to_owned())
    } else {
        Ok(size)
    }
}

/// Reads a payload size, which must be at most 1 GB.
pub fn parse_payload_size(s: &str) -> (r: Result<Size, String>)
    requires
        parse_size(s@) matches Ok(size) ==> size.byte_count() <= usize::MAX,
    ensures
        match parse_size(s@) {
            Err(e) => r matches Err(m) && m@ == e.text(),
            Ok(size) => if size.byte_count() > MAX_PAYLOAD_BYTES {
                r matches Err(m) && m@ == "Payload size must be 1GB or less"@
            } else {
                r == Ok::<Size, String>(size)
            },
        },
{
    let size = match Size::parse(s) {
        Ok(size) => size,
        Err(e) => return Err(e.message()),
    };
    if size.to_bytes() > Size::GB(1).to_bytes() {
        Err("Payload size must be 1GB or less".to_owned())
    } else {
        Ok(size)
    }
}

impl Cli {
    /// The configuration of a run with these settings.
    pub fn config(&self) -> (r: Config)
        requires
            self.batch.byte_count() <= MAX_BLOCK_BYTES,
        ensures
            r@ == (ConfigView {
                protocol: self.protocol,
                payload_size: self.payload,
                transfer_mechanism: self.mechanism,
                block_size: self.batch,
                seed: self.seed,
            }),
    {
        ConfigBuilder::new().protocol(self.protocol).transfer_mechanism(self.mechanism).payload_size(
            self.payload,
        ).block_size(self.batch).seed(self.seed).build()
    }
}

} // verus!
