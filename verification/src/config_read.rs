//! Reads of a configuration space by the guest.

use vstd::prelude::*;

use crate::bytes::{cut, overlay, put};

verus! {

/// Reads of the configuration space at `offset`: what lies there, as far as it goes.
pub open spec fn config_read(config: Seq<u8>, offset: u64, data: Seq<u8>) -> Seq<u8> {
    if offset < config.len() {
        overlay(data, 0, cut(config.skip(offset as int), data.len()))
    } else {
        data
    }
}

/// Reads `config` at `offset` into `data`.  Bytes beyond its end are left as they are.
pub fn read_config_at(config: &[u8], offset: u64, data: &mut [u8])
    ensures
        final(data)@ == config_read(config@, offset, old(data)@),
{
    if offset < config.len() as u64 {
        let start = offset as usize;
        let end = if data.len() < config.len() - start {
            start + data.len()
        } else {
            config.len()
        };
        let part = &config[start..end];
        assert(part@ =~= cut(config@.skip(start as int), data@.len()));
        put(data, 0, part);
    }
}

/// A read gives the bytes of the configuration from `offset` on, one for each byte of the buffer,
/// and leaves those bytes as they were for which there is none.
pub proof fn reads_give_the_bytes_there(config: Seq<u8>, offset: u64, data: Seq<u8>, i: int)
    requires
        0 <= i < data.len(),
    ensures
        config_read(config, offset, data).len() == data.len(),
        offset + i < config.len() ==> config_read(config, offset, data)[i] == config[offset + i],
        offset + i >= config.len() ==> config_read(config, offset, data)[i] == data[i],
{
}

} // verus!
