use vstd::prelude::*;
use vstd::slice::slice_subrange;

use crate::chunk::Chunk;
use crate::format_decode::{get_int, int_value};

verus! {

/// Size of every block of the container.
pub const SECTOR_SIZE: usize = 4096;

/// Size of a block's header; the payload follows it.
pub const SECTOR_HEADER: usize = 20;

/// One block of the container: its header fields and its payload.
#[derive(Debug, Clone)]
pub struct Sector {
    pub deleted: bool,
    pub level: u32,
    pub previous: u32,
    pub next: usize,
    pub payload: Vec<u8>,
    pub chunks: Vec<Chunk>,
}

impl Sector {
    fn new(
        deleted: bool,
        level: u32,
        previous: u32,
        next: usize,
        payload: Vec<u8>,
        chunks: Vec<Chunk>,
    ) -> (r: Self)
        ensures
            r == (Sector { deleted, level, previous, next, payload, chunks }),
    {
        Sector { deleted, level, previous, next, payload, chunks }
    }
}

/// The index of the block that follows, as a block's header gives it.
pub open spec fn next_field(sector: Seq<u8>) -> nat {
    int_value(sector.subrange(8, 12))
}

/// Reads a block's header; the payload is everything after it.
pub fn get_sector(sector: &[u8]) -> (r: Sector)
    requires
        sector@.len() >= SECTOR_HEADER,
    ensures
        r.deleted == (sector@[0] != 0),
        r.level == sector@[1] as u32,
        r.previous as nat == int_value(sector@.subrange(4, 8)),
        r.next as nat == next_field(sector@),
        r.payload@ == sector@.subrange(SECTOR_HEADER as int, sector@.len() as int),
        r.chunks@.len() == 0,
{
    let previous = get_int(slice_subrange(sector, 4, 8));
    let next = get_int(slice_subrange(sector, 8, 12));
    let mut payload: Vec<u8> = Vec::with_capacity(sector.len() - SECTOR_HEADER);
    let mut i: usize = SECTOR_HEADER;
    while i < sector.len()
        invariant
            SECTOR_HEADER <= i <= sector@.len(),
            payload@ == sector@.subrange(SECTOR_HEADER as int, i as int),
        decreases sector.len() - i,
    {
        payload.push(sector[i]);
        i += 1;
        assert(payload@ =~= sector@.subrange(SECTOR_HEADER as int, i as int));
    }
    proof {
        let b = sector@.subrange(4, 8);
        assert(int_value(b) < 0x1_0000_0000) by (nonlinear_arith)
            requires
                b.len() == 4,
                b[0] < 256, b[1] < 256, b[2] < 256, b[3] < 256,
                int_value(b) == b[0] as nat * 0x100_0000 + b[1] as nat * 0x1_0000 + b[2] as nat * 0x100 + b[3] as nat;
    }
    Sector::new(sector[0] != 0, sector[1] as u32, previous as u32, next, payload, Vec::new())
}

} // verus!
