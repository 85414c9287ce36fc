//! DXB executable header: layout and validation.
use vstd::prelude::*;
use crate::bytes::{le_u16_at, le_u32_at, le_u64_at, read_u16_le, read_u32_le, read_u64_le};

verus! {

/// Size of the packed header: magic (4), version (2), entry point (8),
/// section count (2), checksum (4).
pub const DXB_HEADER_SIZE: usize = 20;

/// The header at the start of a DXB file.
pub struct DxbHeader {
    pub magic: [u8; 4],
    pub version: u16,
    pub entry_point: u64,
    pub section_count: u16,
    pub checksum: u32,
}

/// Whether `data` starts with the DXB magic `7F 'D' 'X' 'B'`.
pub open spec fn has_dxb_magic(data: Seq<u8>) -> bool {
    data[0] == 0x7Fu8 && data[1] == 68u8 && data[2] == 88u8 && data[3] == 66u8
}

impl DxbHeader {
    /// Reads the header fields from the first 20 bytes of `data`.
    pub fn parse(data: &[u8]) -> (h: Self)
        requires
            data@.len() >= DXB_HEADER_SIZE,
        ensures
            h.magic@ == data@.subrange(0, 4),
            h.version == le_u16_at(data@, 4),
            h.entry_point == le_u64_at(data@, 6),
            h.section_count == le_u16_at(data@, 14),
            h.checksum == le_u32_at(data@, 16),
    {
        let magic = [data[0], data[1], data[2], data[3]];
        assert(magic@ =~= data@.subrange(0, 4));
        DxbHeader {
            magic,
            version: read_u16_le(data, 4),
            entry_point: read_u64_le(data, 6),
            section_count: read_u16_le(data, 14),
            checksum: read_u32_le(data, 16),
        }
    }
}

/// Checks a DXB image and returns its entry point. Fails when the data is
/// shorter than the header, when the magic is wrong, or when the version is
/// not 1, in that order.
pub fn load_and_verify_dxb(data: &[u8]) -> (r: Result<u64, &'static str>)
    ensures
        data@.len() < DXB_HEADER_SIZE ==> (r matches Err(e) && e@ == "File too small for DXB header"@),
        data@.len() >= DXB_HEADER_SIZE && !has_dxb_magic(data@) ==> (r matches Err(e) && e@
            == "Invalid DXB magic signature"@),
        data@.len() >= DXB_HEADER_SIZE && has_dxb_magic(data@) && le_u16_at(data@, 4) != 1 ==> (r matches Err(e)
            && e@ == "Unsupported DXB version"@),
        data@.len() >= DXB_HEADER_SIZE && has_dxb_magic(data@) && le_u16_at(data@, 4) == 1 ==> r
            == Ok::<u64, &'static str>(le_u64_at(data@, 6)),
{
    if data.len() < DXB_HEADER_SIZE {
        return Err("File too small for DXB header");
    }
    let header = DxbHeader::parse(data);
    if !(header.magic[0] == 0x7F && header.magic[1] == 68 && header.magic[2] == 88 && header.magic[3] == 66) {
        return Err("Invalid DXB magic signature");
    }
    if header.version != 1 {
        return Err("Unsupported DXB version");
    }
    Ok(header.entry_point)
}

} // verus!
