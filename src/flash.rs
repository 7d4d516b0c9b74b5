use vstd::prelude::*;

verus! {

/// Whether `len` bytes from `addr` lie inside the application's flash
/// region of `flash_len` bytes at `flash_start`.
pub fn is_inbounds(addr: u32, len: u32, flash_start: usize, flash_len: usize) -> (r: bool)
    requires
        flash_start + flash_len <= usize::MAX,
    ensures
        r == (flash_start <= addr && addr + len <= flash_start + flash_len),
{
    let rstart = addr as usize;
    let rlen = len as usize;
    if rstart < flash_start {
        return false;
    }
    match rstart.checked_add(rlen) {
        Some(rend) => rend <= flash_start + flash_len,
        None => false,
    }
}

/// The application's flash region as a start and an end address, the end
/// saturating at the largest address.
pub fn frange(flash_start: usize, flash_len: usize) -> (r: (u32, u32))
    ensures
        r.0 == flash_start as u32,
        r.1 == (if flash_start as u32 + flash_len as u32 > u32::MAX {
            u32::MAX
        } else {
            (flash_start as u32 + flash_len as u32) as u32
        }),
{
    let start = flash_start as u32;
    (start, start.saturating_add(flash_len as u32))
}

} // verus!
