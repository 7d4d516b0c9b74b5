use vstd::prelude::*;
use crate::flash::{frange, is_inbounds};
use crate::icd::{FlashWriteCommand as WriteCmd, AppPartitionInfo, EraseError, FlashEraseCommand, FlashReadCommand, FlashWriteCommand, ReadError, WriteError};

verus! {

/// Most bytes that one flash read hands back.
pub const CHUNK_LIMIT: usize = 512;

/// Whether the request lies inside the flash region.
pub open spec fn in_region(addr: u32, len: u32, flash_start: usize, flash_len: usize) -> bool {
    flash_start <= addr && addr + len <= flash_start + flash_len
}

/// `a + b`, saturating at the largest `u32`.
pub open spec fn sat_add(a: u32, b: u32) -> u32 {
    if a + b > u32::MAX {
        u32::MAX
    } else {
        (a + b) as u32
    }
}

/// The most bytes that one read may ask for, with a transfer buffer of
/// `buf_len` bytes.
pub open spec fn read_limit(buf_len: usize) -> usize {
    if CHUNK_LIMIT <= buf_len {
        CHUNK_LIMIT
    } else {
        buf_len
    }
}

/// What the bootloader reports of the application's flash region.
pub fn get_info(flash_start: usize, flash_len: usize, buf_len: usize, write_sz: u32, erase_sz: u32) -> (r: AppPartitionInfo)
    ensures
        r.start == flash_start as u32,
        r.len == flash_len as u32,
        r.transfer_chunk == read_limit(buf_len) as u32,
        r.write_sz == write_sz,
        r.erase_sz == erase_sz,
        r.align == 4,
{
    let transfer_chunk = if CHUNK_LIMIT <= buf_len {
        CHUNK_LIMIT
    } else {
        buf_len
    };
    AppPartitionInfo {
        start: flash_start as u32,
        len: flash_len as u32,
        transfer_chunk: transfer_chunk as u32,
        write_sz,
        erase_sz,
        align: 4,
    }
}

/// Checks a flash read against the region and the transfer buffer, and
/// gives the offset into the region to read from.
pub fn read_flash_check(arg: &FlashReadCommand, flash_start: usize, flash_len: usize, buf_len: usize) -> (r: Result<usize, ReadError>)
    requires
        flash_start + flash_len <= usize::MAX,
    ensures
        !in_region(arg.start, arg.len, flash_start, flash_len) ==> r == Err::<usize, ReadError>(
            ReadError::OutOfRange {
                req_start: arg.start,
                req_end: sat_add(arg.start, arg.len),
                mem_start: flash_start as u32,
                mem_end: sat_add(flash_start as u32, flash_len as u32),
            },
        ),
        in_region(arg.start, arg.len, flash_start, flash_len) && arg.len > read_limit(buf_len) ==> r
            == Err::<usize, ReadError>(
            ReadError::TooLarge { req_len: arg.len, max_len: read_limit(buf_len) as u32 },
        ),
        in_region(arg.start, arg.len, flash_start, flash_len) && arg.len <= read_limit(buf_len) ==> r
            == Ok::<usize, ReadError>((arg.start - flash_start) as usize),
{
    if !is_inbounds(arg.start, arg.len, flash_start, flash_len) {
        let (mem_start, mem_end) = frange(flash_start, flash_len);
        return Err(
            ReadError::OutOfRange {
                req_start: arg.start,
                req_end: arg.start.saturating_add(arg.len),
                mem_start,
                mem_end,
            },
        );
    }
    let limit = if CHUNK_LIMIT <= buf_len {
        CHUNK_LIMIT
    } else {
        buf_len
    };
    if arg.len as usize > limit {
        return Err(ReadError::TooLarge { req_len: arg.len, max_len: limit as u32 });
    }
    Ok(arg.start as usize - flash_start)
}

/// Checks a flash erase against the region and the erase page size.
pub fn erase_flash_check(arg: &FlashEraseCommand, flash_start: usize, flash_len: usize, erase_size: u32) -> (r: Result<(), EraseError>)
    requires
        flash_start + flash_len <= usize::MAX,
        erase_size > 0,
    ensures
        r == (if !in_region(arg.start, arg.len, flash_start, flash_len) {
            Err(EraseError::OutOfRange)
        } else if arg.start % erase_size != 0 {
            Err(EraseError::StartNotAligned)
        } else if arg.len % erase_size != 0 {
            Err(EraseError::LenNotAligned)
        } else {
            Ok(())
        }),
{
    if !is_inbounds(arg.start, arg.len, flash_start, flash_len) {
        return Err(EraseError::OutOfRange);
    }
    if arg.start % erase_size != 0 {
        return Err(EraseError::StartNotAligned);
    }
    if arg.len % erase_size != 0 {
        return Err(EraseError::LenNotAligned);
    }
    Ok(())
}

/// Checks a flash write against the region and the write word size.
pub fn write_flash_check(arg: &FlashWriteCommand, flash_start: usize, flash_len: usize, write_size: u32) -> (r: Result<(), WriteError>)
    requires
        flash_start + flash_len <= usize::MAX,
        write_size > 0,
        arg.data@.len() <= u32::MAX,
    ensures
        r == (if !in_region(arg.start, arg.data@.len() as u32, flash_start, flash_len) {
            Err(WriteError::OutOfRange)
        } else if arg.start % write_size != 0 {
            Err(WriteError::StartNotAligned)
        } else if (arg.data@.len() as u32) % write_size != 0 {
            Err(WriteError::LenNotAligned)
        } else {
            Ok(())
        }),
{
    let len = arg.data.len() as u32;
    if !is_inbounds(arg.start, len, flash_start, flash_len) {
        return Err(WriteError::OutOfRange);
    }
    if arg.start % write_size != 0 {
        return Err(WriteError::StartNotAligned);
    }
    if len % write_size != 0 {
        return Err(WriteError::LenNotAligned);
    }
    Ok(())
}

/// Whether every byte of `b` is erased (`0xFF`).
pub fn is_erased(b: &[u8]) -> (r: bool)
    ensures
        r == (forall|i: int| 0 <= i < b@.len() ==> b@[i] == 0xFF),
{
    let mut i: usize = 0;
    while i < b.len()
        invariant
            i <= b@.len(),
            forall|j: int| 0 <= j < i ==> b@[j] == 0xFF,
        decreases b@.len() - i,
    {
        if b[i] != 0xFF {
            return false;
        }
        i = i + 1;
    }
    true
}

/// Size of the bootloader's own part of flash; the application follows it.
pub const BOOT_FLASH_SIZE: u32 = 64 * 1024;

/// Size of the whole flash.
pub const TTL_FLASH: u32 = 1024 * 1024;

/// Bytes that one write command from the host carries.
pub const WRITE_CHUNK: usize = 512;

/// The little-endian word in `b[at..at + 4]`.
pub open spec fn le_word(b: Seq<u8>, at: int) -> int {
    b[at] + b[at + 1] * 0x100 + b[at + 2] * 0x1_0000 + b[at + 3] * 0x100_0000
}

/// Whether an application image whose vector table starts with `head`
/// looks bootable: its initial stack pointer lies in RAM and its reset
/// vector in the application's flash.
pub fn app_sanity_check(head: &[u8; 8]) -> (r: bool)
    ensures
        r == (0x2000_0000 <= le_word(head@, 0) <= 0x2004_0000 && BOOT_FLASH_SIZE <= le_word(head@, 4)
            < TTL_FLASH),
{
    let sp: u32 = head[0] as u32 + head[1] as u32 * 0x100 + head[2] as u32 * 0x1_0000 + head[3] as u32
        * 0x100_0000;
    let rv: u32 = head[4] as u32 + head[5] as u32 * 0x100 + head[6] as u32 * 0x1_0000 + head[7] as u32
        * 0x100_0000;
    let sp_good = 0x2000_0000 <= sp && sp <= 0x2004_0000;
    let rv_good = BOOT_FLASH_SIZE <= rv && rv < TTL_FLASH;
    sp_good && rv_good
}

/// The write commands that put `data` into flash at `start`: one per
/// `WRITE_CHUNK` bytes, in order, none forced.
pub fn write_commands(start: u32, data: &[u8]) -> (r: Vec<WriteCmd>)
    requires
        start + data@.len() <= u32::MAX + 1,
    ensures
        r@.len() == (data@.len() + WRITE_CHUNK - 1) / WRITE_CHUNK as int,
        forall|i: int|
            0 <= i < r@.len() ==> {
                &&& (#[trigger] r@[i]).start == start + i * WRITE_CHUNK
                &&& r@[i].data@ == data@.subrange(
                    i * WRITE_CHUNK,
                    if (i + 1) * WRITE_CHUNK <= data@.len() {
                        (i + 1) * WRITE_CHUNK
                    } else {
                        data@.len() as int
                    },
                )
                &&& !r@[i].force
            },
{
    let len = data.len();
    let n: usize = len / WRITE_CHUNK + if len % WRITE_CHUNK == 0 {
        0
    } else {
        1
    };
    let mut out: Vec<WriteCmd> = Vec::new();
    let mut k: usize = 0;
    let mut pos: usize = 0;
    while k < n
        invariant
            n == (len + WRITE_CHUNK - 1) / WRITE_CHUNK as int,
            len == data@.len(),
            start + len <= u32::MAX + 1,
            k <= n,
            pos as int == (if k * WRITE_CHUNK <= len {
                k * WRITE_CHUNK
            } else {
                len as int
            }),
            out@.len() == k,
            forall|i: int|
                0 <= i < k ==> {
                    &&& (#[trigger] out@[i]).start == start + i * WRITE_CHUNK
                    &&& out@[i].data@ == data@.subrange(
                        i * WRITE_CHUNK,
                        if (i + 1) * WRITE_CHUNK <= data@.len() {
                            (i + 1) * WRITE_CHUNK
                        } else {
                            data@.len() as int
                        },
                    )
                    &&& !out@[i].force
                },
        decreases n - k,
    {
        let end = if len - pos >= WRITE_CHUNK {
            pos + WRITE_CHUNK
        } else {
            len
        };
        let mut chunk: Vec<u8> = Vec::new();
        let mut j: usize = pos;
        while j < end
            invariant
                pos <= j <= end,
                end <= data@.len(),
                chunk@ == data@.subrange(pos as int, j as int),
            decreases end - j,
        {
            chunk.push(data[j]);
            j = j + 1;
            assert(data@.subrange(pos as int, j as int) == data@.subrange(pos as int, j - 1 as int).push(
                data@[j - 1],
            ));
        }
        out.push(WriteCmd { start: start + pos as u32, data: chunk, force: false });
        k = k + 1;
        pos = end;
    }
    out
}

} // verus!
