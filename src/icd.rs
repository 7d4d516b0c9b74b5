use vstd::prelude::*;

verus! {

/// How long to sleep, in milliseconds.
#[derive(Clone, Copy, Debug, PartialEq, Eq, Structural)]
pub struct SleepMillis {
    pub millis: u16,
}

/// How long a sleep took, in milliseconds.
#[derive(Clone, Copy, Debug, PartialEq, Eq, Structural)]
pub struct SleptMillis {
    pub millis: u16,
}

/// The state of a node's status LED.
#[derive(Clone, Copy, Debug, PartialEq, Eq, Structural)]
pub enum LedState {
    Off,
    On,
}

/// A test message of sixteen bytes.
#[derive(Clone, Copy, Debug, PartialEq, Eq)]
pub struct Dummy {
    pub data: [u8; 16],
}

/// Sets one LED of a strip.
#[derive(Clone, Copy, Debug, PartialEq, Eq, Structural)]
pub struct SetRGBCommand {
    pub pos: u16,
    pub color: crate::led::RGB8,
}

/// The LED named does not exist.
#[derive(Clone, Copy, Debug, PartialEq, Eq, Structural)]
pub struct InvalidIndex;

/// Run-length encoded pixels for a display, to be placed at `offset`.
#[derive(Clone, Debug, PartialEq, Eq)]
pub struct DisplayCommand {
    pub offset: u32,
    pub data: Vec<u8>,
}

/// The display was asked to draw again too soon.
#[derive(Clone, Copy, Debug, PartialEq, Eq, Structural)]
pub struct TooSoon;

/// What a spawned request handler of a node knows of it.
#[derive(Clone, Copy, Debug, PartialEq, Eq, Structural)]
pub struct TaskContext {
    pub unique_id: u64,
}

/// Where the application lives in flash, and how it may be transferred.
#[derive(Clone, Copy, Debug, PartialEq, Eq, Structural)]
pub struct AppPartitionInfo {
    pub start: u32,
    pub len: u32,
    pub transfer_chunk: u32,
    pub write_sz: u32,
    pub erase_sz: u32,
    pub align: u32,
}

/// Reads `len` bytes of flash from `start`.
#[derive(Clone, Copy, Debug, PartialEq, Eq, Structural)]
pub struct FlashReadCommand {
    pub start: u32,
    pub len: u32,
}

/// Erases `len` bytes of flash from `start`; with `force`, also pages that
/// are already erased.
#[derive(Clone, Copy, Debug, PartialEq, Eq, Structural)]
pub struct FlashEraseCommand {
    pub start: u32,
    pub len: u32,
    pub force: bool,
}

/// Writes `data` to flash at `start`; with `force`, also over bytes that are
/// not erased.
#[derive(Clone, Debug, PartialEq, Eq)]
pub struct FlashWriteCommand {
    pub start: u32,
    pub data: Vec<u8>,
    pub force: bool,
}

/// Bytes read from flash.
#[derive(Clone, Debug, PartialEq, Eq)]
pub struct DataChunk {
    pub data: Vec<u8>,
}

/// Why a flash read was refused.
#[derive(Clone, Copy, Debug, PartialEq, Eq, Structural)]
pub enum ReadError {
    OutOfRange { req_start: u32, req_end: u32, mem_start: u32, mem_end: u32 },
    TooLarge { req_len: u32, max_len: u32 },
}

/// Why a flash erase failed.
#[derive(Clone, Copy, Debug, PartialEq, Eq, Structural)]
pub enum EraseError {
    OutOfRange,
    StartNotAligned,
    LenNotAligned,
    HardwareError,
}

/// Why a flash write failed.
#[derive(Clone, Copy, Debug, PartialEq, Eq, Structural)]
pub enum WriteError {
    OutOfRange,
    StartNotAligned,
    LenNotAligned,
    NeedsErase,
    HardwareError,
}

/// The application image did not look bootable.
#[derive(Clone, Copy, Debug, PartialEq, Eq, Structural)]
pub struct FailedSanityCheck;

/// What the application and the bootloader leave for each other across a
/// reset.
#[derive(Clone, Debug, PartialEq, Eq)]
pub enum BootMessage {
    StayInBootloader,
    JustBoot,
    BootAttempted,
    AppPanicked { uptime: u64, reason: Vec<u8> },
    BootPanicked { uptime: u64, reason: Vec<u8> },
}

} // verus!
