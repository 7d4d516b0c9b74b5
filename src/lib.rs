//! Transport core of a radio bridging fabric that lets a host address many
//! low-power nodes through one bridge: fragment reassembly, the bridge's
//! pipe table, the control-message codec, the decision logic of the bridge
//! and node engines, and the helpers of the nodes and their bootloader.

mod boot;
mod bridge;
mod bytes;
mod cli;
mod codec;
mod dump;
mod flash;
mod frag;
mod icd;
mod laws;
mod led;
mod node;
mod rle;
mod table;

pub use frag::{frag_start, frag_step, frag_wf, FragBuf, FragStatus, FRAG_CAPACITY, FRAG_CHUNK};
pub use laws::{chunks_of, lemma_chunks_rejoin, feed, joined, lemma_fast_path, lemma_rejection, lemma_restart, lemma_round_trip};
pub use table::{
    alloc_pipe, allocation, holds, occupied_serials, present, snapshot_items, survives, Element, PipeAlloc,
    Serial, Table, PIPE_SLOTS,
};
pub use codec::{
    after_header, b2n_body_len, b2n_bytes, b2n_decodable, b2n_unique, decode_b2n, decode_n2b, extract_topic2,
    has_key2, header2_bytes, header_len, key_bytes, key_width, lemma_b2n_frame_round_trip,
    lemma_n2b_frame_round_trip, n2b_body_len, n2b_bytes, n2b_decodable, n2b_unique, seq_width, write_topic2,
    Bridge2Node, ControlMessage, HeaderKey, Node2Bridge, TopicExtract,
};
pub use bridge::{
    ack_pipe, chunk_count, chunk_of, fbufs, proxy_frame, proxy_handler, Bridge, Dispatch, ProxyError,
    ProxyMessage, TIMEOUT_MS,
};
pub use node::{
    ack_in, attach_reply, le_bytes, n2b_proxy_frame, rx_event, serial_bytes, wrap_inc, Attach, EsbRx, EsbTx,
    KeepaliveTimer, Packet, RxEvent, KEEPALIVE_MS,
};
pub use rle::{decode_to, expand_run, postcard_i32, rle_decode, run_len, run_step, DecodeError};
pub use cli::{
    digit_of, digits_value, hex_or_dec, hex_or_dec_digits, radix_value, radix_value_upto, strip_0x, strip_h,
    FromStrRadix,
};
pub use dump::{
    dump_chunk, dump_line, dump_lines, hex2, hex8, hex_col, hex_digit, line_bytes, line_count, shown, text_col,
    DUMP_WIDTH,
};
pub use flash::{frange, is_inbounds};
pub use boot::{
    app_sanity_check, erase_flash_check, get_info, in_region, is_erased, le_word, read_flash_check, read_limit,
    sat_add, write_commands, write_flash_check, BOOT_FLASH_SIZE, CHUNK_LIMIT, TTL_FLASH, WRITE_CHUNK,
};
pub use led::{
    bit_word, channel, fill, msb_bit, set_all_rgb, set_one_rgb, RGB8, BUF_CT, LED_CT, RES, T0H, T1H,
};
pub use icd::{
    AppPartitionInfo, BootMessage, DataChunk, DisplayCommand, Dummy, EraseError, FailedSanityCheck,
    FlashEraseCommand, FlashReadCommand, FlashWriteCommand, InvalidIndex, LedState, ReadError, SetRGBCommand,
    SleepMillis, SleptMillis, TaskContext, TooSoon, WriteError,
};
