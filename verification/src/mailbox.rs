//! The VideoCore mailbox: message words, status tests, and the property
//! buffers that ask the firmware for the framebuffer and the ARM memory.
use vstd::prelude::*;
use crate::mmio::RegWrite;

verus! {

/// Base of the mailbox registers.
pub const MAILBOX_BASE: usize = 0x3F00_B880;
/// Read register.
pub const MAILBOX_READ: usize = 0x3F00_B880;
/// Status register.
pub const MAILBOX_STATUS: usize = 0x3F00_B898;
/// Write register.
pub const MAILBOX_WRITE: usize = 0x3F00_B8A0;
/// Status bit: nothing to read.
pub const MAILBOX_EMPTY: u32 = 0x4000_0000;
/// Status bit: no room to write.
pub const MAILBOX_FULL: u32 = 0x8000_0000;
/// The property-tags channel.
pub const MAILBOX_CHANNEL_PROP: u8 = 8;
/// Request/response code of a buffer the firmware answered successfully.
pub const MAILBOX_RESPONSE_SUCCESS: u32 = 0x8000_0000;
/// Property tag: allocate the framebuffer.
pub const GET_FRAMEBUFFER_TAG: u32 = 0x0004_0001;
/// Property tag: ARM memory base and size.
pub const GET_ARM_MEMORY_TAG: u32 = 0x0001_0005;

/// The word written to the mailbox for `data` on `channel`: `data` shifted
/// into bits 4-31, or-ed with the channel.
pub open spec fn mailbox_message(channel: u8, data: u32) -> u32 {
    (((data as nat * 16) % 0x1_0000_0000) as u32) | (channel as u32)
}

/// What a word read from the mailbox carries for `channel`: its upper 28
/// bits when its low four bits name the channel.
pub open spec fn mailbox_payload(channel: u8, word: u32) -> Option<u32> {
    if word % 16 == channel as u32 {
        Some(word / 16)
    } else {
        None
    }
}

/// Whether the mailbox holds a word to read, given its status register.
pub fn mailbox_can_read(status: u32) -> (r: bool)
    ensures
        r == (status & MAILBOX_EMPTY == 0),
{
    status & MAILBOX_EMPTY == 0
}

/// Whether the mailbox accepts a word, given its status register.
pub fn mailbox_can_write(status: u32) -> (r: bool)
    ensures
        r == (status & MAILBOX_FULL == 0),
{
    status & MAILBOX_FULL == 0
}

/// The payload of a word read from the mailbox if it answers `channel`;
/// `None` means the word belongs to another channel and is skipped.
pub fn mailbox_read(channel: u8, word: u32) -> (r: Option<u32>)
    ensures
        r == mailbox_payload(channel, word),
{
    proof {
        assert(word & 0xF == word % 16) by (bit_vector);
        assert(word >> 4 == word / 16) by (bit_vector);
    }
    if (word & 0xF) == channel as u32 {
        Some(word >> 4)
    } else {
        None
    }
}

/// The store that posts `data` on `channel`.
pub fn mailbox_write(channel: u8, data: u32) -> (w: RegWrite)
    ensures
        w.addr == MAILBOX_WRITE,
        w.value == mailbox_message(channel, data),
        channel < 16 ==> w.value == (data % 0x1000_0000) * 16 + channel,
{
    let c: u32 = channel as u32;
    proof {
        assert(data << 4 == ((data as nat * 16) % 0x1_0000_0000) as u32) by (bit_vector);
        assert(c < 16 ==> (data << 4) | c == (data % 0x1000_0000) * 16 + c) by (bit_vector);
    }
    RegWrite { addr: MAILBOX_WRITE, value: (data << 4) | c }
}

/// A word posted on a channel below 16 is read back on that channel with
/// its data, when the data fits in 28 bits.
pub proof fn lemma_mailbox_roundtrip(channel: u8, data: u32)
    requires
        channel < 16,
        data < 0x1000_0000,
    ensures
        mailbox_payload(channel, mailbox_message(channel, data)) == Some(data),
{
    let c: u32 = channel as u32;
    assert((((data as nat * 16) % 0x1_0000_0000) as u32) == data << 4) by (bit_vector);
    assert(((data << 4) | c) % 16 == c && ((data << 4) | c) / 16 == data) by (bit_vector)
        requires
            c < 16,
            data < 0x1000_0000,
    ;
}

/// A word posted on one channel below 16 is not read on another one.
pub proof fn lemma_mailbox_other_channel(channel: u8, other: u8, data: u32)
    requires
        channel < 16,
        other < 16,
        channel != other,
    ensures
        mailbox_payload(other, mailbox_message(channel, data)) is None,
{
    let c: u32 = channel as u32;
    assert((((data as nat * 16) % 0x1_0000_0000) as u32) == data << 4) by (bit_vector);
    assert(((data << 4) | c) % 16 == c) by (bit_vector)
        requires
            c < 16,
    ;
}

/// The property request for the buffer at `buffer_addr` (16-byte aligned):
/// its address divided by 16, posted on the property channel.
pub fn property_request(buffer_addr: u32) -> (w: RegWrite)
    ensures
        w.addr == MAILBOX_WRITE,
        w.value == mailbox_message(MAILBOX_CHANNEL_PROP, buffer_addr / 16),
{
    proof {
        assert(buffer_addr >> 4 == buffer_addr / 16) by (bit_vector);
    }
    mailbox_write(MAILBOX_CHANNEL_PROP, buffer_addr >> 4)
}

/// Whether the firmware answered the request for the buffer at
/// `buffer_addr`: the payload read back is the request's, and the buffer's
/// response code says success.
pub open spec fn property_answered(buffer_addr: u32, response: u32, code: u32) -> bool {
    response == buffer_addr / 16 && code == MAILBOX_RESPONSE_SUCCESS
}

/// The property buffer that asks for a framebuffer.
pub struct MailboxBuffer {
    /// Size, code, tag, value size, request size, width/address,
    /// height/pitch, end tag.
    pub buffer: [u32; 8],
}

impl MailboxBuffer {
    /// The request as first sent: an 800x600 framebuffer.
    pub fn new() -> (b: MailboxBuffer)
        ensures
            b.buffer@ == seq![32u32, 0u32, GET_FRAMEBUFFER_TAG, 8u32, 8u32, 800u32, 600u32, 0u32],
    {
        MailboxBuffer { buffer: [32, 0, GET_FRAMEBUFFER_TAG, 8, 8, 800, 600, 0] }
    }
}

/// The property buffer that asks for the ARM memory range.
pub struct RamInfoBuffer {
    /// Size, code, tag, value size, request size, base, size, end tag.
    pub buffer: [u32; 8],
}

impl RamInfoBuffer {
    /// The request as first sent.
    pub fn new() -> (b: RamInfoBuffer)
        ensures
            b.buffer@ == seq![32u32, 0u32, GET_ARM_MEMORY_TAG, 8u32, 8u32, 0u32, 0u32, 0u32],
    {
        RamInfoBuffer { buffer: [32, 0, GET_ARM_MEMORY_TAG, 8, 8, 0, 0, 0] }
    }
}

/// The framebuffer address (as a bus address with the top two bits cleared)
/// and pitch, from the answer to the request for `buffer` at `buffer_addr`;
/// `None` when the firmware did not answer it.
pub fn get_framebuffer_address(buffer_addr: u32, response: u32, buffer: &MailboxBuffer) -> (r:
    Option<(u32, u32)>)
    ensures
        r == (if property_answered(buffer_addr, response, buffer.buffer@[1]) {
            Some(((buffer.buffer@[5] % 0x4000_0000) as u32, buffer.buffer@[6]))
        } else {
            None
        }),
{
    proof {
        assert(buffer_addr >> 4 == buffer_addr / 16) by (bit_vector);
    }
    if response == (buffer_addr >> 4) && buffer.buffer[1] == MAILBOX_RESPONSE_SUCCESS {
        let raw: u32 = buffer.buffer[5];
        proof {
            assert(raw & 0x3FFF_FFFF == raw % 0x4000_0000) by (bit_vector);
        }
        Some((raw & 0x3FFF_FFFF, buffer.buffer[6]))
    } else {
        None
    }
}

/// The ARM memory base and size, from the answer to the request for
/// `buffer` at `buffer_addr`; `None` when the firmware did not answer it.
pub fn get_ram_info(buffer_addr: u32, response: u32, buffer: &RamInfoBuffer) -> (r: Option<(u32, u32)>)
    ensures
        r == (if property_answered(buffer_addr, response, buffer.buffer@[1]) {
            Some((buffer.buffer@[5], buffer.buffer@[6]))
        } else {
            None
        }),
{
    proof {
        assert(buffer_addr >> 4 == buffer_addr / 16) by (bit_vector);
    }
    if response == (buffer_addr >> 4) && buffer.buffer[1] == MAILBOX_RESPONSE_SUCCESS {
        Some((buffer.buffer[5], buffer.buffer[6]))
    } else {
        None
    }
}

/// A mailbox word carries its channel in the low four bits and its data in
/// the upper 28: the word `16 * d + c` is read on channel `c` as `d`, and on
/// no other channel.
pub proof fn lemma_mailbox_word_layout(channel: u8, other: u8, data: u32)
    requires
        channel < 16,
        other < 16,
        other != channel,
        data < 0x1000_0000,
    ensures
        mailbox_payload(channel, (data * 16 + channel) as u32) == Some(data),
        mailbox_payload(other, (data * 16 + channel) as u32) is None,
        mailbox_message(channel, data) == data * 16 + channel,
{
    lemma_mailbox_roundtrip(channel, data);
}

/// The firmware's answer is accepted exactly when the word read back on the
/// property channel is the request (the buffer address over 16) and the
/// buffer's code is 0x80000000; in particular an echo of the request word
/// is accepted once the code says success.
pub proof fn lemma_property_echo_accepted(buffer_addr: u32, code: u32)
    ensures
        mailbox_payload(MAILBOX_CHANNEL_PROP, mailbox_message(MAILBOX_CHANNEL_PROP, buffer_addr / 16))
            == Some(buffer_addr / 16),
        property_answered(buffer_addr, buffer_addr / 16, code) == (code == 0x8000_0000),
        forall|r: u32| r != buffer_addr / 16 ==> !property_answered(buffer_addr, r, code),
{
    lemma_mailbox_roundtrip(MAILBOX_CHANNEL_PROP, buffer_addr / 16);
}

} // verus!
