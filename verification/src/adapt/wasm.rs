//! The arithmetic of the plugin ABI: where an event is written into a plugin's
//! linear memory, how a plugin's packed result is read, and the host calls'
//! decisions.
use vstd::prelude::*;

verus! {

/// Bytes in a WebAssembly page.
pub const WASM_PAGE: u64 = 65536u64;

/// Where an event of `data_len` bytes is written: at the current end of
/// memory, after growing it by `grow_pages` pages.
#[derive(Debug, PartialEq, Eq)]
pub struct WritePlan {
    pub offset: u64,
    pub grow_pages: u64,
}

/// The plan for writing `data_len` bytes into a memory of `current_pages` pages.
pub open spec fn write_plan_spec(current_pages: u64, data_len: u64) -> WritePlan {
    let current_bytes = current_pages * 65536;
    let needed = ((current_bytes + data_len + 65535) / 65536) as u64;
    WritePlan {
        offset: current_bytes as u64,
        grow_pages: if needed > current_pages {
            (needed - current_pages) as u64
        } else {
            0
        },
    }
}

/// The event is written at the old end of memory, so it never overlaps memory
/// the plugin already uses; the memory grows until the event fits, and by no
/// page more than that.
pub proof fn law_write_plan(current_pages: u64, data_len: u64)
    requires
        current_pages * 65536 + data_len + 65535 <= u64::MAX,
    ensures
        write_plan_spec(current_pages, data_len).offset == current_pages * 65536,
        write_plan_spec(current_pages, data_len).offset + data_len <= (current_pages
            + write_plan_spec(current_pages, data_len).grow_pages) * 65536,
        write_plan_spec(current_pages, data_len).grow_pages == 0 || (current_pages
            + write_plan_spec(current_pages, data_len).grow_pages - 1) * 65536 < current_pages
            * 65536 + data_len,
{
    let cb: int = current_pages * 65536;
    let needed: int = (cb + data_len + 65535) / 65536;
    assert(cb <= u64::MAX);
    assert(needed * 65536 <= cb + data_len + 65535 && needed * 65536 > cb + data_len - 1)
        by (nonlinear_arith)
        requires
            needed == (cb + data_len + 65535) / 65536,
            cb >= 0,
            data_len >= 0,
    ;
    assert(needed >= current_pages) by (nonlinear_arith)
        requires
            needed * 65536 > cb + data_len - 1,
            cb == current_pages * 65536,
            data_len >= 0,
    ;
    let w = write_plan_spec(current_pages, data_len);
    assert(w.grow_pages == needed - current_pages);
    assert((current_pages + (needed - current_pages)) * 65536 == needed * 65536);
    assert((current_pages + (needed - current_pages) - 1) * 65536 == needed * 65536 - 65536)
        by (nonlinear_arith);
}

/// Plans the write of an event: the event goes right after the current end of
/// memory, which grows by as many pages as it needs.
pub fn plan_event_write(current_pages: u64, data_len: u64) -> (p: WritePlan)
    requires
        current_pages * 65536 + data_len + 65535 <= u64::MAX,
    ensures
        p == write_plan_spec(current_pages, data_len),
        p.offset + data_len <= (current_pages + p.grow_pages) * 65536,
        p.offset == current_pages * 65536,
        p.grow_pages == 0 || (current_pages + p.grow_pages - 1) * 65536 < current_pages * 65536
            + data_len,
{
    proof {
        law_write_plan(current_pages, data_len);
    }
    let current_bytes = current_pages * WASM_PAGE;
    let needed = (current_bytes + data_len + 0xFFFF) / WASM_PAGE;
    let grow = if needed > current_pages {
        needed - current_pages
    } else {
        0
    };
    assert((current_bytes + data_len + 65535) / 65536 * 65536 >= current_bytes + data_len) by (nonlinear_arith)
        requires
            current_bytes == current_pages * 65536,
    ;
    assert(current_bytes + data_len <= (current_pages + grow) * 65536) by (nonlinear_arith)
        requires
            needed == (current_bytes + data_len + 65535) / 65536,
            needed * 65536 >= current_bytes + data_len,
            current_bytes == current_pages * 65536,
            grow == if needed > current_pages { needed - current_pages } else { 0 },
    ;
    WritePlan { offset: current_bytes, grow_pages: grow }
}

/// The arguments of the plugin's event entry point: offset and length, each
/// taken as a 32-bit value.
pub fn call_args(offset: u64, data_len: u64) -> (r: (i32, i32))
    ensures
        r.0 == offset as i32,
        r.1 == data_len as i32,
{
    (offset as i32, data_len as i32)
}

/// The pointer half of a packed result.
pub open spec fn result_ptr(result: i64) -> i32 {
    (result >> 32u64) as i32
}

/// The length half of a packed result, its sign bit cleared.
pub open spec fn result_len(result: i64) -> i32 {
    (result as i32) & 0x7FFF_FFFFi32
}

/// Reads a plugin's packed result `(pointer << 32) | length`: `None` for a
/// null pointer or an empty length, which mean no result.
pub fn decode_result(result: i64) -> (r: Option<(i32, i32)>)
    ensures
        r matches Some(p) ==> p.0 == result_ptr(result) && p.1 == result_len(result) && p.0 != 0
            && p.1 > 0,
        r is None <==> result_ptr(result) == 0 || result_len(result) <= 0,
{
    let ptr = (result >> 32u64) as i32;
    let raw = (result as i32) & 0x7FFF_FFFFi32;
    let len = if raw > 0 {
        raw
    } else {
        0
    };
    if ptr == 0 || len <= 0 {
        None
    } else {
        Some((ptr, len))
    }
}

/// Packs a result for the host: `(pointer << 32) | (length & 0x7FFFFFFF)`.
pub fn pack_result(ptr: i32, len: i32) -> (r: i64)
    ensures
        r == ((ptr as i64) << 32u64) | ((len as i64) & 0x7FFF_FFFFi64),
{
    ((ptr as i64) << 32u64) | ((len as i64) & 0x7FFF_FFFFi64)
}

/// What the host reads back is what the plugin packed, for every non-null
/// pointer and positive length.
pub proof fn law_decode_packed(ptr: i32, len: i32)
    requires
        ptr != 0,
        len > 0,
    ensures
        result_ptr(((ptr as i64) << 32u64) | ((len as i64) & 0x7FFF_FFFFi64)) == ptr,
        result_len(((ptr as i64) << 32u64) | ((len as i64) & 0x7FFF_FFFFi64)) == len,
{
    assert(((((ptr as i64) << 32u64) | ((len as i64) & 0x7FFF_FFFFi64)) >> 32u64) as i32 == ptr)
        by (bit_vector);
    assert(((((ptr as i64) << 32u64) | ((len as i64) & 0x7FFF_FFFFi64)) as i32) & 0x7FFF_FFFFi32
        == len) by (bit_vector)
        requires
            len > 0,
    ;
}

/// How many bytes of the plugin configuration's JSON are written into a
/// buffer of `max_len` bytes: all of them, or as many as fit; a negative
/// buffer size holds nothing.
pub fn config_write_len(json_len: usize, max_len: i32) -> (n: usize)
    ensures
        max_len < 0 ==> n == 0,
        max_len >= 0 ==> n == if json_len < max_len as usize {
            json_len
        } else {
            max_len as usize
        },
{
    if max_len < 0 {
        return 0;
    }
    let m = max_len as usize;
    if json_len < m {
        json_len
    } else {
        m
    }
}

/// Whether a plugin's log call carries a message: a non-null pointer and a
/// positive length.
pub fn log_call_has_message(ptr: i32, len: i32) -> (b: bool)
    ensures
        b == !(ptr == 0 || len <= 0),
{
    !(ptr == 0 || len <= 0)
}

/// The level of a plugin's log message.
#[derive(Debug, PartialEq, Eq)]
pub enum LogLevel {
    Error,
    Warn,
    Info,
    Debug,
    Trace,
}

/// Levels 1 to 4 are error, warn, info and debug; any other is trace.
pub fn log_level(level: i32) -> (l: LogLevel)
    ensures
        level == 1 ==> l == LogLevel::Error,
        level == 2 ==> l == LogLevel::Warn,
        level == 3 ==> l == LogLevel::Info,
        level == 4 ==> l == LogLevel::Debug,
        !(1 <= level <= 4) ==> l == LogLevel::Trace,
{
    match level {
        1 => LogLevel::Error,
        2 => LogLevel::Warn,
        3 => LogLevel::Info,
        4 => LogLevel::Debug,
        _ => LogLevel::Trace,
    }
}

} // verus!
