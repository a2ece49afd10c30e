//! WebAssembly plugins: their limits, and how a plugin's input and output
//! cross its linear memory.
//!
//! The host writes the JSON input at a fixed offset of the plugin's memory;
//! the plugin answers with a pointer to a frame made of a little-endian
//! 32-bit length followed by that many bytes of UTF-8 JSON.

use vstd::prelude::*;
use crate::clock::{duration_from_secs, duration_micros, duration_of_secs};
use crate::text::{has_prefix, starts_with};

verus! {

/// A failure of a plugin.
#[derive(Debug)]
pub enum WasmError {
    LoadError(String),
    InstantiationError(String),
    FunctionNotFound(String),
    ExecutionError(String),
    MemoryLimitExceeded,
    TimeoutExceeded,
    InvalidParameter(String),
    FeatureNotEnabled,
}

/// The limits a plugin runs under.
#[derive(Clone, Copy, Debug)]
pub struct WasmPluginConfig {
    /// Most memory pages (of 64 KiB).
    pub max_memory_pages: u32,
    /// Longest run.
    pub timeout: std::time::Duration,
    /// Whether instructions are metered.
    pub enable_fuel_metering: bool,
    /// Most instructions.
    pub fuel_limit: u64,
}

impl Default for WasmPluginConfig {
    fn default() -> (c: Self)
        ensures
            c.max_memory_pages == 256,
            c.timeout == duration_of_secs(30),
            duration_micros(c.timeout) == 30_000_000,
            c.enable_fuel_metering,
            c.fuel_limit == 1_000_000,
    {
        WasmPluginConfig {
            max_memory_pages: 256,
            timeout: duration_from_secs(30),
            enable_fuel_metering: true,
            fuel_limit: 1_000_000,
        }
    }
}

impl WasmPluginConfig {
    /// Tight limits: 4 MiB, five seconds, 100 000 instructions.
    pub fn strict() -> (c: Self)
        ensures
            c.max_memory_pages == 64,
            c.timeout == duration_of_secs(5),
            duration_micros(c.timeout) == 5_000_000,
            c.enable_fuel_metering,
            c.fuel_limit == 100_000,
    {
        WasmPluginConfig {
            max_memory_pages: 64,
            timeout: duration_from_secs(5),
            enable_fuel_metering: true,
            fuel_limit: 100_000,
        }
    }

    /// Loose limits: 64 MiB, five minutes, ten million instructions.
    pub fn permissive() -> (c: Self)
        ensures
            c.max_memory_pages == 1024,
            c.timeout == duration_of_secs(300),
            duration_micros(c.timeout) == 300_000_000,
            c.enable_fuel_metering,
            c.fuel_limit == 10_000_000,
    {
        WasmPluginConfig {
            max_memory_pages: 1024,
            timeout: duration_from_secs(300),
            enable_fuel_metering: true,
            fuel_limit: 10_000_000,
        }
    }
}

/// Counters of a plugin's runs.
#[derive(Clone, Copy, Debug)]
pub struct WasmPluginStats {
    pub executions: u64,
    pub total_execution_time: std::time::Duration,
    pub avg_execution_time: std::time::Duration,
    pub memory_usage: u64,
    pub fuel_consumed: u64,
}

impl Default for WasmPluginStats {
    fn default() -> (s: Self)
        ensures
            s.executions == 0,
            s.total_execution_time == duration_of_secs(0),
            s.avg_execution_time == duration_of_secs(0),
            duration_micros(s.total_execution_time) == 0,
            duration_micros(s.avg_execution_time) == 0,
            s.memory_usage == 0,
            s.fuel_consumed == 0,
    {
        WasmPluginStats {
            executions: 0,
            total_execution_time: duration_from_secs(0),
            avg_execution_time: duration_from_secs(0),
            memory_usage: 0,
            fuel_consumed: 0,
        }
    }
}

/// Where the host writes a plugin's input.
pub const INPUT_OFFSET: usize = 1024;

/// Writes `data` into `memory` at the input offset and returns that offset;
/// refused, with nothing written, when the memory is too small.
pub fn write_input(memory: &mut Vec<u8>, data: &[u8]) -> (r: Result<usize, WasmError>)
    ensures
        INPUT_OFFSET + data@.len() <= old(memory)@.len() ==> r == Ok::<usize, WasmError>(INPUT_OFFSET)
            && final(memory)@ == old(memory)@.subrange(0, INPUT_OFFSET as int) + data@
            + old(memory)@.subrange(INPUT_OFFSET + data@.len(), old(memory)@.len() as int),
        INPUT_OFFSET + data@.len() > old(memory)@.len() ==> (r matches Err(WasmError::ExecutionError(m))
            && m@ == "Failed to write to memory"@) && final(memory)@ == old(memory)@,
{
    if data.len() > memory.len() || INPUT_OFFSET > memory.len() - data.len() {
        return Err(WasmError::ExecutionError(String::from_str("Failed to write to memory")));
    }
    let ghost m0 = memory@;
    let mut i: usize = 0;
    while i < data.len()
        invariant
            INPUT_OFFSET + data@.len() <= m0.len(),
            m0.len() <= usize::MAX,
            memory@.len() == m0.len(),
            i <= data@.len(),
            forall|k: int| 0 <= k < INPUT_OFFSET ==> memory@[k] == m0[k],
            forall|k: int| INPUT_OFFSET <= k < INPUT_OFFSET + i ==> memory@[k] == data@[k - INPUT_OFFSET],
            forall|k: int| INPUT_OFFSET + i <= k < m0.len() ==> memory@[k] == m0[k],
        decreases data@.len() - i,
    {
        memory.set(INPUT_OFFSET + i, data[i]);
        i = i + 1;
    }
    assert(memory@ =~= m0.subrange(0, INPUT_OFFSET as int) + data@ + m0.subrange(
        INPUT_OFFSET + data@.len(),
        m0.len() as int,
    ));
    Ok(INPUT_OFFSET)
}

/// The little-endian value of four bytes.
pub open spec fn le_u32(b: Seq<u8>) -> nat {
    b[0] as nat + 256 * (b[1] as nat) + 65536 * (b[2] as nat) + 16777216 * (b[3] as nat)
}

/// `r` is the frame at `ptr` of `memory`: refused when its length or its
/// bytes run past the end of memory.
pub open spec fn frame_at(r: Result<Vec<u8>, WasmError>, memory: Seq<u8>, ptr: nat) -> bool {
    if ptr + 4 > memory.len() {
        r matches Err(WasmError::ExecutionError(m)) && m@ == "Failed to read length"@
    } else {
        let len = le_u32(memory.subrange(ptr as int, ptr + 4int));
        if ptr + 4 + len > memory.len() {
            r matches Err(WasmError::ExecutionError(m)) && m@ == "Failed to read data"@
        } else {
            r matches Ok(v) && v@ == memory.subrange(ptr + 4int, ptr + 4int + len)
        }
    }
}

/// Reads the answer frame at `ptr` of `memory`: a little-endian 32-bit
/// length, then that many bytes.
pub fn read_frame(memory: &[u8], ptr: u32) -> (r: Result<Vec<u8>, WasmError>)
    ensures
        frame_at(r, memory@, ptr as nat),
{
    let p = ptr as usize;
    if p > memory.len() || memory.len() - p < 4 {
        return Err(WasmError::ExecutionError(String::from_str("Failed to read length")));
    }
    let b0 = memory[p] as usize;
    let b1 = memory[p + 1] as usize;
    let b2 = memory[p + 2] as usize;
    let b3 = memory[p + 3] as usize;
    let len: u64 = (b0 as u64) + 256 * (b1 as u64) + 65536 * (b2 as u64) + 16777216 * (b3 as u64);
    assert(len == le_u32(memory@.subrange(p as int, p + 4)));
    if len > (memory.len() - p - 4) as u64 {
        return Err(WasmError::ExecutionError(String::from_str("Failed to read data")));
    }
    let n = len as usize;
    let start = p + 4;
    let mut out: Vec<u8> = Vec::new();
    let mut i: usize = 0;
    while i < n
        invariant
            start + n <= memory@.len(),
            memory@.len() <= usize::MAX,
            i <= n,
            out@ == memory@.subrange(start as int, start + i),
        decreases n - i,
    {
        out.push(memory[start + i]);
        assert(memory@.subrange(start as int, start + i + 1) =~= memory@.subrange(start as int, start + i).push(memory@[start + i]));
        i = i + 1;
    }
    Ok(out)
}

/// The exported functions a plugin offers: those whose name does not start
/// with two underscores, in order.
pub open spec fn offered(names: Seq<Seq<char>>) -> Seq<Seq<char>> {
    names.filter(|n: Seq<char>| !has_prefix(n, "__"@))
}

/// Keeps the exported names that do not start with two underscores.
pub fn plugin_exports(names: &Vec<String>) -> (r: Vec<String>)
    ensures
        Seq::new(r@.len(), |i: int| r@[i]@) == offered(Seq::new(names@.len(), |i: int| names@[i]@)),
{
    let ghost all = Seq::new(names@.len(), |i: int| names@[i]@);
    let mut out: Vec<String> = Vec::new();
    let mut i: usize = 0;
    while i < names.len()
        invariant
            all == Seq::new(names@.len(), |k: int| names@[k]@),
            i <= names@.len(),
            Seq::new(out@.len(), |k: int| out@[k]@) == offered(all.take(i as int)),
        decreases names@.len() - i,
    {
        let ghost before = Seq::new(out@.len(), |k: int| out@[k]@);
        assert(all.take(i + 1) =~= all.take(i as int).push(all[i as int]));
        proof {
            all.take(i as int).lemma_filter_push(all[i as int], |n: Seq<char>| !has_prefix(n, "__"@));
        }
        if !starts_with(names[i].as_str(), "__") {
            out.push(names[i].clone());
            assert(Seq::new(out@.len(), |k: int| out@[k]@) =~= before.push(all[i as int]));
        }
        i = i + 1;
    }
    assert(all.take(names@.len() as int) =~= all);
    out
}

} // verus!
