//! Names by chance, the resources of the machine, and settings.
use crate::config::NodeResources;
use crate::secondary::metrics::{cores, whole_cores};
use crate::text::digit;
use vstd::prelude::*;

verus! {

/// Bytes in hexadecimal, two digits each.
pub open spec fn hex_of(bytes: Seq<u8>) -> Seq<char> {
    Seq::new(
        2 * bytes.len(),
        |i: int|
            if i % 2 == 0 {
                digit(bytes[i / 2] as int / 16)
            } else {
                digit(bytes[i / 2] as int % 16)
            },
    )
}

/// Writes bytes in hexadecimal.
///
/// Calls `hex::encode`, which writes two lower-case digits for each byte, the
/// upper half first.
#[verifier::external_body]
fn encode(bytes: &Vec<u8>) -> (res: String)
    ensures
        res@ == hex_of(bytes@),
{
    hex::encode(bytes)
}

/// Fills a buffer by chance.
///
/// Calls `rand::Rng::fill` on the generator of the thread, which overwrites
/// the bytes of the buffer and keeps its length. What they are rests on
/// chance; nothing is said of it.
#[verifier::external_body]
fn fill(bytes: &mut Vec<u8>)
    ensures
        final(bytes)@.len() == old(bytes)@.len(),
{
    rand::Rng::fill(&mut rand::thread_rng(), &mut bytes[..])
}

/// Writes bytes in hexadecimal.
pub fn hex_identifier(bytes: &Vec<u8>) -> (res: String)
    ensures
        res@ == hex_of(bytes@),
{
    encode(bytes)
}

/// Whether a text is so many bytes in hexadecimal.
pub open spec fn is_hex(text: Seq<char>, len: nat) -> bool {
    exists|bytes: Seq<u8>| bytes.len() == len && text == #[trigger] hex_of(bytes)
}

fn generate_hex(len: usize) -> (res: String)
    ensures
        is_hex(res@, len as nat),
{
    let mut bytes: Vec<u8> = vec![0; len];
    fill(&mut bytes);
    let res = hex_identifier(&bytes);
    assert(res@ == hex_of(bytes@));
    res
}

/// Makes a name by chance: eight bytes in hexadecimal.
pub fn generate_id() -> (res: String)
    ensures
        is_hex(res@, 8),
        res@.len() == 16,
{
    generate_hex(8)
}

/// Makes a token by chance: sixteen bytes in hexadecimal.
pub fn generate_token() -> (res: String)
    ensures
        is_hex(res@, 16),
        res@.len() == 32,
{
    generate_hex(16)
}

/// How many processors there are.
///
/// Calls `num_cpus::get`, which always gives at least one. The rest depends
/// on the machine; nothing is said of it.
#[verifier::external_body]
fn cpu_count() -> (res: usize)
    ensures
        res >= 1,
{
    num_cpus::get()
}

/// How many bytes of memory there are.
///
/// Calls `sysinfo::System::total_memory` on figures refreshed for it. The
/// number depends on the machine; nothing is said of it.
#[verifier::external_body]
fn total_memory() -> (res: u64) {
    let mut system = sysinfo::System::new();
    system.refresh_memory();
    system.total_memory()
}

/// The resources of a machine of which nothing is taken yet.
pub open spec fn untaken(cpus: nat, memory: u64) -> NodeResources {
    NodeResources {
        cpu_total: cores(cpus),
        cpu_available: cores(cpus),
        memory_total: memory,
        memory_available: memory,
    }
}

/// The resources of a machine with so many processors and bytes of memory, of
/// which nothing is taken yet.
pub fn whole_machine(cpus: usize, memory: u64) -> (res: NodeResources)
    ensures
        res == untaken(cpus as nat, memory),
{
    let cpu_total: u64 = whole_cores(cpus);
    NodeResources {
        cpu_total,
        cpu_available: cpu_total,
        memory_total: memory,
        memory_available: memory,
    }
}

/// Detect this node's hardware resources.
pub fn detect_resources() -> (res: NodeResources)
    ensures
        exists|cpus: nat, memory: u64| cpus >= 1 && res == #[trigger] untaken(cpus, memory),
{
    let cpus: usize = cpu_count();
    let memory: u64 = total_memory();
    assert(cpus as nat >= 1);
    whole_machine(cpus, memory)
}

/// How the nodes agree on the replicated state. Times are in milliseconds.
#[derive(Clone, Copy, Debug, PartialEq, Eq, Structural)]
pub struct RaftSettings {
    pub heartbeat_interval: u64,
    pub election_timeout_min: u64,
    pub election_timeout_max: u64,
    pub snapshot_after_logs: u64,
    pub max_in_snapshot_log_to_keep: u64,
}

/// How the nodes agree on the replicated state, with the given settings for
/// snapshots.
pub fn default_raft_config(snapshot_after_logs: u64, max_in_snapshot_log_to_keep: u64) -> (res:
    RaftSettings)
    ensures
        res == (RaftSettings {
            heartbeat_interval: 1000,
            election_timeout_min: 3000,
            election_timeout_max: 5000,
            snapshot_after_logs,
            max_in_snapshot_log_to_keep,
        }),
{
    RaftSettings {
        heartbeat_interval: 1000,
        election_timeout_min: 3000,
        election_timeout_max: 5000,
        snapshot_after_logs,
        max_in_snapshot_log_to_keep,
    }
}

/// Texts in hexadecimal of different bytes differ.
pub proof fn hex_texts_tell_bytes_apart(a: Seq<u8>, b: Seq<u8>)
    requires
        hex_of(a) == hex_of(b),
    ensures
        a == b,
{
    assert(hex_of(a).len() == 2 * a.len() && hex_of(b).len() == 2 * b.len());
    assert forall|i: int| 0 <= i < a.len() implies a[i] == b[i] by {
        let (x, y) = (a[i] as int, b[i] as int);
        assert((2 * i) / 2 == i && (2 * i) % 2 == 0);
        assert((2 * i + 1) / 2 == i && (2 * i + 1) % 2 == 1);
        assert(hex_of(a)[2 * i] == digit(x / 16) && hex_of(b)[2 * i] == digit(y / 16));
        assert(hex_of(a)[2 * i + 1] == digit(x % 16) && hex_of(b)[2 * i + 1] == digit(y % 16));
        assert(x / 16 == y / 16);
        assert(x % 16 == y % 16);
    }
    assert(a =~= b);
}

/// Each byte is written as two digits, the upper half first.
pub proof fn bytes_are_written_as_two_digits(bytes: Seq<u8>, i: int)
    requires
        0 <= i < bytes.len(),
    ensures
        hex_of(bytes).len() == 2 * bytes.len(),
        hex_of(bytes)[2 * i] == digit(bytes[i] as int / 16),
        hex_of(bytes)[2 * i + 1] == digit(bytes[i] as int % 16),
{
    assert((2 * i) / 2 == i && (2 * i) % 2 == 0);
    assert((2 * i + 1) / 2 == i && (2 * i + 1) % 2 == 1);
}

/// Of a machine of which nothing is taken all is free.
pub proof fn untaken_machines_are_free(cpus: nat, memory: u64)
    ensures
        untaken(cpus, memory).cpu_total == vstd::math::min(
            1_000_000_000 * cpus as int,
            u64::MAX as int,
        ),
        untaken(cpus, memory).cpu_available == untaken(cpus, memory).cpu_total,
        untaken(cpus, memory).memory_total == memory,
        untaken(cpus, memory).memory_available == memory,
{
}

} // verus!
