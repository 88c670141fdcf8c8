use vstd::prelude::*;

verus! {

/// The host's memory statistics.
#[verifier::external_type_specification]
#[verifier::external_body]
pub struct ExSystem(sysinfo::System);

/// Failure to open the host's statistics.
#[verifier::external_type_specification]
#[verifier::external_body]
pub struct ExSysinfoError(sysinfo::Error);

/// How often to re-check memory while blocking, by default.
pub fn default_check_interval_ms() -> (r: u64)
    ensures
        r == 500,
{
    500
}

/// Configuration of the memory circuit breaker.
#[derive(Clone, Copy, Debug)]
pub struct Config {
    /// Memory ceiling in mebibytes: the pipeline blocks while used memory is at or above it.
    pub limit_mib: u64,
    /// How often to re-check memory while blocking, in milliseconds.
    pub check_interval_ms: u64,
}

impl Default for Config {
    fn default() -> (r: Config)
        ensures
            r.limit_mib == 512,
            r.check_interval_ms == 500,
    {
        Config { limit_mib: 512, check_interval_ms: default_check_interval_ms() }
    }
}

/// What the breaker decides for a batch.
#[derive(PartialEq, Eq, Structural, Clone, Copy, Debug)]
pub enum MemoryGate {
    /// Memory is below the ceiling: pass the batch on unchanged.
    Pass,
    /// Memory is at or above the ceiling: hold the batch, wait, check again.
    Wait { ms: u64 },
}

/// The decision for a used-memory reading, in mebibytes.
pub open spec fn gate(config: Config, used_mib: u64) -> MemoryGate {
    if used_mib < config.limit_mib {
        MemoryGate::Pass
    } else {
        MemoryGate::Wait { ms: config.check_interval_ms }
    }
}

/// Bytes in a mebibyte.
pub const MIB: u64 = 1048576;

/// A byte count in whole mebibytes, rounded down.
pub open spec fn mib(bytes: u64) -> u64 {
    bytes / MIB
}

/// A byte count in whole mebibytes, rounded down.
pub fn mib_of(bytes: u64) -> (r: u64)
    ensures
        r == mib(bytes),
        r <= u64::MAX / MIB,
{
    bytes / MIB
}

/// Opens the host's statistics (`sysinfo::System::new`); nothing is loaded yet.
#[verifier::external_body]
fn open_system() -> (r: Result<sysinfo::System, sysinfo::Error>) {
    sysinfo::System::new()
}

/// Reloads the memory figures (`sysinfo::System::refresh_memory`).
#[verifier::external_body]
fn refresh_memory(system: &mut sysinfo::System) {
    system.refresh_memory()
}

/// Used RAM in bytes as last loaded (`sysinfo::System::used_memory`); it
/// depends on the host and the moment.
#[verifier::external_body]
fn used_memory(system: &sysinfo::System) -> (r: u64) {
    system.used_memory()
}

/// Out-of-memory circuit breaker: while used memory is at or above the
/// ceiling, batches are held, so the pipeline stops reading its channel and
/// the receiver's callers wait.
pub struct MemoryProcessor {
    config: Config,
    system: sysinfo::System,
    /// The used bytes the host reported at the last reading.
    reading: Ghost<u64>,
}

impl MemoryProcessor {
    pub closed spec fn config(&self) -> Config {
        self.config
    }

    /// The used bytes the host reported (`sysinfo::System::used_memory`,
    /// right after `refresh_memory`) at the last reading.
    pub closed spec fn last_reading(&self) -> u64 {
        self.reading@
    }

    pub fn new(config: Config) -> (r: Result<MemoryProcessor, sysinfo::Error>)
        ensures
            r matches Ok(p) ==> p.config() == config,
    {
        match open_system() {
            Ok(system) => Ok(MemoryProcessor { config, system, reading: Ghost(0) }),
            Err(e) => Err(e),
        }
    }

    /// Used memory now, in whole mebibytes: the host's fresh reading in
    /// bytes, rounded down. The reading itself depends on the host and the
    /// moment; it is kept as `last_reading`.
    fn used_memory_mib(&mut self) -> (r: u64)
        ensures
            exists|bytes: u64| r == #[trigger] mib(bytes),
            r == mib(final(self).last_reading()),
            r <= u64::MAX / MIB,
            final(self).config() == old(self).config(),
    {
        refresh_memory(&mut self.system);
        let bytes = used_memory(&self.system);
        self.reading = Ghost(bytes);
        mib_of(bytes)
    }

    /// The breaker's decision for a reading of used memory.
    pub fn decide(&self, used_mib: u64) -> (g: MemoryGate)
        ensures
            g == gate(self.config(), used_mib),
    {
        if used_mib < self.config.limit_mib {
            MemoryGate::Pass
        } else {
            MemoryGate::Wait { ms: self.config.check_interval_ms }
        }
    }

    /// Reads used memory and decides: the reading, in whole mebibytes of the
    /// bytes the host reported just now (`last_reading` after the call), and
    /// the decision for it.
    pub fn check(&mut self) -> (r: (u64, MemoryGate))
        ensures
            r.1 == gate(old(self).config(), r.0),
            r.0 == mib(final(self).last_reading()),
            r.0 <= u64::MAX / MIB,
            final(self).config() == old(self).config(),
    {
        let used = self.used_memory_mib();
        let g = self.decide(used);
        (used, g)
    }
}

} // verus!
