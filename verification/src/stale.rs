//! When a cached artifact must be made again.
use vstd::prelude::*;

verus! {

/// A file's modification time, as seconds and nanoseconds since the Unix epoch.
#[derive(Clone, Copy, Debug, PartialEq, Eq, Structural)]
pub struct Timestamp {
    pub secs: i64,
    pub nanos: u32,
}

impl Timestamp {
    /// `self` is later than `other`.
    pub open spec fn later_than(self, other: Timestamp) -> bool {
        self.secs > other.secs || (self.secs == other.secs && self.nanos > other.nanos)
    }

    /// Whether `self` is later than `other`.
    pub fn is_later(&self, other: &Timestamp) -> (r: bool)
        ensures
            r == self.later_than(*other),
    {
        self.secs > other.secs || (self.secs == other.secs && self.nanos > other.nanos)
    }
}

/// What the file system says of a file: its modification time, where it keeps one, and its length.
#[derive(Clone, Copy, Debug, PartialEq, Eq, Structural)]
pub struct FileStamp {
    pub modified: Option<Timestamp>,
    pub len: u64,
}

// ---------------------------------------------------------------------------------------------
// Compiled modules
// ---------------------------------------------------------------------------------------------
/// A precompiled module is stale when it is missing, when either time is unknown, or when its
/// wasm file is later.
pub open spec fn cwasm_stale(
    cwasm_exists: bool,
    wasm_modified: Option<Timestamp>,
    cwasm_modified: Option<Timestamp>,
) -> bool {
    !cwasm_exists || match (wasm_modified, cwasm_modified) {
        (Some(w), Some(c)) => w.later_than(c),
        _ => true,
    }
}

/// True when the cached cwasm is missing or older than its source wasm.
pub fn cwasm_is_stale(
    cwasm_exists: bool,
    wasm_modified: Option<Timestamp>,
    cwasm_modified: Option<Timestamp>,
) -> (r: bool)
    ensures
        r == cwasm_stale(cwasm_exists, wasm_modified, cwasm_modified),
{
    if !cwasm_exists {
        return true;
    }
    match (wasm_modified, cwasm_modified) {
        (Some(w), Some(c)) => w.is_later(&c),
        _ => true,
    }
}

// ---------------------------------------------------------------------------------------------
// Compiled programs
// ---------------------------------------------------------------------------------------------
/// Why a cached program may or may not be reused.
#[derive(Clone, Copy, Debug, PartialEq, Eq, Structural)]
pub enum CacheCheck {
    /// The caller asked for a fresh compile.
    Forced,
    /// There is no cached file.
    Missing,
    /// The cached file has no bytes.
    Empty,
    /// The modification times decided.
    Compared { stale: bool },
}

impl CacheCheck {
    /// The check asks for a compile.
    pub open spec fn stale(self) -> bool {
        match self {
            CacheCheck::Compared { stale } => stale,
            _ => true,
        }
    }

    /// Whether the check asks for a compile.
    pub fn is_stale(&self) -> (r: bool)
        ensures
            r == self.stale(),
    {
        match self {
            CacheCheck::Compared { stale } => *stale,
            _ => true,
        }
    }
}

/// The outcome of a cache check. The first of these that holds decides: the caller forced a
/// compile, the file is missing, it is empty, and last the times.
pub open spec fn cache_check(
    cached: Option<FileStamp>,
    source_modified: Option<Timestamp>,
    compiler_modified: Option<Timestamp>,
    no_cache: bool,
) -> CacheCheck {
    if no_cache {
        CacheCheck::Forced
    } else {
        match cached {
            None => CacheCheck::Missing,
            Some(file) => if file.len == 0 {
                CacheCheck::Empty
            } else {
                CacheCheck::Compared {
                    stale: match (source_modified, compiler_modified, file.modified) {
                        (Some(s), Some(c), Some(f)) => s.later_than(f) || c.later_than(f),
                        _ => true,
                    },
                }
            },
        }
    }
}

/// Checks a cached program against its source and the compiler, and says what decided.
pub fn check_cache(
    cached: Option<FileStamp>,
    source_modified: Option<Timestamp>,
    compiler_modified: Option<Timestamp>,
    no_cache: bool,
) -> (r: CacheCheck)
    ensures
        r == cache_check(cached, source_modified, compiler_modified, no_cache),
{
    if no_cache {
        return CacheCheck::Forced;
    }
    match cached {
        None => CacheCheck::Missing,
        Some(file) => {
            if file.len == 0 {
                return CacheCheck::Empty;
            }
            let stale: bool = match (source_modified, compiler_modified, file.modified) {
                (Some(s), Some(c), Some(f)) => s.is_later(&f) || c.is_later(&f),
                _ => true,
            };
            CacheCheck::Compared { stale }
        },
    }
}

/// Checks whether a cached wasm artifact is missing, empty (0-byte), or older than either the
/// source file or the compiler wasm.
pub fn cache_is_stale(
    cached: Option<FileStamp>,
    source_modified: Option<Timestamp>,
    compiler_modified: Option<Timestamp>,
    no_cache: bool,
) -> (r: bool)
    ensures
        r == cache_check(cached, source_modified, compiler_modified, no_cache).stale(),
{
    check_cache(cached, source_modified, compiler_modified, no_cache).is_stale()
}

/// A cached program is reused exactly when no compile is forced, the file is there and holds
/// bytes, all three times are known, and neither the source nor the compiler is later.
pub proof fn reuse_needs_a_current_file(
    cached: Option<FileStamp>,
    source_modified: Option<Timestamp>,
    compiler_modified: Option<Timestamp>,
    no_cache: bool,
)
    ensures
        !cache_check(cached, source_modified, compiler_modified, no_cache).stale() <==> {
            &&& !no_cache
            &&& cached matches Some(file)
            &&& file.len > 0
            &&& file.modified matches Some(f)
            &&& source_modified matches Some(s)
            &&& compiler_modified matches Some(c)
            &&& !s.later_than(f)
            &&& !c.later_than(f)
        },
{
}

/// A later edit of the source never makes a stale program current.
pub proof fn later_source_stays_stale(
    cached: Option<FileStamp>,
    before: Timestamp,
    after: Timestamp,
    compiler_modified: Option<Timestamp>,
    no_cache: bool,
)
    requires
        !before.later_than(after),
        cache_check(cached, Some(before), compiler_modified, no_cache).stale(),
    ensures
        cache_check(cached, Some(after), compiler_modified, no_cache).stale(),
{
}

/// A later build of the compiler never makes a stale program current.
pub proof fn later_compiler_stays_stale(
    cached: Option<FileStamp>,
    source_modified: Option<Timestamp>,
    before: Timestamp,
    after: Timestamp,
    no_cache: bool,
)
    requires
        !before.later_than(after),
        cache_check(cached, source_modified, Some(before), no_cache).stale(),
    ensures
        cache_check(cached, source_modified, Some(after), no_cache).stale(),
{
}

/// Of two times the later is the one with more seconds, or with as many seconds and more
/// nanoseconds; so of two different times exactly one is later, and no time is later than itself.
pub proof fn one_of_two_times_is_later(a: Timestamp, b: Timestamp)
    ensures
        a.secs > b.secs ==> a.later_than(b) && !b.later_than(a),
        a.secs == b.secs && a.nanos > b.nanos ==> a.later_than(b) && !b.later_than(a),
        a.secs == b.secs && a.nanos == b.nanos ==> !a.later_than(b) && !b.later_than(a),
{
}

/// A precompiled module is reused exactly when it is there, both times are known, and its wasm
/// file was not modified after it: neither in a later second, nor later in the same second.
pub proof fn cwasm_reuse_needs_a_current_file(
    cwasm_exists: bool,
    wasm_modified: Option<Timestamp>,
    cwasm_modified: Option<Timestamp>,
)
    ensures
        !cwasm_stale(cwasm_exists, wasm_modified, cwasm_modified) <==> {
            &&& cwasm_exists
            &&& wasm_modified matches Some(w)
            &&& cwasm_modified matches Some(c)
            &&& w.secs < c.secs || (w.secs == c.secs && w.nanos <= c.nanos)
        },
{
}

/// A later wasm file, or an earlier precompiled module, never makes a stale precompiled module
/// current.
pub proof fn later_wasm_stays_stale(
    wasm: Timestamp,
    later_wasm: Timestamp,
    cwasm: Timestamp,
    earlier_cwasm: Timestamp,
)
    requires
        cwasm_stale(true, Some(wasm), Some(cwasm)),
        wasm.secs < later_wasm.secs || (wasm.secs == later_wasm.secs && wasm.nanos
            <= later_wasm.nanos),
        earlier_cwasm.secs < cwasm.secs || (earlier_cwasm.secs == cwasm.secs && earlier_cwasm.nanos
            <= cwasm.nanos),
    ensures
        cwasm_stale(true, Some(later_wasm), Some(earlier_cwasm)),
{
}

/// A check says what decided it: that a compile was forced, else that the file is missing, else
/// that it is empty, and else the times.
pub proof fn checks_say_what_decided(
    cached: Option<FileStamp>,
    source_modified: Option<Timestamp>,
    compiler_modified: Option<Timestamp>,
    no_cache: bool,
)
    ensures
        ({
            let check = cache_check(cached, source_modified, compiler_modified, no_cache);
            &&& check is Forced <==> no_cache
            &&& check is Missing <==> !no_cache && cached is None
            &&& check is Empty <==> !no_cache && (cached matches Some(file) && file.len == 0)
            &&& check is Compared <==> !no_cache && (cached matches Some(file) && file.len > 0)
        }),
{
}

} // verus!
