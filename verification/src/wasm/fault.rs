//! Faults of sandboxed workloads and how traps are classified.
use crate::text;
use crate::text::{cat, cat3, has_part};
use crate::time::Interval;
use crate::wasm::limits::{RuntimeCounters, WasmRuntimeStats};
use vstd::prelude::*;
use vstd::string::*;
use vstd::utf8::*;

verus! {

/// Errors from loading or running a sandboxed workload.
#[derive(Debug, Clone, PartialEq, Eq)]
pub enum WasmError {
    /// The package or its limits failed verification.
    VerificationFailed(String),
    /// The component could not be loaded.
    LoadFailed(String),
    /// The actor could not be initialized.
    InitFailed(String),
    /// The guest returned an error.
    ExecutionFailed(String),
    /// The guest trapped; the instance is rebuilt before the next call.
    InstanceTrapped(String),
    /// The invocation exceeded its fuel budget.
    OutOfFuel,
    /// The invocation was interrupted by its epoch deadline.
    EpochInterrupted,
    /// A resource limit was exceeded.
    ResourceLimitExceeded(&'static str),
    /// The invocation timed out.
    InvocationTimeout(Interval),
}

/// Result of a sandbox operation.
pub type WasmResult<T> = Result<T, WasmError>;

/// Contents of a [`WasmError`].
pub enum WasmErrorView {
    VerificationFailed(Seq<char>),
    LoadFailed(Seq<char>),
    InitFailed(Seq<char>),
    ExecutionFailed(Seq<char>),
    InstanceTrapped(Seq<char>),
    OutOfFuel,
    EpochInterrupted,
    ResourceLimitExceeded(Seq<char>),
    InvocationTimeout(Interval),
}

impl View for WasmError {
    type V = WasmErrorView;

    open spec fn view(&self) -> WasmErrorView {
        match *self {
            WasmError::VerificationFailed(t) => WasmErrorView::VerificationFailed(t@),
            WasmError::LoadFailed(t) => WasmErrorView::LoadFailed(t@),
            WasmError::InitFailed(t) => WasmErrorView::InitFailed(t@),
            WasmError::ExecutionFailed(t) => WasmErrorView::ExecutionFailed(t@),
            WasmError::InstanceTrapped(t) => WasmErrorView::InstanceTrapped(t@),
            WasmError::OutOfFuel => WasmErrorView::OutOfFuel,
            WasmError::EpochInterrupted => WasmErrorView::EpochInterrupted,
            WasmError::ResourceLimitExceeded(t) => WasmErrorView::ResourceLimitExceeded(t@),
            WasmError::InvocationTimeout(d) => WasmErrorView::InvocationTimeout(d),
        }
    }
}

/// How `Duration` prints itself for debugging, by seconds and nanoseconds.
pub uninterp spec fn duration_text(secs: u64, subsec_nanos: u32) -> Seq<char>;

/// Prints `std::time::Duration::new(secs, subsec_nanos)` in its debug form,
/// which depends on the two numbers alone.
#[verifier::external_body]
fn show_duration(secs: u64, subsec_nanos: u32) -> (r: String)
    requires
        subsec_nanos < 1_000_000_000,
    ensures
        r@ == duration_text(secs, subsec_nanos),
{
    format!("{:?}", std::time::Duration::new(secs, subsec_nanos))
}

impl WasmErrorView {
    /// Printed form of the error.
    pub open spec fn printed(self) -> Seq<char> {
        match self {
            WasmErrorView::VerificationFailed(t) => "WASM package verification failed: "@ + t,
            WasmErrorView::LoadFailed(t) => "WASM module load failed: "@ + t,
            WasmErrorView::InitFailed(t) => "WASM actor initialization failed: "@ + t,
            WasmErrorView::ExecutionFailed(t) => "WASM actor execution failed: "@ + t,
            WasmErrorView::InstanceTrapped(
                t,
            ) => "WASM instance trapped (store poisoned; rebuilt on next call): "@ + t,
            WasmErrorView::OutOfFuel => "WASM invocation exceeded fuel budget"@,
            WasmErrorView::EpochInterrupted => "WASM invocation interrupted by epoch deadline"@,
            WasmErrorView::ResourceLimitExceeded(t) => "WASM resource limit exceeded: "@ + t,
            WasmErrorView::InvocationTimeout(d) => "WASM invocation timed out after "@
                + duration_text(
                (d.nanos() / 1_000_000_000) as u64,
                (d.nanos() % 1_000_000_000) as u32,
            ),
        }
    }
}

impl WasmError {
    /// Printed form of the error.
    pub fn to_text(&self) -> (r: String)
        ensures
            r@ == self@.printed(),
    {
        match self {
            WasmError::VerificationFailed(t) => cat(
                "WASM package verification failed: ",
                t.as_str(),
            ),
            WasmError::LoadFailed(t) => cat("WASM module load failed: ", t.as_str()),
            WasmError::InitFailed(t) => cat("WASM actor initialization failed: ", t.as_str()),
            WasmError::ExecutionFailed(t) => cat("WASM actor execution failed: ", t.as_str()),
            WasmError::InstanceTrapped(t) => cat(
                "WASM instance trapped (store poisoned; rebuilt on next call): ",
                t.as_str(),
            ),
            WasmError::OutOfFuel => "WASM invocation exceeded fuel budget".to_owned(),
            WasmError::EpochInterrupted => {
                "WASM invocation interrupted by epoch deadline".to_owned()
            },
            WasmError::ResourceLimitExceeded(t) => cat("WASM resource limit exceeded: ", t),
            WasmError::InvocationTimeout(d) => {
                let shown: String = show_duration(d.as_secs(), d.subsec_nanos());
                cat("WASM invocation timed out after ", shown.as_str())
            },
        }
    }
}

/// How much of a trap's text is kept.
pub const MAX_TRAP_MESSAGE_BYTES: usize = 512;

/// Machine-level reason of a trap, where the engine gave one.
#[derive(Debug, Clone, Copy, PartialEq, Eq, Structural)]
pub enum TrapCode {
    /// The fuel ran out.
    OutOfFuel,
    /// The epoch deadline passed.
    Interrupt,
    /// Any other trap.
    Other,
}

/// What the engine reports about a failed guest entry.
#[derive(Debug)]
pub struct TrapReport {
    /// The machine-level reason, if there is one.
    pub code: Option<TrapCode>,
    /// The store limit that the failure was caused by, if it was.
    pub limit: Option<&'static str>,
    /// The full text of the failure and its causes.
    pub message: String,
}

/// Whether a failure's text says that a store limit was hit.
pub open spec fn names_a_store_limit(message: Seq<char>) -> bool {
    ||| text::occurs_in("resource limit exceeded"@, message)
    ||| text::occurs_in("maximum memory size"@, message)
    ||| text::occurs_in("maximum table size"@, message)
    ||| text::occurs_in("forcing trap when growing memory"@, message)
    ||| text::occurs_in("forcing trap when growing table"@, message)
    ||| text::occurs_in("forcing a memory growth failure to be a trap"@, message)
    ||| text::occurs_in("forcing a table growth failure to be a trap"@, message)
}

/// The last position at or before `max` at which a text may be cut without
/// splitting a character.
pub open spec fn cut_point(bytes: Seq<u8>, max: nat) -> nat
    decreases max,
{
    if max >= bytes.len() {
        bytes.len()
    } else if max == 0 || is_char_boundary(bytes, max as int) {
        max
    } else {
        cut_point(bytes, (max - 1) as nat)
    }
}

/// A text cut to at most `max` bytes without splitting a character.
pub open spec fn truncated(value: Seq<char>, max: nat) -> Seq<char> {
    decode_utf8(encode_utf8(value).take(cut_point(encode_utf8(value), max) as int))
}

/// The beginning of `value` that fits in `max_bytes` bytes of UTF-8, without
/// splitting a character.
pub fn truncate_utf8(value: &str, max_bytes: usize) -> (r: &str)
    ensures
        r@ == truncated(value@, max_bytes as nat),
        encode_utf8(r@).len() <= max_bytes,
        encode_utf8(r@).is_prefix_of(encode_utf8(value@)),
{
    let ghost bytes = encode_utf8(value@);
    proof {
        encode_utf8_valid_utf8(value@);
        encode_utf8_decode_utf8(value@);
        is_char_boundary_start_end_of_seq(bytes);
    }
    let whole: &[u8] = value.as_bytes();
    if whole.len() <= max_bytes {
        assert(bytes.take(bytes.len() as int) =~= bytes);
        return value;
    }
    let mut end: usize = max_bytes;
    while !value.is_char_boundary(end)
        invariant
            bytes == encode_utf8(value@),
            end <= max_bytes,
            max_bytes < bytes.len(),
            is_char_boundary(bytes, 0),
            cut_point(bytes, max_bytes as nat) == cut_point(bytes, end as nat),
        decreases end,
    {
        end = end - 1;
    }
    let (head, _tail) = value.split_at(end);
    proof {
        assert(encode_utf8(head@) =~= bytes.take(end as int));
        encode_utf8_decode_utf8(head@);
        assert(cut_point(bytes, end as nat) == end);
    }
    head
}

/// What a trap at a guest entry is classified as.
pub open spec fn trap_class(entry: Seq<char>, report: TrapReport) -> WasmErrorView {
    if report.code == Some(TrapCode::OutOfFuel) {
        WasmErrorView::OutOfFuel
    } else if report.code == Some(TrapCode::Interrupt) {
        WasmErrorView::EpochInterrupted
    } else if report.limit is Some {
        WasmErrorView::ResourceLimitExceeded(report.limit->Some_0@)
    } else if names_a_store_limit(report.message@) {
        WasmErrorView::ResourceLimitExceeded("per-store Wasmtime resource limit"@)
    } else {
        WasmErrorView::InstanceTrapped(
            entry + " trap: "@ + truncated(report.message@, MAX_TRAP_MESSAGE_BYTES as nat),
        )
    }
}

/// The counters after a trap was classified.
pub open spec fn trap_counted(report: TrapReport, before: WasmRuntimeStats) -> WasmRuntimeStats {
    if report.code == Some(TrapCode::OutOfFuel) {
        WasmRuntimeStats {
            out_of_fuel_traps: crate::wasm::limits::bumped(before.out_of_fuel_traps),
            ..before
        }
    } else if report.code == Some(TrapCode::Interrupt) {
        WasmRuntimeStats {
            epoch_traps: crate::wasm::limits::bumped(before.epoch_traps),
            ..before
        }
    } else if report.limit is None && names_a_store_limit(report.message@) {
        WasmRuntimeStats {
            resource_denials: crate::wasm::limits::bumped(before.resource_denials),
            ..before
        }
    } else {
        before
    }
}

/// Classify a failed guest entry and count it.
pub fn classify_trap(entry: &str, report: &TrapReport, counters: &mut RuntimeCounters) -> (r:
    WasmError)
    ensures
        r@ == trap_class(entry@, *report),
        final(counters)@ == trap_counted(*report, old(counters)@),
{
    match report.code {
        Some(TrapCode::OutOfFuel) => {
            counters.record_out_of_fuel();
            return WasmError::OutOfFuel;
        },
        Some(TrapCode::Interrupt) => {
            counters.record_epoch_trap();
            return WasmError::EpochInterrupted;
        },
        _ => {},
    }
    match report.limit {
        Some(label) => return WasmError::ResourceLimitExceeded(label),
        None => {},
    }
    let message: &str = report.message.as_str();
    if has_part(message, "resource limit exceeded") || has_part(message, "maximum memory size")
        || has_part(message, "maximum table size") || has_part(
        message,
        "forcing trap when growing memory",
    ) || has_part(message, "forcing trap when growing table") || has_part(
        message,
        "forcing a memory growth failure to be a trap",
    ) || has_part(message, "forcing a table growth failure to be a trap") {
        counters.record_resource_denial();
        return WasmError::ResourceLimitExceeded("per-store Wasmtime resource limit");
    }
    let kept: &str = truncate_utf8(message, MAX_TRAP_MESSAGE_BYTES);
    WasmError::InstanceTrapped(cat3(entry, " trap: ", kept))
}

// ── laws ─────────────────────────────────────────────────────────────────────

proof fn lemma_cut(bytes: Seq<u8>, max: nat)
    requires
        is_char_boundary(bytes, 0),
    ensures
        cut_point(bytes, max) <= max,
        cut_point(bytes, max) <= bytes.len(),
        max >= bytes.len() ==> cut_point(bytes, max) == bytes.len(),
        max < bytes.len() ==> is_char_boundary(bytes, cut_point(bytes, max) as int),
        forall|i: int|
            cut_point(bytes, max) < i <= max && i < bytes.len() ==> !#[trigger] is_char_boundary(
                bytes,
                i,
            ),
    decreases max,
{
    if max < bytes.len() && max > 0 && !is_char_boundary(bytes, max as int) {
        lemma_cut(bytes, (max - 1) as nat);
    }
}

/// A text is cut at the last place at or before the limit that splits no character: no
/// later place would do, and a text within the limit is not cut at all.
pub proof fn texts_are_cut_as_late_as_possible(value: Seq<char>, max: nat)
    ensures
        ({
            let bytes = encode_utf8(value);
            let at = cut_point(bytes, max);
            &&& at <= max
            &&& at <= bytes.len()
            &&& forall|i: int|
                at < i <= max && i < bytes.len() ==> !#[trigger] is_char_boundary(bytes, i)
            &&& bytes.len() <= max ==> truncated(value, max) == value
        }),
{
    let bytes = encode_utf8(value);
    encode_utf8_valid_utf8(value);
    encode_utf8_decode_utf8(value);
    is_char_boundary_start_end_of_seq(bytes);
    lemma_cut(bytes, max);
    if bytes.len() <= max {
        assert(bytes.take(bytes.len() as int) =~= bytes);
    }
}

/// A trap is what the machine says it is, before anything that its text says: exhausted
/// fuel and a passed deadline go by their code, a store limit by its label or by the text;
/// everything else is a trap of the instance, told by the entry and the beginning of the
/// text.
pub proof fn traps_are_told_by_their_cause(entry: Seq<char>, report: TrapReport)
    ensures
        trap_class(entry, report) is OutOfFuel <==> report.code == Some(TrapCode::OutOfFuel),
        trap_class(entry, report) is EpochInterrupted <==> report.code == Some(TrapCode::Interrupt),
        report.code != Some(TrapCode::OutOfFuel) && report.code != Some(TrapCode::Interrupt) ==> {
            &&& report.limit matches Some(label) ==> trap_class(entry, report)
                == WasmErrorView::ResourceLimitExceeded(label@)
            &&& report.limit is None ==> (trap_class(entry, report) is ResourceLimitExceeded
                <==> names_a_store_limit(report.message@))
            &&& report.limit is None && !names_a_store_limit(report.message@) ==> (trap_class(
                entry,
                report,
            ) matches WasmErrorView::InstanceTrapped(t) && entry.is_prefix_of(t) && truncated(
                report.message@,
                512,
            ).is_suffix_of(t))
        },
{
    let kept = truncated(report.message@, 512);
    let t = entry + " trap: "@ + kept;
    assert(t.take(entry.len() as int) =~= entry);
    assert(t.subrange(t.len() - kept.len(), t.len() as int) =~= kept);
}

/// The text of a failure names a store limit when it says so in any of the engine's words,
/// wherever in the text they stand.
pub proof fn store_limits_are_found_anywhere(before: Seq<char>, after: Seq<char>)
    ensures
        names_a_store_limit(before + "resource limit exceeded"@ + after),
        names_a_store_limit(before + "maximum memory size"@ + after),
        names_a_store_limit(before + "maximum table size"@ + after),
        names_a_store_limit(before + "forcing trap when growing memory"@ + after),
        names_a_store_limit(before + "forcing trap when growing table"@ + after),
        names_a_store_limit(before + "forcing a memory growth failure to be a trap"@ + after),
        names_a_store_limit(before + "forcing a table growth failure to be a trap"@ + after),
{
    lemma_occurs("resource limit exceeded"@, before, after);
    lemma_occurs("maximum memory size"@, before, after);
    lemma_occurs("maximum table size"@, before, after);
    lemma_occurs("forcing trap when growing memory"@, before, after);
    lemma_occurs("forcing trap when growing table"@, before, after);
    lemma_occurs("forcing a memory growth failure to be a trap"@, before, after);
    lemma_occurs("forcing a table growth failure to be a trap"@, before, after);
}

proof fn lemma_occurs(part: Seq<char>, before: Seq<char>, after: Seq<char>)
    ensures
        text::occurs_in(part, before + part + after),
{
    let whole = before + part + after;
    let i = before.len() as int;
    assert(whole.subrange(i, i + part.len()) =~= part);
}

/// A trap is counted once, under its cause, and a trap of no particular cause nowhere; the
/// limiter has already counted a refusal that carries its label.
pub proof fn traps_are_counted_by_cause(
    entry: Seq<char>,
    report: TrapReport,
    before: WasmRuntimeStats,
)
    requires
        before.out_of_fuel_traps < u64::MAX,
        before.epoch_traps < u64::MAX,
        before.resource_denials < u64::MAX,
    ensures
        ({
            let after = trap_counted(report, before);
            let class = trap_class(entry, report);
            &&& after.out_of_fuel_traps - before.out_of_fuel_traps == (if class is OutOfFuel {
                1int
            } else {
                0
            })
            &&& after.epoch_traps - before.epoch_traps == (if class is EpochInterrupted {
                1int
            } else {
                0
            })
            &&& after.resource_denials - before.resource_denials == (if class
                is ResourceLimitExceeded && report.limit is None {
                1int
            } else {
                0
            })
            &&& after.invocation_timeouts == before.invocation_timeouts
            &&& after.outstanding_invocations == before.outstanding_invocations
            &&& after.active_stores == before.active_stores
        }),
{
}

/// The printed form of an error ends with what it was given.
pub proof fn printed_errors_end_with_their_detail(t: Seq<char>)
    ensures
        t.is_suffix_of(WasmErrorView::VerificationFailed(t).printed()),
        t.is_suffix_of(WasmErrorView::LoadFailed(t).printed()),
        t.is_suffix_of(WasmErrorView::InitFailed(t).printed()),
        t.is_suffix_of(WasmErrorView::ExecutionFailed(t).printed()),
        t.is_suffix_of(WasmErrorView::InstanceTrapped(t).printed()),
        t.is_suffix_of(WasmErrorView::ResourceLimitExceeded(t).printed()),
{
    lemma_suffix("WASM package verification failed: "@, t);
    lemma_suffix("WASM module load failed: "@, t);
    lemma_suffix("WASM actor initialization failed: "@, t);
    lemma_suffix("WASM actor execution failed: "@, t);
    lemma_suffix("WASM instance trapped (store poisoned; rebuilt on next call): "@, t);
    lemma_suffix("WASM resource limit exceeded: "@, t);
}

proof fn lemma_suffix(head: Seq<char>, t: Seq<char>)
    ensures
        t.is_suffix_of(head + t),
{
    let whole = head + t;
    assert(whole.subrange(whole.len() - t.len(), whole.len() as int) =~= t);
}

} // verus!
