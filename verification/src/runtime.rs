//! The decisions of the WebAssembly runtime: which ABI a module may use,
//! which entry point a task resumes through, how much fuel a quantum buys,
//! and what a finished guest call means for the scheduler.
use crate::ordered::TextMap;
use crate::text::{
    chars_of, contains_text, lossy_string, lossy_text, string_from, text_contains, trim, trim_chars,
};
use vstd::prelude::*;
use vstd::utf8::{decode_utf8, valid_utf8};

verus! {

/// What a program to launch is and how it is set up.
#[derive(Debug)]
pub struct ProgramLaunchRequest {
    pub name: String,
    pub module_location: String,
    pub args: Vec<String>,
    pub env: TextMap<String>,
    pub abi: AbiSelection,
}

#[derive(Debug, Clone, Copy)]
pub struct AbiSelection {
    pub strategy: AbiStrategy,
    pub wasi: WasiOptions,
}

impl Default for AbiSelection {
    fn default() -> (a: Self)
        ensures
            a.strategy == AbiStrategy::Hybrid,
            a.wasi.inherit_stdio,
            a.wasi.expose_cli_environment,
    {
        AbiSelection { strategy: AbiStrategy::Hybrid, wasi: WasiOptions::default() }
    }
}

#[derive(Debug, Clone, Copy, PartialEq, Eq, Structural)]
pub enum AbiStrategy {
    PureWasi,
    CustomOnly,
    Hybrid,
}

#[derive(Debug, Clone, Copy)]
pub struct WasiOptions {
    pub inherit_stdio: bool,
    pub expose_cli_environment: bool,
}

impl Default for WasiOptions {
    fn default() -> (w: Self)
        ensures
            w.inherit_stdio,
            w.expose_cli_environment,
    {
        WasiOptions { inherit_stdio: true, expose_cli_environment: true }
    }
}

/// Why a guest asked to be taken off the processor.
#[derive(Debug)]
pub enum RuntimeBlockReason {
    Sleep { duration_ms: u64 },
    Io { channel: String },
}

pub enum BlockView {
    Sleep(u64),
    Io(Seq<char>),
}

impl View for RuntimeBlockReason {
    type V = BlockView;

    open spec fn view(&self) -> BlockView {
        match self {
            RuntimeBlockReason::Sleep { duration_ms } => BlockView::Sleep(*duration_ms),
            RuntimeBlockReason::Io { channel } => BlockView::Io(channel@),
        }
    }
}

impl RuntimeBlockReason {
    pub fn duplicate(&self) -> (r: Self)
        ensures
            r@ == self@,
    {
        match self {
            RuntimeBlockReason::Sleep { duration_ms } => RuntimeBlockReason::Sleep {
                duration_ms: *duration_ms,
            },
            RuntimeBlockReason::Io { channel } => RuntimeBlockReason::Io { channel: channel.clone() },
        }
    }
}

/// What one quantum of a task ended in.
#[derive(Debug)]
pub enum RuntimePoll {
    Ready,
    Yielded,
    Waiting(RuntimeBlockReason),
    Exited(i32),
}

pub enum PollView {
    Ready,
    Yielded,
    Waiting(BlockView),
    Exited(i32),
}

impl View for RuntimePoll {
    type V = PollView;

    open spec fn view(&self) -> PollView {
        match self {
            RuntimePoll::Ready => PollView::Ready,
            RuntimePoll::Yielded => PollView::Yielded,
            RuntimePoll::Waiting(r) => PollView::Waiting(r@),
            RuntimePoll::Exited(c) => PollView::Exited(*c),
        }
    }
}

/// The fuel that a quantum buys: a fixed allowance for cooperative tasks,
/// a thousand units per millisecond (at least a thousand) for preemptive ones.
pub open spec fn fuel_budget(quantum_ms: u64) -> u64 {
    if quantum_ms == 0 {
        50_000
    } else {
        let scaled = if quantum_ms as int * 1000 > u64::MAX {
            u64::MAX
        } else {
            (quantum_ms * 1000) as u64
        };
        if scaled < 1000 {
            1000
        } else {
            scaled
        }
    }
}

pub fn fuel_budget_for_quantum(quantum_ms: u64) -> (f: u64)
    ensures
        f == fuel_budget(quantum_ms),
{
    if quantum_ms == 0 {
        50_000
    } else {
        let scaled: u64 = if quantum_ms > u64::MAX / 1_000 {
            u64::MAX
        } else {
            quantum_ms * 1_000
        };
        if scaled < 1_000 {
            1_000
        } else {
            scaled
        }
    }
}

/// The per-task record of what the guest asked for during its quantum and
/// how much fuel it burned.
#[derive(Debug)]
pub struct TaskRuntimeControl {
    pub requested_yield: bool,
    pub block_reason: Option<RuntimeBlockReason>,
    pub last_quantum_ms: u64,
    pub resume_count: u64,
    pub fuel_limit: u64,
    pub fuel_remaining: u64,
    pub fuel_consumed_last_resume: u64,
    pub fuel_consumed_total: u64,
}

/// Booking the fuel left at the end of a call, `remaining`: what is left is
/// capped at the limit, the call consumed the rest of the limit, and the total
/// grows by that much, stopping at the largest count.
pub open spec fn fuel_booked(pre: TaskRuntimeControl, post: TaskRuntimeControl, remaining: u64) -> bool {
    &&& post.fuel_remaining == if remaining < pre.fuel_limit {
        remaining
    } else {
        pre.fuel_limit
    }
    &&& post.fuel_consumed_last_resume == pre.fuel_limit - post.fuel_remaining
    &&& post.fuel_consumed_total == if pre.fuel_consumed_total + post.fuel_consumed_last_resume
        > u64::MAX {
        u64::MAX as int
    } else {
        pre.fuel_consumed_total + post.fuel_consumed_last_resume
    }
    &&& post.fuel_limit == pre.fuel_limit
}

impl Default for TaskRuntimeControl {
    fn default() -> (c: Self)
        ensures
            !c.requested_yield,
            c.block_reason is None,
            c.last_quantum_ms == 0,
            c.resume_count == 0,
            c.fuel_limit == 0,
            c.fuel_remaining == 0,
            c.fuel_consumed_last_resume == 0,
            c.fuel_consumed_total == 0,
    {
        TaskRuntimeControl {
            requested_yield: false,
            block_reason: None,
            last_quantum_ms: 0,
            resume_count: 0,
            fuel_limit: 0,
            fuel_remaining: 0,
            fuel_consumed_last_resume: 0,
            fuel_consumed_total: 0,
        }
    }
}

/// How a call into the guest came back.
#[derive(Debug, Clone, Copy, PartialEq, Eq, Structural)]
pub enum GuestCallOutcome {
    /// The entry point returned this exit code.
    Returned(i32),
    /// The guest burned its fuel and was stopped.
    OutOfFuel,
    /// The guest trapped for another reason.
    Trapped,
}

/// The poll that a finished call becomes, given what the guest asked for.
pub open spec fn classified(
    block: Option<BlockView>,
    requested_yield: bool,
    exit_code: i32,
) -> PollView {
    match block {
        Some(reason) => PollView::Waiting(reason),
        None => if requested_yield {
            PollView::Yielded
        } else {
            PollView::Exited(exit_code)
        },
    }
}

pub open spec fn block_view(b: Option<RuntimeBlockReason>) -> Option<BlockView> {
    match b {
        Some(r) => Some(r@),
        None => None,
    }
}

impl TaskRuntimeControl {
    /// Starts a quantum: clears the guest's requests and sets the fuel budget.
    pub fn reset_for_quantum(&mut self, quantum_ms: u64)
        requires
            old(self).resume_count < u64::MAX,
        ensures
            !final(self).requested_yield,
            final(self).block_reason is None,
            final(self).last_quantum_ms == quantum_ms,
            final(self).resume_count == old(self).resume_count + 1,
            final(self).fuel_limit == fuel_budget(quantum_ms),
            final(self).fuel_remaining == fuel_budget(quantum_ms),
            final(self).fuel_consumed_last_resume == 0,
            final(self).fuel_consumed_total == old(self).fuel_consumed_total,
    {
        self.requested_yield = false;
        self.block_reason = None;
        self.last_quantum_ms = quantum_ms;
        self.resume_count = self.resume_count + 1;
        self.fuel_limit = fuel_budget_for_quantum(quantum_ms);
        self.fuel_remaining = self.fuel_limit;
        self.fuel_consumed_last_resume = 0;
    }

    pub fn request_yield(&mut self)
        ensures
            final(self).requested_yield,
            block_view(final(self).block_reason) == block_view(old(self).block_reason),
            final(self).last_quantum_ms == old(self).last_quantum_ms,
            final(self).resume_count == old(self).resume_count,
            final(self).fuel_limit == old(self).fuel_limit,
            final(self).fuel_remaining == old(self).fuel_remaining,
            final(self).fuel_consumed_last_resume == old(self).fuel_consumed_last_resume,
            final(self).fuel_consumed_total == old(self).fuel_consumed_total,
    {
        self.requested_yield = true;
    }

    pub fn request_sleep(&mut self, duration_ms: u64)
        ensures
            block_view(final(self).block_reason) == Some(BlockView::Sleep(duration_ms)),
            final(self).requested_yield == old(self).requested_yield,
            final(self).last_quantum_ms == old(self).last_quantum_ms,
            final(self).resume_count == old(self).resume_count,
            final(self).fuel_limit == old(self).fuel_limit,
            final(self).fuel_remaining == old(self).fuel_remaining,
            final(self).fuel_consumed_last_resume == old(self).fuel_consumed_last_resume,
            final(self).fuel_consumed_total == old(self).fuel_consumed_total,
    {
        self.block_reason = Some(RuntimeBlockReason::Sleep { duration_ms });
    }

    pub fn request_io_wait(&mut self, channel: String)
        ensures
            block_view(final(self).block_reason) == Some(BlockView::Io(channel@)),
            final(self).requested_yield == old(self).requested_yield,
            final(self).last_quantum_ms == old(self).last_quantum_ms,
            final(self).resume_count == old(self).resume_count,
            final(self).fuel_limit == old(self).fuel_limit,
            final(self).fuel_remaining == old(self).fuel_remaining,
            final(self).fuel_consumed_last_resume == old(self).fuel_consumed_last_resume,
            final(self).fuel_consumed_total == old(self).fuel_consumed_total,
    {
        self.block_reason = Some(RuntimeBlockReason::Io { channel });
    }

    /// What a call that returned `exit_code` means: a block request wins over
    /// a yield request, and without either the task has exited.
    pub fn classify_completion(&self, exit_code: i32) -> (p: RuntimePoll)
        ensures
            p@ == classified(block_view(self.block_reason), self.requested_yield, exit_code),
    {
        match &self.block_reason {
            Some(reason) => RuntimePoll::Waiting(reason.duplicate()),
            None => if self.requested_yield {
                RuntimePoll::Yielded
            } else {
                RuntimePoll::Exited(exit_code)
            },
        }
    }

    /// Books the fuel left at the end of a call.
    pub fn record_fuel(&mut self, remaining: u64)
        ensures
            fuel_booked(*old(self), *final(self), remaining),
            final(self).requested_yield == old(self).requested_yield,
            block_view(final(self).block_reason) == block_view(old(self).block_reason),
            final(self).last_quantum_ms == old(self).last_quantum_ms,
            final(self).resume_count == old(self).resume_count,
    {
        self.fuel_remaining = if remaining < self.fuel_limit {
            remaining
        } else {
            self.fuel_limit
        };
        self.fuel_consumed_last_resume = self.fuel_limit - self.fuel_remaining;
        self.fuel_consumed_total = self.fuel_consumed_total.saturating_add(
            self.fuel_consumed_last_resume,
        );
    }

    /// Ends a quantum: books the fuel left, then turns the way the call came
    /// back into a poll. Running out of fuel is a preemption and counts as a
    /// yield; any other trap is a failure, given as `None`.
    pub fn finish_resume(&mut self, remaining_fuel: u64, call: GuestCallOutcome) -> (p: Option<
        RuntimePoll,
    >)
        ensures
            fuel_booked(*old(self), *final(self), remaining_fuel),
            final(self).requested_yield == (old(self).requested_yield || call is OutOfFuel),
            block_view(final(self).block_reason) == block_view(old(self).block_reason),
            final(self).last_quantum_ms == old(self).last_quantum_ms,
            final(self).resume_count == old(self).resume_count,
            match call {
                GuestCallOutcome::Returned(code) => p matches Some(poll) && poll@ == classified(
                    block_view(old(self).block_reason),
                    old(self).requested_yield,
                    code,
                ),
                GuestCallOutcome::OutOfFuel => p matches Some(poll) && poll@ == PollView::Yielded
                    && final(self).requested_yield,
                GuestCallOutcome::Trapped => p is None,
            },
    {
        self.record_fuel(remaining_fuel);
        match call {
            GuestCallOutcome::Returned(code) => Some(self.classify_completion(code)),
            GuestCallOutcome::OutOfFuel => {
                self.request_yield();
                Some(RuntimePoll::Yielded)
            },
            GuestCallOutcome::Trapped => None,
        }
    }
}

/// The entry point that a task is resumed through.
#[derive(Debug, Clone, Copy, PartialEq, Eq, Structural)]
pub enum TaskEntryPoint {
    WasiStart,
    Main,
    Resume,
}

/// `wasmos_resume` wins, then `_start`, then `main`; with none of them the
/// task still goes through `wasmos_resume` (and fails there).
pub fn select_entry_point(has_resume: bool, has_start: bool, has_main: bool) -> (e: TaskEntryPoint)
    ensures
        e == if has_resume {
            TaskEntryPoint::Resume
        } else if has_start {
            TaskEntryPoint::WasiStart
        } else if has_main {
            TaskEntryPoint::Main
        } else {
            TaskEntryPoint::Resume
        },
{
    if has_resume {
        TaskEntryPoint::Resume
    } else if has_start {
        TaskEntryPoint::WasiStart
    } else if has_main {
        TaskEntryPoint::Main
    } else {
        TaskEntryPoint::Resume
    }
}

/// Some name of `names` equals `name`.
pub open spec fn names_contain(names: Seq<String>, name: Seq<char>) -> bool {
    exists|i: int| 0 <= i < names.len() && #[trigger] names[i]@ == name
}

fn any_named(names: &Vec<String>, name: &str) -> (b: bool)
    ensures
        b == names_contain(names@, name@),
{
    let mut i: usize = 0;
    while i < names.len()
        invariant
            i <= names@.len(),
            forall|j: int| 0 <= j < i ==> #[trigger] names@[j]@ != name@,
        decreases names@.len() - i,
    {
        if crate::text::text_eq(names[i].as_str(), name) {
            return true;
        }
        i = i + 1;
    }
    false
}

/// Whether a module may run under an ABI strategy, judged from the modules
/// its imports come from and the names it exports.
pub open spec fn abi_verdict(imports: Seq<String>, exports: Seq<String>, strategy: AbiStrategy) -> Result<
    (),
    Seq<char>,
> {
    let imports_wasi = names_contain(imports, "wasi_snapshot_preview1"@);
    let imports_custom = names_contain(imports, "wasmos"@);
    let exports_start = names_contain(exports, "_start"@);
    let exports_main = names_contain(exports, "main"@);
    let exports_resume = names_contain(exports, "wasmos_resume"@);
    if strategy == AbiStrategy::PureWasi && imports_custom {
        Err("pure WASI mode does not allow `wasmos` imports"@)
    } else if strategy == AbiStrategy::CustomOnly && imports_wasi {
        Err("custom-only mode does not allow `wasi_snapshot_preview1` imports"@)
    } else if strategy == AbiStrategy::Hybrid && !imports_wasi && !imports_custom {
        Err("hybrid mode expects the guest to import either WASI or `wasmos` capabilities"@)
    } else if strategy == AbiStrategy::CustomOnly && !exports_resume {
        Err("custom-only guests must export `wasmos_resume` as the resumable entrypoint"@)
    } else if strategy != AbiStrategy::CustomOnly && !exports_start && !exports_main {
        Err("WASI-backed guests must export `_start` or `main` as the process entrypoint"@)
    } else if strategy == AbiStrategy::Hybrid && !exports_resume && !exports_start && !exports_main {
        Err("hybrid guests must export `_start`, `main`, or `wasmos_resume`"@)
    } else {
        Ok(())
    }
}

/// A module run with WASI process semantics (any strategy but custom-only)
/// that exports neither `_start` nor `main` is refused.
pub proof fn law_wasi_backed_modules_need_an_entry(
    imports: Seq<String>,
    exports: Seq<String>,
    strategy: AbiStrategy,
)
    requires
        strategy != AbiStrategy::CustomOnly,
        forall|i: int| 0 <= i < exports.len() ==> #[trigger] exports[i]@ != "_start"@ && exports[i]@ != "main"@,
    ensures
        abi_verdict(imports, exports, strategy) is Err,
{
}

/// An accepted module has the entry point its strategy runs it through: a
/// custom-only module exports `wasmos_resume`, any other exports `_start` or
/// `main`; so no accepted module lacks all three.
pub proof fn law_accepted_modules_have_an_entry(
    imports: Seq<String>,
    exports: Seq<String>,
    strategy: AbiStrategy,
)
    requires
        abi_verdict(imports, exports, strategy) is Ok,
    ensures
        strategy == AbiStrategy::CustomOnly ==> exists|i: int|
            0 <= i < exports.len() && #[trigger] exports[i]@ == "wasmos_resume"@,
        strategy != AbiStrategy::CustomOnly ==> exists|i: int|
            0 <= i < exports.len() && (#[trigger] exports[i]@ == "_start"@ || exports[i]@ == "main"@),
        exists|i: int|
            0 <= i < exports.len() && (#[trigger] exports[i]@ == "_start"@ || exports[i]@ == "main"@
                || exports[i]@ == "wasmos_resume"@),
{
}

/// Checks a module against the ABI strategy chosen for it. `import_modules`
/// holds the module name of each import, `export_names` the name of each
/// export.
pub fn validate_abi_strategy(
    import_modules: &Vec<String>,
    export_names: &Vec<String>,
    abi: &AbiSelection,
) -> (r: Result<(), String>)
    ensures
        match r {
            Ok(()) => abi_verdict(import_modules@, export_names@, abi.strategy) is Ok,
            Err(m) => abi_verdict(import_modules@, export_names@, abi.strategy) == Err::<
                (),
                Seq<char>,
            >(m@),
        },
        abi.strategy != AbiStrategy::CustomOnly && (forall|i: int|
            0 <= i < export_names@.len() ==> #[trigger] export_names@[i]@ != "_start"@
                && export_names@[i]@ != "main"@) ==> r is Err,
{
    let imports_wasi = any_named(import_modules, "wasi_snapshot_preview1");
    let imports_custom = any_named(import_modules, "wasmos");
    match abi.strategy {
        AbiStrategy::PureWasi => {
            if imports_custom {
                return Err("pure WASI mode does not allow `wasmos` imports".to_string());
            }
        },
        AbiStrategy::CustomOnly => {
            if imports_wasi {
                return Err(
                    "custom-only mode does not allow `wasi_snapshot_preview1` imports".to_string(),
                );
            }
        },
        AbiStrategy::Hybrid => {
            if !imports_wasi && !imports_custom {
                return Err(
                    "hybrid mode expects the guest to import either WASI or `wasmos` capabilities".to_string(),
                );
            }
        },
    }
    let exports_start = any_named(export_names, "_start");
    let exports_main = any_named(export_names, "main");
    let exports_resume = any_named(export_names, "wasmos_resume");
    if abi.strategy == AbiStrategy::CustomOnly && !exports_resume {
        return Err(
            "custom-only guests must export `wasmos_resume` as the resumable entrypoint".to_string(),
        );
    }
    if abi.strategy != AbiStrategy::CustomOnly && !exports_start && !exports_main {
        return Err(
            "WASI-backed guests must export `_start` or `main` as the process entrypoint".to_string(),
        );
    }
    if abi.strategy == AbiStrategy::Hybrid && !exports_resume && !exports_start && !exports_main {
        return Err("hybrid guests must export `_start`, `main`, or `wasmos_resume`".to_string());
    }
    Ok(())
}

/// Some text in a chain of error causes mentions fuel exhaustion.
pub open spec fn chain_mentions_out_of_fuel(chain: Seq<Seq<char>>) -> bool {
    exists|i: int|
        0 <= i < chain.len() && contains_text(#[trigger] chain[i], "all fuel consumed by WebAssembly"@)
}

/// The displayed text of each cause of a host error, outermost first, as
/// `anyhow::Error::chain` walks them.
pub uninterp spec fn cause_texts(error: anyhow::Error) -> Seq<Seq<char>>;

/// A host error displayed in the alternate form (`{:#}`).
pub uninterp spec fn alternate_text(error: anyhow::Error) -> Seq<char>;

/// A host error displayed in the debug form (`{:?}`).
pub uninterp spec fn debug_text(error: anyhow::Error) -> Seq<char>;

/// The policies a task is given when it is prepared: the offline network
/// policy and the filesystem policy that reads, writes and creates under the
/// root but never deletes.
pub fn prepared_task_policies() -> (r: (crate::network::SocketPolicy, crate::vfs::TaskVfsPolicy))
    ensures
        r.0@ == crate::network::default_socket_policy(),
        r.1@ == crate::vfs::default_policy(),
{
    (crate::network::SocketPolicy::default(), crate::vfs::TaskVfsPolicy::default())
}

/// Whether some cause in a chain of error texts reports that the guest ran
/// out of fuel.
pub fn chain_reports_out_of_fuel(chain: &Vec<String>) -> (b: bool)
    ensures
        b == chain_mentions_out_of_fuel(chain@.map_values(|s: String| s@)),
{
    let ghost texts = chain@.map_values(|s: String| s@);
    let mut i: usize = 0;
    while i < chain.len()
        invariant
            i <= chain@.len(),
            texts == chain@.map_values(|s: String| s@),
            forall|j: int|
                0 <= j < i ==> !contains_text(
                    #[trigger] chain@[j]@,
                    "all fuel consumed by WebAssembly"@,
                ),
        decreases chain@.len() - i,
    {
        if text_contains(chain[i].as_str(), "all fuel consumed by WebAssembly") {
            proof {
                assert(texts[i as int] == chain@[i as int]@);
            }
            return true;
        }
        i = i + 1;
    }
    proof {
        assert forall|j: int| 0 <= j < texts.len() implies !contains_text(
            #[trigger] texts[j],
            "all fuel consumed by WebAssembly"@,
        ) by {
            assert(texts[j] == chain@[j]@);
        }
    }
    false
}

/// The displayed text of each cause of a host error, outermost first
/// (`anyhow::Error::chain`, each cause shown with `to_string`).
#[verifier::external_body]
fn error_chain_texts(error: &anyhow::Error) -> (v: Vec<String>)
    ensures
        v@.map_values(|s: String| s@) == cause_texts(*error),
{
    error.chain().map(|cause| cause.to_string()).collect()
}

/// Whether a host error comes from the guest running out of fuel: some cause
/// in its chain says that all fuel was consumed.
pub fn is_out_of_fuel_trap(error: &anyhow::Error) -> (b: bool)
    ensures
        b == chain_mentions_out_of_fuel(cause_texts(*error)),
{
    let chain = error_chain_texts(error);
    chain_reports_out_of_fuel(&chain)
}

/// The alternate display of a host error, which joins its causes with `: `.
#[verifier::external_body]
fn error_display_alternate(error: &anyhow::Error) -> (s: String)
    ensures
        s@ == alternate_text(*error),
{
    format!("{error:#}")
}

/// The debug display of a host error, which lists its causes on lines of
/// their own (and the backtrace the error captured, when it captured one).
#[verifier::external_body]
fn error_display_debug(error: &anyhow::Error) -> (s: String)
    ensures
        s@ == debug_text(*error),
{
    format!("{error:?}")
}

/// The text a failed task records: the one-line form when it already spans
/// several lines, the multi-line cause list otherwise.
pub open spec fn runtime_error_text(alternate: Seq<char>, debug: Seq<char>) -> Seq<char> {
    if alternate.contains('\n') {
        alternate
    } else {
        debug
    }
}

/// Chooses between the two displays of an error.
pub fn select_error_text(alternate: String, debug: String) -> (s: String)
    ensures
        s@ == runtime_error_text(alternate@, debug@),
{
    let cs = chars_of(alternate.as_str());
    if crate::text::contains_char(cs.as_slice(), '\n') {
        alternate
    } else {
        debug
    }
}

/// The text recorded for a task whose run failed with `error`.
pub fn format_runtime_error(error: &anyhow::Error) -> (s: String)
    ensures
        s@ == runtime_error_text(alternate_text(*error), debug_text(*error)),
{
    select_error_text(error_display_alternate(error), error_display_debug(error))
}

/// What a task wrote to its error stream: the bytes decoded leniently, with
/// surrounding whitespace trimmed.
pub fn stderr_text(bytes: &[u8]) -> (s: String)
    ensures
        s@ == trim(lossy_text(bytes@)),
        valid_utf8(bytes@) ==> s@ == trim(decode_utf8(bytes@)),
{
    let text = lossy_string(bytes);
    let cs = chars_of(text.as_str());
    let t = trim_chars(cs.as_slice());
    string_from(t.as_slice())
}

/// The error output of a task, when it wrote anything but whitespace.
pub fn guest_stderr_text(bytes: &[u8]) -> (r: Option<String>)
    ensures
        trim(lossy_text(bytes@)).len() == 0 ==> r is None,
        trim(lossy_text(bytes@)).len() > 0 ==> (r matches Some(s) && s@ == trim(lossy_text(bytes@))),
{
    let s = stderr_text(bytes);
    if s.as_str().is_empty() {
        None
    } else {
        Some(s)
    }
}

/// Hands out task identifiers, starting at 1.
#[derive(Debug)]
pub struct TaskIdAllocator {
    next_task_id: u64,
}

impl TaskIdAllocator {
    pub closed spec fn next(&self) -> u64 {
        self.next_task_id
    }

    pub fn new() -> (a: Self)
        ensures
            a.next() == 1,
    {
        TaskIdAllocator { next_task_id: 1 }
    }

    /// The next identifier; each call gives a larger one than the last.
    pub fn allocate_task_id(&mut self) -> (id: u64)
        requires
            old(self).next() < u64::MAX,
        ensures
            id == old(self).next(),
            final(self).next() == old(self).next() + 1,
    {
        let current = self.next_task_id;
        self.next_task_id = self.next_task_id + 1;
        current
    }

    /// Whether another identifier can be handed out.
    pub fn can_allocate(&self) -> (b: bool)
        ensures
            b == (self.next() < u64::MAX),
    {
        self.next_task_id < u64::MAX
    }
}

} // verus!
