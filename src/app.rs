use vstd::prelude::*;
use crate::directive::{directive_allowed, directive_outcome, may_send, outcome_spec, DirectiveResult};
use crate::history::{record_step, HistoryBuffer};
use crate::process::{
    build_view, distinct_pids, filter_of, is_process_view, sort_indices, ProcessRecord, SortOrder,
};
use crate::refresh::RefreshRate;
use crate::text::{pop_char, push_char};
use crate::toast::{tick_toast, toast_visible, Toast, ToastLevel, TOAST_DURATION_MS};

verus! {

/// Number of samples each history keeps.
pub const HISTORY_SIZE: usize = 60;

/// One CPU core's reading.
#[derive(Clone, Copy, Debug, PartialEq, Eq, Structural)]
pub struct CoreReading {
    /// Usage in hundredths of a percent.
    pub usage: u32,
    /// Clock frequency in MHz.
    pub frequency: u64,
}

/// A reading of the accelerator, when one is present.
#[derive(Clone, Debug)]
pub struct GpuInfo {
    pub name: String,
    /// Utilization in percent.
    pub usage: u32,
    /// Memory in use, in MiB.
    pub memory_used: u64,
    /// Memory in all, in MiB.
    pub memory_total: u64,
    /// Temperature in degrees Celsius.
    pub temperature: u32,
}

/// One complete reading of host telemetry, replaced wholesale on each poll.
#[derive(Clone, Debug)]
pub struct Snapshot {
    /// Aggregate CPU usage in hundredths of a percent.
    pub cpu_usage: u32,
    pub cores: Vec<CoreReading>,
    pub used_memory: u64,
    pub total_memory: u64,
    pub processes: Vec<ProcessRecord>,
    pub gpu: Option<GpuInfo>,
}

#[derive(Clone, Copy, Debug, PartialEq, Eq, Structural)]
pub enum ProcessAction {
    Kill,
    Suspend,
    Resume,
}

/// A destructive action waiting for the user's confirmation.
#[derive(Clone, Debug)]
pub struct ActionConfirmation {
    pub action: ProcessAction,
    pub pid: u32,
    /// The process's name when the action was requested.
    pub process_name: String,
}

/// Memory use as hundredths of a percent of the total, at most 100%; zero
/// when the total is unknown.
pub open spec fn memory_percent_spec(used: u64, total: u64) -> nat {
    if total == 0 {
        0
    } else if used >= total {
        10000
    } else {
        (used as nat * 10000) / (total as nat)
    }
}

pub fn memory_percent(used: u64, total: u64) -> (r: u32)
    ensures
        r == memory_percent_spec(used, total),
{
    if total == 0 {
        0
    } else if used >= total {
        10000
    } else {
        let scaled: u128 = used as u128 * 10000;
        let q: u128 = scaled / (total as u128);
        proof {
            assert(q <= 10000) by (nonlinear_arith)
                requires
                    q == scaled / (total as u128),
                    scaled == used as u128 * 10000,
                    used < total,
                    total > 0,
            ;
        }
        q as u32
    }
}

/// The selection kept when the view now holds `len` entries: re-clamped to the
/// last entry, and none when the view is empty.
pub open spec fn clamp_selection(sel: Option<usize>, len: nat) -> Option<usize> {
    if len == 0 {
        None
    } else {
        match sel {
            Some(i) => if i < len { Some(i) } else { Some((len - 1) as usize) },
            None => None,
        }
    }
}

/// The selection after moving down in a view of `len` entries.
pub open spec fn next_selection(sel: Option<usize>, len: nat) -> Option<usize> {
    if len == 0 {
        sel
    } else {
        match sel {
            Some(i) => if i + 1 < len { Some((i + 1) as usize) } else { Some((len - 1) as usize) },
            None => Some(0),
        }
    }
}

/// The selection after moving up in a view of `len` entries.
pub open spec fn previous_selection(sel: Option<usize>, len: nat) -> Option<usize> {
    if len == 0 {
        sel
    } else {
        match sel {
            Some(i) => if i > 0 { Some((i - 1) as usize) } else { Some(0) },
            None => Some(0),
        }
    }
}

/// The application state: latest telemetry, histories, the process view and
/// the state of navigation, confirmation, notifications and refresh rate.
pub struct App {
    pub snapshot: Snapshot,
    /// Per-core usage histories, one per core seen at startup.
    pub cpu_history: Vec<HistoryBuffer<u32>>,
    pub overall_cpu_history: HistoryBuffer<u32>,
    pub memory_history: HistoryBuffer<u32>,
    pub gpu_usage_history: HistoryBuffer<u32>,
    pub history_size: usize,
    /// The process view: indices into `snapshot.processes`, in display order.
    pub view: Vec<usize>,
    /// Selected position in the process view.
    pub selected_process: Option<usize>,
    pub scroll_offset: usize,
    pub show_details: bool,
    pub show_help: bool,
    pub search_mode: bool,
    pub search_query: String,
    pub sort_order: SortOrder,
    pub confirmation: Option<ActionConfirmation>,
    pub toast: Option<Toast>,
    pub refresh: RefreshRate,
    pub should_quit: bool,
    /// Time (ms) of the last poll.
    pub last_update: u64,
}

impl App {
    pub open spec fn histories_wf(&self) -> bool {
        &&& self.history_size > 0
        &&& self.overall_cpu_history.wf()
        &&& self.overall_cpu_history.capacity() == self.history_size
        &&& self.memory_history.wf()
        &&& self.memory_history.capacity() == self.history_size
        &&& self.gpu_usage_history.wf()
        &&& self.gpu_usage_history.capacity() == self.history_size
        &&& forall|i: int|
            0 <= i < self.cpu_history@.len() ==> (#[trigger] self.cpu_history@[i]).wf()
                && self.cpu_history@[i].capacity() == self.history_size
    }

    pub open spec fn view_len(&self) -> nat {
        self.view@.len()
    }

    pub open spec fn selection_wf(&self) -> bool {
        match self.selected_process {
            Some(i) => i < self.view@.len(),
            None => true,
        }
    }

    pub open spec fn wf(&self) -> bool {
        &&& distinct_pids(self.snapshot.processes@)
        &&& is_process_view(
            self.snapshot.processes@,
            self.sort_order,
            filter_of(self.search_query@),
            self.view@,
        )
        &&& self.selection_wf()
        &&& self.histories_wf()
        &&& self.refresh.wf()
    }

    /// Telemetry and histories are the same in `a` and `b`.
    pub open spec fn same_telemetry(a: &App, b: &App) -> bool {
        &&& a.snapshot == b.snapshot
        &&& a.cpu_history@ == b.cpu_history@
        &&& a.overall_cpu_history == b.overall_cpu_history
        &&& a.memory_history == b.memory_history
        &&& a.gpu_usage_history == b.gpu_usage_history
        &&& a.history_size == b.history_size
        &&& a.last_update == b.last_update
    }

    /// Overlays, search mode and quitting are the same in `a` and `b`.
    pub open spec fn same_modes(a: &App, b: &App) -> bool {
        &&& a.show_details == b.show_details
        &&& a.show_help == b.show_help
        &&& a.search_mode == b.search_mode
        &&& a.should_quit == b.should_quit
        &&& a.scroll_offset == b.scroll_offset
    }

    /// Pending action, toast and refresh rate are the same in `a` and `b`.
    pub open spec fn same_actions(a: &App, b: &App) -> bool {
        &&& a.confirmation == b.confirmation
        &&& a.toast == b.toast
        &&& a.refresh == b.refresh
    }

    /// Sort order, query, view and selection are the same in `a` and `b`.
    pub open spec fn same_view(a: &App, b: &App) -> bool {
        &&& a.sort_order == b.sort_order
        &&& a.search_query == b.search_query
        &&& a.view@ == b.view@
        &&& a.selected_process == b.selected_process
    }

    /// Rebuilds the process view and re-clamps the selection into it.
    fn rebuild_view(&mut self)
        requires
            distinct_pids(old(self).snapshot.processes@),
        ensures
            is_process_view(
                final(self).snapshot.processes@,
                final(self).sort_order,
                filter_of(final(self).search_query@),
                final(self).view@,
            ),
            final(self).selected_process == clamp_selection(
                old(self).selected_process,
                final(self).view@.len(),
            ),
            final(self).selection_wf(),
            App::same_telemetry(old(self), final(self)),
            App::same_modes(old(self), final(self)),
            App::same_actions(old(self), final(self)),
            final(self).sort_order == old(self).sort_order,
            final(self).search_query == old(self).search_query,
    {
        self.view = build_view(&self.snapshot.processes, self.sort_order, &self.search_query);
        let len = self.view.len();
        if len == 0 {
            self.selected_process = None;
        } else {
            match self.selected_process {
                Some(i) => {
                    if i >= len {
                        self.selected_process = Some(len - 1);
                    }
                },
                None => {},
            }
        }
    }

    /// A new state over the first `snapshot`: one history per core it
    /// reports, all empty, sorted by CPU usage with nothing selected.
    pub fn new(snapshot: Snapshot, now: u64) -> (r: Self)
        requires
            distinct_pids(snapshot.processes@),
        ensures
            r.wf(),
            r.snapshot == snapshot,
            r.history_size == HISTORY_SIZE,
            r.cpu_history@.len() == snapshot.cores@.len(),
            forall|i: int| 0 <= i < r.cpu_history@.len() ==> (#[trigger] r.cpu_history@[i]).samples().len() == 0,
            r.overall_cpu_history.samples().len() == 0,
            r.memory_history.samples().len() == 0,
            r.gpu_usage_history.samples().len() == 0,
            r.selected_process.is_none(),
            r.sort_order == SortOrder::Cpu,
            r.search_query@.len() == 0,
            r.confirmation.is_none(),
            r.toast.is_none(),
            r.refresh.rung() == crate::refresh::DEFAULT_RUNG,
            !r.show_details && !r.show_help && !r.search_mode && !r.should_quit,
            r.scroll_offset == 0,
            r.last_update == now,
    {
        let mut cpu_history: Vec<HistoryBuffer<u32>> = Vec::new();
        let mut i: usize = 0;
        while i < snapshot.cores.len()
            invariant
                i <= snapshot.cores@.len(),
                cpu_history@.len() == i,
                forall|j: int|
                    0 <= j < i ==> (#[trigger] cpu_history@[j]).wf()
                        && cpu_history@[j].capacity() == HISTORY_SIZE
                        && cpu_history@[j].samples().len() == 0,
            decreases snapshot.cores@.len() - i,
        {
            cpu_history.push(HistoryBuffer::new(HISTORY_SIZE));
            i = i + 1;
        }
        let sort_order = SortOrder::Cpu;
        let search_query = String::new();
        let view = sort_indices(&snapshot.processes, sort_order);
        App {
            snapshot,
            cpu_history,
            overall_cpu_history: HistoryBuffer::new(HISTORY_SIZE),
            memory_history: HistoryBuffer::new(HISTORY_SIZE),
            gpu_usage_history: HistoryBuffer::new(HISTORY_SIZE),
            history_size: HISTORY_SIZE,
            view,
            selected_process: None,
            scroll_offset: 0,
            show_details: false,
            show_help: false,
            search_mode: false,
            search_query,
            sort_order,
            confirmation: None,
            toast: None,
            refresh: RefreshRate::new(),
            should_quit: false,
            last_update: now,
        }
    }
}

/// Records `value` into history `i` of `hs`, leaving the others as they are.
fn record_at(hs: &mut Vec<HistoryBuffer<u32>>, i: usize, value: u32)
    requires
        i < old(hs)@.len(),
        old(hs)@[i as int].wf(),
    ensures
        final(hs)@.len() == old(hs)@.len(),
        final(hs)@[i as int].wf(),
        final(hs)@[i as int].capacity() == old(hs)@[i as int].capacity(),
        final(hs)@[i as int].samples() == record_step(
            old(hs)@[i as int].samples(),
            old(hs)@[i as int].capacity(),
            value,
        ),
        forall|j: int| 0 <= j < old(hs)@.len() && j != i ==> final(hs)@[j] == old(hs)@[j],
{
    let mut h = hs.remove(i);
    h.record(value);
    hs.insert(i, h);
}

impl App {
    /// Takes in a fresh snapshot taken at `now`: appends one sample to each
    /// history (per-core ones only for cores seen at startup that the snapshot
    /// still reports; the accelerator's only when it reports), expires the
    /// toast, and rebuilds the process view.
    pub fn update(&mut self, snapshot: Snapshot, now: u64)
        requires
            old(self).wf(),
            distinct_pids(snapshot.processes@),
        ensures
            final(self).wf(),
            final(self).snapshot == snapshot,
            final(self).last_update == now,
            final(self).history_size == old(self).history_size,
            final(self).cpu_history@.len() == old(self).cpu_history@.len(),
            forall|i: int|
                0 <= i < old(self).cpu_history@.len() ==> (#[trigger] final(self).cpu_history@[i]).samples()
                    == if i < snapshot.cores@.len() {
                    record_step(
                        old(self).cpu_history@[i].samples(),
                        old(self).history_size as nat,
                        snapshot.cores@[i].usage,
                    )
                } else {
                    old(self).cpu_history@[i].samples()
                },
            final(self).overall_cpu_history.samples() == record_step(
                old(self).overall_cpu_history.samples(),
                old(self).history_size as nat,
                snapshot.cpu_usage,
            ),
            final(self).memory_history.samples() == record_step(
                old(self).memory_history.samples(),
                old(self).history_size as nat,
                memory_percent_spec(snapshot.used_memory, snapshot.total_memory) as u32,
            ),
            final(self).gpu_usage_history.samples() == match snapshot.gpu {
                Some(g) => record_step(
                    old(self).gpu_usage_history.samples(),
                    old(self).history_size as nat,
                    g.usage,
                ),
                None => old(self).gpu_usage_history.samples(),
            },
            final(self).toast == tick_toast(old(self).toast, now),
            poll_step(*old(self), *final(self), snapshot),
            final(self).selected_process == clamp_selection(
                old(self).selected_process,
                final(self).view@.len(),
            ),
            final(self).sort_order == old(self).sort_order,
            final(self).search_query == old(self).search_query,
            final(self).confirmation == old(self).confirmation,
            final(self).refresh == old(self).refresh,
            App::same_modes(old(self), final(self)),
    {
        let n = self.cpu_history.len();
        let cores = snapshot.cores.len();
        let mut i: usize = 0;
        while i < n
            invariant
                n == self.cpu_history@.len(),
                n == old(self).cpu_history@.len(),
                cores == snapshot.cores@.len(),
                i <= n,
                old(self).histories_wf(),
                self.history_size == old(self).history_size,
                self.overall_cpu_history == old(self).overall_cpu_history,
                self.memory_history == old(self).memory_history,
                self.gpu_usage_history == old(self).gpu_usage_history,
                self.snapshot == old(self).snapshot,
                self.toast == old(self).toast,
                App::same_modes(old(self), self),
                App::same_actions(old(self), self),
                App::same_view(old(self), self),
                forall|j: int|
                    0 <= j < n ==> (#[trigger] self.cpu_history@[j]).wf()
                        && self.cpu_history@[j].capacity() == self.history_size,
                forall|j: int|
                    i <= j < n ==> #[trigger] self.cpu_history@[j] == old(self).cpu_history@[j],
                forall|j: int|
                    0 <= j < i ==> (#[trigger] self.cpu_history@[j]).samples() == if j
                        < snapshot.cores@.len() {
                        record_step(
                            old(self).cpu_history@[j].samples(),
                            old(self).history_size as nat,
                            snapshot.cores@[j].usage,
                        )
                    } else {
                        old(self).cpu_history@[j].samples()
                    },
            decreases n - i,
        {
            if i < cores {
                record_at(&mut self.cpu_history, i, snapshot.cores[i].usage);
            }
            i = i + 1;
        }
        self.overall_cpu_history.record(snapshot.cpu_usage);
        self.memory_history.record(memory_percent(snapshot.used_memory, snapshot.total_memory));
        match &snapshot.gpu {
            Some(g) => self.gpu_usage_history.record(g.usage),
            None => {},
        }
        self.snapshot = snapshot;
        self.last_update = now;
        self.tick(now);
        self.rebuild_view();
    }

    /// Clears the toast once `now` has reached its expiry.
    pub fn tick(&mut self, now: u64)
        ensures
            final(self).toast == tick_toast(old(self).toast, now),
            App::same_telemetry(old(self), final(self)),
            App::same_modes(old(self), final(self)),
            App::same_view(old(self), final(self)),
            final(self).confirmation == old(self).confirmation,
            final(self).refresh == old(self).refresh,
    {
        let expired = match &self.toast {
            Some(t) => t.is_expired(now),
            None => false,
        };
        if expired {
            self.toast = None;
        }
    }

    /// Shows a toast at `now`, replacing any current one.
    pub fn show_toast(&mut self, message: String, level: ToastLevel, now: u64)
        requires
            now <= u64::MAX - TOAST_DURATION_MS,
        ensures
            final(self).toast matches Some(t) && t.message@ == message@ && t.level == level
                && t.expires_at == now + TOAST_DURATION_MS,
            App::same_telemetry(old(self), final(self)),
            App::same_modes(old(self), final(self)),
            App::same_view(old(self), final(self)),
            final(self).confirmation == old(self).confirmation,
            final(self).refresh == old(self).refresh,
    {
        self.toast = Some(Toast::new(message, level, now));
    }

    /// Whether a toast is showing at `now`.
    pub fn toast_visible_at(&self, now: u64) -> (r: bool)
        ensures
            r == toast_visible(self.toast, now),
    {
        match &self.toast {
            Some(t) => !t.is_expired(now),
            None => false,
        }
    }

    /// Moves the selection down one entry, stopping at the last.
    pub fn next_process(&mut self)
        requires
            old(self).wf(),
        ensures
            final(self).wf(),
            final(self).selected_process == next_selection(
                old(self).selected_process,
                old(self).view@.len(),
            ),
            App::same_telemetry(old(self), final(self)),
            App::same_modes(old(self), final(self)),
            App::same_actions(old(self), final(self)),
            final(self).view@ == old(self).view@,
            final(self).sort_order == old(self).sort_order,
            final(self).search_query == old(self).search_query,
    {
        let len = self.view.len();
        if len == 0 {
            return;
        }
        match self.selected_process {
            Some(i) => {
                if i + 1 < len {
                    self.selected_process = Some(i + 1);
                } else {
                    self.selected_process = Some(len - 1);
                }
            },
            None => {
                self.selected_process = Some(0);
            },
        }
    }

    /// Moves the selection up one entry, stopping at the first; with nothing
    /// selected it selects the first entry.
    pub fn previous_process(&mut self)
        requires
            old(self).wf(),
        ensures
            final(self).wf(),
            final(self).selected_process == previous_selection(
                old(self).selected_process,
                old(self).view@.len(),
            ),
            App::same_telemetry(old(self), final(self)),
            App::same_modes(old(self), final(self)),
            App::same_actions(old(self), final(self)),
            final(self).view@ == old(self).view@,
            final(self).sort_order == old(self).sort_order,
            final(self).search_query == old(self).search_query,
    {
        let len = self.view.len();
        if len == 0 {
            return;
        }
        match self.selected_process {
            Some(i) => {
                if i > 0 {
                    self.selected_process = Some(i - 1);
                }
            },
            None => {
                self.selected_process = Some(0);
            },
        }
    }

    /// Sorts the process view by `order`.
    pub fn set_sort_order(&mut self, order: SortOrder)
        requires
            old(self).wf(),
        ensures
            final(self).wf(),
            final(self).sort_order == order,
            is_process_view(
                final(self).snapshot.processes@,
                order,
                filter_of(final(self).search_query@),
                final(self).view@,
            ),
            final(self).selected_process == clamp_selection(
                old(self).selected_process,
                final(self).view@.len(),
            ),
            final(self).search_query == old(self).search_query,
            App::same_telemetry(old(self), final(self)),
            App::same_modes(old(self), final(self)),
            App::same_actions(old(self), final(self)),
    {
        self.sort_order = order;
        self.rebuild_view();
    }

    /// Enters search mode; the query typed so far is kept.
    pub fn enter_search(&mut self)
        requires
            old(self).wf(),
        ensures
            final(self).wf(),
            final(self).search_mode,
            App::same_telemetry(old(self), final(self)),
            App::same_actions(old(self), final(self)),
            App::same_view(old(self), final(self)),
            final(self).show_details == old(self).show_details,
            final(self).show_help == old(self).show_help,
            final(self).scroll_offset == old(self).scroll_offset,
            final(self).should_quit == old(self).should_quit,
    {
        self.search_mode = true;
    }

    /// Leaves search mode; the filter stays in force.
    pub fn exit_search(&mut self)
        requires
            old(self).wf(),
        ensures
            final(self).wf(),
            !final(self).search_mode,
            App::same_telemetry(old(self), final(self)),
            App::same_actions(old(self), final(self)),
            App::same_view(old(self), final(self)),
            final(self).show_details == old(self).show_details,
            final(self).show_help == old(self).show_help,
            final(self).scroll_offset == old(self).scroll_offset,
            final(self).should_quit == old(self).should_quit,
    {
        self.search_mode = false;
    }

    /// Appends `c` to the query and filters the view by it.
    pub fn push_search_char(&mut self, c: char)
        requires
            old(self).wf(),
        ensures
            final(self).wf(),
            final(self).search_query@ == old(self).search_query@.push(c),
            final(self).selected_process == clamp_selection(
                old(self).selected_process,
                final(self).view@.len(),
            ),
            final(self).sort_order == old(self).sort_order,
            App::same_telemetry(old(self), final(self)),
            App::same_modes(old(self), final(self)),
            App::same_actions(old(self), final(self)),
    {
        push_char(&mut self.search_query, c);
        self.rebuild_view();
    }

    /// Removes the query's last character, if any, and filters the view
    /// by what is left.
    pub fn pop_search_char(&mut self)
        requires
            old(self).wf(),
        ensures
            final(self).wf(),
            old(self).search_query@.len() > 0 ==> final(self).search_query@
                == old(self).search_query@.drop_last(),
            old(self).search_query@.len() == 0 ==> final(self).search_query@
                == old(self).search_query@,
            final(self).selected_process == clamp_selection(
                old(self).selected_process,
                final(self).view@.len(),
            ),
            final(self).sort_order == old(self).sort_order,
            App::same_telemetry(old(self), final(self)),
            App::same_modes(old(self), final(self)),
            App::same_actions(old(self), final(self)),
    {
        let _ = pop_char(&mut self.search_query);
        self.rebuild_view();
    }

    /// Clears the query: the view is the full sorted table again.
    pub fn clear_search(&mut self)
        requires
            old(self).wf(),
        ensures
            final(self).wf(),
            final(self).search_query@.len() == 0,
            is_process_view(final(self).snapshot.processes@, final(self).sort_order, None, final(self).view@),
            final(self).selected_process == clamp_selection(
                old(self).selected_process,
                final(self).view@.len(),
            ),
            final(self).sort_order == old(self).sort_order,
            App::same_telemetry(old(self), final(self)),
            App::same_modes(old(self), final(self)),
            App::same_actions(old(self), final(self)),
    {
        self.search_query = String::new();
        self.rebuild_view();
    }
}

/// Whether `c` asks for `action` on the process `rec`, as it was when asked.
pub open spec fn captured(c: ActionConfirmation, action: ProcessAction, rec: ProcessRecord) -> bool {
    &&& c.action == action
    &&& c.pid == rec.pid
    &&& c.process_name == rec.name
}

impl App {
    /// The record at position `i` of the process view.
    pub open spec fn view_record(&self, i: int) -> ProcessRecord {
        self.snapshot.processes@[self.view@[i] as int]
    }

    /// The selected record, if any.
    pub fn get_selected_process(&self) -> (r: Option<&ProcessRecord>)
        requires
            self.wf(),
        ensures
            self.selected_process.is_none() ==> r.is_none(),
            self.selected_process matches Some(i) ==> r matches Some(p) && *p == self.view_record(
                i as int,
            ),
    {
        match self.selected_process {
            Some(i) => Some(&self.snapshot.processes[self.view[i]]),
            None => None,
        }
    }

    /// The whole process table sorted by the current order, unfiltered.
    pub fn get_sorted_processes(&self) -> (r: Vec<usize>)
        requires
            self.wf(),
        ensures
            is_process_view(self.snapshot.processes@, self.sort_order, None, r@),
    {
        sort_indices(&self.snapshot.processes, self.sort_order)
    }

    /// The process view: indices into the snapshot's table, in display order.
    pub fn get_display_processes(&self) -> (r: &Vec<usize>)
        requires
            self.wf(),
        ensures
            r@ == self.view@,
            is_process_view(
                self.snapshot.processes@,
                self.sort_order,
                filter_of(self.search_query@),
                r@,
            ),
    {
        &self.view
    }

    /// Asks for confirmation of `action` on the selected process, capturing
    /// its identifier and name; does nothing when nothing is selected.
    pub fn request_action(&mut self, action: ProcessAction)
        requires
            old(self).wf(),
        ensures
            final(self).wf(),
            old(self).selected_process.is_none() ==> final(self).confirmation
                == old(self).confirmation,
            old(self).selected_process matches Some(i) ==> final(self).confirmation matches Some(
                c,
            ) && captured(c, action, old(self).view_record(i as int)),
            final(self).toast == old(self).toast,
            final(self).refresh == old(self).refresh,
            App::same_telemetry(old(self), final(self)),
            App::same_modes(old(self), final(self)),
            App::same_view(old(self), final(self)),
    {
        match self.selected_process {
            Some(i) => {
                let rec = &self.snapshot.processes[self.view[i]];
                self.confirmation = Some(
                    ActionConfirmation { action, pid: rec.pid, process_name: rec.name.clone() },
                );
            },
            None => {},
        }
    }

    /// Resolves the pending action with the provider's `outcome` for it: a
    /// success toast with the provider's text on `Ok`, an error toast on
    /// `Err`, and no action pending afterwards. Does nothing when no action
    /// is pending.
    pub fn confirm(&mut self, outcome: Result<String, String>, now: u64)
        requires
            old(self).wf(),
            now <= u64::MAX - TOAST_DURATION_MS,
        ensures
            final(self).wf(),
            final(self).confirmation.is_none(),
            old(self).confirmation.is_none() ==> final(self).toast == old(self).toast,
            old(self).confirmation.is_some() ==> match outcome {
                Ok(m) => final(self).toast matches Some(t) && t.level == ToastLevel::Success
                    && t.message@ == m@ && t.expires_at == now + TOAST_DURATION_MS,
                Err(m) => final(self).toast matches Some(t) && t.level == ToastLevel::Error
                    && t.message@ == m@ && t.expires_at == now + TOAST_DURATION_MS,
            },
            final(self).refresh == old(self).refresh,
            App::same_telemetry(old(self), final(self)),
            App::same_modes(old(self), final(self)),
            App::same_view(old(self), final(self)),
    {
        if self.confirmation.is_none() {
            return;
        }
        self.confirmation = None;
        match outcome {
            Ok(m) => self.show_toast(m, ToastLevel::Success, now),
            Err(m) => self.show_toast(m, ToastLevel::Error, now),
        }
    }

    /// Drops the pending action, if any, with no other effect.
    pub fn cancel(&mut self)
        requires
            old(self).wf(),
        ensures
            final(self).wf(),
            final(self).confirmation.is_none(),
            final(self).toast == old(self).toast,
            final(self).refresh == old(self).refresh,
            App::same_telemetry(old(self), final(self)),
            App::same_modes(old(self), final(self)),
            App::same_view(old(self), final(self)),
    {
        self.confirmation = None;
    }

    /// Polls more often: the next shorter interval.
    pub fn faster(&mut self)
        requires
            old(self).wf(),
        ensures
            final(self).wf(),
            final(self).refresh.rung() == crate::refresh::faster_rung(old(self).refresh.rung()),
            final(self).confirmation == old(self).confirmation,
            final(self).toast == old(self).toast,
            App::same_telemetry(old(self), final(self)),
            App::same_modes(old(self), final(self)),
            App::same_view(old(self), final(self)),
    {
        self.refresh.faster();
    }

    /// Polls less often: the next longer interval.
    pub fn slower(&mut self)
        requires
            old(self).wf(),
        ensures
            final(self).wf(),
            final(self).refresh.rung() == crate::refresh::slower_rung(old(self).refresh.rung()),
            final(self).confirmation == old(self).confirmation,
            final(self).toast == old(self).toast,
            App::same_telemetry(old(self), final(self)),
            App::same_modes(old(self), final(self)),
            App::same_view(old(self), final(self)),
    {
        self.refresh.slower();
    }

    /// The current polling interval in milliseconds.
    pub fn refresh_rate_ms(&self) -> (r: u64)
        requires
            self.wf(),
        ensures
            r == self.refresh.interval_spec(),
    {
        self.refresh.interval_ms()
    }

    /// Whether a poll is due at `now`.
    pub fn poll_due(&self, now: u64) -> (r: bool)
        requires
            self.wf(),
        ensures
            r == (now >= self.last_update && now - self.last_update >= self.refresh.interval_spec()),
    {
        now >= self.last_update && now - self.last_update >= self.refresh.interval_ms()
    }

    /// Opens or closes the details pane.
    pub fn toggle_details(&mut self)
        ensures
            final(self).show_details == !old(self).show_details,
            final(self).show_help == old(self).show_help,
            final(self).search_mode == old(self).search_mode,
            final(self).should_quit == old(self).should_quit,
            final(self).scroll_offset == old(self).scroll_offset,
            App::same_telemetry(old(self), final(self)),
            App::same_actions(old(self), final(self)),
            App::same_view(old(self), final(self)),
    {
        self.show_details = !self.show_details;
    }

    /// Opens or closes the help overlay.
    pub fn toggle_help(&mut self)
        ensures
            final(self).show_help == !old(self).show_help,
            final(self).show_details == old(self).show_details,
            final(self).search_mode == old(self).search_mode,
            final(self).should_quit == old(self).should_quit,
            final(self).scroll_offset == old(self).scroll_offset,
            App::same_telemetry(old(self), final(self)),
            App::same_actions(old(self), final(self)),
            App::same_view(old(self), final(self)),
    {
        self.show_help = !self.show_help;
    }

    /// Asks the driving loop to stop.
    pub fn quit(&mut self)
        ensures
            final(self).should_quit,
            final(self).show_details == old(self).show_details,
            final(self).show_help == old(self).show_help,
            final(self).search_mode == old(self).search_mode,
            final(self).scroll_offset == old(self).scroll_offset,
            App::same_telemetry(old(self), final(self)),
            App::same_actions(old(self), final(self)),
            App::same_view(old(self), final(self)),
    {
        self.should_quit = true;
    }
}

impl App {
    /// The directive to send for the pending action: its identifier and
    /// action, when one is pending and the platform can send it.
    pub fn directive_to_send(&self, supports_pause_resume: bool) -> (r: Option<(u32, ProcessAction)>)
        ensures
            r == match self.confirmation {
                Some(c) => if directive_allowed(c.action, supports_pause_resume) {
                    Some((c.pid, c.action))
                } else {
                    None
                },
                None => None,
            },
    {
        match &self.confirmation {
            Some(c) => {
                if may_send(c.action, supports_pause_resume) {
                    Some((c.pid, c.action))
                } else {
                    None
                }
            },
            None => None,
        }
    }

    /// Resolves the pending action once the provider has answered `result`
    /// for it (or nothing was sent, where the platform could not send it):
    /// one toast says how it went, and no action is pending afterwards. Does
    /// nothing when no action is pending.
    pub fn resolve(&mut self, supports_pause_resume: bool, result: DirectiveResult, now: u64)
        requires
            old(self).wf(),
            now <= u64::MAX - TOAST_DURATION_MS,
        ensures
            final(self).wf(),
            final(self).confirmation.is_none(),
            old(self).confirmation.is_none() ==> final(self).toast == old(self).toast,
            old(self).confirmation matches Some(c) ==> final(self).toast matches Some(t)
                && t.expires_at == now + TOAST_DURATION_MS && match outcome_spec(
                c.pid,
                c.action,
                supports_pause_resume,
                result,
            ) {
                Ok(m) => t.level == ToastLevel::Success && t.message@ == m,
                Err(m) => t.level == ToastLevel::Error && t.message@ == m,
            },
            final(self).refresh == old(self).refresh,
            App::same_telemetry(old(self), final(self)),
            App::same_modes(old(self), final(self)),
            App::same_view(old(self), final(self)),
    {
        let outcome = match &self.confirmation {
            Some(c) => directive_outcome(c.pid, c.action, supports_pause_resume, result),
            None => {
                return;
            },
        };
        self.confirm(outcome, now);
    }
}

/// The process view depends on the table, the order and the query alone, not
/// on the orders chosen before: re-sorting by memory after sorting by CPU
/// gives the same view as sorting by memory directly.
pub proof fn lemma_sort_is_pure(a: App, b: App)
    requires
        a.wf(),
        b.wf(),
        a.snapshot.processes@ == b.snapshot.processes@,
        a.search_query@ == b.search_query@,
        a.sort_order == b.sort_order,
    ensures
        a.view@ == b.view@,
{
    crate::process::lemma_view_unique(
        a.snapshot.processes@,
        a.sort_order,
        filter_of(a.search_query@),
        a.view@,
        b.view@,
    );
}

/// In every well-formed state the selection is either empty or a position of
/// the current process view.
pub proof fn lemma_selection_in_view(a: App)
    requires
        a.wf(),
    ensures
        a.selected_process matches Some(i) ==> 0 <= i < a.view@.len(),
        a.view@.len() == 0 ==> a.selected_process.is_none(),
{
}

/// What one poll with `snap` does to the size and the aggregate CPU and
/// memory histories, as `App::update` ensures.
pub open spec fn poll_step(a: App, b: App, snap: Snapshot) -> bool {
    &&& b.history_size == a.history_size
    &&& b.overall_cpu_history.samples() == record_step(
        a.overall_cpu_history.samples(),
        a.history_size as nat,
        snap.cpu_usage,
    )
    &&& b.memory_history.samples() == record_step(
        a.memory_history.samples(),
        a.history_size as nat,
        memory_percent_spec(snap.used_memory, snap.total_memory) as u32,
    )
}

/// Over any run of polls from a fresh state, the aggregate CPU and memory
/// histories hold the last `min(n, W)` samples of the `n` polls, oldest
/// first, where `W` is the history size.
pub proof fn lemma_polls_keep_window(apps: Seq<App>, snapshots: Seq<Snapshot>)
    requires
        apps.len() == snapshots.len() + 1,
        apps[0].history_size > 0,
        apps[0].overall_cpu_history.samples().len() == 0,
        apps[0].memory_history.samples().len() == 0,
        forall|k: int| 0 <= k < snapshots.len() ==> #[trigger] poll_step(apps[k], apps[k + 1], snapshots[k]),
    ensures
        ({
            let w = apps[0].history_size as nat;
            let n = snapshots.len();
            let kept = if n < w { n } else { w };
            let cpu = Seq::new(n, |k: int| snapshots[k].cpu_usage);
            let mem = Seq::new(
                n,
                |k: int| memory_percent_spec(snapshots[k].used_memory, snapshots[k].total_memory) as u32,
            );
            &&& apps.last().overall_cpu_history.samples() == cpu.subrange(n - kept, n as int)
            &&& apps.last().memory_history.samples() == mem.subrange(n - kept, n as int)
        }),
{
    let w = apps[0].history_size as nat;
    let n = snapshots.len();
    let cpu = Seq::new(n, |k: int| snapshots[k].cpu_usage);
    let mem = Seq::new(
        n,
        |k: int| memory_percent_spec(snapshots[k].used_memory, snapshots[k].total_memory) as u32,
    );
    let cs = Seq::new(apps.len(), |k: int| apps[k].overall_cpu_history.samples());
    let ms = Seq::new(apps.len(), |k: int| apps[k].memory_history.samples());
    assert forall|k: int| 0 <= k < n implies #[trigger] cs[k + 1] == record_step(cs[k], w, cpu[k]) by {
        lemma_same_size(apps, snapshots, k);
        assert(poll_step(apps[k], apps[k + 1], snapshots[k]));
    }
    assert forall|k: int| 0 <= k < n implies #[trigger] ms[k + 1] == record_step(ms[k], w, mem[k]) by {
        lemma_same_size(apps, snapshots, k);
        assert(poll_step(apps[k], apps[k + 1], snapshots[k]));
    }
    assert(cs[0] =~= Seq::<u32>::empty());
    assert(ms[0] =~= Seq::<u32>::empty());
    crate::history::lemma_run_window(w, cs, cpu);
    crate::history::lemma_run_window(w, ms, mem);
    assert(cs.last() == apps.last().overall_cpu_history.samples());
    assert(ms.last() == apps.last().memory_history.samples());
}

proof fn lemma_same_size(apps: Seq<App>, snapshots: Seq<Snapshot>, k: int)
    requires
        apps.len() == snapshots.len() + 1,
        forall|j: int| 0 <= j < snapshots.len() ==> #[trigger] poll_step(apps[j], apps[j + 1], snapshots[j]),
        0 <= k <= snapshots.len(),
    ensures
        apps[k].history_size == apps[0].history_size,
    decreases k,
{
    if k > 0 {
        lemma_same_size(apps, snapshots, k - 1);
        let j = k - 1;
        assert(poll_step(apps[j], apps[j + 1], snapshots[j]));
        assert(apps[j + 1] == apps[k]);
    }
}

} // verus!
