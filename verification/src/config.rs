use vstd::prelude::*;

use crate::file::FileConfig;
use crate::format::FormatterConfig;
use crate::level::LogLevel;

verus! {

/// Identifier of a backend in a logger's stack; never reused by a logger.
pub type BackendId = usize;

/// What a backend writes to. `S` is the handle of a shared in-memory store.
#[derive(Debug, Clone)]
pub enum BackendKind<S> {
    /// The console (standard error).
    Console,
    /// A latest file and a session file.
    File(FileConfig),
    /// A queryable in-memory store.
    Store(S),
}

impl<S> BackendKind<S> {
    /// Whether this is the console backend.
    pub fn is_console(&self) -> (r: bool)
        ensures
            r == (*self is Console),
    {
        match self {
            BackendKind::Console => true,
            _ => false,
        }
    }
}

/// A backend of a logger's stack: its identifier and what it writes to.
#[derive(Debug, Clone)]
pub struct BackendSpec<S> {
    /// The backend's identifier.
    pub id: BackendId,
    /// What the backend writes to.
    pub kind: BackendKind<S>,
}

/// The configuration and backend stack of a logger.
#[derive(Debug)]
pub struct LoggerState<S> {
    max_level: LogLevel,
    ansi: bool,
    target: bool,
    timestamp: bool,
    backend_specs: Vec<BackendSpec<S>>,
    next_backend_id: BackendId,
    log_bridge: bool,
}

/// What a logger's state holds.
pub struct LoggerStateView<S> {
    /// The global maximum level installed by `init`.
    pub max_level: LogLevel,
    /// Color levels on the console.
    pub ansi: bool,
    /// Include targets in rendered lines.
    pub target: bool,
    /// Include timestamps in rendered lines.
    pub timestamp: bool,
    /// The backend stack, in the order sinks receive events.
    pub specs: Seq<BackendSpec<S>>,
    /// The identifier the next backend will get.
    pub next_id: BackendId,
    /// Forward `log` records during `init`.
    pub log_bridge: bool,
}

impl<S> View for LoggerState<S> {
    type V = LoggerStateView<S>;

    closed spec fn view(&self) -> LoggerStateView<S> {
        LoggerStateView {
            max_level: self.max_level,
            ansi: self.ansi,
            target: self.target,
            timestamp: self.timestamp,
            specs: self.backend_specs@,
            next_id: self.next_backend_id,
            log_bridge: self.log_bridge,
        }
    }
}

/// The backend at position `i` exists and is the console.
pub open spec fn is_console_at<S>(specs: Seq<BackendSpec<S>>, i: int) -> bool {
    0 <= i < specs.len() && specs[i].kind is Console
}

/// The stack holds a console backend.
pub open spec fn has_console<S>(specs: Seq<BackendSpec<S>>) -> bool {
    exists|i: int| is_console_at(specs, i)
}

/// The invariant of a backend stack: identifiers are below the next one to
/// hand out and pairwise distinct, and there is at most one console.
pub open spec fn stack_wf<S>(specs: Seq<BackendSpec<S>>, next_id: BackendId) -> bool {
    &&& forall|i: int| 0 <= i < specs.len() ==> #[trigger] specs[i].id < next_id
    &&& forall|i: int, j: int|
        0 <= i < specs.len() && 0 <= j < specs.len() && i != j ==> #[trigger] specs[i].id
            != #[trigger] specs[j].id
    &&& forall|i: int, j: int|
        is_console_at(specs, i) && is_console_at(specs, j) ==> i == j
}

/// The state's invariant.
pub open spec fn state_wf<S>(v: LoggerStateView<S>) -> bool {
    stack_wf(v.specs, v.next_id)
}

/// The state of a new logger: level `INFO`, colors, targets and timestamps
/// on, the console as its only backend (identifier 0), no `log` bridge.
pub open spec fn default_state<S>() -> LoggerStateView<S> {
    LoggerStateView {
        max_level: LogLevel::Info,
        ansi: true,
        target: true,
        timestamp: true,
        specs: seq![BackendSpec { id: 0, kind: BackendKind::Console }],
        next_id: 1,
        log_bridge: false,
    }
}

/// The position of the console in a stack that has one.
pub open spec fn console_position<S>(specs: Seq<BackendSpec<S>>) -> int {
    choose|i: int| is_console_at(specs, i)
}

/// Enabling or disabling the console: the next state and the identifier of
/// the console backend concerned, if any.
///
/// Enabling keeps a present console and otherwise puts a new one, with a
/// fresh identifier, at the front of the stack. Disabling removes the console
/// if there is one.
pub open spec fn console_step<S>(v: LoggerStateView<S>, enabled: bool) -> (
    LoggerStateView<S>,
    Option<BackendId>,
) {
    if has_console(v.specs) {
        let i = console_position(v.specs);
        if enabled {
            (v, Some(v.specs[i].id))
        } else {
            (LoggerStateView { specs: v.specs.remove(i), ..v }, Some(v.specs[i].id))
        }
    } else {
        if enabled {
            (
                LoggerStateView {
                    specs: v.specs.insert(0, BackendSpec { id: v.next_id, kind: BackendKind::Console }),
                    next_id: (v.next_id + 1) as usize,
                    ..v
                },
                Some(v.next_id),
            )
        } else {
            (v, None)
        }
    }
}

/// Adding a backend: it goes to the end of the stack under the next
/// identifier.
pub open spec fn stage_step<S>(v: LoggerStateView<S>, kind: BackendKind<S>) -> (
    LoggerStateView<S>,
    BackendId,
) {
    (
        LoggerStateView {
            specs: v.specs.push(BackendSpec { id: v.next_id, kind }),
            next_id: (v.next_id + 1) as usize,
            ..v
        },
        v.next_id,
    )
}

/// In a well-formed stack, the console (if any) is at one position only.
proof fn lemma_console_unique<S>(specs: Seq<BackendSpec<S>>, next_id: BackendId, i: int)
    requires
        stack_wf(specs, next_id),
        is_console_at(specs, i),
    ensures
        has_console(specs),
        console_position(specs) == i,
{
    assert(is_console_at(specs, i));
    let j = console_position(specs);
    assert(is_console_at(specs, j));
}

impl<S> LoggerState<S> {
    /// The type's invariant: the backend stack is well formed.
    #[verifier::type_invariant]
    pub open spec fn well_formed(self) -> bool {
        state_wf(self@)
    }

    /// The state of a new logger.
    pub fn new() -> (r: LoggerState<S>)
        ensures
            r@ == default_state::<S>(),
            state_wf(r@),
    {
        let mut specs: Vec<BackendSpec<S>> = Vec::new();
        specs.push(BackendSpec { id: 0, kind: BackendKind::Console });
        let r = LoggerState {
            max_level: LogLevel::Info,
            ansi: true,
            target: true,
            timestamp: true,
            backend_specs: specs,
            next_backend_id: 1,
            log_bridge: false,
        };
        assert(r@.specs =~= default_state::<S>().specs);
        r
    }

    /// The global maximum level.
    pub fn max_level(&self) -> (r: LogLevel)
        ensures
            r == self@.max_level,
    {
        self.max_level
    }

    /// Whether console levels are colored.
    pub fn ansi(&self) -> (r: bool)
        ensures
            r == self@.ansi,
    {
        self.ansi
    }

    /// Whether rendered lines include the target.
    pub fn target(&self) -> (r: bool)
        ensures
            r == self@.target,
    {
        self.target
    }

    /// Whether rendered lines include the timestamp.
    pub fn timestamp(&self) -> (r: bool)
        ensures
            r == self@.timestamp,
    {
        self.timestamp
    }

    /// Whether `init` installs the `log` bridge.
    pub fn log_bridge(&self) -> (r: bool)
        ensures
            r == self@.log_bridge,
    {
        self.log_bridge
    }

    /// The backend stack.
    pub fn backend_specs(&self) -> (r: &[BackendSpec<S>])
        ensures
            r@ == self@.specs,
    {
        self.backend_specs.as_slice()
    }

    /// The identifier the next backend will get.
    pub fn next_backend_id(&self) -> (r: BackendId)
        ensures
            r == self@.next_id,
    {
        self.next_backend_id
    }

    /// Set the global maximum level.
    pub fn set_max_level(&mut self, level: LogLevel)
        ensures
            final(self)@ == (LoggerStateView { max_level: level, ..old(self)@ }),
    {
        proof {
            use_type_invariant(&*self);
        }
        self.max_level = level;
    }

    /// Enable or disable ANSI colors.
    pub fn set_ansi(&mut self, enabled: bool)
        ensures
            final(self)@ == (LoggerStateView { ansi: enabled, ..old(self)@ }),
    {
        proof {
            use_type_invariant(&*self);
        }
        self.ansi = enabled;
    }

    /// Enable or disable targets in rendered lines.
    pub fn set_target(&mut self, enabled: bool)
        ensures
            final(self)@ == (LoggerStateView { target: enabled, ..old(self)@ }),
    {
        proof {
            use_type_invariant(&*self);
        }
        self.target = enabled;
    }

    /// Enable or disable timestamps in rendered lines.
    pub fn set_timestamp(&mut self, enabled: bool)
        ensures
            final(self)@ == (LoggerStateView { timestamp: enabled, ..old(self)@ }),
    {
        proof {
            use_type_invariant(&*self);
        }
        self.timestamp = enabled;
    }

    /// Enable or disable the `log` bridge.
    pub fn set_log_bridge(&mut self, enabled: bool)
        ensures
            final(self)@ == (LoggerStateView { log_bridge: enabled, ..old(self)@ }),
    {
        proof {
            use_type_invariant(&*self);
        }
        self.log_bridge = enabled;
    }

    /// The rendering configuration of this state.
    pub fn formatter_config(&self) -> (r: FormatterConfig)
        ensures
            r == (FormatterConfig { ansi: self@.ansi, target: self@.target, timestamp: self@.timestamp }),
    {
        FormatterConfig { ansi: self.ansi, target: self.target, timestamp: self.timestamp }
    }

    /// The position of the first console backend, if any.
    fn console_index(&self) -> (r: Option<usize>)
        ensures
            match r {
                Some(i) => is_console_at(self@.specs, i as int),
                None => !has_console(self@.specs),
            },
    {
        let mut i: usize = 0;
        while i < self.backend_specs.len()
            invariant
                i <= self.backend_specs@.len(),
                forall|j: int| 0 <= j < i ==> !is_console_at(self@.specs, j),
            decreases self.backend_specs@.len() - i,
        {
            if self.backend_specs[i].kind.is_console() {
                return Some(i);
            }
            i = i + 1;
        }
        None
    }

    /// Whether the stack holds a console backend.
    pub fn has_console(&self) -> (r: bool)
        ensures
            r == has_console(self@.specs),
    {
        self.console_index().is_some()
    }

    /// Enable or disable the console backend; returns the identifier of the
    /// console backend concerned, if any.
    pub fn set_console_enabled(&mut self, enabled: bool) -> (r: Option<BackendId>)
        requires
            enabled && !has_console(old(self)@.specs) ==> old(self)@.next_id < usize::MAX,
        ensures
            state_wf(final(self)@),
            (final(self)@, r) == console_step(old(self)@, enabled),
    {
        proof {
            use_type_invariant(&*self);
            lemma_console_step_keeps_wf(self@, enabled);
        }
        let idx = self.console_index();
        match idx {
            Some(i) => {
                proof {
                    lemma_console_unique(self@.specs, self@.next_id, i as int);
                }
                if enabled {
                    Some(self.backend_specs[i].id)
                } else {
                    let mut specs: Vec<BackendSpec<S>> = Vec::new();
                    std::mem::swap(&mut specs, &mut self.backend_specs);
                    let removed = specs.remove(i);
                    self.backend_specs = specs;
                    proof {
                        assert(self@ =~= console_step(old(self)@, enabled).0);
                    }
                    Some(removed.id)
                }
            },
            None => {
                if enabled {
                    let id = self.next_backend_id;
                    let mut specs: Vec<BackendSpec<S>> = Vec::new();
                    std::mem::swap(&mut specs, &mut self.backend_specs);
                    self.next_backend_id = id + 1;
                    specs.insert(0, BackendSpec { id, kind: BackendKind::Console });
                    self.backend_specs = specs;
                    proof {
                        assert(self@ =~= console_step(old(self)@, enabled).0);
                    }
                    Some(id)
                } else {
                    None
                }
            },
        }
    }

    /// Add a backend at the end of the stack under a fresh identifier.
    fn stage_backend(&mut self, kind: BackendKind<S>) -> (r: BackendId)
        requires
            !(kind is Console),
            old(self)@.next_id < usize::MAX,
        ensures
            state_wf(final(self)@),
            (final(self)@, r) == stage_step(old(self)@, kind),
    {
        proof {
            use_type_invariant(&*self);
            lemma_stage_step_keeps_wf(self@, kind);
        }
        let id = self.next_backend_id;
        let mut specs: Vec<BackendSpec<S>> = Vec::new();
        std::mem::swap(&mut specs, &mut self.backend_specs);
        self.next_backend_id = id + 1;
        specs.push(BackendSpec { id, kind });
        self.backend_specs = specs;
        proof {
            assert(self@ =~= stage_step(old(self)@, kind).0);
        }
        id
    }

    /// Add a file backend at the end of the stack; returns its identifier.
    pub fn stage_file_backend(&mut self, config: FileConfig) -> (r: BackendId)
        requires
            old(self)@.next_id < usize::MAX,
        ensures
            state_wf(final(self)@),
            (final(self)@, r) == stage_step(old(self)@, BackendKind::File(config)),
    {
        self.stage_backend(BackendKind::File(config))
    }

    /// Add a store backend at the end of the stack; returns its identifier.
    pub fn stage_store_backend(&mut self, store: S) -> (r: BackendId)
        requires
            old(self)@.next_id < usize::MAX,
        ensures
            state_wf(final(self)@),
            (final(self)@, r) == stage_step(old(self)@, BackendKind::Store(store)),
    {
        self.stage_backend(BackendKind::Store(store))
    }
}

/// What to do with a logger's sink registry after the console was enabled or
/// disabled.
#[derive(Debug, Clone, Copy, PartialEq, Eq, Structural)]
pub enum SinkUpdate {
    /// Attach a console sink under this identifier.
    Register(BackendId),
    /// Detach the sink under this identifier.
    Unregister(BackendId),
    /// Leave the registry as it is.
    Keep,
}

/// The registry change that follows enabling or disabling the console, as
/// `console_sink_update` decides it.
pub open spec fn console_update(enabled: bool, console_id: Option<BackendId>, registered: bool)
    -> SinkUpdate {
    match console_id {
        Some(id) => if enabled {
            if registered {
                SinkUpdate::Keep
            } else {
                SinkUpdate::Register(id)
            }
        } else {
            SinkUpdate::Unregister(id)
        },
        None => SinkUpdate::Keep,
    }
}

/// The rendering configuration a sink uses: the console keeps the
/// configured colors; files and stores keep plain text.
pub open spec fn sink_config(console_sink: bool, base: FormatterConfig) -> FormatterConfig {
    if console_sink {
        base
    } else {
        FormatterConfig { ansi: false, ..base }
    }
}

/// The rendering configuration of a sink: colors, when configured, go to
/// the console only.
pub fn sink_formatter_config(console_sink: bool, base: FormatterConfig) -> (r: FormatterConfig)
    ensures
        r == sink_config(console_sink, base),
{
    if console_sink {
        base
    } else {
        base.without_ansi()
    }
}

/// The registry change that follows enabling or disabling the console:
/// an enabled console gets a sink unless one is registered under its
/// identifier already, and a disabled console loses its sink.
pub fn console_sink_update(enabled: bool, console_id: Option<BackendId>, registered: bool) -> (r:
    SinkUpdate)
    ensures
        r == console_update(enabled, console_id, registered),
{
    match console_id {
        Some(id) => {
            if enabled {
                if registered {
                    SinkUpdate::Keep
                } else {
                    SinkUpdate::Register(id)
                }
            } else {
                SinkUpdate::Unregister(id)
            }
        },
        None => SinkUpdate::Keep,
    }
}

/// Whether `id` is among `ids`.
fn id_in(ids: &[BackendId], id: BackendId) -> (r: bool)
    ensures
        r == ids@.contains(id),
{
    let mut i: usize = 0;
    while i < ids.len()
        invariant
            i <= ids@.len(),
            forall|j: int| 0 <= j < i ==> ids@[j] != id,
        decreases ids@.len() - i,
    {
        if ids[i] == id {
            assert(ids@[i as int] == id);
            return true;
        }
        i = i + 1;
    }
    false
}

impl<S> LoggerState<S> {
    /// The positions, in stack order, of the backends that have no sink yet:
    /// those whose identifier is not among `registered`.
    pub fn unrealized_backends(&self, registered: &[BackendId]) -> (r: Vec<usize>)
        ensures
            forall|k: int|
                0 <= k < r@.len() ==> r@[k] < self@.specs.len() && !registered@.contains(
                    self@.specs[r@[k] as int].id,
                ),
            forall|k: int, l: int| 0 <= k < l < r@.len() ==> r@[k] < r@[l],
            forall|i: int|
                0 <= i < self@.specs.len() && !registered@.contains(self@.specs[i].id)
                    ==> r@.contains(i as usize),
            lists_unrealized(self@.specs, registered@.to_set(), r@),
    {
        let mut out: Vec<usize> = Vec::new();
        let mut i: usize = 0;
        while i < self.backend_specs.len()
            invariant
                i <= self@.specs.len(),
                forall|k: int|
                    0 <= k < out@.len() ==> out@[k] < i && !registered@.contains(
                        self@.specs[out@[k] as int].id,
                    ),
                forall|k: int, l: int| 0 <= k < l < out@.len() ==> out@[k] < out@[l],
                forall|j: int|
                    0 <= j < i && !registered@.contains(self@.specs[j].id) ==> out@.contains(
                        j as usize,
                    ),
            decreases self@.specs.len() - i,
        {
            if !id_in(registered, self.backend_specs[i].id) {
                let ghost before = out@;
                out.push(i);
                proof {
                    assert forall|j: int|
                        0 <= j < i + 1 && !registered@.contains(
                            self@.specs[j].id,
                        ) implies out@.contains(j as usize) by {
                        if j < i {
                            let k = choose|k: int| 0 <= k < before.len() && before[k] == j as usize;
                            assert(out@[k] == j as usize);
                        } else {
                            assert(out@[before.len() as int] == i);
                        }
                    }
                }
            }
            i = i + 1;
        }
        proof {
            broadcast use vstd::seq_lib::group_seq_properties;

        }
        out
    }
}

/// The backends of a stack other than the console, in stack order.
pub open spec fn other_backends<S>(specs: Seq<BackendSpec<S>>) -> Seq<BackendSpec<S>> {
    specs.filter(|b: BackendSpec<S>| !(b.kind is Console))
}

/// Disabling the console leaves no console in the stack; enabling it leaves
/// exactly one. Either way the state stays well formed.
pub proof fn console_toggle_result<S>(v: LoggerStateView<S>, enabled: bool)
    requires
        state_wf(v),
        enabled && !has_console(v.specs) ==> v.next_id < usize::MAX,
    ensures
        enabled ==> has_console(console_step(v, enabled).0.specs),
        !enabled ==> !has_console(console_step(v, enabled).0.specs),
{
    if has_console(v.specs) {
        let i = console_position(v.specs);
        if !enabled {
            let s2 = v.specs.remove(i);
            if has_console(s2) {
                let a = choose|a: int| is_console_at(s2, a);
                let a0 = if a < i { a } else { a + 1 };
                assert(s2[a] == v.specs[a0]);
                assert(is_console_at(v.specs, a0));
            }
        }
    } else if enabled {
        let s2 = v.specs.insert(0, BackendSpec { id: v.next_id, kind: BackendKind::Console });
        assert(is_console_at(s2, 0));
    }
}

/// Enabling or disabling the console a second time changes nothing more.
pub proof fn console_toggle_is_idempotent<S>(v: LoggerStateView<S>, enabled: bool)
    requires
        state_wf(v),
        enabled && !has_console(v.specs) ==> v.next_id < usize::MAX,
    ensures
        console_step(console_step(v, enabled).0, enabled).0 == console_step(v, enabled).0,
{
    console_toggle_result(v, enabled);
    let w = console_step(v, enabled).0;
    if enabled && !has_console(v.specs) {
        assert(is_console_at(w.specs, 0));
    }
}

/// Enabling or disabling the console leaves every other backend where it
/// was, in the same order.
pub proof fn console_toggle_keeps_other_backends<S>(v: LoggerStateView<S>, enabled: bool)
    requires
        state_wf(v),
    ensures
        other_backends(console_step(v, enabled).0.specs) == other_backends(v.specs),
{
    let pred = |b: BackendSpec<S>| !(b.kind is Console);
    if has_console(v.specs) {
        if !enabled {
            let i = console_position(v.specs);
            let s = v.specs;
            let a = s.subrange(0, i);
            let m = seq![s[i]];
            let b = s.subrange(i + 1, s.len() as int);
            assert(s =~= a + m + b);
            assert(s.remove(i) =~= a + b);
            Seq::filter_distributes_over_add(a + m, b, pred);
            Seq::filter_distributes_over_add(a, m, pred);
            Seq::filter_distributes_over_add(a, b, pred);
            assert(m.filter(pred) =~= Seq::<BackendSpec<S>>::empty()) by {
                reveal_with_fuel(Seq::<_>::filter, 2);
                assert(m.drop_last() =~= Seq::<BackendSpec<S>>::empty());
            }
            assert(a.filter(pred) + m.filter(pred) =~= a.filter(pred));
        }
    } else if enabled {
        let c = BackendSpec { id: v.next_id, kind: BackendKind::Console };
        v.specs.lemma_filter_prepend(c, pred);
        assert(v.specs.insert(0, c) =~= seq![c] + v.specs);
    }
}

/// A backend added to the stack gets an identifier that no backend in the
/// stack has, and it never goes to the console's place.
pub proof fn staged_backend_gets_fresh_id<S>(v: LoggerStateView<S>, kind: BackendKind<S>)
    requires
        state_wf(v),
        !(kind is Console),
        v.next_id < usize::MAX,
    ensures
        forall|i: int| 0 <= i < v.specs.len() ==> v.specs[i].id != stage_step(v, kind).1,
        has_console(stage_step(v, kind).0.specs) == has_console(v.specs),
{
    let s2 = stage_step(v, kind).0.specs;
    if has_console(s2) {
        let a = choose|a: int| is_console_at(s2, a);
        if a < v.specs.len() {
            assert(s2[a] == v.specs[a]);
            assert(is_console_at(v.specs, a));
        }
    }
    if has_console(v.specs) {
        let a = choose|a: int| is_console_at(v.specs, a);
        assert(s2[a] == v.specs[a]);
        assert(is_console_at(s2, a));
    }
}

/// Disabling the console and enabling it again puts a console back at the
/// front of the stack, under an identifier it has not used before.
pub proof fn reenabled_console_comes_first<S>(v: LoggerStateView<S>)
    requires
        state_wf(v),
        v.next_id < usize::MAX,
    ensures
        ({
            let w = console_step(console_step(v, false).0, true).0;
            &&& is_console_at(w.specs, 0)
            &&& w.specs[0].id == v.next_id
            &&& forall|i: int| 0 <= i < v.specs.len() ==> v.specs[i].id != w.specs[0].id
        }),
{
    console_toggle_result(v, false);
}

/// The identifiers of the backends of a stack.
pub open spec fn backend_ids<S>(specs: Seq<BackendSpec<S>>) -> Set<BackendId> {
    Set::new(|id: BackendId| exists|i: int| 0 <= i < specs.len() && specs[i].id == id)
}

/// The keys of a sink registry after an update.
pub open spec fn updated_keys(keys: Set<BackendId>, u: SinkUpdate) -> Set<BackendId> {
    match u {
        SinkUpdate::Register(id) => keys.insert(id),
        SinkUpdate::Unregister(id) => keys.remove(id),
        SinkUpdate::Keep => keys,
    }
}

/// The registry agrees with the stack: every key is a backend's identifier.
pub open spec fn registry_agrees<S>(keys: Set<BackendId>, specs: Seq<BackendSpec<S>>) -> bool {
    keys.subset_of(backend_ids(specs))
}

/// The registry change that follows a console toggle on a registry with
/// these keys.
pub open spec fn console_toggle_update<S>(
    v: LoggerStateView<S>,
    keys: Set<BackendId>,
    enabled: bool,
) -> SinkUpdate {
    let id = console_step(v, enabled).1;
    console_update(enabled, id, id matches Some(i) && keys.contains(i))
}

/// A console toggle, followed by its registry change, keeps the registry in
/// agreement with the stack; an enabled console then has a sink, and a
/// disabled one has none.
pub proof fn console_toggle_keeps_registry_in_step<S>(
    v: LoggerStateView<S>,
    keys: Set<BackendId>,
    enabled: bool,
)
    requires
        state_wf(v),
        registry_agrees(keys, v.specs),
        enabled && !has_console(v.specs) ==> v.next_id < usize::MAX,
    ensures
        ({
            let (w, id) = console_step(v, enabled);
            let keys2 = updated_keys(keys, console_toggle_update(v, keys, enabled));
            &&& registry_agrees(keys2, w.specs)
            &&& enabled ==> (id matches Some(i) && keys2.contains(i) && exists|j: int|
                is_console_at(w.specs, j) && w.specs[j].id == i)
            &&& !enabled ==> forall|i: int| is_console_at(v.specs, i) ==> !keys2.contains(v.specs[i].id)
        }),
{
    let (w, id) = console_step(v, enabled);
    let keys2 = updated_keys(keys, console_toggle_update(v, keys, enabled));
    if has_console(v.specs) {
        let i = console_position(v.specs);
        if enabled {
            assert(backend_ids(v.specs).contains(v.specs[i].id));
        } else {
            assert forall|k: BackendId| keys2.contains(k) implies backend_ids(w.specs).contains(k) by {
                assert(backend_ids(v.specs).contains(k));
                let j = choose|j: int| 0 <= j < v.specs.len() && v.specs[j].id == k;
                assert(j != i);
                let j2 = if j < i {
                    j
                } else {
                    j - 1
                };
                assert(w.specs[j2] == v.specs[j]);
            }
            assert forall|a: int| is_console_at(v.specs, a) implies !keys2.contains(v.specs[a].id) by {
                lemma_console_unique(v.specs, v.next_id, a);
            }
        }
    } else if enabled {
        assert forall|k: BackendId| keys2.contains(k) implies backend_ids(w.specs).contains(k) by {
            if k == v.next_id {
                assert(w.specs[0].id == k);
            } else {
                assert(backend_ids(v.specs).contains(k));
                let j = choose|j: int| 0 <= j < v.specs.len() && v.specs[j].id == k;
                assert(w.specs[j + 1] == v.specs[j]);
            }
        }
        assert(is_console_at(w.specs, 0));
    }
}

/// Toggling the console a second time, with its registry change, leaves the
/// stack and the registry keys as the first toggle left them.
pub proof fn second_console_toggle_changes_nothing<S>(
    v: LoggerStateView<S>,
    keys: Set<BackendId>,
    enabled: bool,
)
    requires
        state_wf(v),
        registry_agrees(keys, v.specs),
        enabled && !has_console(v.specs) ==> v.next_id < usize::MAX,
    ensures
        ({
            let w = console_step(v, enabled).0;
            let keys2 = updated_keys(keys, console_toggle_update(v, keys, enabled));
            &&& console_step(w, enabled).0 == w
            &&& updated_keys(keys2, console_toggle_update(w, keys2, enabled)) == keys2
        }),
{
    console_toggle_is_idempotent(v, enabled);
    console_toggle_result(v, enabled);
    console_toggle_keeps_registry_in_step(v, keys, enabled);
    let w = console_step(v, enabled).0;
    let keys2 = updated_keys(keys, console_toggle_update(v, keys, enabled));
    assert(state_wf(w)) by {
        lemma_console_step_keeps_wf(v, enabled);
    }
    if enabled {
        let j = choose|j: int| is_console_at(w.specs, j) && w.specs[j].id == console_step(v, enabled).1->0;
        lemma_console_unique(w.specs, w.next_id, j);
    }
}

/// A console toggle keeps a well-formed state well formed.
proof fn lemma_console_step_keeps_wf<S>(v: LoggerStateView<S>, enabled: bool)
    requires
        state_wf(v),
        enabled && !has_console(v.specs) ==> v.next_id < usize::MAX,
    ensures
        state_wf(console_step(v, enabled).0),
{
    let w = console_step(v, enabled).0;
    let s = v.specs;
    if has_console(s) {
        let i = console_position(s);
        if !enabled {
            assert forall|a: int, b: int|
                is_console_at(w.specs, a) && is_console_at(w.specs, b) implies a == b by {
                let a0 = if a < i { a } else { a + 1 };
                let b0 = if b < i { b } else { b + 1 };
                assert(w.specs[a] == s[a0]);
                assert(w.specs[b] == s[b0]);
                assert(is_console_at(s, a0));
                assert(is_console_at(s, b0));
            }
            assert forall|a: int, b: int|
                0 <= a < w.specs.len() && 0 <= b < w.specs.len() && a != b implies #[trigger] w.specs[a].id
                != #[trigger] w.specs[b].id by {
                let a0 = if a < i { a } else { a + 1 };
                let b0 = if b < i { b } else { b + 1 };
                assert(w.specs[a] == s[a0]);
                assert(w.specs[b] == s[b0]);
            }
            assert forall|a: int| 0 <= a < w.specs.len() implies #[trigger] w.specs[a].id < w.next_id by {
                let a0 = if a < i { a } else { a + 1 };
                assert(w.specs[a] == s[a0]);
            }
        }
    } else if enabled {
        assert forall|a: int, b: int|
            is_console_at(w.specs, a) && is_console_at(w.specs, b) implies a == b by {
            if a > 0 {
                assert(w.specs[a] == s[a - 1]);
                assert(is_console_at(s, a - 1));
            }
            if b > 0 {
                assert(w.specs[b] == s[b - 1]);
                assert(is_console_at(s, b - 1));
            }
        }
        assert forall|a: int, b: int|
            0 <= a < w.specs.len() && 0 <= b < w.specs.len() && a != b implies #[trigger] w.specs[a].id
            != #[trigger] w.specs[b].id by {
            if a > 0 {
                assert(w.specs[a] == s[a - 1]);
            }
            if b > 0 {
                assert(w.specs[b] == s[b - 1]);
            }
        }
        assert forall|a: int| 0 <= a < w.specs.len() implies #[trigger] w.specs[a].id < w.next_id by {
            if a > 0 {
                assert(w.specs[a] == s[a - 1]);
            }
        }
    }
}

/// Adding a backend keeps the registry in agreement with the stack, before
/// and after its sink is registered under the new identifier.
pub proof fn staging_keeps_registry_in_step<S>(
    v: LoggerStateView<S>,
    keys: Set<BackendId>,
    kind: BackendKind<S>,
)
    requires
        registry_agrees(keys, v.specs),
        v.next_id < usize::MAX,
    ensures
        registry_agrees(keys, stage_step(v, kind).0.specs),
        registry_agrees(keys.insert(stage_step(v, kind).1), stage_step(v, kind).0.specs),
{
    let w = stage_step(v, kind).0;
    assert forall|k: BackendId| keys.insert(v.next_id).contains(k) implies backend_ids(
        w.specs,
    ).contains(k) by {
        if k == v.next_id {
            assert(w.specs[v.specs.len() as int].id == k);
        } else {
            assert(backend_ids(v.specs).contains(k));
            let j = choose|j: int| 0 <= j < v.specs.len() && v.specs[j].id == k;
            assert(w.specs[j] == v.specs[j]);
        }
    }
}

/// `pending` lists the positions of the backends whose identifiers are not
/// among `keys`, as `unrealized_backends` returns them.
pub open spec fn lists_unrealized<S>(
    specs: Seq<BackendSpec<S>>,
    keys: Set<BackendId>,
    pending: Seq<usize>,
) -> bool {
    &&& forall|k: int|
        0 <= k < pending.len() ==> pending[k] < specs.len() && !keys.contains(
            specs[pending[k] as int].id,
        )
    &&& forall|i: int|
        0 <= i < specs.len() && !keys.contains(specs[i].id) ==> pending.contains(i as usize)
}

/// The keys of a registry once a sink is registered for every listed
/// position.
pub open spec fn realized_keys<S>(
    keys: Set<BackendId>,
    specs: Seq<BackendSpec<S>>,
    pending: Seq<usize>,
) -> Set<BackendId> {
    keys + Set::new(
        |id: BackendId| exists|k: int| 0 <= k < pending.len() && specs[pending[k] as int].id == id,
    )
}

/// Once every backend without a sink gets one, the registry's keys are
/// exactly the identifiers of the stack.
pub proof fn realizing_fills_the_registry<S>(
    specs: Seq<BackendSpec<S>>,
    keys: Set<BackendId>,
    pending: Seq<usize>,
)
    requires
        specs.len() <= usize::MAX,
        registry_agrees(keys, specs),
        lists_unrealized(specs, keys, pending),
    ensures
        realized_keys(keys, specs, pending) == backend_ids(specs),
{
    let r = realized_keys(keys, specs, pending);
    assert forall|id: BackendId| r.contains(id) implies backend_ids(specs).contains(id) by {
        if !keys.contains(id) {
            let k = choose|k: int| 0 <= k < pending.len() && specs[pending[k] as int].id == id;
            assert(0 <= pending[k] < specs.len());
        }
    }
    assert forall|id: BackendId| backend_ids(specs).contains(id) implies r.contains(id) by {
        let i = choose|i: int| 0 <= i < specs.len() && specs[i].id == id;
        if !keys.contains(id) {
            assert(pending.contains(i as usize));
            let k = choose|k: int| 0 <= k < pending.len() && pending[k] == i as usize;
            assert(pending[k] as int == i);
            assert(specs[pending[k] as int].id == id);
        }
    }
    assert(r =~= backend_ids(specs));
}

/// Adding a backend other than the console keeps a well-formed state well
/// formed.
proof fn lemma_stage_step_keeps_wf<S>(v: LoggerStateView<S>, kind: BackendKind<S>)
    requires
        state_wf(v),
        !(kind is Console),
        v.next_id < usize::MAX,
    ensures
        state_wf(stage_step(v, kind).0),
{
    let s = v.specs;
    let w = stage_step(v, kind).0;
    assert forall|a: int, b: int|
        is_console_at(w.specs, a) && is_console_at(w.specs, b) implies a == b by {
        assert(a < s.len()) by {
            if a == s.len() {
                assert(w.specs[a].kind == kind);
            }
        }
        assert(b < s.len()) by {
            if b == s.len() {
                assert(w.specs[b].kind == kind);
            }
        }
        assert(w.specs[a] == s[a]);
        assert(w.specs[b] == s[b]);
        assert(is_console_at(s, a));
        assert(is_console_at(s, b));
    }
    assert forall|a: int, b: int|
        0 <= a < w.specs.len() && 0 <= b < w.specs.len() && a != b implies #[trigger] w.specs[a].id
        != #[trigger] w.specs[b].id by {
        if a < s.len() {
            assert(w.specs[a] == s[a]);
        }
        if b < s.len() {
            assert(w.specs[b] == s[b]);
        }
    }
    assert forall|a: int| 0 <= a < w.specs.len() implies #[trigger] w.specs[a].id < w.next_id by {
        if a < s.len() {
            assert(w.specs[a] == s[a]);
        }
    }
}

/// The console renders with the configuration as it is set, colors
/// included; files and stores never get colors; no sink changes whether
/// targets and timestamps are shown, and no sink turns colors on.
pub proof fn colors_reach_only_the_console(base: FormatterConfig, console_sink: bool)
    ensures
        sink_config(true, base) == base,
        sink_config(false, base).ansi == false,
        sink_config(console_sink, base).target == base.target,
        sink_config(console_sink, base).timestamp == base.timestamp,
        sink_config(console_sink, base).ansi ==> base.ansi,
{
}

} // verus!
