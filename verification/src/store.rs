use crate::clock::Timestamp;
use vstd::prelude::*;

use crate::format::{CapturedField, SinkEvent};
use crate::level::LogLevel;
use crate::text::{contains_seq, contains_text, is_prefix_of, occurs_at, starts_with_text};

verus! {

/// A captured structured log field.
#[derive(Debug, Clone, PartialEq, Eq)]
pub struct LogField {
    name: String,
    value: String,
}

/// What a field holds: its name and its rendered value.
pub struct LogFieldView {
    pub name: Seq<char>,
    pub value: Seq<char>,
}

impl View for LogField {
    type V = LogFieldView;

    closed spec fn view(&self) -> LogFieldView {
        LogFieldView { name: self.name@, value: self.value@ }
    }
}

impl LogField {
    /// The field as the store keeps it, from a field captured from an event.
    pub fn from_captured(field: &CapturedField) -> (r: LogField)
        ensures
            r@.name == field.name@,
            r@.value == field.value@,
    {
        LogField { name: field.name.clone(), value: field.value.clone() }
    }

    /// Return the field name.
    pub fn name(&self) -> (r: &str)
        ensures
            r@ == self@.name,
    {
        self.name.as_str()
    }

    /// Return the string-rendered field value.
    pub fn value(&self) -> (r: &str)
        ensures
            r@ == self@.value,
    {
        self.value.as_str()
    }

    /// An equal copy of the field.
    pub fn copied(&self) -> (r: LogField)
        ensures
            r@ == self@,
    {
        LogField { name: self.name.clone(), value: self.value.clone() }
    }
}

/// The views of a sequence of fields.
pub open spec fn field_views(fs: Seq<LogField>) -> Seq<LogFieldView> {
    fs.map_values(|f: LogField| f@)
}

/// A captured structured log event.
#[derive(Debug, Clone, PartialEq, Eq)]
pub struct LogEntry {
    timestamp: Timestamp,
    level: LogLevel,
    target: String,
    message: String,
    fields: Vec<LogField>,
    rendered: String,
}

/// What an entry holds.
pub struct LogEntryView {
    pub timestamp: Timestamp,
    pub level: LogLevel,
    pub target: Seq<char>,
    pub message: Seq<char>,
    pub fields: Seq<LogFieldView>,
    pub rendered: Seq<char>,
}

impl View for LogEntry {
    type V = LogEntryView;

    closed spec fn view(&self) -> LogEntryView {
        LogEntryView {
            timestamp: self.timestamp,
            level: self.level,
            target: self.target@,
            message: self.message@,
            fields: field_views(self.fields@),
            rendered: self.rendered@,
        }
    }
}

/// Copy each field, in order.
fn copy_fields(fields: &[LogField]) -> (r: Vec<LogField>)
    ensures
        field_views(r@) == field_views(fields@),
{
    let mut out: Vec<LogField> = Vec::new();
    let mut i: usize = 0;
    while i < fields.len()
        invariant
            i <= fields@.len(),
            out@.len() == i,
            forall|j: int| 0 <= j < i ==> #[trigger] out@[j]@ == fields@[j]@,
        decreases fields@.len() - i,
    {
        out.push(fields[i].copied());
        i = i + 1;
    }
    assert(field_views(out@) =~= field_views(fields@));
    out
}

/// The fields kept from captured ones, in order.
fn fields_from_captured(fields: &[CapturedField]) -> (r: Vec<LogField>)
    ensures
        r@.len() == fields@.len(),
        forall|j: int|
            0 <= j < fields@.len() ==> (#[trigger] r@[j])@.name == fields@[j].name@ && r@[j]@.value
                == fields@[j].value@,
{
    let mut out: Vec<LogField> = Vec::new();
    let mut i: usize = 0;
    while i < fields.len()
        invariant
            i <= fields@.len(),
            out@.len() == i,
            forall|j: int|
                0 <= j < i ==> (#[trigger] out@[j])@.name == fields@[j].name@ && out@[j]@.value
                    == fields@[j].value@,
        decreases fields@.len() - i,
    {
        out.push(LogField::from_captured(&fields[i]));
        i = i + 1;
    }
    out
}

impl LogEntry {
    /// The entry a store keeps for an event handed to its sink.
    pub fn from_sink_event(event: &SinkEvent) -> (r: LogEntry)
        ensures
            r@.timestamp == event.timestamp,
            r@.level == event.level,
            r@.target == event.target@,
            r@.message == event.message@,
            r@.rendered == event.rendered@,
            r@.fields.len() == event.fields@.len(),
            forall|j: int|
                0 <= j < event.fields@.len() ==> (#[trigger] r@.fields[j]).name
                    == event.fields@[j].name@ && r@.fields[j].value == event.fields@[j].value@,
    {
        let fields = fields_from_captured(event.fields);
        LogEntry {
            timestamp: event.timestamp,
            level: event.level,
            target: event.target.to_owned(),
            message: event.message.to_owned(),
            fields,
            rendered: event.rendered.to_owned(),
        }
    }

    /// Return the timestamp captured for this entry.
    pub fn timestamp(&self) -> (r: Timestamp)
        ensures
            r == self@.timestamp,
    {
        self.timestamp
    }

    /// Return the entry severity.
    pub fn level(&self) -> (r: LogLevel)
        ensures
            r == self@.level,
    {
        self.level
    }

    /// Return the entry target.
    pub fn target(&self) -> (r: &str)
        ensures
            r@ == self@.target,
    {
        self.target.as_str()
    }

    /// Return the entry message.
    pub fn message(&self) -> (r: &str)
        ensures
            r@ == self@.message,
    {
        self.message.as_str()
    }

    /// Return the structured fields captured for this entry.
    pub fn fields(&self) -> (r: &[LogField])
        ensures
            field_views(r@) == self@.fields,
    {
        self.fields.as_slice()
    }

    /// Return the sink-rendered line for this entry.
    pub fn rendered(&self) -> (r: &str)
        ensures
            r@ == self@.rendered,
    {
        self.rendered.as_str()
    }

    /// An equal copy of the entry.
    pub fn copied(&self) -> (r: LogEntry)
        ensures
            r@ == self@,
    {
        LogEntry {
            timestamp: self.timestamp,
            level: self.level,
            target: self.target.clone(),
            message: self.message.clone(),
            fields: copy_fields(self.fields.as_slice()),
            rendered: self.rendered.clone(),
        }
    }
}

/// Builder-style filter for querying a log store.
#[derive(Debug, Clone, PartialEq, Eq)]
pub struct LogFilter {
    max_level: Option<LogLevel>,
    target: Option<String>,
    target_prefix: Option<String>,
    text: Option<String>,
    limit: Option<usize>,
}

/// What a filter asks for.
pub struct LogFilterView {
    /// Keep entries at least as severe as this level.
    pub max_level: Option<LogLevel>,
    /// Keep entries with exactly this target.
    pub target: Option<Seq<char>>,
    /// Keep entries whose target starts with this text.
    pub target_prefix: Option<Seq<char>>,
    /// Keep entries that contain this text.
    pub text: Option<Seq<char>>,
    /// Keep only this many of the most recent matches.
    pub limit: Option<usize>,
}

/// The view of an optional text.
pub open spec fn text_view(t: Option<String>) -> Option<Seq<char>> {
    match t {
        Some(s) => Some(s@),
        None => None,
    }
}

impl View for LogFilter {
    type V = LogFilterView;

    closed spec fn view(&self) -> LogFilterView {
        LogFilterView {
            max_level: self.max_level,
            target: text_view(self.target),
            target_prefix: text_view(self.target_prefix),
            text: text_view(self.text),
            limit: self.limit,
        }
    }
}

/// The filter that keeps every entry.
pub open spec fn match_all() -> LogFilterView {
    LogFilterView { max_level: None, target: None, target_prefix: None, text: None, limit: None }
}

/// The entry holds `text` in its message, its rendered line, or the name or
/// the value of one of its fields.
pub open spec fn entry_has_text(e: LogEntryView, text: Seq<char>) -> bool {
    ||| contains_seq(e.message, text)
    ||| contains_seq(e.rendered, text)
    ||| exists|i: int|
        #![trigger e.fields[i]]
        0 <= i < e.fields.len() && (contains_seq(e.fields[i].name, text) || contains_seq(
            e.fields[i].value,
            text,
        ))
}

/// The entry passes every condition the filter sets (the limit aside).
pub open spec fn admits(f: LogFilterView, e: LogEntryView) -> bool {
    &&& (f.max_level matches Some(max) ==> e.level.rank() <= max.rank())
    &&& (f.target matches Some(t) ==> e.target == t)
    &&& (f.target_prefix matches Some(p) ==> is_prefix_of(p, e.target))
    &&& (f.text matches Some(t) ==> entry_has_text(e, t))
}

/// `admits` as a predicate on entries.
pub open spec fn admitted_by(f: LogFilterView) -> spec_fn(LogEntryView) -> bool {
    |e: LogEntryView| admits(f, e)
}

/// The last `limit` elements of `s` when a limit is set and `s` is longer.
pub open spec fn most_recent<A>(s: Seq<A>, limit: Option<usize>) -> Seq<A> {
    match limit {
        Some(n) => if n < s.len() {
            s.subrange(s.len() - n, s.len() as int)
        } else {
            s
        },
        None => s,
    }
}

/// What a query returns: the entries the filter admits, in the order they
/// were stored, cut to the most recent `limit` of them.
pub open spec fn query_result(entries: Seq<LogEntryView>, f: LogFilterView) -> Seq<
    LogEntryView,
> {
    most_recent(entries.filter(admitted_by(f)), f.limit)
}

/// Whether the entry holds `text` anywhere a text filter looks.
fn entry_contains_text(entry: &LogEntry, text: &str) -> (r: bool)
    ensures
        r == entry_has_text(entry@, text@),
{
    if contains_text(entry.message.as_str(), text) || contains_text(entry.rendered.as_str(), text) {
        return true;
    }
    let mut i: usize = 0;
    while i < entry.fields.len()
        invariant
            i <= entry.fields@.len(),
            entry@.fields == field_views(entry.fields@),
            forall|j: int|
                #![trigger entry@.fields[j]]
                0 <= j < i ==> !contains_seq(entry@.fields[j].name, text@) && !contains_seq(
                    entry@.fields[j].value,
                    text@,
                ),
        decreases entry.fields@.len() - i,
    {
        let field = &entry.fields[i];
        assert(entry@.fields[i as int] == field@);
        if contains_text(field.name(), text) || contains_text(field.value(), text) {
            return true;
        }
        assert(!contains_seq(entry@.fields[i as int].name, text@));
        assert(!contains_seq(entry@.fields[i as int].value, text@));
        i = i + 1;
    }
    false
}

impl Default for LogFilter {
    /// The filter that matches all entries.
    fn default() -> (r: LogFilter)
        ensures
            r@ == match_all(),
    {
        LogFilter { max_level: None, target: None, target_prefix: None, text: None, limit: None }
    }
}

impl LogFilter {
    /// Create an empty filter that matches all entries.
    pub fn new() -> (r: LogFilter)
        ensures
            r@ == match_all(),
    {
        LogFilter { max_level: None, target: None, target_prefix: None, text: None, limit: None }
    }

    /// Match entries at or above the provided severity threshold.
    pub fn with_max_level(self, level: LogLevel) -> (r: LogFilter)
        ensures
            r@ == (LogFilterView { max_level: Some(level), ..self@ }),
    {
        LogFilter { max_level: Some(level), ..self }
    }

    /// Match entries with exactly this target.
    pub fn with_target(self, target: &str) -> (r: LogFilter)
        ensures
            r@ == (LogFilterView { target: Some(target@), ..self@ }),
    {
        LogFilter { target: Some(target.to_owned()), ..self }
    }

    /// Match entries whose target starts with this prefix.
    pub fn with_target_prefix(self, prefix: &str) -> (r: LogFilter)
        ensures
            r@ == (LogFilterView { target_prefix: Some(prefix@), ..self@ }),
    {
        LogFilter { target_prefix: Some(prefix.to_owned()), ..self }
    }

    /// Match entries containing this case-sensitive text.
    ///
    /// The search checks messages, field names, field values, and rendered
    /// lines.
    pub fn containing_text(self, text: &str) -> (r: LogFilter)
        ensures
            r@ == (LogFilterView { text: Some(text@), ..self@ }),
    {
        LogFilter { text: Some(text.to_owned()), ..self }
    }

    /// Keep only the most recent `limit` matches.
    pub fn with_limit(self, limit: usize) -> (r: LogFilter)
        ensures
            r@ == (LogFilterView { limit: Some(limit), ..self@ }),
    {
        LogFilter { limit: Some(limit), ..self }
    }

    /// The limit set on the number of results, if any.
    pub fn limit(&self) -> (r: Option<usize>)
        ensures
            r == self@.limit,
    {
        self.limit
    }

    /// Whether the entry passes every condition of the filter (the limit
    /// aside): severity within the threshold, exact target, target prefix,
    /// and contained text, each when set.
    pub fn matches(&self, entry: &LogEntry) -> (r: bool)
        ensures
            r == admits(self@, entry@),
    {
        if let Some(max) = self.max_level {
            if !entry.level.is_within(max) {
                return false;
            }
        }
        if let Some(target) = &self.target {
            if !(entry.target == *target) {
                return false;
            }
        }
        if let Some(prefix) = &self.target_prefix {
            if !starts_with_text(entry.target.as_str(), prefix.as_str()) {
                return false;
            }
        }
        if let Some(text) = &self.text {
            if !entry_contains_text(entry, text.as_str()) {
                return false;
            }
        }
        true
    }
}

/// The views of a sequence of entries.
pub open spec fn entry_views(es: Seq<LogEntry>) -> Seq<LogEntryView> {
    es.map_values(|e: LogEntry| e@)
}

/// An append-only, in-memory sequence of captured entries, oldest first.
#[derive(Debug)]
pub struct EntryLog {
    entries: Vec<LogEntry>,
}

impl View for EntryLog {
    type V = Seq<LogEntryView>;

    closed spec fn view(&self) -> Seq<LogEntryView> {
        entry_views(self.entries@)
    }
}

/// Equal copies of `es[from..]`, in order.
fn copy_entries_from(es: &Vec<LogEntry>, from: usize) -> (r: Vec<LogEntry>)
    requires
        from <= es@.len(),
    ensures
        entry_views(r@) == entry_views(es@).subrange(from as int, es@.len() as int),
{
    let mut out: Vec<LogEntry> = Vec::new();
    let mut i: usize = from;
    while i < es.len()
        invariant
            from <= i <= es@.len(),
            out@.len() == i - from,
            forall|j: int| 0 <= j < out@.len() ==> #[trigger] out@[j]@ == es@[from + j]@,
        decreases es@.len() - i,
    {
        out.push(es[i].copied());
        i = i + 1;
    }
    assert(entry_views(out@) =~= entry_views(es@).subrange(from as int, es@.len() as int));
    out
}

impl EntryLog {
    /// An empty log.
    pub fn new() -> (r: EntryLog)
        ensures
            r@ == Seq::<LogEntryView>::empty(),
    {
        let r = EntryLog { entries: Vec::new() };
        assert(r@ =~= Seq::<LogEntryView>::empty());
        r
    }

    /// Append an entry after all the others.
    pub fn push(&mut self, entry: LogEntry)
        ensures
            final(self)@ == old(self)@.push(entry@),
    {
        self.entries.push(entry);
        assert(self@ =~= old(self)@.push(entry@));
    }

    /// Copies of all entries, oldest first.
    pub fn entries(&self) -> (r: Vec<LogEntry>)
        ensures
            entry_views(r@) == self@,
    {
        let r = copy_entries_from(&self.entries, 0);
        assert(self@.subrange(0, self@.len() as int) =~= self@);
        r
    }

    /// Copies of the entries the filter admits, oldest first, cut to the
    /// most recent `limit` of them when the filter sets a limit.
    pub fn query(&self, filter: &LogFilter) -> (r: Vec<LogEntry>)
        ensures
            entry_views(r@) == query_result(self@, filter@),
    {
        let ghost pred = admitted_by(filter@);
        let ghost all = self@;
        let mut matched: Vec<LogEntry> = Vec::new();
        let mut i: usize = 0;
        while i < self.entries.len()
            invariant
                i <= self.entries@.len(),
                all == entry_views(self.entries@),
                pred == admitted_by(filter@),
                entry_views(matched@) == all.take(i as int).filter(pred),
            decreases self.entries@.len() - i,
        {
            let ghost before = entry_views(matched@);
            let entry = &self.entries[i];
            proof {
                reveal_with_fuel(Seq::<_>::filter, 1);
                assert(all.take(i + 1).drop_last() =~= all.take(i as int));
                assert(all.take(i + 1).last() == entry@);
            }
            if filter.matches(entry) {
                matched.push(entry.copied());
                assert(entry_views(matched@) =~= before.push(entry@));
            }
            i = i + 1;
        }
        proof {
            assert(all.take(all.len() as int) =~= all);
        }
        match filter.limit() {
            Some(n) => {
                if n < matched.len() {
                    copy_entries_from(&matched, matched.len() - n)
                } else {
                    matched
                }
            },
            None => matched,
        }
    }
}

/// The filter that sets nothing keeps every entry of a log, in order.
pub proof fn empty_filter_returns_everything(entries: Seq<LogEntryView>)
    ensures
        query_result(entries, match_all()) == entries,
    decreases entries.len(),
{
    reveal_with_fuel(Seq::<_>::filter, 1);
    if entries.len() > 0 {
        empty_filter_returns_everything(entries.drop_last());
        assert(entries.drop_last().push(entries.last()) =~= entries);
    }
}

/// Every entry a query returns passes the filter's conditions.
pub proof fn query_returns_only_admitted_entries(
    entries: Seq<LogEntryView>,
    f: LogFilterView,
    i: int,
)
    requires
        0 <= i < query_result(entries, f).len(),
    ensures
        admits(f, query_result(entries, f)[i]),
{
    let m = entries.filter(admitted_by(f));
    match f.limit {
        Some(n) => {
            if n < m.len() {
                entries.lemma_filter_pred(admitted_by(f), m.len() - n + i);
            } else {
                entries.lemma_filter_pred(admitted_by(f), i);
            }
        },
        None => {
            entries.lemma_filter_pred(admitted_by(f), i);
        },
    }
}

/// A query returns at most `limit` entries, and exactly `limit` when at
/// least that many entries match; without a limit it returns every match.
pub proof fn query_respects_limit(entries: Seq<LogEntryView>, f: LogFilterView)
    ensures
        f.limit matches Some(n) ==> query_result(entries, f).len() == if n < entries.filter(
            admitted_by(f),
        ).len() {
            n as int
        } else {
            entries.filter(admitted_by(f)).len() as int
        },
        f.limit is None ==> query_result(entries, f) == entries.filter(admitted_by(f)),
{
}

/// Appending an entry to a log never changes what a query without a limit
/// returned before: the new entry is added at the end when the filter admits
/// it, and nothing changes otherwise.
pub proof fn appending_extends_query_results(
    entries: Seq<LogEntryView>,
    e: LogEntryView,
    f: LogFilterView,
)
    requires
        f.limit is None,
    ensures
        query_result(entries.push(e), f) == if admits(f, e) {
            query_result(entries, f).push(e)
        } else {
            query_result(entries, f)
        },
{
    entries.lemma_filter_push(e, admitted_by(f));
}

/// A level threshold keeps exactly the entries at least as severe as it:
/// with `Warn`, `Error` and `Warn` entries pass and the others do not.
pub proof fn level_threshold_keeps_the_more_severe(e: LogEntryView, level: LogLevel)
    ensures
        admits(LogFilterView { max_level: Some(level), ..match_all() }, e) <==> e.level.rank()
            <= level.rank(),
{
}

/// An entry passes a filter exactly when it meets every condition the filter
/// sets: a severity at most as verbose as the threshold, a target equal to
/// the exact target, a target that begins with the prefix, and the text
/// somewhere in the message, the rendered line, or a field's name or value.
pub proof fn filter_conditions_are_exact(f: LogFilterView, e: LogEntryView)
    ensures
        admits(f, e) <==> {
            &&& (f.max_level matches Some(max) ==> e.level.rank() <= max.rank())
            &&& (f.target matches Some(t) ==> e.target =~= t)
            &&& (f.target_prefix matches Some(p) ==> p.len() <= e.target.len()
                && e.target.subrange(0, p.len() as int) =~= p)
            &&& (f.text matches Some(t) ==> {
                ||| exists|i: int|
                    0 <= i && i + t.len() <= e.message.len() && #[trigger] e.message.subrange(
                        i,
                        i + t.len(),
                    ) =~= t
                ||| exists|i: int|
                    0 <= i && i + t.len() <= e.rendered.len() && #[trigger] e.rendered.subrange(
                        i,
                        i + t.len(),
                    ) =~= t
                ||| exists|j: int, i: int|
                    #![trigger e.fields[j].name.subrange(i, i + t.len())]
                    #![trigger e.fields[j].value.subrange(i, i + t.len())]
                    0 <= j < e.fields.len() && ((0 <= i && i + t.len() <= e.fields[j].name.len()
                        && e.fields[j].name.subrange(i, i + t.len()) =~= t) || (0 <= i && i
                        + t.len() <= e.fields[j].value.len() && e.fields[j].value.subrange(
                        i,
                        i + t.len(),
                    ) =~= t))
            })
        },
{
    if let Some(t) = f.text {
        if entry_has_text(e, t) {
            if contains_seq(e.message, t) {
            } else if contains_seq(e.rendered, t) {
            } else {
                let j = choose|j: int|
                    #![trigger e.fields[j]]
                    0 <= j < e.fields.len() && (contains_seq(e.fields[j].name, t) || contains_seq(
                        e.fields[j].value,
                        t,
                    ));
                if contains_seq(e.fields[j].name, t) {
                    let i = choose|i: int| occurs_at(e.fields[j].name, t, i);
                    assert(occurs_at(e.fields[j].name, t, i));
                } else {
                    let i = choose|i: int| occurs_at(e.fields[j].value, t, i);
                    assert(occurs_at(e.fields[j].value, t, i));
                }
            }
        } else {
            assert forall|j: int, i: int|
                #![trigger e.fields[j].name.subrange(i, i + t.len())]
                #![trigger e.fields[j].value.subrange(i, i + t.len())]
                0 <= j < e.fields.len() implies !((0 <= i && i + t.len() <= e.fields[j].name.len()
                && e.fields[j].name.subrange(i, i + t.len()) =~= t) || (0 <= i && i + t.len()
                <= e.fields[j].value.len() && e.fields[j].value.subrange(i, i + t.len()) =~= t)) by {
                if 0 <= i && i + t.len() <= e.fields[j].name.len() && e.fields[j].name.subrange(
                    i,
                    i + t.len(),
                ) =~= t {
                    assert(occurs_at(e.fields[j].name, t, i));
                }
                if 0 <= i && i + t.len() <= e.fields[j].value.len() && e.fields[j].value.subrange(
                    i,
                    i + t.len(),
                ) =~= t {
                    assert(occurs_at(e.fields[j].value, t, i));
                }
            }
            assert forall|i: int| !(0 <= i && i + t.len() <= e.message.len() && #[trigger] e.message.subrange(
                i,
                i + t.len(),
            ) =~= t) by {
                if 0 <= i && i + t.len() <= e.message.len() && e.message.subrange(i, i + t.len())
                    =~= t {
                    assert(occurs_at(e.message, t, i));
                }
            }
            assert forall|i: int| !(0 <= i && i + t.len() <= e.rendered.len() && #[trigger] e.rendered.subrange(
                i,
                i + t.len(),
            ) =~= t) by {
                if 0 <= i && i + t.len() <= e.rendered.len() && e.rendered.subrange(i, i + t.len())
                    =~= t {
                    assert(occurs_at(e.rendered, t, i));
                }
            }
        }
    }
}

/// Every entry that a query with an exact target returns has exactly that
/// target: a longer target that merely begins with it does not pass.
pub proof fn exact_target_queries_return_only_that_target(
    entries: Seq<LogEntryView>,
    f: LogFilterView,
    t: Seq<char>,
    i: int,
)
    requires
        f.target == Some(t),
        0 <= i < query_result(entries, f).len(),
    ensures
        query_result(entries, f)[i].target == t,
{
    query_returns_only_admitted_entries(entries, f, i);
    filter_conditions_are_exact(f, query_result(entries, f)[i]);
}

/// Every entry that a query with a level threshold returns is at least as
/// severe as the threshold, in the declared order of the levels.
pub proof fn threshold_queries_return_only_severe_enough_entries(
    entries: Seq<LogEntryView>,
    f: LogFilterView,
    max: LogLevel,
    i: int,
)
    requires
        f.max_level == Some(max),
        0 <= i < query_result(entries, f).len(),
    ensures
        query_result(entries, f)[i].level.rank() <= max.rank(),
        max == LogLevel::Info ==> query_result(entries, f)[i].level != LogLevel::Debug
            && query_result(entries, f)[i].level != LogLevel::Trace,
{
    query_returns_only_admitted_entries(entries, f, i);
    filter_conditions_are_exact(f, query_result(entries, f)[i]);
    crate::level::severity_follows_declared_order();
}

} // verus!
