use vstd::prelude::*;
use vstd::string::StringExecFns;

use crate::clock::{line_stamp_text, line_timestamp, two_digits, year_text, Timestamp, TimestampView};
use crate::level::LogLevel;
use crate::text::text_eq;

verus! {

/// Rendering configuration shared by all sinks.
#[derive(Debug, Clone, Copy, PartialEq, Eq, Structural)]
pub struct FormatterConfig {
    /// Color the level with ANSI escape sequences.
    pub ansi: bool,
    /// Include the event target.
    pub target: bool,
    /// Include the event timestamp.
    pub timestamp: bool,
}

impl FormatterConfig {
    /// The same configuration with ANSI colors switched off, as sinks that
    /// keep text for later reading use it.
    pub fn without_ansi(self) -> (r: FormatterConfig)
        ensures
            r == (FormatterConfig { ansi: false, ..self }),
    {
        FormatterConfig { ansi: false, target: self.target, timestamp: self.timestamp }
    }
}

/// A structured field captured from an event, its value rendered as text.
#[derive(Debug, Clone)]
pub struct CapturedField {
    /// The field name.
    pub name: String,
    /// The rendered field value.
    pub value: String,
}

/// An event as the backend captured it.
#[derive(Debug)]
pub struct CapturedEvent {
    /// When the event was seen.
    pub timestamp: Timestamp,
    /// Its severity.
    pub level: LogLevel,
    /// The event target (usually a module path).
    pub target: String,
    /// The `message` field, empty when the event has none.
    pub message: String,
    /// The other fields, in the order they were recorded.
    pub fields: Vec<CapturedField>,
}

/// A rendered event, ready to be written by a sink.
#[derive(Debug, Clone)]
pub struct FormattedEvent {
    /// The rendered line, without a trailing newline.
    pub line: String,
}

/// Collects the message and the fields of an event as they are recorded.
#[derive(Debug)]
pub struct EventVisitor {
    /// The message recorded so far.
    pub message: String,
    /// The other fields recorded so far.
    pub fields: Vec<CapturedField>,
}

/// The name of the field that carries an event's message.
pub open spec fn message_field_name() -> Seq<char> {
    seq!['m', 'e', 's', 's', 'a', 'g', 'e']
}

/// Whether `name` is the message field's name.
fn is_message_field(name: &str) -> (r: bool)
    ensures
        r == (name@ == message_field_name()),
{
    proof {
        reveal_strlit("message");
        assert("message"@ =~= message_field_name());
    }
    text_eq(name, "message")
}

impl EventVisitor {
    /// A visitor that has recorded nothing.
    pub fn new() -> (r: EventVisitor)
        ensures
            r.message@ == Seq::<char>::empty(),
            r.fields@ == Seq::<CapturedField>::empty(),
    {
        EventVisitor { message: String::new(), fields: Vec::new() }
    }

    /// Record a field whose value was rendered with `Display` (or is a plain
    /// value): the `message` field replaces the message, any other field is
    /// appended.
    pub fn push_field(&mut self, name: &str, rendered: String)
        ensures
            name@ == message_field_name() ==> {
                &&& final(self).message@ == rendered@
                &&& final(self).fields@ == old(self).fields@
            },
            name@ != message_field_name() ==> {
                &&& final(self).message@ == old(self).message@
                &&& final(self).fields@.len() == old(self).fields@.len() + 1
                &&& final(self).fields@.drop_last() == old(self).fields@
                &&& final(self).fields@.last().name@ == name@
                &&& final(self).fields@.last().value@ == rendered@
            },
    {
        if is_message_field(name) {
            self.message = rendered;
        } else {
            self.fields.push(CapturedField { name: name.to_owned(), value: rendered });
            proof {
                assert(self.fields@.drop_last() =~= old(self).fields@);
            }
        }
    }

    /// Record a field whose value was rendered with `Debug`: it becomes the
    /// message only when it is the `message` field and no message was recorded
    /// yet; otherwise it is appended as a field.
    pub fn push_debug_field(&mut self, name: &str, rendered: String)
        ensures
            name@ == message_field_name() && old(self).message@.len() == 0 ==> {
                &&& final(self).message@ == rendered@
                &&& final(self).fields@ == old(self).fields@
            },
            !(name@ == message_field_name() && old(self).message@.len() == 0) ==> {
                &&& final(self).message@ == old(self).message@
                &&& final(self).fields@.len() == old(self).fields@.len() + 1
                &&& final(self).fields@.drop_last() == old(self).fields@
                &&& final(self).fields@.last().name@ == name@
                &&& final(self).fields@.last().value@ == rendered@
            },
    {
        if is_message_field(name) && self.message.as_str().is_empty() {
            self.message = rendered;
        } else {
            self.fields.push(CapturedField { name: name.to_owned(), value: rendered });
            proof {
                assert(self.fields@.drop_last() =~= old(self).fields@);
            }
        }
    }

    /// The captured event, stamped with its time, level and target.
    pub fn finish(self, timestamp: Timestamp, level: LogLevel, target: String) -> (r:
        CapturedEvent)
        ensures
            r.timestamp == timestamp,
            r.level == level,
            r.target == target,
            r.message == self.message,
            r.fields == self.fields,
    {
        CapturedEvent { timestamp, level, target, message: self.message, fields: self.fields }
    }
}

/// The escape character that starts an ANSI sequence.
pub open spec fn esc() -> char {
    '\u{1b}'
}

/// The bracketed level label: `[INFO]`, or with colors
/// `[ESC[32mINFOESC[0m]`.
pub open spec fn level_label(level: LogLevel, ansi: bool) -> Seq<char> {
    if ansi {
        seq!['[', esc(), '['] + level.color_code() + seq!['m'] + level.name() + seq![
            esc(),
            '[',
            '0',
            'm',
            ']',
        ]
    } else {
        seq!['['] + level.name() + seq![']']
    }
}

/// `name=value`.
pub open spec fn field_text(f: CapturedField) -> Seq<char> {
    f.name@ + seq!['='] + f.value@
}

/// The fields as `name=value`, separated by single spaces.
pub open spec fn fields_text(fs: Seq<CapturedField>) -> Seq<char>
    decreases fs.len(),
{
    if fs.len() == 0 {
        Seq::empty()
    } else if fs.len() == 1 {
        field_text(fs[0])
    } else {
        fields_text(fs.drop_last()) + seq![' '] + field_text(fs.last())
    }
}

/// A text preceded by a space when it is not empty, nothing otherwise.
pub open spec fn spaced(s: Seq<char>) -> Seq<char> {
    if s.len() > 0 {
        seq![' '] + s
    } else {
        Seq::empty()
    }
}

/// The rendered line: the timestamp and a space when timestamps are on, the
/// level label, ` target:` when targets are on, then the message and the
/// fields, each preceded by a space when not empty.
pub open spec fn line_text(
    config: FormatterConfig,
    timestamp: Seq<char>,
    level: LogLevel,
    target: Seq<char>,
    message: Seq<char>,
    fields: Seq<CapturedField>,
) -> Seq<char> {
    (if config.timestamp {
        timestamp + seq![' ']
    } else {
        Seq::empty()
    }) + level_label(level, config.ansi) + (if config.target {
        seq![' '] + target + seq![':']
    } else {
        Seq::empty()
    }) + spaced(message) + spaced(fields_text(fields))
}

/// Render the level label, colored when `ansi` is set.
pub fn format_level(level: LogLevel, ansi: bool) -> (r: String)
    ensures
        r@ == level_label(level, ansi),
{
    proof {
        reveal_strlit("[");
        reveal_strlit("]");
        reveal_strlit("\u{1b}[");
        reveal_strlit("m");
        reveal_strlit("\u{1b}[0m");
    }
    let mut s = String::new();
    s.append("[");
    if ansi {
        s.append("\u{1b}[");
        s.append(level.ansi_color());
        s.append("m");
    }
    s.append(level.as_str());
    if ansi {
        s.append("\u{1b}[0m");
    }
    s.append("]");
    proof {
        assert(s@ =~= level_label(level, ansi));
    }
    s
}

/// Append `name=value` for each field, separated by spaces.
fn append_fields(line: &mut String, fields: &Vec<CapturedField>)
    ensures
        final(line)@ == old(line)@ + fields_text(fields@),
{
    let ghost start = line@;
    let mut i: usize = 0;
    while i < fields.len()
        invariant
            i <= fields.len(),
            line@ == start + fields_text(fields@.take(i as int)),
        decreases fields.len() - i,
    {
        let ghost before = line@;
        proof {
            reveal_strlit(" ");
            reveal_strlit("=");
        }
        if i > 0 {
            line.append(" ");
        }
        line.append(fields[i].name.as_str());
        line.append("=");
        line.append(fields[i].value.as_str());
        proof {
            let t = fields@.take(i + 1);
            assert(t.drop_last() =~= fields@.take(i as int));
            assert(t.last() == fields@[i as int]);
            assert(field_text(fields@[i as int]) =~= fields@[i as int].name@ + seq!['=']
                + fields@[i as int].value@);
            if i == 0 {
                assert(t.len() == 1);
                assert(t[0] == fields@[0]);
                assert(fields@.take(0) =~= Seq::<CapturedField>::empty());
                assert(fields_text(t) == field_text(t[0]));
                assert(line@ =~= start + fields_text(t));
            } else {
                assert(fields_text(t) == fields_text(t.drop_last()) + seq![' '] + field_text(
                    t.last(),
                ));
                assert(line@ =~= start + fields_text(t));
            }
        }
        i = i + 1;
    }
    proof {
        assert(fields@.take(fields@.len() as int) =~= fields@);
    }
}

/// Render a line from its parts, as `line_text` lays it out.
#[verifier::rlimit(40)]
pub fn render_line(
    config: FormatterConfig,
    timestamp: &str,
    level: LogLevel,
    target: &str,
    message: &str,
    fields: &Vec<CapturedField>,
) -> (r: String)
    ensures
        r@ == line_text(config, timestamp@, level, target@, message@, fields@),
{
    proof {
        reveal_strlit(" ");
        reveal_strlit(":");
    }
    let mut line = String::new();
    if config.timestamp {
        line.append(timestamp);
        line.append(" ");
    }
    let label = format_level(level, config.ansi);
    line.append(label.as_str());
    if config.target {
        line.append(" ");
        line.append(target);
        line.append(":");
    }
    if !message.is_empty() {
        line.append(" ");
        line.append(message);
    }
    let ghost before_fields = line@;
    if fields.len() > 0 {
        line.append(" ");
        let ghost after_space = line@;
        append_fields(&mut line, fields);
        proof {
            assert(fields_text(fields@).len() > 0) by {
                lemma_fields_text_nonempty(fields@);
            }
        }
    } else {
        proof {
            assert(fields_text(fields@) =~= Seq::<char>::empty());
        }
    }
    proof {
        assert(line@ =~= line_text(config, timestamp@, level, target@, message@, fields@));
    }
    line
}

/// A non-empty list of fields renders to a non-empty text.
proof fn lemma_fields_text_nonempty(fs: Seq<CapturedField>)
    requires
        fs.len() > 0,
    ensures
        fields_text(fs).len() > 0,
    decreases fs.len(),
{
    if fs.len() > 1 {
        lemma_fields_text_nonempty(fs.drop_last());
    }
}

/// Render a captured event into its final output form.
pub fn format_event(event: &CapturedEvent, config: FormatterConfig) -> (r: FormattedEvent)
    ensures
        r.line@ == line_text(
            config,
            line_stamp_text(event.timestamp@),
            event.level,
            event.target@,
            event.message@,
            event.fields@,
        ),
{
    let stamp = line_timestamp(&event.timestamp);
    let line = render_line(
        config,
        stamp.as_str(),
        event.level,
        event.target.as_str(),
        event.message.as_str(),
        &event.fields,
    );
    FormattedEvent { line }
}

/// An event as handed to a sink: the captured event and its rendered line.
pub struct SinkEvent<'a> {
    /// When the event was seen.
    pub timestamp: Timestamp,
    /// Its severity.
    pub level: LogLevel,
    /// Its target.
    pub target: &'a str,
    /// Its message.
    pub message: &'a str,
    /// Its other fields.
    pub fields: &'a [CapturedField],
    /// The line rendered for the sink.
    pub rendered: &'a str,
}

impl<'a> SinkEvent<'a> {
    /// Borrow the parts of `event` together with the line rendered for it.
    pub fn new(event: &'a CapturedEvent, rendered: &'a str) -> (r: SinkEvent<'a>)
        ensures
            r.timestamp == event.timestamp,
            r.level == event.level,
            r.target@ == event.target@,
            r.message@ == event.message@,
            r.fields@ == event.fields@,
            r.rendered@ == rendered@,
    {
        SinkEvent {
            timestamp: event.timestamp,
            level: event.level,
            target: event.target.as_str(),
            message: event.message.as_str(),
            fields: event.fields.as_slice(),
            rendered,
        }
    }
}

/// The text holds no escape character.
pub open spec fn escape_free(s: Seq<char>) -> bool {
    forall|i: int| 0 <= i < s.len() ==> s[i] != esc()
}

/// Joining escape-free fields gives an escape-free text.
proof fn lemma_fields_text_escape_free(fs: Seq<CapturedField>)
    requires
        forall|i: int|
            0 <= i < fs.len() ==> escape_free(#[trigger] fs[i].name@) && escape_free(fs[i].value@),
    ensures
        escape_free(fields_text(fs)),
    decreases fs.len(),
{
    if fs.len() > 1 {
        lemma_fields_text_escape_free(fs.drop_last());
        let last = fs.last();
        assert(fs[fs.len() - 1] == last);
        let t = fields_text(fs.drop_last()) + seq![' '] + field_text(last);
        assert forall|i: int| 0 <= i < t.len() implies t[i] != esc() by {
            let a = fields_text(fs.drop_last());
            if i < a.len() {
                assert(t[i] == a[i]);
            } else if i > a.len() {
                let j = i - a.len() - 1;
                assert(t[i] == field_text(last)[j]);
                if j < last.name@.len() {
                    assert(field_text(last)[j] == last.name@[j]);
                } else if j > last.name@.len() {
                    assert(field_text(last)[j] == last.value@[j - last.name@.len() - 1]);
                }
            }
        }
    } else if fs.len() == 1 {
        let f = fs[0];
        assert forall|j: int| 0 <= j < field_text(f).len() implies field_text(f)[j] != esc() by {
            if j < f.name@.len() {
                assert(field_text(f)[j] == f.name@[j]);
            } else if j > f.name@.len() {
                assert(field_text(f)[j] == f.value@[j - f.name@.len() - 1]);
            }
        }
    }
}

/// Without colors, a line holds no escape character unless its timestamp,
/// target, message or fields bring one: plain sinks get plain text.
pub proof fn uncolored_lines_have_no_escape(
    config: FormatterConfig,
    timestamp: Seq<char>,
    level: LogLevel,
    target: Seq<char>,
    message: Seq<char>,
    fields: Seq<CapturedField>,
)
    requires
        !config.ansi,
        escape_free(timestamp),
        escape_free(target),
        escape_free(message),
        forall|i: int|
            0 <= i < fields.len() ==> escape_free(#[trigger] fields[i].name@) && escape_free(
                fields[i].value@,
            ),
    ensures
        escape_free(line_text(config, timestamp, level, target, message, fields)),
{
    lemma_fields_text_escape_free(fields);
    let p1 = if config.timestamp {
        timestamp + seq![' ']
    } else {
        Seq::empty()
    };
    let p2 = level_label(level, false);
    let p3 = if config.target {
        seq![' '] + target + seq![':']
    } else {
        Seq::empty()
    };
    let p4 = spaced(message);
    let p5 = spaced(fields_text(fields));
    assert(escape_free(p1)) by {
        if config.timestamp {
            assert forall|i: int| 0 <= i < p1.len() implies p1[i] != esc() by {
                if i < timestamp.len() {
                    assert(p1[i] == timestamp[i]);
                }
            }
        }
    }
    assert(escape_free(p2)) by {
        assert forall|i: int| 0 <= i < p2.len() implies p2[i] != esc() by {
            if 0 < i < p2.len() - 1 {
                assert(p2[i] == level.name()[i - 1]);
            }
        }
    }
    assert(escape_free(p3)) by {
        if config.target {
            assert forall|i: int| 0 <= i < p3.len() implies p3[i] != esc() by {
                if 0 < i <= target.len() {
                    assert(p3[i] == target[i - 1]);
                }
            }
        }
    }
    assert(escape_free(p4)) by {
        if message.len() > 0 {
            assert forall|i: int| 0 <= i < p4.len() implies p4[i] != esc() by {
                if i > 0 {
                    assert(p4[i] == message[i - 1]);
                }
            }
        }
    }
    assert(escape_free(p5)) by {
        let ft = fields_text(fields);
        if ft.len() > 0 {
            assert forall|i: int| 0 <= i < p5.len() implies p5[i] != esc() by {
                if i > 0 {
                    assert(p5[i] == ft[i - 1]);
                }
            }
        }
    }
    let line = line_text(config, timestamp, level, target, message, fields);
    assert(line == p1 + p2 + p3 + p4 + p5);
    assert forall|i: int| 0 <= i < line.len() implies line[i] != esc() by {
        let l1 = p1.len();
        let l2 = l1 + p2.len();
        let l3 = l2 + p3.len();
        let l4 = l3 + p4.len();
        if i < l1 {
            assert(line[i] == p1[i]);
        } else if i < l2 {
            assert(line[i] == p2[i - l1]);
        } else if i < l3 {
            assert(line[i] == p3[i - l2]);
        } else if i < l4 {
            assert(line[i] == p4[i - l3]);
        } else {
            assert(line[i] == p5[i - l4]);
        }
    }
}

/// Two padded digits hold no escape character.
proof fn lemma_two_digits_escape_free(n: int)
    requires
        0 <= n < 100,
    ensures
        escape_free(two_digits(n)),
{
    assert(0 <= n / 10 < 10 && 0 <= n % 10 < 10);
}

/// A laid-out year holds no escape character.
proof fn lemma_year_text_escape_free(year: int)
    requires
        -9999 <= year <= 9999,
    ensures
        escape_free(year_text(year)),
{
    let y = if year < 0 {
        -year
    } else {
        year
    };
    assert(0 <= y / 1000 < 10 && 0 <= (y / 100) % 10 < 10 && 0 <= (y / 10) % 10 < 10 && 0 <= y
        % 10 < 10);
}

/// The timestamp of a rendered line holds only digits, `-`, ` ` and `:`.
pub proof fn line_stamp_is_escape_free(v: TimestampView)
    requires
        crate::clock::valid_time(v),
    ensures
        escape_free(line_stamp_text(v)),
{
    lemma_year_text_escape_free(v.year);
    lemma_two_digits_escape_free(v.month);
    lemma_two_digits_escape_free(v.day);
    lemma_two_digits_escape_free(v.hour);
    lemma_two_digits_escape_free(v.minute);
    lemma_two_digits_escape_free(v.second);
    let t = line_stamp_text(v);
    assert forall|i: int| 0 <= i < t.len() implies t[i] != esc() by {
        let y = year_text(v.year);
        let l0 = y.len();
        if i < l0 {
            assert(t[i] == y[i]);
        } else if i >= l0 + 1 && i < l0 + 3 {
            assert(t[i] == two_digits(v.month)[i - l0 - 1]);
        } else if i >= l0 + 4 && i < l0 + 6 {
            assert(t[i] == two_digits(v.day)[i - l0 - 4]);
        } else if i >= l0 + 7 && i < l0 + 9 {
            assert(t[i] == two_digits(v.hour)[i - l0 - 7]);
        } else if i >= l0 + 10 && i < l0 + 12 {
            assert(t[i] == two_digits(v.minute)[i - l0 - 10]);
        } else if i >= l0 + 13 {
            assert(t[i] == two_digits(v.second)[i - l0 - 13]);
        }
    }
}

/// Without colors, the line rendered for an event holds no escape character
/// unless the event's target, message or fields bring one.
pub proof fn uncolored_events_render_without_escape(event: CapturedEvent, config: FormatterConfig)
    requires
        !config.ansi,
        event.timestamp.valid(),
        escape_free(event.target@),
        escape_free(event.message@),
        forall|i: int|
            0 <= i < event.fields@.len() ==> escape_free(#[trigger] event.fields@[i].name@)
                && escape_free(event.fields@[i].value@),
    ensures
        escape_free(
            line_text(
                config,
                line_stamp_text(event.timestamp@),
                event.level,
                event.target@,
                event.message@,
                event.fields@,
            ),
        ),
{
    line_stamp_is_escape_free(event.timestamp@);
    uncolored_lines_have_no_escape(
        config,
        line_stamp_text(event.timestamp@),
        event.level,
        event.target@,
        event.message@,
        event.fields@,
    );
}

/// A single field renders as `name=value`.
pub proof fn single_field_renders_as_name_equals_value(f: CapturedField)
    ensures
        fields_text(seq![f]) =~= f.name@ + seq!['='] + f.value@,
{
}

/// Each further field adds a space and `name=value` after the fields before
/// it.
pub proof fn further_fields_follow_after_a_space(fs: Seq<CapturedField>, f: CapturedField)
    requires
        fs.len() > 0,
    ensures
        fields_text(fs.push(f)) =~= fields_text(fs) + seq![' '] + f.name@ + seq!['='] + f.value@,
{
    assert(fs.push(f).drop_last() =~= fs);
}

/// Whenever an event has fields, its line ends with a space and the fields
/// as `name=value` separated by spaces, whether or not it has a message and
/// whatever the configuration.
pub proof fn fields_close_every_line(
    config: FormatterConfig,
    timestamp: Seq<char>,
    level: LogLevel,
    target: Seq<char>,
    message: Seq<char>,
    fields: Seq<CapturedField>,
)
    requires
        fields.len() > 0,
    ensures
        ({
            let line = line_text(config, timestamp, level, target, message, fields);
            let tail = seq![' '] + fields_text(fields);
            &&& tail.len() <= line.len()
            &&& line.subrange(line.len() - tail.len(), line.len() as int) =~= tail
        }),
{
    lemma_fields_text_nonempty(fields);
    let line = line_text(config, timestamp, level, target, message, fields);
    let tail = seq![' '] + fields_text(fields);
    let head = (if config.timestamp {
        timestamp + seq![' ']
    } else {
        Seq::empty()
    }) + level_label(level, config.ansi) + (if config.target {
        seq![' '] + target + seq![':']
    } else {
        Seq::empty()
    }) + spaced(message);
    assert(line =~= head + tail);
}

/// A message, when there is one, follows the decorations after a space, and
/// the fields (if any) follow it: the line is the decorations, ` message`,
/// then ` name=value ...`.
pub proof fn message_precedes_fields(
    config: FormatterConfig,
    timestamp: Seq<char>,
    level: LogLevel,
    target: Seq<char>,
    message: Seq<char>,
    fields: Seq<CapturedField>,
)
    requires
        message.len() > 0,
    ensures
        ({
            let line = line_text(config, timestamp, level, target, message, fields);
            let bare = line_text(config, timestamp, level, target, Seq::empty(), Seq::empty());
            line =~= bare + seq![' '] + message + (if fields.len() > 0 {
                seq![' '] + fields_text(fields)
            } else {
                Seq::empty()
            })
        }),
{
    if fields.len() > 0 {
        lemma_fields_text_nonempty(fields);
    }
    assert(fields_text(Seq::<CapturedField>::empty()) =~= Seq::<char>::empty());
}

} // verus!
