//! Session logging: the log file's name and header, the three logging
//! modes (activity counts, typed input, output transcript) and the lines
//! they write.
use vstd::prelude::*;
use crate::ids::{uuid_hyphenated, uuid_text};
use crate::text::{
    append_all, char_is_alphanumeric, chars_of, decimal_spec, decimal_u64, split_exec, split_spec,
    string_of, unicode_alphanumeric, views,
};

verus! {

// ---------------------------------------------------------------------------
// Log file name and header
// ---------------------------------------------------------------------------

/// A character kept as is in a log file name: alphanumeric, `-` or `_`.
pub open spec fn keeps_char(c: char) -> bool {
    unicode_alphanumeric(c) || c == '-' || c == '_'
}

/// The connection name as it appears in a log file name: every character
/// other than an alphanumeric, `-` or `_` becomes `_`, and at most the first
/// 64 characters are kept.
pub open spec fn sanitize_name_spec(name: Seq<char>) -> Seq<char> {
    let mapped = name.map_values(|c: char| if keeps_char(c) { c } else { '_' });
    if mapped.len() <= 64 {
        mapped
    } else {
        mapped.take(64)
    }
}

/// The connection name made safe for a file name.
pub fn sanitize_log_name(name: &str) -> (r: Vec<char>)
    ensures
        r@ == sanitize_name_spec(name@),
        r.len() <= 64,
{
    let chars = chars_of(name);
    let mut out: Vec<char> = Vec::new();
    let mut i: usize = 0;
    let ghost mapped = name@.map_values(|c: char| if keeps_char(c) { c } else { '_' });
    while i < chars.len() && i < 64
        invariant
            chars@ == name@,
            mapped == name@.map_values(|c: char| if keeps_char(c) { c } else { '_' }),
            i <= chars.len(),
            i <= 64,
            out@ == mapped.take(i as int),
        decreases chars.len() - i,
    {
        let c = chars[i];
        let kept = if char_is_alphanumeric(c) || c == '-' || c == '_' {
            c
        } else {
            '_'
        };
        out.push(kept);
        assert(mapped.take(i + 1) =~= mapped.take(i as int).push(mapped[i as int]));
        i = i + 1;
    }
    assert(mapped.len() <= 64 ==> mapped.take(i as int) =~= mapped);
    out
}

/// `<sanitized name>_<timestamp>.log`.
pub open spec fn log_file_name_spec(name: Seq<char>, timestamp: Seq<char>) -> Seq<char> {
    sanitize_name_spec(name) + "_"@ + timestamp + ".log"@
}

/// The file name of a session log: the sanitized connection name, an
/// underscore, the start timestamp and `.log`.
pub fn log_file_name(connection_name: &str, timestamp: &str) -> (r: String)
    ensures
        r@ == log_file_name_spec(connection_name@, timestamp@),
{
    let mut v = sanitize_log_name(connection_name);
    append_all(&mut v, &chars_of("_"));
    append_all(&mut v, &chars_of(timestamp));
    append_all(&mut v, &chars_of(".log"));
    string_of(&v)
}

/// The header written at the top of a new session log.
pub open spec fn log_header_spec(
    name: Seq<char>,
    connection_id: u128,
    session_id: u128,
    started: Seq<char>,
) -> Seq<char> {
    "=== Session Log ===\nConnection: "@ + name + "\nConnection ID: "@ + uuid_hyphenated(
        connection_id,
    ) + "\nSession ID: "@ + uuid_hyphenated(session_id) + "\nStarted: "@ + started + "\n\n"@
}

/// The header of a session log file.
pub fn log_header(
    connection_name: &str,
    connection_id: u128,
    session_id: u128,
    started: &str,
) -> (r: String)
    ensures
        r@ == log_header_spec(connection_name@, connection_id, session_id, started@),
{
    let mut v = chars_of("=== Session Log ===\nConnection: ");
    append_all(&mut v, &chars_of(connection_name));
    append_all(&mut v, &chars_of("\nConnection ID: "));
    let cid = uuid_text(connection_id);
    append_all(&mut v, &chars_of(cid.as_str()));
    append_all(&mut v, &chars_of("\nSession ID: "));
    let sid = uuid_text(session_id);
    append_all(&mut v, &chars_of(sid.as_str()));
    append_all(&mut v, &chars_of("\nStarted: "));
    append_all(&mut v, &chars_of(started));
    append_all(&mut v, &chars_of("\n\n"));
    string_of(&v)
}

// ---------------------------------------------------------------------------
// Input logging
// ---------------------------------------------------------------------------

/// A control character: general category `Cc`, that is U+0000..U+001F and
/// U+007F..U+009F (what `char::is_control` tests).
pub open spec fn is_control_spec(c: char) -> bool {
    (c as u32) <= 0x1f || (0x7f <= (c as u32) && (c as u32) <= 0x9f)
}

/// Whether `c` is a control character.
pub fn is_control(c: char) -> (r: bool)
    ensures
        r == is_control_spec(c),
{
    let u = c as u32;
    u <= 0x1f || (0x7f <= u && u <= 0x9f)
}

/// A line written to the input log.
#[derive(Clone, Debug, PartialEq, Eq)]
pub enum InputLogEntry {
    /// A completed command (the buffer when Enter was pressed).
    Command(Vec<char>),
    /// Ctrl+C: the buffer is discarded.
    Interrupt,
    /// Ctrl+D.
    EndOfInput,
}

/// The mathematical form of an input log line.
pub enum InputLogView {
    Command(Seq<char>),
    Interrupt,
    EndOfInput,
}

impl InputLogEntry {
    pub open spec fn view(&self) -> InputLogView {
        match self {
            InputLogEntry::Command(v) => InputLogView::Command(v@),
            InputLogEntry::Interrupt => InputLogView::Interrupt,
            InputLogEntry::EndOfInput => InputLogView::EndOfInput,
        }
    }
}

/// The input-log entries of a sequence of entries.
pub open spec fn entry_views(v: Seq<InputLogEntry>) -> Seq<InputLogView> {
    v.map_values(|e: InputLogEntry| e.view())
}

/// One typed character: Enter (CR or LF) logs a non-empty buffer and clears
/// it; Backspace or Delete drops the last buffered character; Ctrl+C logs
/// `^C` and clears the buffer; Ctrl+D logs `^D`; other control characters
/// are ignored; anything else is appended to the buffer.
pub open spec fn input_step(buf: Seq<char>, c: char) -> (Seq<char>, Option<InputLogView>) {
    if c == '\r' || c == '\n' {
        if buf.len() > 0 {
            (Seq::empty(), Some(InputLogView::Command(buf)))
        } else {
            (buf, None)
        }
    } else if c == '\x7F' || c == '\x08' {
        if buf.len() > 0 {
            (buf.drop_last(), None)
        } else {
            (buf, None)
        }
    } else if c == '\x03' {
        (Seq::empty(), Some(InputLogView::Interrupt))
    } else if c == '\x04' {
        (buf, Some(InputLogView::EndOfInput))
    } else if is_control_spec(c) {
        (buf, None)
    } else {
        (buf.push(c), None)
    }
}

/// The buffer and the log entries after the characters of `text`, in order.
pub open spec fn input_fold(buf: Seq<char>, text: Seq<char>) -> (Seq<char>, Seq<InputLogView>)
    decreases text.len(),
{
    if text.len() == 0 {
        (buf, Seq::empty())
    } else {
        let (b, entries) = input_fold(buf, text.drop_last());
        let (b2, e) = input_step(b, text.last());
        (
            b2,
            match e {
                Some(x) => entries.push(x),
                None => entries,
            },
        )
    }
}

/// Feeds committed terminal input through the input logger: updates the
/// command buffer and returns the entries to write, in order.
pub fn log_input(buffer: &mut Vec<char>, text: &str) -> (r: Vec<InputLogEntry>)
    ensures
        final(buffer)@ == input_fold(old(buffer)@, text@).0,
        entry_views(r@) == input_fold(old(buffer)@, text@).1,
{
    let chars = chars_of(text);
    let ghost start = buffer@;
    let mut out: Vec<InputLogEntry> = Vec::new();
    let mut i: usize = 0;
    while i < chars.len()
        invariant
            chars@ == text@,
            i <= chars.len(),
            buffer@ == input_fold(start, chars@.take(i as int)).0,
            entry_views(out@) == input_fold(start, chars@.take(i as int)).1,
        decreases chars.len() - i,
    {
        let c = chars[i];
        assert(chars@.take(i + 1).drop_last() =~= chars@.take(i as int));
        let ghost before = entry_views(out@);
        if c == '\r' || c == '\n' {
            if buffer.len() > 0 {
                let mut cmd: Vec<char> = Vec::new();
                std::mem::swap(buffer, &mut cmd);
                let entry = InputLogEntry::Command(cmd);
                out.push(entry);
                assert(entry_views(out@) =~= before.push(entry.view()));
            }
        } else if c == '\x7F' || c == '\x08' {
            if buffer.len() > 0 {
                buffer.pop();
            }
        } else if c == '\x03' {
            buffer.clear();
            out.push(InputLogEntry::Interrupt);
            assert(entry_views(out@) =~= before.push(InputLogView::Interrupt));
        } else if c == '\x04' {
            out.push(InputLogEntry::EndOfInput);
            assert(entry_views(out@) =~= before.push(InputLogView::EndOfInput));
        } else if is_control(c) {
        } else {
            buffer.push(c);
        }
        i = i + 1;
    }
    assert(chars@.take(chars.len() as int) =~= chars@);
    out
}

/// Committed input may arrive in pieces: feeding `a` and then `b` leaves
/// the same buffer and writes the same entries, in the same order, as
/// feeding `a` followed by `b` at once.
pub proof fn input_log_chunking(buf: Seq<char>, a: Seq<char>, b: Seq<char>)
    ensures
        input_fold(input_fold(buf, a).0, b).0 == input_fold(buf, a + b).0,
        input_fold(buf, a).1 + input_fold(input_fold(buf, a).0, b).1 == input_fold(buf, a + b).1,
    decreases b.len(),
{
    if b.len() == 0 {
        assert(a + b =~= a);
        assert(input_fold(buf, a).1 + Seq::<InputLogView>::empty() =~= input_fold(buf, a).1);
    } else {
        input_log_chunking(buf, a, b.drop_last());
        assert((a + b).drop_last() =~= a + b.drop_last());
        assert((a + b).last() == b.last());
        let mid = input_fold(buf, a).0;
        let (bb, eb) = input_fold(mid, b.drop_last());
        let (_, e) = input_step(bb, b.last());
        match e {
            Some(x) => {
                assert(input_fold(buf, a).1 + eb.push(x) =~= (input_fold(buf, a).1 + eb).push(x));
            },
            None => {},
        }
    }
}

/// Whether a long-running command's partial input is written out: at least
/// 30 seconds since the last flush and something buffered.
pub fn partial_input_due(elapsed_secs: u64, buffer: &Vec<char>) -> (r: bool)
    ensures
        r == (elapsed_secs >= 30 && buffer.len() > 0),
{
    elapsed_secs >= 30 && buffer.len() > 0
}

// ---------------------------------------------------------------------------
// Activity logging
// ---------------------------------------------------------------------------

/// The activity logger's counters.
#[derive(Clone, Copy, Debug, PartialEq, Eq)]
pub struct ActivityCounters {
    /// Content changes since the last activity line.
    pub changes: u32,
    /// Content changes since the last flush.
    pub since_flush: u32,
}

/// What one content change makes the activity logger do.
#[derive(Clone, Copy, Debug, PartialEq, Eq)]
pub struct ActivityTick {
    pub counters: ActivityCounters,
    /// The change count to write as an activity line, if one is written.
    pub log_changes: Option<u32>,
    /// Whether the writer is flushed.
    pub flush: bool,
    /// Whether the logger's clock restarts now.
    pub reset_clock: bool,
}

/// One content change: counting it, an activity line is due at 100 changes
/// or after 5 seconds; when one is due and the log file is open the count is
/// written, and flushed every 10 changes or after 30 seconds. Once due, the
/// change count and the clock restart whether or not the file was open.
pub fn activity_tick(c: ActivityCounters, elapsed_secs: u64, writer_open: bool) -> (r: ActivityTick)
    requires
        c.changes < 100,
        c.since_flush < u32::MAX,
    ensures
        ({
            let changes = c.changes + 1;
            let since = c.since_flush + 1;
            let due = changes >= 100 || elapsed_secs >= 5;
            let flush = due && writer_open && (since >= 10 || elapsed_secs >= 30);
            &&& r.log_changes == (if due && writer_open { Some(changes as u32) } else { None })
            &&& r.flush == flush
            &&& r.reset_clock == due
            &&& r.counters.changes == (if due { 0 } else { changes })
            &&& r.counters.since_flush == (if flush { 0 } else { since })
        }),
        r.counters.changes < 100,
{
    let changes = c.changes + 1;
    let mut since = c.since_flush + 1;
    let due = changes >= 100 || elapsed_secs >= 5;
    if !due {
        return ActivityTick {
            counters: ActivityCounters { changes, since_flush: since },
            log_changes: None,
            flush: false,
            reset_clock: false,
        };
    }
    let mut log_changes = None;
    let mut flush = false;
    if writer_open {
        log_changes = Some(changes);
        if since >= 10 || elapsed_secs >= 30 {
            flush = true;
            since = 0;
        }
    }
    ActivityTick {
        counters: ActivityCounters { changes: 0, since_flush: since },
        log_changes,
        flush,
        reset_clock: true,
    }
}

// ---------------------------------------------------------------------------
// Output logging
// ---------------------------------------------------------------------------

/// One piece of text ended by a line feed, without a carriage return that
/// preceded the line feed.
pub open spec fn strip_cr(line: Seq<char>) -> Seq<char> {
    if line.len() > 0 && line.last() == '\r' {
        line.drop_last()
    } else {
        line
    }
}

/// The lines of `s` as `str::lines` yields them: split at line feeds, a
/// carriage return before a line feed dropped, and no final empty line.
pub open spec fn lines_spec(s: Seq<char>) -> Seq<Seq<char>> {
    let parts = split_spec(s, '\n');
    let ended = parts.drop_last();
    let lines = Seq::new(ended.len(), |i: int| strip_cr(ended[i]));
    if parts.last().len() == 0 {
        lines
    } else {
        lines.push(parts.last())
    }
}

/// The lines of `s`.
pub fn lines_of(s: &[char]) -> (r: Vec<Vec<char>>)
    ensures
        views(r@) == lines_spec(s@),
{
    let parts = split_exec(s, '\n');
    let mut out: Vec<Vec<char>> = Vec::new();
    let n = parts.len() - 1;
    let ghost p = views(parts@);
    let mut i: usize = 0;
    while i < n
        invariant
            n == parts.len() - 1,
            p == views(parts@),
            p == split_spec(s@, '\n'),
            i <= n,
            views(out@) == Seq::new(i as nat, |j: int| strip_cr(p.drop_last()[j])),
        decreases n - i,
    {
        let part = &parts[i];
        let line = if part.len() > 0 && part[part.len() - 1] == '\r' {
            crate::text::slice_range(part, 0, part.len() - 1)
        } else {
            crate::text::slice_range(part, 0, part.len())
        };
        assert(part@ == p[i as int]);
        assert(line@ == strip_cr(p.drop_last()[i as int])) by {
            assert(part@.subrange(0, part@.len() as int) =~= part@);
            assert(part@.subrange(0, part@.len() - 1) =~= part@.drop_last());
        }
        let ghost before = views(out@);
        out.push(line);
        assert(views(out@) =~= before.push(line@));
        assert(views(out@) =~= Seq::new((i + 1) as nat, |j: int| strip_cr(p.drop_last()[j])));
        i = i + 1;
    }
    let last = &parts[n];
    assert(last@ == p.last());
    if last.len() > 0 {
        let kept = crate::text::slice_range(last, 0, last.len());
        assert(kept@ =~= last@);
        let ghost before = views(out@);
        out.push(kept);
        assert(views(out@) =~= before.push(kept@));
    }
    assert(Seq::new(n as nat, |j: int| strip_cr(p.drop_last()[j])) =~= Seq::new(
        p.drop_last().len(),
        |j: int| strip_cr(p.drop_last()[j]),
    ));
    out
}

/// The lines of the current transcript that the previous capture did not
/// have: those after as many lines as the previous capture held.
pub fn new_output_lines(last: &str, current: &str) -> (r: Vec<Vec<char>>)
    ensures
        views(r@) == ({
            let cur = lines_spec(current@);
            let skip = lines_spec(last@).len();
            if skip <= cur.len() {
                cur.subrange(skip as int, cur.len() as int)
            } else {
                Seq::empty()
            }
        }),
{
    let last_chars = chars_of(last);
    let cur_chars = chars_of(current);
    let old_lines = lines_of(&last_chars);
    let cur_lines = lines_of(&cur_chars);
    let skip = old_lines.len();
    let mut out: Vec<Vec<char>> = Vec::new();
    if skip > cur_lines.len() {
        assert(views(out@) =~= Seq::<Seq<char>>::empty());
        return out;
    }
    let mut i: usize = skip;
    let ghost c = views(cur_lines@);
    assert(views(out@) =~= c.subrange(skip as int, i as int));
    while i < cur_lines.len()
        invariant
            skip == old_lines.len(),
            c == views(cur_lines@),
            skip <= i <= cur_lines.len(),
            views(out@) == c.subrange(skip as int, i as int),
        decreases cur_lines.len() - i,
    {
        let line = crate::text::slice_range(&cur_lines[i], 0, cur_lines[i].len());
        assert(line@ =~= cur_lines[i as int]@);
        let ghost before = views(out@);
        out.push(line);
        assert(views(out@) =~= before.push(line@));
        assert(views(out@) =~= c.subrange(skip as int, i + 1));
        i = i + 1;
    }
    out
}


// ---------------------------------------------------------------------------
// Log lines
// ---------------------------------------------------------------------------

/// A log line: `[<timestamp>] <body>` ended by a line feed.
pub open spec fn stamped(timestamp: Seq<char>, body: Seq<char>) -> Seq<char> {
    "["@ + timestamp + "] "@ + body + "\n"@
}

/// The line of an input-log entry: `INPUT: <command>`, `INPUT: ^C` or
/// `INPUT: ^D`.
pub open spec fn input_line_spec(timestamp: Seq<char>, e: InputLogView) -> Seq<char> {
    match e {
        InputLogView::Command(c) => stamped(timestamp, "INPUT: "@ + c),
        InputLogView::Interrupt => stamped(timestamp, "INPUT: ^C"@),
        InputLogView::EndOfInput => stamped(timestamp, "INPUT: ^D"@),
    }
}

/// `[<timestamp>] <body>\n` from its pieces.
fn stamped_exec(timestamp: &str, body: &[char]) -> (r: String)
    ensures
        r@ == stamped(timestamp@, body@),
{
    let mut v = chars_of("[");
    append_all(&mut v, &chars_of(timestamp));
    append_all(&mut v, &chars_of("] "));
    append_all(&mut v, body);
    append_all(&mut v, &chars_of("\n"));
    string_of(&v)
}

/// The line written for an input-log entry.
pub fn input_log_line(timestamp: &str, entry: &InputLogEntry) -> (r: String)
    ensures
        r@ == input_line_spec(timestamp@, entry.view()),
{
    match entry {
        InputLogEntry::Command(c) => {
            let mut body = chars_of("INPUT: ");
            append_all(&mut body, c);
            stamped_exec(timestamp, &body)
        },
        InputLogEntry::Interrupt => stamped_exec(timestamp, &chars_of("INPUT: ^C")),
        InputLogEntry::EndOfInput => stamped_exec(timestamp, &chars_of("INPUT: ^D")),
    }
}

/// The line written for a long-running command's partial input:
/// `INPUT (partial): <buffer>`.
pub fn partial_input_line(timestamp: &str, buffer: &[char]) -> (r: String)
    ensures
        r@ == stamped(timestamp@, "INPUT (partial): "@ + buffer@),
{
    let mut body = chars_of("INPUT (partial): ");
    append_all(&mut body, buffer);
    stamped_exec(timestamp, &body)
}

/// The activity line: `Terminal activity (<n> changes)`.
pub fn activity_log_line(timestamp: &str, changes: u32) -> (r: String)
    ensures
        r@ == stamped(timestamp@, "Terminal activity ("@ + decimal_spec(changes as nat) + " changes)"@),
{
    let mut body = chars_of("Terminal activity (");
    append_all(&mut body, &decimal_u64(changes as u64));
    append_all(&mut body, &chars_of(" changes)"));
    stamped_exec(timestamp, &body)
}

/// The transcript lines, each indented by two spaces and ended by a line
/// feed.
pub open spec fn indented_lines(lines: Seq<Seq<char>>) -> Seq<char>
    decreases lines.len(),
{
    if lines.len() == 0 {
        Seq::empty()
    } else {
        indented_lines(lines.drop_last()) + "  "@ + lines.last() + "\n"@
    }
}

/// The block written for new transcript lines: an `OUTPUT:` line, then
/// each line indented by two spaces.
pub fn output_log_block(timestamp: &str, lines: &[Vec<char>]) -> (r: String)
    ensures
        r@ == stamped(timestamp@, "OUTPUT:"@) + indented_lines(views(lines@)),
{
    let head = stamped_exec(timestamp, &chars_of("OUTPUT:"));
    let mut v = chars_of(head.as_str());
    let ghost h = v@;
    let mut i: usize = 0;
    while i < lines.len()
        invariant
            i <= lines.len(),
            v@ == h + indented_lines(views(lines@).take(i as int)),
        decreases lines.len() - i,
    {
        append_all(&mut v, &chars_of("  "));
        append_all(&mut v, &lines[i]);
        append_all(&mut v, &chars_of("\n"));
        assert(views(lines@).take(i + 1).drop_last() =~= views(lines@).take(i as int));
        assert(views(lines@).take(i + 1).last() == lines@[i as int]@);
        assert(v@ =~= h + indented_lines(views(lines@).take(i + 1)));
        i = i + 1;
    }
    assert(views(lines@).take(lines.len() as int) =~= views(lines@));
    string_of(&v)
}

} // verus!
