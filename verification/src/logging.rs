//! The log console's rules: how an event becomes a line, which of the three
//! buffers it goes to, and how each buffer keeps only its newest lines.
use vstd::prelude::*;
use crate::text::{join, text};
use crate::wire::string_texts as texts;

verus! {

/// Lines each buffer keeps.
pub const MAX_LOG_ENTRIES: usize = 512;

/// An event's severity.
#[derive(Clone, Copy, Debug, PartialEq, Eq, Structural)]
pub enum LogLevel {
    Trace,
    Debug,
    Info,
    Warn,
    Error,
}

/// The buffer a line goes to.
#[derive(Clone, Copy, Debug, PartialEq, Eq, Structural)]
pub enum LogChannel {
    General,
    Debug,
    Chat,
}

/// A severity as it is printed.
pub open spec fn level_name(level: LogLevel) -> Seq<char> {
    match level {
        LogLevel::Trace => "TRACE"@,
        LogLevel::Debug => "DEBUG"@,
        LogLevel::Info => "INFO"@,
        LogLevel::Warn => "WARN"@,
        LogLevel::Error => "ERROR"@,
    }
}

/// Chat events go to the chat buffer, debug and trace events to the debug
/// buffer, the rest to the general buffer.
pub open spec fn channel_for(level: LogLevel, target: Seq<char>) -> LogChannel {
    if target == "chat"@ {
        LogChannel::Chat
    } else if level == LogLevel::Debug || level == LogLevel::Trace {
        LogChannel::Debug
    } else {
        LogChannel::General
    }
}

/// "[LEVEL] target", then ": message" when there is a message.
pub open spec fn log_line(level: LogLevel, target: Seq<char>, message: Seq<char>) -> Seq<char> {
    "["@ + level_name(level) + "] "@ + target + if message.len() == 0 {
        Seq::<char>::empty()
    } else {
        ": "@ + message
    }
}

/// A buffer after a line is added: empty lines are dropped, and only the
/// newest lines up to the limit stay.
pub open spec fn ring_after(buf: Seq<Seq<char>>, line: Seq<char>) -> Seq<Seq<char>> {
    if line.len() == 0 {
        buf
    } else {
        let grown = buf.push(line);
        if grown.len() > MAX_LOG_ENTRIES {
            grown.subrange(grown.len() - MAX_LOG_ENTRIES, grown.len() as int)
        } else {
            grown
        }
    }
}

/// A severity as it is printed.
pub fn level_text(level: LogLevel) -> (r: String)
    ensures
        r@ == level_name(level),
{
    match level {
        LogLevel::Trace => text("TRACE"),
        LogLevel::Debug => text("DEBUG"),
        LogLevel::Info => text("INFO"),
        LogLevel::Warn => text("WARN"),
        LogLevel::Error => text("ERROR"),
    }
}

/// The buffer an event goes to.
pub fn route(level: LogLevel, target: &str) -> (r: LogChannel)
    ensures
        r == channel_for(level, target@),
{
    let chat = text("chat");
    let t = text(target);
    if t == chat {
        LogChannel::Chat
    } else {
        match level {
            LogLevel::Debug | LogLevel::Trace => LogChannel::Debug,
            _ => LogChannel::General,
        }
    }
}

/// The line an event is printed as.
pub fn format_line(level: LogLevel, target: &str, message: &str) -> (r: String)
    ensures
        r@ == log_line(level, target@, message@),
{
    let head = join(join(join(text("["), level_text(level).as_str()), "] "), target);
    if message.is_empty() {
        proof {
            assert(head@ =~= log_line(level, target@, message@));
        }
        head
    } else {
        let r = join(join(head, ": "), message);
        proof {
            assert(r@ =~= log_line(level, target@, message@));
        }
        r
    }
}

/// Adds a line to a buffer, dropping the oldest lines beyond the limit; an
/// empty line is not added.
pub fn push_ring(buf: &mut Vec<String>, line: String)
    ensures
        texts(final(buf)@) == ring_after(texts(old(buf)@), line@),
{
    let ghost lv = line@;
    if line.as_str().is_empty() {
        return;
    }
    buf.push(line);
    if buf.len() > MAX_LOG_ENTRIES {
        let overflow = buf.len() - MAX_LOG_ENTRIES;
        let tail = buf.split_off(overflow);
        *buf = tail;
    }
    proof {
        assert(texts(buf@) =~= ring_after(texts(old(buf)@), lv));
    }
}

/// A copy of a buffer's lines.
fn copy_lines(v: &Vec<String>) -> (r: Vec<String>)
    ensures
        r@ == v@,
{
    let mut r: Vec<String> = Vec::new();
    let mut i: usize = 0;
    while i < v.len()
        invariant
            0 <= i <= v@.len(),
            r@ == v@.take(i as int),
        decreases v@.len() - i,
    {
        let line = v[i].clone();
        r.push(line);
        proof {
            assert(r@ =~= v@.take(i + 1));
        }
        i = i + 1;
    }
    proof {
        assert(v@.take(v@.len() as int) =~= v@);
    }
    r
}

/// The three buffers of the log console.
#[derive(Debug)]
pub struct LogRings {
    logs: Vec<String>,
    debug_logs: Vec<String>,
    chat_logs: Vec<String>,
}

/// The three buffers' lines: general, debug, chat.
pub type Rings = (Seq<Seq<char>>, Seq<Seq<char>>, Seq<Seq<char>>);

/// The buffers after one event: its line is added to the buffer its level
/// and target pick, and the other two stay as they were.
pub open spec fn rings_after(b: Rings, level: LogLevel, target: Seq<char>, message: Seq<char>) -> Rings {
    let line = log_line(level, target, message);
    match channel_for(level, target) {
        LogChannel::Chat => (b.0, b.1, ring_after(b.2, line)),
        LogChannel::Debug => (b.0, ring_after(b.1, line), b.2),
        LogChannel::General => (ring_after(b.0, line), b.1, b.2),
    }
}

/// The buffers after each of the events (level, target, message) in turn.
pub open spec fn rings_history(b: Rings, events: Seq<(LogLevel, Seq<char>, Seq<char>)>) -> Rings
    decreases events.len(),
{
    if events.len() == 0 {
        b
    } else {
        let e = events.last();
        rings_after(rings_history(b, events.drop_last()), e.0, e.1, e.2)
    }
}

/// A buffer after each of the lines was added in turn.
pub open spec fn ring_history(buf: Seq<Seq<char>>, lines: Seq<Seq<char>>) -> Seq<Seq<char>>
    decreases lines.len(),
{
    if lines.len() == 0 {
        buf
    } else {
        ring_after(ring_history(buf, lines.drop_last()), lines.last())
    }
}

/// A buffer holds at most the limit of lines, and no empty line.
pub open spec fn ring_ok(buf: Seq<Seq<char>>) -> bool {
    &&& buf.len() <= MAX_LOG_ENTRIES
    &&& forall|i: int| 0 <= i < buf.len() ==> (#[trigger] buf[i]).len() > 0
}

impl LogRings {
    /// The lines of the three buffers: general, debug, chat.
    pub closed spec fn buffers(&self) -> Rings {
        (texts(self.logs@), texts(self.debug_logs@), texts(self.chat_logs@))
    }

    /// Every buffer is within the limit and free of empty lines, whatever
    /// was recorded.
    #[verifier::type_invariant]
    closed spec fn rings_clean(self) -> bool {
        &&& ring_ok(texts(self.logs@))
        &&& ring_ok(texts(self.debug_logs@))
        &&& ring_ok(texts(self.chat_logs@))
    }

    /// Three empty buffers.
    pub fn new() -> (r: Self)
        ensures
            r.buffers() == (Seq::<Seq<char>>::empty(), Seq::<Seq<char>>::empty(), Seq::<Seq<char>>::empty()),
    {
        let logs: Vec<String> = Vec::new();
        let debug_logs: Vec<String> = Vec::new();
        let chat_logs: Vec<String> = Vec::new();
        proof {
            assert(texts(logs@) =~= Seq::<Seq<char>>::empty());
            assert(texts(debug_logs@) =~= Seq::<Seq<char>>::empty());
            assert(texts(chat_logs@) =~= Seq::<Seq<char>>::empty());
        }
        LogRings { logs, debug_logs, chat_logs }
    }

    /// A copy of the three buffers (general, debug, chat), each line as it
    /// stands; the buffers are left as they were. Each copy is within the
    /// limit and free of empty lines.
    pub fn snapshot(&self) -> (r: (Vec<String>, Vec<String>, Vec<String>))
        ensures
            (texts(r.0@), texts(r.1@), texts(r.2@)) == self.buffers(),
            ring_ok(texts(r.0@)),
            ring_ok(texts(r.1@)),
            ring_ok(texts(r.2@)),
    {
        proof {
            use_type_invariant(self);
        }
        (copy_lines(&self.logs), copy_lines(&self.debug_logs), copy_lines(&self.chat_logs))
    }

    /// Records an event: its line goes to the buffer its level and target
    /// pick.
    pub fn record(&mut self, level: LogLevel, target: &str, message: &str)
        ensures
            final(self).buffers() == rings_after(old(self).buffers(), level, target@, message@),
    {
        proof {
            use_type_invariant(&*self);
        }
        let line = format_line(level, target, message);
        proof {
            law_ring_after_stays_clean(texts(self.logs@), line@);
            law_ring_after_stays_clean(texts(self.debug_logs@), line@);
            law_ring_after_stays_clean(texts(self.chat_logs@), line@);
        }
        let mut buf: Vec<String> = Vec::new();
        proof {
            assert(texts(buf@) =~= Seq::<Seq<char>>::empty());
        }
        match route(level, target) {
            LogChannel::Chat => {
                std::mem::swap(&mut buf, &mut self.chat_logs);
                push_ring(&mut buf, line);
                self.chat_logs = buf;
            },
            LogChannel::Debug => {
                std::mem::swap(&mut buf, &mut self.debug_logs);
                push_ring(&mut buf, line);
                self.debug_logs = buf;
            },
            LogChannel::General => {
                std::mem::swap(&mut buf, &mut self.logs);
                push_ring(&mut buf, line);
                self.logs = buf;
            },
        }
    }
}

/// A buffer never holds more than the limit once a line is added, and the
/// line added is the newest.
pub proof fn law_ring_bounded(buf: Seq<Seq<char>>, line: Seq<char>)
    requires
        buf.len() <= MAX_LOG_ENTRIES,
    ensures
        ring_after(buf, line).len() <= MAX_LOG_ENTRIES,
        line.len() > 0 ==> ring_after(buf, line).last() == line,
        line.len() > 0 && buf.len() < MAX_LOG_ENTRIES ==> ring_after(buf, line) == buf.push(line),
{
}


/// Adding a line keeps a buffer within the limit and free of empty lines.
pub proof fn law_ring_after_stays_clean(buf: Seq<Seq<char>>, line: Seq<char>)
    requires
        ring_ok(buf),
    ensures
        ring_ok(ring_after(buf, line)),
{
    if line.len() > 0 {
        let grown = buf.push(line);
        assert forall|i: int| 0 <= i < grown.len() implies (#[trigger] grown[i]).len() > 0 by {
            if i < buf.len() {
                assert(grown[i] == buf[i]);
            }
        }
        if grown.len() > MAX_LOG_ENTRIES {
            let r = grown.subrange(grown.len() - MAX_LOG_ENTRIES, grown.len() as int);
            assert forall|i: int| 0 <= i < r.len() implies (#[trigger] r[i]).len() > 0 by {
                assert(r[i] == grown[i + grown.len() - MAX_LOG_ENTRIES]);
            }
        }
    }
}

/// Whatever lines are added, one after another, a buffer that started
/// within the limit and free of empty lines stays so.
pub proof fn law_ring_stays_clean(buf: Seq<Seq<char>>, lines: Seq<Seq<char>>)
    requires
        ring_ok(buf),
    ensures
        ring_ok(ring_history(buf, lines)),
    decreases lines.len(),
{
    if lines.len() > 0 {
        law_ring_stays_clean(buf, lines.drop_last());
        law_ring_after_stays_clean(ring_history(buf, lines.drop_last()), lines.last());
    }
}

/// Whatever events are recorded, one after another, each of the three
/// buffers stays within the limit and free of empty lines, from empty
/// buffers or any that were so.
pub proof fn law_rings_stay_clean(b: Rings, events: Seq<(LogLevel, Seq<char>, Seq<char>)>)
    requires
        ring_ok(b.0),
        ring_ok(b.1),
        ring_ok(b.2),
    ensures
        ring_ok(rings_history(b, events).0),
        ring_ok(rings_history(b, events).1),
        ring_ok(rings_history(b, events).2),
    decreases events.len(),
{
    if events.len() > 0 {
        let e = events.last();
        let prev = rings_history(b, events.drop_last());
        law_rings_stay_clean(b, events.drop_last());
        let line = log_line(e.0, e.1, e.2);
        law_ring_after_stays_clean(prev.0, line);
        law_ring_after_stays_clean(prev.1, line);
        law_ring_after_stays_clean(prev.2, line);
    }
}

} // verus!
