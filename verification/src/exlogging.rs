//! The lines of the event log.

use crate::text::{
    chars_of, lemma_texts_push, string_of, text_of_bytes, texts, trim_bounds, trimmed,
};
use vstd::prelude::*;
use vstd::string::StringExecFns;

verus! {

/// How grave an event is.
#[derive(Debug, Clone, Copy, PartialEq, Eq, Structural)]
pub enum LogLevel {
    Error,
    Warn,
    Info,
    Debug,
    Trace,
}

/// The name of a level as the log shows it.
pub open spec fn level_name(level: LogLevel) -> Seq<char> {
    match level {
        LogLevel::Error => "ERROR"@,
        LogLevel::Warn => "WARN"@,
        LogLevel::Info => "INFO"@,
        LogLevel::Debug => "DEBUG"@,
        LogLevel::Trace => "TRACE"@,
    }
}

impl LogLevel {
    /// The name of the level as the log shows it.
    pub fn as_str(&self) -> (name: &'static str)
        ensures
            name@ == level_name(*self),
    {
        match self {
            LogLevel::Error => "ERROR",
            LogLevel::Warn => "WARN",
            LogLevel::Info => "INFO",
            LogLevel::Debug => "DEBUG",
            LogLevel::Trace => "TRACE",
        }
    }
}

/// Where the log is written.
#[derive(Debug, Clone)]
pub struct LoggerConfig {
    pub log_file_path: String,
}

/// The line that the log keeps of an event: the time and the level in
/// brackets, the user in brackets where one is known, and the message.
pub open spec fn log_line(
    timestamp: Seq<char>,
    level: LogLevel,
    user: Option<Seq<char>>,
    message: Seq<char>,
) -> Seq<char> {
    match user {
        Some(name) => "["@ + timestamp + "] ["@ + level_name(level) + "] [User: "@ + name + "] "@
            + message + "\n"@,
        None => "["@ + timestamp + "] ["@ + level_name(level) + "] "@ + message + "\n"@,
    }
}

/// The line that the log keeps of an event.
pub fn format_log_entry(timestamp: &str, level: LogLevel, message: &str, user: Option<&str>) -> (line:
    String)
    ensures
        line@ == log_line(
            timestamp@,
            level,
            match user {
                Some(name) => Some(name@),
                None => None,
            },
            message@,
        ),
{
    let mut line = String::from_str("[");
    line.append(timestamp);
    line.append("] [");
    line.append(level.as_str());
    match user {
        Some(name) => {
            line.append("] [User: ");
            line.append(name);
            line.append("] ");
        },
        None => {
            line.append("] ");
        },
    }
    line.append(message);
    line.append("\n");
    line
}

/// The line that the log keeps of a failure that a front end reported.
pub fn format_frontend_failure(timestamp: &str, component: &str, app_version: &str, message: &str) -> (line:
    String)
    ensures
        line@ == "["@ + timestamp@ + "] ["@ + component@ + "] "@ + app_version@ + " | "@
            + message@ + "\n"@,
{
    let mut line = String::from_str("[");
    line.append(timestamp);
    line.append("] [");
    line.append(component);
    line.append("] ");
    line.append(app_version);
    line.append(" | ");
    line.append(message);
    line.append("\n");
    line
}

/// The position of the first line feed among the bytes, or their number
/// where there is none.
pub open spec fn feed_index(bytes: Seq<u8>) -> int
    decreases bytes.len(),
{
    if bytes.len() == 0 || bytes[0] == 10 {
        0
    } else {
        1 + feed_index(bytes.drop_first())
    }
}

/// A position that holds the first line feed is `feed_index`.
pub proof fn lemma_feed_index_is(bytes: Seq<u8>, n: int)
    requires
        0 <= n <= bytes.len(),
        forall|k: int| 0 <= k < n ==> bytes[k] != 10,
        n < bytes.len() ==> bytes[n] == 10,
    ensures
        feed_index(bytes) == n,
    decreases bytes.len(),
{
    if bytes.len() == 0 || bytes[0] == 10 {
    } else {
        assert forall|k: int| 0 <= k < n - 1 implies bytes.drop_first()[k] != 10 by {
            assert(bytes.drop_first()[k] == bytes[k + 1]);
        }
        lemma_feed_index_is(bytes.drop_first(), n - 1);
    }
}

/// The statement that the bytes between two line feeds hold: their text
/// without white space at its ends. Bytes that are no text, and a text that
/// is blank, hold none.
pub open spec fn statement_of(segment: Seq<u8>) -> Option<Seq<char>> {
    if segment.len() > 0 && vstd::utf8::valid_utf8(segment) && trimmed(
        vstd::utf8::decode_utf8(segment),
    ).len() > 0 {
        Some(trimmed(vstd::utf8::decode_utf8(segment)))
    } else {
        None
    }
}

/// The statements of a log, oldest first.
pub open spec fn statements(bytes: Seq<u8>) -> Seq<Seq<char>>
    decreases bytes.len(),
{
    let n = feed_index(bytes);
    let here = match statement_of(bytes.take(n)) {
        Some(text) => seq![text],
        None => Seq::empty(),
    };
    if n < 0 || n >= bytes.len() {
        here
    } else {
        here + statements(bytes.skip(n + 1))
    }
}

/// The last `n` of the lines, or all of them where they are fewer.
pub open spec fn last_of(lines: Seq<Seq<char>>, n: nat) -> Seq<Seq<char>> {
    if lines.len() <= n {
        lines
    } else {
        lines.skip(lines.len() - n)
    }
}

/// The statement that `content[from..to]` holds.
fn read_statement(content: &Vec<u8>, from: usize, to: usize) -> (r: Option<String>)
    requires
        from <= to <= content.len(),
    ensures
        match r {
            Some(text) => statement_of(content@.subrange(from as int, to as int)) == Some(text@),
            None => statement_of(content@.subrange(from as int, to as int)) is None,
        },
{
    if from == to {
        return None;
    }
    let mut segment: Vec<u8> = Vec::new();
    let mut i: usize = from;
    while i < to
        invariant
            from <= i <= to <= content.len(),
            segment@ == content@.subrange(from as int, i as int),
        decreases to - i,
    {
        segment.push(content[i]);
        i += 1;
        assert(segment@ =~= content@.subrange(from as int, i as int));
    }
    match text_of_bytes(segment) {
        None => None,
        Some(text) => {
            let v = chars_of(text.as_str());
            let (a, b) = trim_bounds(&v);
            if a == b {
                None
            } else {
                Some(string_of(&v, a, b))
            }
        },
    }
}

/// The `n` latest statements of a log, oldest first. A statement is a line of
/// the log without white space at its ends; lines that are blank or no text
/// are passed over.
pub fn latest_log_lines(n: usize, content: &Vec<u8>) -> (lines: Vec<String>)
    ensures
        texts(lines@) == last_of(statements(content@), n as nat),
{
    let len: usize = content.len();
    let mut all: Vec<String> = Vec::new();
    let mut pos: usize = 0;
    let mut done = false;
    assert(content@.skip(0) =~= content@);
    assert(texts(all@) =~= Seq::<Seq<char>>::empty());
    while !done
        invariant
            pos <= len,
            len == content.len(),
            !done ==> statements(content@) == texts(all@) + statements(content@.skip(pos as int)),
            done ==> statements(content@) == texts(all@),
        decreases len - pos + (if done { 0int } else { 1int }),
    {
        let ghost rest = content@.skip(pos as int);
        let mut end: usize = pos;
        while end < len && content[end] != 10
            invariant
                pos <= end <= len,
                len == content.len(),
                forall|k: int| pos <= k < end ==> content@[k] != 10,
            decreases len - end,
        {
            end += 1;
        }
        proof {
            assert forall|k: int| 0 <= k < end - pos implies rest[k] != 10 by {
                assert(rest[k] == content@[pos + k]);
            }
            lemma_feed_index_is(rest, end - pos);
            assert(rest.take(end - pos) =~= content@.subrange(pos as int, end as int));
        }
        let ghost before = all@;
        match read_statement(content, pos, end) {
            Some(text) => {
                proof {
                    lemma_texts_push(all@, text);
                }
                all.push(text);
            },
            None => {},
        }
        if end == len {
            proof {
                assert(texts(all@) =~= texts(before) + statements(rest));
            }
            done = true;
            pos = len;
        } else {
            proof {
                assert(rest.skip(end - pos + 1) =~= content@.skip(end + 1));
                assert(texts(all@) + statements(content@.skip(end + 1)) =~= texts(before)
                    + statements(rest));
            }
            pos = end + 1;
        }
    }
    let total: usize = all.len();
    if total <= n {
        return all;
    }
    let mut lines: Vec<String> = Vec::new();
    let mut i: usize = total - n;
    assert(texts(lines@) =~= texts(all@).subrange(total - n, i as int));
    while i < total
        invariant
            total - n <= i <= total,
            total == all@.len(),
            n < total,
            texts(lines@) == texts(all@).subrange(total - n, i as int),
        decreases total - i,
    {
        let line = all[i].clone();
        proof {
            lemma_texts_push(lines@, line);
            assert(texts(all@).subrange(total - n, i + 1) =~= texts(all@).subrange(
                total - n,
                i as int,
            ).push(texts(all@)[i as int]));
        }
        lines.push(line);
        i += 1;
    }
    assert(texts(all@).subrange(total - n, total as int) =~= texts(all@).skip(total - n));
    lines
}


} // verus!
