//! The stream of events: how a notification and a sign of life are
//! written, and when a sign of life is due.

use vstd::prelude::*;
use vstd::string::*;
use crate::moonlight_client::elapsed;
use crate::text::{chars_of, decimal_of, owned, push_decimal, push_str, string_of, texts};

verus! {

/// The time after which a stream on which nothing was sent gets a sign of
/// life, in milliseconds.
pub const KEEP_ALIVE_INTERVAL_MS: u64 = 15_000;

/// How long the stream waits for a notification before it looks at the
/// clock again, in milliseconds.
pub const EVENT_POLL_MS: u64 = 500;

/// How long a write to the stream may block, in milliseconds.
pub const EVENT_WRITE_TIMEOUT_MS: u64 = 60_000;

/// The parts of a text between its line feeds.
pub open spec fn segments(s: Seq<char>) -> Seq<Seq<char>>
    decreases s.len(),
{
    if s.len() == 0 {
        seq![Seq::empty()]
    } else {
        let before = segments(s.drop_last());
        if s.last() == '\n' {
            before.push(Seq::empty())
        } else {
            before.update(before.len() - 1, before.last().push(s.last()))
        }
    }
}

/// The data lines of a notification: one line `data: ...` for each
/// segment that is not empty, with a line feed between two of them.
pub open spec fn data_block(parts: Seq<Seq<char>>) -> Seq<char>
    decreases parts.len(),
{
    if parts.len() == 0 {
        Seq::empty()
    } else {
        let before = data_block(parts.drop_last());
        if parts.last().len() == 0 {
            before
        } else if before.len() == 0 {
            "data: "@ + parts.last()
        } else {
            before + "\n"@ + "data: "@ + parts.last()
        }
    }
}

/// A notification as it is written to the stream: the line with the name
/// of the event, the data lines if there are any, and an empty line. An
/// event without a name is not written.
pub open spec fn notification_text(event: Seq<char>, data: Seq<char>) -> Seq<char> {
    if event.len() == 0 {
        Seq::empty()
    } else if data.len() == 0 {
        "event: "@ + event + "\n\n"@
    } else {
        let lines = data_block(segments(data));
        if lines.len() == 0 {
            "event: "@ + event + "\n\n"@
        } else {
            "event: "@ + event + "\n"@ + lines + "\n\n"@
        }
    }
}

/// A sign of life as it is written to the stream, with the time in
/// milliseconds since the Unix epoch.
pub open spec fn keep_alive_text(current_time_ms: u64) -> Seq<char> {
    "event: keep_alive\ndata: "@ + decimal_of(current_time_ms as nat) + "\n\n"@
}

/// The parts of a string between its line feeds: see [`segments`].
pub fn split_lines(s: &str) -> (r: Vec<String>)
    ensures
        texts(r@) == segments(s@),
{
    let chars = chars_of(s);
    let mut done: Vec<String> = Vec::new();
    let mut current = String::new();
    let mut i: usize = 0;
    assert(chars@.subrange(0, 0) =~= Seq::<char>::empty());
    assert(texts(done@).push(current@) =~= segments(chars@.subrange(0, 0)));
    while i < chars.len()
        invariant
            i <= chars.len(),
            texts(done@).push(current@) == segments(chars@.subrange(0, i as int)),
        decreases chars.len() - i,
    {
        let c = chars[i];
        let ghost before = chars@.subrange(0, i as int);
        let ghost after = chars@.subrange(0, i + 1);
        let ghost parts = segments(before);
        proof {
            assert(after.drop_last() =~= before);
            assert(after.last() == c);
        }
        if c == '\n' {
            let ghost t = texts(done@);
            done.push(current);
            current = String::new();
            assert(texts(done@).push(current@) =~= parts.push(Seq::empty()));
        } else {
            current.push(c);
            assert(texts(done@).push(current@) =~= parts.update(
                parts.len() - 1,
                parts.last().push(c),
            ));
        }
        i += 1;
    }
    assert(chars@.subrange(0, chars@.len() as int) =~= chars@);
    let ghost t = texts(done@);
    done.push(current);
    assert(texts(done@) =~= t.push(current@));
    done
}

/// A notification as it is written to the stream: see
/// [`notification_text`].
pub fn notification(event: String, data: String) -> (out: String)
    ensures
        out@ == notification_text(event@, data@),
{
    if event.as_str().is_empty() {
        return String::new();
    }
    let mut head = owned("event: ");
    push_str(&mut head, event.as_str());
    if data.as_str().is_empty() {
        push_str(&mut head, "\n\n");
        return head;
    }
    let parts = split_lines(data.as_str());
    let mut lines = String::new();
    let mut i: usize = 0;
    assert(texts(parts@).subrange(0, 0) =~= Seq::<Seq<char>>::empty());
    while i < parts.len()
        invariant
            i <= parts.len(),
            lines@ == data_block(texts(parts@).subrange(0, i as int)),
        decreases parts.len() - i,
    {
        let ghost before = texts(parts@).subrange(0, i as int);
        let ghost after = texts(parts@).subrange(0, i + 1);
        proof {
            assert(after.drop_last() =~= before);
            assert(after.last() == parts@[i as int]@);
        }
        if !parts[i].as_str().is_empty() {
            if !lines.as_str().is_empty() {
                push_str(&mut lines, "\n");
            }
            push_str(&mut lines, "data: ");
            push_str(&mut lines, parts[i].as_str());
            proof {
                if before.len() > 0 && data_block(before).len() == 0 {
                    assert(lines@ =~= "data: "@ + after.last());
                }
                assert(lines@ =~= data_block(after));
            }
        }
        i += 1;
    }
    assert(texts(parts@).subrange(0, parts@.len() as int) =~= texts(parts@));
    if lines.as_str().is_empty() {
        push_str(&mut head, "\n\n");
        return head;
    }
    push_str(&mut head, "\n");
    push_str(&mut head, lines.as_str());
    push_str(&mut head, "\n\n");
    head
}

/// A sign of life as it is written to the stream: see
/// [`keep_alive_text`].
pub fn keep_alive(current_time_ms: u64) -> (out: String)
    ensures
        out@ == keep_alive_text(current_time_ms),
{
    let mut out = owned("event: keep_alive\ndata: ");
    push_decimal(&mut out, current_time_ms);
    push_str(&mut out, "\n\n");
    out
}

/// The event that a stream starts with: whether the agent is connected.
pub fn first_event(connected: bool) -> (out: String)
    ensures
        out@ == (if connected {
            "event: connected\n\n"@
        } else {
            "event: disconnected\n\n"@
        }),
{
    if connected {
        owned("event: connected\n\n")
    } else {
        owned("event: disconnected\n\n")
    }
}

/// Whether a sign of life is due on a stream on which something was last
/// sent at `last_sent`.
pub fn keep_alive_due(last_sent: u64, now: u64) -> (due: bool)
    ensures
        due == (elapsed(now, last_sent) >= KEEP_ALIVE_INTERVAL_MS),
{
    now >= last_sent && now - last_sent >= KEEP_ALIVE_INTERVAL_MS
}

} // verus!
