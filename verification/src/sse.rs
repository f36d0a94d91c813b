//! Server-sent event messages, as the admin dashboard streams them.

use vstd::prelude::*;

use crate::text::{dec_digits, int_text, push_char, write_signed, write_unsigned};

verus! {

broadcast use vstd::string::group_string_axioms;

/// One server-sent event: an optional event name, the data, an optional id
/// and an optional reconnection delay in milliseconds.
pub struct SseMessage {
    pub event: Option<String>,
    pub data: String,
    pub id: Option<i64>,
    pub retry: Option<u128>,
}

/// The data field with every line break followed by a new `data: ` prefix.
pub open spec fn data_body(data: Seq<char>) -> Seq<char>
    decreases data.len(),
{
    if data.len() == 0 {
        Seq::empty()
    } else {
        let last = data.last();
        data_body(data.drop_last()) + if last == '\n' {
            "\ndata: "@
        } else {
            seq![last]
        }
    }
}

/// The text of a message on the wire: `event`, `id` and `retry` lines where
/// present, one `data` line per line of the data, and a closing empty line.
pub open spec fn sse_text(
    event: Option<Seq<char>>,
    data: Seq<char>,
    id: Option<i64>,
    retry: Option<u128>,
) -> Seq<char> {
    let event_part = match event {
        Some(e) => "event: "@ + e + "\n"@,
        None => Seq::empty(),
    };
    let id_part = match id {
        Some(i) => "id: "@ + int_text(i as int) + "\n"@,
        None => Seq::empty(),
    };
    let retry_part = match retry {
        Some(r) => "retry: "@ + dec_digits(r as nat) + "\n"@,
        None => Seq::empty(),
    };
    event_part + id_part + retry_part + "data: "@ + data_body(data) + "\n"@ + "\n"@
}

impl SseMessage {
    /// The text of this message on the wire.
    pub open spec fn wire_text(&self) -> Seq<char> {
        sse_text(
            match self.event {
                Some(e) => Some(e@),
                None => None,
            },
            self.data@,
            self.id,
            self.retry,
        )
    }

    /// A message that carries only `data`.
    pub fn new(data: &str) -> (msg: SseMessage)
        ensures
            msg.event is None,
            msg.data@ == data@,
            msg.id is None,
            msg.retry is None,
    {
        SseMessage { event: None, data: data.to_owned(), id: None, retry: None }
    }

    /// The same message with its event name set.
    pub fn with_event(self, event: &str) -> (msg: SseMessage)
        ensures
            msg.event matches Some(e) && e@ == event@,
            msg.data == self.data,
            msg.id == self.id,
            msg.retry == self.retry,
    {
        SseMessage { event: Some(event.to_owned()), ..self }
    }

    /// The same message with its id set.
    pub fn with_id(self, id: i64) -> (msg: SseMessage)
        ensures
            msg.event == self.event,
            msg.data == self.data,
            msg.id == Some(id),
            msg.retry == self.retry,
    {
        SseMessage { id: Some(id), ..self }
    }

    /// The same message with its reconnection delay set, in milliseconds.
    pub fn with_retry(self, retry_millis: u128) -> (msg: SseMessage)
        ensures
            msg.event == self.event,
            msg.data == self.data,
            msg.id == self.id,
            msg.retry == Some(retry_millis),
    {
        SseMessage { retry: Some(retry_millis), ..self }
    }

    /// The text of this message on the wire.
    pub fn to_string(&self) -> (text: String)
        ensures
            text@ == self.wire_text(),
    {
        let mut out = String::new();
        if let Some(event) = &self.event {
            out.append("event: ");
            out.append(event.as_str());
            out.append("\n");
        }
        if let Some(id) = self.id {
            out.append("id: ");
            write_signed(id, &mut out);
            out.append("\n");
        }
        if let Some(retry) = self.retry {
            out.append("retry: ");
            write_unsigned(retry, &mut out);
            out.append("\n");
        }
        out.append("data: ");
        let ghost prefix = out@;
        let data = self.data.as_str();
        for c in it: data.chars()
            invariant
                it.seq() == data@,
                out@ == prefix + data_body(data@.take(it.index() as int)),
        {
            proof {
                assert(data@.take(it.index() + 1).drop_last() =~= data@.take(it.index() as int));
            }
            if c == '\n' {
                out.append("\ndata: ");
            } else {
                push_char(&mut out, c);
            }
        }
        proof {
            assert(data@.take(data@.len() as int) =~= data@);
        }
        out.append("\n");
        out.append("\n");
        proof {
            assert(out@ =~= self.wire_text());
        }
        out
    }

    /// The UTF-8 bytes of this message on the wire.
    pub fn into_bytes(self) -> (bytes: Vec<u8>)
        ensures
            bytes@ == vstd::utf8::encode_utf8(self.wire_text()),
    {
        let text = self.to_string();
        vstd::slice::slice_to_vec(text.as_str().as_bytes())
    }
}

/// The message that streams the system statistics: the statistics as JSON
/// data, the event `system`, the message's number as its id, and a
/// reconnection delay of five seconds.
pub fn system_stats_message(json: &str, id: i64) -> (msg: SseMessage)
    ensures
        msg.data@ == json@,
        msg.event matches Some(e) && e@ == "system"@,
        msg.id == Some(id),
        msg.retry == Some(5000u128),
{
    SseMessage::new(json).with_event("system").with_id(id).with_retry(5000)
}

/// The system-statistics stream: its messages are numbered 0, 1, 2, … in
/// the order in which they are made.
pub struct StatsStream {
    pub next_id: i64,
}

impl StatsStream {
    /// A stream whose first message is number 0.
    pub fn new() -> (stream: StatsStream)
        ensures
            stream.next_id == 0,
    {
        StatsStream { next_id: 0 }
    }

    /// The stream's next message, with the statistics `json` (see
    /// [`system_stats_message`]): it carries the stream's next number, and
    /// the number after it comes next.
    pub fn next_message(&mut self, json: &str) -> (msg: SseMessage)
        requires
            old(self).next_id < i64::MAX,
        ensures
            msg.data@ == json@,
            msg.event matches Some(e) && e@ == "system"@,
            msg.id == Some(old(self).next_id),
            msg.retry == Some(5000u128),
            final(self).next_id == old(self).next_id + 1,
    {
        let msg = system_stats_message(json, self.next_id);
        self.next_id = self.next_id + 1;
        msg
    }
}

/// A text without line breaks is a single data line, as it is.
pub proof fn law_data_line_without_breaks(s: Seq<char>)
    requires
        forall|i: int| 0 <= i < s.len() ==> s[i] != '\n',
    ensures
        data_body(s) == s,
    decreases s.len(),
{
    if s.len() > 0 {
        law_data_line_without_breaks(s.drop_last());
    }
}

/// Every line break of the data, wherever it stands and whatever stands
/// around it (empty lines included), ends one data line and starts the next:
/// the data lines of `a`, a line break and `b` are those of `a` followed by
/// those of `b`. With [`law_data_line_without_breaks`], the data lines are
/// exactly the pieces of the data between its line breaks.
pub proof fn law_data_lines_split_at_breaks(a: Seq<char>, b: Seq<char>)
    ensures
        data_body(a + seq!['\n'] + b) == data_body(a) + "\ndata: "@ + data_body(b),
    decreases b.len(),
{
    let x = a + seq!['\n'];
    if b.len() == 0 {
        assert(a + seq!['\n'] + b =~= x);
        assert(x.drop_last() =~= a);
        assert(data_body(b) =~= Seq::<char>::empty());
        assert(data_body(a) + "\ndata: "@ + data_body(b) =~= data_body(a) + "\ndata: "@);
    } else {
        let whole = a + seq!['\n'] + b;
        assert(whole.drop_last() =~= a + seq!['\n'] + b.drop_last());
        assert(whole.last() == b.last());
        law_data_lines_split_at_breaks(a, b.drop_last());
        let piece = if b.last() == '\n' {
            "\ndata: "@
        } else {
            seq![b.last()]
        };
        assert(data_body(b) == data_body(b.drop_last()) + piece);
        assert(data_body(whole) == data_body(whole.drop_last()) + piece);
        assert(data_body(a) + "\ndata: "@ + data_body(b.drop_last()) + piece =~= data_body(a)
            + "\ndata: "@ + data_body(b));
    }
}

} // verus!
