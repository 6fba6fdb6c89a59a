//! The streaming ingestion machine: it buffers the backend's reply bytes,
//! splits complete newline-terminated records off the buffer, parses each
//! record, emits one progress event per record, accumulates the full reply,
//! and hands the caller the reply to persist exactly once, when the first
//! terminal record arrives.

use vstd::prelude::*;
use vstd::string::*;

use crate::entities::{ChatStreamEvent, ChatStreamEventView};
use crate::lookup::{
    first_match, is_first_match, lemma_first_match_at, lemma_first_match_exists,
    lemma_first_match_none,
};
use crate::strutil::{spec_trim, trim_str};

verus! {

/// One parsed progress record of the backend's reply stream.
pub struct StreamRecord {
    pub content: Option<String>,
    pub done: bool,
    pub done_reason: Option<String>,
}

/// The mathematical content of an optional record: message content, the
/// completion flag, and the completion reason.
pub open spec fn record_view(r: Option<StreamRecord>) -> Option<
    (Option<Seq<char>>, bool, Option<Seq<char>>),
> {
    match r {
        Some(rec) => Some(
            (
                match rec.content {
                    Some(c) => Some(c@),
                    None => None,
                },
                rec.done,
                match rec.done_reason {
                    Some(d) => Some(d@),
                    None => None,
                },
            ),
        ),
        None => None,
    }
}

/// What parsing one progress record returns; it is a function of the line's
/// characters alone.
pub uninterp spec fn stream_record_of(line: Seq<char>) -> Option<
    (Option<Seq<char>>, bool, Option<Seq<char>>),
>;

/// Relies on serde_json: one newline-delimited progress record of the
/// backend's reply stream is parsed as JSON; a record without a boolean
/// `done` field is rejected, the `message.content` and `done_reason` string
/// fields are optional, and other fields are ignored. The result is a
/// deterministic function of the line's characters.
#[verifier::external_body]
pub fn parse_stream_record(line: &str) -> (r: Option<StreamRecord>)
    ensures
        record_view(r) == stream_record_of(line@),
{
    let v: serde_json::Value = serde_json::from_str(line).ok()?;
    let done = v.get("done")?.as_bool()?;
    let content = v.get("message").and_then(|m| m.get("content")).and_then(|c| c.as_str()).map(
        |s| s.to_string(),
    );
    let done_reason = v.get("done_reason").and_then(|d| d.as_str()).map(|s| s.to_string());
    Some(StreamRecord { content, done, done_reason })
}

/// What decoding a byte chunk as UTF-8 returns; it is a function of the
/// bytes alone.
pub uninterp spec fn utf8_of(bytes: Seq<u8>) -> Option<Seq<char>>;

/// Relies on `String::from_utf8`: the chunk's bytes decoded as UTF-8, or
/// nothing when they are not valid UTF-8; the result is a deterministic
/// function of the bytes.
#[verifier::external_body]
pub fn decode_utf8_chunk(bytes: Vec<u8>) -> (r: Option<String>)
    ensures
        match r {
            Some(s) => utf8_of(bytes@) == Some(s@),
            None => utf8_of(bytes@) is None,
        },
{
    String::from_utf8(bytes).ok()
}

/// The position of the first newline, if any.
pub open spec fn newline_pos(s: Seq<char>) -> Option<int> {
    first_match(s, |c: char| c == '\n')
}

/// The complete newline-terminated lines at the front of `s`, without their
/// newlines, in order.
pub open spec fn spec_complete_lines(s: Seq<char>) -> Seq<Seq<char>>
    decreases s.len(),
{
    match newline_pos(s) {
        Some(i) => {
            if 0 <= i < s.len() {
                seq![s.subrange(0, i)] + spec_complete_lines(s.subrange(i + 1, s.len() as int))
            } else {
                seq![]
            }
        },
        None => seq![],
    }
}

/// What remains of `s` after all complete lines are removed.
pub open spec fn spec_line_rest(s: Seq<char>) -> Seq<char>
    decreases s.len(),
{
    match newline_pos(s) {
        Some(i) => {
            if 0 <= i < s.len() {
                spec_line_rest(s.subrange(i + 1, s.len() as int))
            } else {
                s
            }
        },
        None => s,
    }
}

/// The events one line produces: none for a line that is blank after
/// trimming or that does not parse, otherwise one event carrying the
/// record's content (empty when absent), completion flag and reason.
pub open spec fn spec_line_events(chat_id: Seq<char>, line: Seq<char>) -> Seq<ChatStreamEventView> {
    let t = spec_trim(line);
    if t.len() == 0 {
        seq![]
    } else {
        match stream_record_of(t) {
            Some(rec) => seq![
                ChatStreamEventView {
                    chat_id: chat_id,
                    content: match rec.0 {
                        Some(c) => c,
                        None => Seq::empty(),
                    },
                    done: rec.1,
                    done_reason: rec.2,
                },
            ],
            None => seq![],
        }
    }
}

/// The events a sequence of lines produces, in line order.
pub open spec fn spec_lines_events(chat_id: Seq<char>, lines: Seq<Seq<char>>) -> Seq<
    ChatStreamEventView,
>
    decreases lines.len(),
{
    if lines.len() == 0 {
        seq![]
    } else {
        spec_line_events(chat_id, lines.first()) + spec_lines_events(chat_id, lines.drop_first())
    }
}

/// The concatenation of the events' content fragments, in emission order.
pub open spec fn spec_concat_contents(evs: Seq<ChatStreamEventView>) -> Seq<char>
    decreases evs.len(),
{
    if evs.len() == 0 {
        Seq::empty()
    } else {
        spec_concat_contents(evs.drop_last()) + evs.last().content
    }
}

/// Whether any event carries the completion flag.
pub open spec fn spec_any_done(evs: Seq<ChatStreamEventView>) -> bool {
    exists|i: int| 0 <= i < evs.len() && (#[trigger] evs[i]).done
}

/// Law: fragments concatenate piecewise — the fragments of two event runs,
/// emitted one run after the other, reconstruct the same text as the runs
/// taken together. With the per-call contracts of `feed_chunk` and `finish`,
/// the fragments of a whole session, concatenated in emission order,
/// reconstruct the accumulated reply exactly.
pub proof fn lemma_concat_contents_app(a: Seq<ChatStreamEventView>, b: Seq<ChatStreamEventView>)
    ensures
        spec_concat_contents(a + b) == spec_concat_contents(a) + spec_concat_contents(b),
    decreases b.len(),
{
    if b.len() == 0 {
        assert(a + b =~= a);
        assert(spec_concat_contents(a) + Seq::<char>::empty() =~= spec_concat_contents(a));
    } else {
        lemma_concat_contents_app(a, b.drop_last());
        assert((a + b).drop_last() =~= a + b.drop_last());
        assert((a + b).last() == b.last());
        assert(spec_concat_contents(a) + spec_concat_contents(b.drop_last()) + b.last().content
            =~= spec_concat_contents(a) + (spec_concat_contents(b.drop_last()) + b.last().content));
    }
}

/// One streaming invocation: the identifier of the chat it serves, the text
/// buffer of bytes not yet forming a complete record, the reply accumulated
/// so far, and whether the terminal record has already been seen.
pub struct StreamSession {
    pub chat_id: String,
    pub buffer: String,
    pub full_response: String,
    pub finalized: bool,
}

/// The reply that the first terminal record among `evs` commits: everything
/// accumulated up to and including that event's content.
pub open spec fn spec_committed_reply(
    prior: Seq<char>,
    evs: Seq<ChatStreamEventView>,
) -> Seq<char> {
    let fd = first_match(evs, |e: ChatStreamEventView| e.done)->0;
    prior + spec_concat_contents(evs.subrange(0, fd + 1))
}

impl StreamSession {
    /// Start a session for one chat: empty buffer, empty reply, not finalized.
    pub fn begin(chat_id: &str) -> (r: Self)
        ensures
            r.chat_id@ == chat_id@,
            r.buffer@.len() == 0,
            r.full_response@.len() == 0,
            !r.finalized,
    {
        StreamSession {
            chat_id: chat_id.to_owned(),
            buffer: String::new(),
            full_response: String::new(),
            finalized: false,
        }
    }

    /// Process one line: trim it, parse it, accumulate its content and emit
    /// its event. The first terminal record of the session returns the
    /// accumulated reply for the caller to persist; every later one returns
    /// nothing, so the reply is committed exactly once.
    fn process_line(&mut self, line: &str) -> (r: (Option<ChatStreamEvent>, Option<String>))
        ensures
            ({
                let evs = spec_line_events(old(self).chat_id@, line@);
                &&& final(self).chat_id@ == old(self).chat_id@
                &&& final(self).buffer == old(self).buffer
                &&& (match r.0 {
                    Some(e) => evs =~= seq![e@],
                    None => evs.len() == 0,
                })
                &&& final(self).full_response@ == old(self).full_response@ + spec_concat_contents(
                    evs,
                )
                &&& final(self).finalized == (old(self).finalized || spec_any_done(evs))
                &&& (match r.1 {
                    Some(s) => !old(self).finalized && spec_any_done(evs)
                        && s@ == final(self).full_response@,
                    None => old(self).finalized || !spec_any_done(evs),
                })
            }),
    {
        let trimmed = trim_str(line);
        if trimmed.is_empty() {
            proof {
                assert(spec_line_events(self.chat_id@, line@).len() == 0);
                assert(self.full_response@ + spec_concat_contents(
                    spec_line_events(self.chat_id@, line@),
                ) =~= self.full_response@);
            }
            return (None, None);
        }
        match parse_stream_record(trimmed) {
            None => {
                proof {
                    assert(spec_line_events(self.chat_id@, line@).len() == 0);
                    assert(self.full_response@ + spec_concat_contents(
                        spec_line_events(self.chat_id@, line@),
                    ) =~= self.full_response@);
                }
                (None, None)
            },
            Some(rec) => {
                let ghost evs = spec_line_events(self.chat_id@, line@);
                let content = match rec.content {
                    Some(c) => c,
                    None => String::new(),
                };
                self.full_response.append(content.as_str());
                let event = ChatStreamEvent {
                    chat_id: self.chat_id.clone(),
                    content,
                    done: rec.done,
                    done_reason: rec.done_reason,
                };
                proof {
                    assert(evs =~= seq![event@]);
                    assert(evs.drop_last() =~= Seq::<ChatStreamEventView>::empty());
                    assert(evs.last() == event@);
                    assert(spec_concat_contents(Seq::<ChatStreamEventView>::empty()) =~= Seq::<
                        char,
                    >::empty());
                    assert(spec_concat_contents(evs) =~= Seq::<char>::empty() + event@.content);
                    assert(spec_concat_contents(evs) =~= event@.content);
                    if event@.done {
                        assert(spec_any_done(evs));
                    } else {
                        assert(forall|i: int| 0 <= i < evs.len() ==> !(#[trigger] evs[i]).done);
                    }
                }
                let mut reply: Option<String> = None;
                if rec.done && !self.finalized {
                    self.finalized = true;
                    reply = Some(self.full_response.clone());
                }
                (Some(event), reply)
            },
        }
    }

    /// Find the first newline of the buffer.
    fn find_newline(&self) -> (r: Option<usize>)
        ensures
            match r {
                Some(i) => i < self.buffer@.len() && newline_pos(self.buffer@) == Some(i as int),
                None => newline_pos(self.buffer@) is None,
            },
    {
        let n = self.buffer.as_str().unicode_len();
        let mut i: usize = 0;
        while i < n
            invariant
                i <= n,
                n == self.buffer@.len(),
                forall|j: int| 0 <= j < i ==> self.buffer@[j] != '\n',
            decreases n - i,
        {
            if self.buffer.as_str().get_char(i) == '\n' {
                proof {
                    lemma_first_match_at(self.buffer@, |c: char| c == '\n', i as int);
                }
                return Some(i);
            }
            i = i + 1;
        }
        proof {
            lemma_first_match_none(self.buffer@, |c: char| c == '\n');
        }
        None
    }

    /// Feed one decoded chunk of the reply stream: append it to the buffer,
    /// process every complete line, and return the emitted events together
    /// with the reply to persist if this chunk completed the reply.
    pub fn feed_chunk(&mut self, chunk: &str) -> (r: (Vec<ChatStreamEvent>, Option<String>))
        ensures
            ({
                let combined = old(self).buffer@ + chunk@;
                let evs = spec_lines_events(old(self).chat_id@, spec_complete_lines(combined));
                &&& final(self).chat_id@ == old(self).chat_id@
                &&& r.0@.map_values(|e: ChatStreamEvent| e@) == evs
                &&& final(self).buffer@ == spec_line_rest(combined)
                &&& final(self).full_response@ == old(self).full_response@
                    + spec_concat_contents(evs)
                &&& final(self).finalized == (old(self).finalized || spec_any_done(evs))
                &&& (match r.1 {
                    Some(s) => !old(self).finalized && spec_any_done(evs) && s@
                        == spec_committed_reply(old(self).full_response@, evs),
                    None => old(self).finalized || !spec_any_done(evs),
                })
            }),
    {
        self.buffer.append(chunk);
        let ghost combined = old(self).buffer@ + chunk@;
        let ghost chat = old(self).chat_id@;
        let mut events: Vec<ChatStreamEvent> = Vec::new();
        let mut reply: Option<String> = None;
        proof {
            assert(self.buffer@ == combined);
            assert(events@.map_values(|e: ChatStreamEvent| e@) =~= Seq::<
                ChatStreamEventView,
            >::empty());
        }
        let mut scanning = true;
        while scanning
            invariant
                !scanning ==> newline_pos(self.buffer@) is None,
                self.chat_id@ == chat,
                chat == old(self).chat_id@,
                spec_lines_events(chat, spec_complete_lines(combined)) == events@.map_values(
                    |e: ChatStreamEvent| e@,
                ) + spec_lines_events(chat, spec_complete_lines(self.buffer@)),
                spec_line_rest(combined) == spec_line_rest(self.buffer@),
                self.full_response@ == old(self).full_response@ + spec_concat_contents(
                    events@.map_values(|e: ChatStreamEvent| e@),
                ),
                self.finalized == (old(self).finalized || spec_any_done(
                    events@.map_values(|e: ChatStreamEvent| e@),
                )),
                (match reply {
                    Some(s) => {
                        &&& !old(self).finalized
                        &&& spec_any_done(events@.map_values(|e: ChatStreamEvent| e@))
                        &&& s@ == spec_committed_reply(
                            old(self).full_response@,
                            events@.map_values(|e: ChatStreamEvent| e@),
                        )
                    },
                    None => old(self).finalized || !spec_any_done(
                        events@.map_values(|e: ChatStreamEvent| e@),
                    ),
                }),
            decreases self.buffer@.len() + (if scanning { 1int } else { 0int }),
        {
            let ghost evs_before = events@.map_values(|e: ChatStreamEvent| e@);
            let pos = self.find_newline();
            match pos {
                None => {
                    scanning = false;
                },
                Some(i) => {
                    let ghost buf = self.buffer@;
                    let n = self.buffer.as_str().unicode_len();
                    let line = self.buffer.as_str().substring_char(0, i).to_owned();
                    let rest = self.buffer.as_str().substring_char(i + 1, n).to_owned();
                    self.buffer = rest;
                    proof {
                        assert(spec_complete_lines(buf) == seq![buf.subrange(0, i as int)]
                            + spec_complete_lines(self.buffer@));
                        assert(spec_line_rest(buf) == spec_line_rest(self.buffer@));
                        let lines = spec_complete_lines(buf);
                        assert(lines.first() == line@);
                        assert(lines.drop_first() =~= spec_complete_lines(self.buffer@));
                        assert(spec_lines_events(chat, lines) == spec_line_events(chat, line@)
                            + spec_lines_events(chat, spec_complete_lines(self.buffer@)));
                    }
                    let ghost full_before = self.full_response@;
                    let ghost was_finalized = self.finalized;
                    let (ev, rep) = self.process_line(line.as_str());
                    let ghost line_evs = spec_line_events(chat, line@);
                    match ev {
                        Some(e) => {
                            events.push(e);
                        },
                        None => {},
                    }
                    proof {
                        let evs_now = events@.map_values(|e: ChatStreamEvent| e@);
                        assert(evs_now =~= evs_before + line_evs);
                        lemma_concat_contents_app(evs_before, line_evs);
                        assert(spec_lines_events(chat, spec_complete_lines(combined)) =~= evs_now
                            + spec_lines_events(chat, spec_complete_lines(self.buffer@)));
                        if spec_any_done(evs_now) {
                            if spec_any_done(evs_before) {
                                let w = choose|t: int|
                                    0 <= t < evs_before.len() && (#[trigger] evs_before[t]).done;
                                assert(evs_now[w].done);
                            }
                        }
                        if spec_any_done(evs_before) {
                            let w = choose|t: int|
                                0 <= t < evs_before.len() && (#[trigger] evs_before[t]).done;
                            assert(evs_now[w].done);
                            assert(spec_any_done(evs_now));
                        }
                        if spec_any_done(line_evs) {
                            assert(line_evs.len() == 1 && line_evs[0].done);
                            assert(evs_now[evs_before.len() as int].done);
                            assert(spec_any_done(evs_now));
                        }
                        if spec_any_done(evs_now) && !spec_any_done(evs_before) && !spec_any_done(
                            line_evs,
                        ) {
                            let w = choose|t: int|
                                0 <= t < evs_now.len() && (#[trigger] evs_now[t]).done;
                            if w < evs_before.len() {
                                assert(evs_before[w].done);
                            } else {
                                assert(line_evs[w - evs_before.len()].done);
                            }
                        }
                    }
                    match rep {
                        Some(s) => {
                            proof {
                                let evs_now = events@.map_values(|e: ChatStreamEvent| e@);
                                let pdone = |e: ChatStreamEventView| e.done;
                                assert(line_evs.len() == 1 && line_evs[0].done);
                                assert(!spec_any_done(evs_before));
                                assert(forall|t: int|
                                    0 <= t < evs_before.len() ==> !(#[trigger] pdone(
                                        evs_now[t],
                                    )));
                                assert(pdone(evs_now[evs_before.len() as int]));
                                lemma_first_match_at(evs_now, pdone, evs_before.len() as int);
                                assert(evs_now.subrange(0, evs_before.len() as int + 1) =~= evs_now);
                            }
                            reply = Some(s);
                        },
                        None => {
                            proof {
                                let evs_now = events@.map_values(|e: ChatStreamEvent| e@);
                                let pdone = |e: ChatStreamEventView| e.done;
                                if reply is Some {
                                    assert(spec_any_done(evs_before));
                                    let w = choose|t: int|
                                        0 <= t < evs_before.len() && (#[trigger] evs_before[
                                            t
                                        ]).done;
                                    assert(pdone(evs_before[w]));
                                    lemma_first_match_exists(evs_before, pdone, w);
                                    let fd0 = first_match(evs_before, pdone)->0;
                                    assert(is_first_match(evs_now, pdone, fd0));
                                    lemma_first_match_at(evs_now, pdone, fd0);
                                    assert(evs_now.subrange(0, fd0 + 1) =~= evs_before.subrange(
                                        0,
                                        fd0 + 1,
                                    ));
                                }
                            }
                        },
                    }
                },
            }
        }
        proof {
            assert(spec_complete_lines(self.buffer@) =~= Seq::<Seq<char>>::empty());
            assert(spec_line_rest(self.buffer@) == self.buffer@);
            assert(events@.map_values(|e: ChatStreamEvent| e@) + spec_lines_events(
                chat,
                spec_complete_lines(self.buffer@),
            ) =~= events@.map_values(|e: ChatStreamEvent| e@));
        }
        (events, reply)
    }

    /// Process what remains in the buffer once the stream has ended: the
    /// final, newline-unterminated record, if any.
    pub fn finish(&mut self) -> (r: (Vec<ChatStreamEvent>, Option<String>))
        ensures
            ({
                let evs = spec_line_events(old(self).chat_id@, old(self).buffer@);
                &&& final(self).chat_id@ == old(self).chat_id@
                &&& r.0@.map_values(|e: ChatStreamEvent| e@) == evs
                &&& final(self).buffer@.len() == 0
                &&& final(self).full_response@ == old(self).full_response@
                    + spec_concat_contents(evs)
                &&& final(self).finalized == (old(self).finalized || spec_any_done(evs))
                &&& (match r.1 {
                    Some(s) => !old(self).finalized && spec_any_done(evs)
                        && s@ == final(self).full_response@,
                    None => old(self).finalized || !spec_any_done(evs),
                })
            }),
    {
        let line = self.buffer.clone();
        self.buffer = String::new();
        let (ev, reply) = self.process_line(line.as_str());
        let mut events: Vec<ChatStreamEvent> = Vec::new();
        match ev {
            Some(e) => {
                events.push(e);
            },
            None => {},
        }
        proof {
            let evs = spec_line_events(old(self).chat_id@, old(self).buffer@);
            assert(events@.map_values(|e: ChatStreamEvent| e@) =~= evs);
        }
        (events, reply)
    }
}

} // verus!
