use vstd::prelude::*;
use crate::error::Error;
use crate::json::{is_json, members_of, parse_members, parse_value};
use crate::text::{lossy_of, lossy_text, strip_prefix, trim_text, trimmed_of};
use crate::types::{decode_event, event_of, CloudEvent};

verus! {

/// The byte that ends a line.
pub const NEWLINE: u8 = 10;

/// Splits `s`, read after the unterminated text `cur`, into the lines that a
/// newline ends and the text after the last newline.
pub open spec fn split_lines(cur: Seq<u8>, s: Seq<u8>) -> (Seq<Seq<u8>>, Seq<u8>)
    decreases s.len(),
{
    if s.len() == 0 {
        (seq![], cur)
    } else if s[0] == NEWLINE {
        let r = split_lines(seq![], s.drop_first());
        (seq![cur] + r.0, r.1)
    } else {
        split_lines(cur.push(s[0]), s.drop_first())
    }
}

pub open spec fn has_no_newline(s: Seq<u8>) -> bool {
    forall|i: int| 0 <= i < s.len() ==> s[i] != NEWLINE
}

/// A line without its framing prefix, where it has one.
pub open spec fn unframed(t: Seq<char>) -> Seq<char> {
    if t.len() >= "data: "@.len() && t.take("data: "@.len() as int) == "data: "@ {
        t.skip("data: "@.len() as int)
    } else {
        t
    }
}

/// The JSON text that a received line carries.
pub open spec fn line_text(line: Seq<u8>) -> Seq<char> {
    unframed(trimmed_of(lossy_of(line)))
}

/// An object with the one member `payload`, which holds the empty string.
pub open spec fn is_heartbeat(t: Seq<char>) -> bool {
    match members_of(t) {
        Some(m) => m.dom() == set!["payload"@] && m["payload"@] == "\"\""@,
        None => false,
    }
}

/// A received line yields an item: it is not blank, nor a heartbeat.
pub open spec fn is_kept(line: Seq<u8>) -> bool {
    trimmed_of(lossy_of(line)).len() > 0 && !is_heartbeat(line_text(line))
}

/// The JSON texts of the lines that yield items, in order.
pub open spec fn frames(lines: Seq<Seq<u8>>) -> Seq<Seq<char>>
    decreases lines.len(),
{
    if lines.len() == 0 {
        seq![]
    } else {
        let pre = frames(lines.drop_last());
        if is_kept(lines.last()) {
            pre.push(line_text(lines.last()))
        } else {
            pre
        }
    }
}

/// The item decoded from a JSON text is the event it describes, or a JSON
/// error where it describes none.
pub open spec fn item_agrees(r: Result<CloudEvent, Error>, t: Seq<char>) -> bool {
    match r {
        Ok(e) => event_of(t) == Some(e.view()),
        Err(e) => event_of(t) is None && e is JsonError,
    }
}

pub open spec fn items_agree(items: Seq<Result<CloudEvent, Error>>, ts: Seq<Seq<char>>) -> bool {
    &&& items.len() == ts.len()
    &&& forall|k: int| 0 <= k < items.len() ==> item_agrees(#[trigger] items[k], ts[k])
}

/// Reading `a` and then `b` splits as reading `a + b` does: where the chunks
/// of a stream are cut never changes its lines.
pub proof fn lemma_split_concat(cur: Seq<u8>, a: Seq<u8>, b: Seq<u8>)
    ensures
        ({
            let first = split_lines(cur, a);
            let second = split_lines(first.1, b);
            split_lines(cur, a + b) == (first.0 + second.0, second.1)
        }),
    decreases a.len(),
{
    if a.len() == 0 {
        assert(a + b =~= b);
        assert(split_lines(cur, a).0 + split_lines(cur, b).0 =~= split_lines(cur, b).0);
    } else {
        assert((a + b).drop_first() =~= a.drop_first() + b);
        assert((a + b)[0] == a[0]);
        if a[0] == NEWLINE {
            lemma_split_concat(seq![], a.drop_first(), b);
            let r = split_lines(seq![], a.drop_first());
            let s = split_lines(r.1, b);
            assert(seq![cur] + (r.0 + s.0) =~= (seq![cur] + r.0) + s.0);
        } else {
            lemma_split_concat(cur.push(a[0]), a.drop_first(), b);
        }
    }
}

/// What follows the last newline holds none.
pub proof fn lemma_rest_has_no_newline(cur: Seq<u8>, s: Seq<u8>)
    requires
        has_no_newline(cur),
    ensures
        has_no_newline(split_lines(cur, s).1),
    decreases s.len(),
{
    if s.len() > 0 {
        if s[0] == NEWLINE {
            lemma_rest_has_no_newline(seq![], s.drop_first());
        } else {
            assert(has_no_newline(cur.push(s[0])));
            lemma_rest_has_no_newline(cur.push(s[0]), s.drop_first());
        }
    }
}

/// The items of two runs of lines are those of each, one after the other.
pub proof fn lemma_frames_concat(a: Seq<Seq<u8>>, b: Seq<Seq<u8>>)
    ensures
        frames(a + b) == frames(a) + frames(b),
    decreases b.len(),
{
    if b.len() == 0 {
        assert(a + b =~= a);
        assert(frames(a) + frames(b) =~= frames(a));
    } else {
        assert((a + b).drop_last() =~= a + b.drop_last());
        assert((a + b).last() == b.last());
        lemma_frames_concat(a, b.drop_last());
        if is_kept(b.last()) {
            assert(frames(a) + frames(b.drop_last()).push(line_text(b.last())) =~= (frames(a)
                + frames(b.drop_last())).push(line_text(b.last())));
        }
    }
}

/// Splits `s`, read after `cur`, into its terminated lines and what is left.
fn scan_lines(cur: Vec<u8>, s: &[u8]) -> (r: (Vec<Vec<u8>>, Vec<u8>))
    ensures
        r.0@.len() == split_lines(cur@, s@).0.len(),
        forall|k: int| 0 <= k < r.0@.len() ==> #[trigger] r.0@[k]@ == split_lines(cur@, s@).0[k],
        r.1@ == split_lines(cur@, s@).1,
{
    let mut lines: Vec<Vec<u8>> = Vec::new();
    let mut line = cur;
    let ghost done: Seq<Seq<u8>> = seq![];
    let mut i: usize = 0;
    assert(s@.skip(0) =~= s@);
    assert(done + split_lines(line@, s@).0 =~= split_lines(line@, s@).0);
    while i < s.len()
        invariant
            i <= s@.len(),
            lines@.len() == done.len(),
            forall|k: int| 0 <= k < lines@.len() ==> #[trigger] lines@[k]@ == done[k],
            split_lines(cur@, s@) == ({
                let r = split_lines(line@, s@.skip(i as int));
                (done + r.0, r.1)
            }),
        decreases s@.len() - i,
    {
        let ghost rest = s@.skip(i as int);
        assert(rest.drop_first() =~= s@.skip(i as int + 1));
        assert(rest[0] == s@[i as int]);
        if s[i] == NEWLINE {
            let ghost r = split_lines(seq![], s@.skip(i as int + 1));
            assert(done + (seq![line@] + r.0) =~= done.push(line@) + r.0);
            let mut fresh: Vec<u8> = Vec::new();
            std::mem::swap(&mut line, &mut fresh);
            lines.push(fresh);
            proof {
                done = done.push(fresh@);
            }
        } else {
            line.push(s[i]);
        }
        i = i + 1;
    }
    assert(s@.skip(i as int).len() == 0);
    assert(done + seq![] =~= done);
    (lines, line)
}

/// Whether a JSON text is a heartbeat.
fn heartbeat(t: &str) -> (r: bool)
    ensures
        r == is_heartbeat(t@),
{
    match parse_members(t) {
        Err(_) => false,
        Ok(ms) => {
            let ghost m = members_of(t@)->0;
            let payload = String::from_str("payload");
            let empty = String::from_str("\"\"");
            let r = ms.len() == 1 && ms[0].0 == payload && ms[0].1 == empty;
            proof {
                if r {
                    assert forall|k: Seq<char>| m.contains_key(k) <==> set!["payload"@].contains(
                        k,
                    ) by {
                        if m.contains_key(k) {
                            let i = choose|i: int| 0 <= i < ms@.len() && ms@[i].0@ == k;
                            assert(i == 0);
                        }
                    }
                    assert(m.dom() =~= set!["payload"@]);
                } else if m.dom() == set!["payload"@] {
                    assert(m.contains_key("payload"@));
                    let i = choose|i: int| 0 <= i < ms@.len() && ms@[i].0@ == "payload"@;
                    if ms@.len() > 1 {
                        let j: int = if i == 0 { 1 } else { 0 };
                        assert(m.contains_key(ms@[j].0@));
                        assert(ms@[j].0@ == "payload"@);
                        if i < j {
                            assert(ms@[i].0@ != ms@[j].0@);
                        } else {
                            assert(ms@[j].0@ != ms@[i].0@);
                        }
                    }
                    assert(ms@.len() == 1);
                    assert(i == 0);
                }
            }
            r
        },
    }
}

/// The item that one received line yields, if any.
fn decode_line(line: &[u8]) -> (r: Option<Result<CloudEvent, Error>>)
    ensures
        r is Some <==> is_kept(line@),
        r matches Some(x) ==> item_agrees(x, line_text(line@)),
{
    let s = lossy_text(line);
    let t = trim_text(s.as_str());
    if t.is_empty() {
        return None;
    }
    let body = match strip_prefix(t, "data: ") {
        Some(rest) => rest,
        None => t,
    };
    assert(body@ == line_text(line@));
    if heartbeat(body) {
        return None;
    }
    Some(decode_event(body))
}

/// The chunks of a stream, one after the other.
pub open spec fn joined(chunks: Seq<Seq<u8>>) -> Seq<u8>
    decreases chunks.len(),
{
    if chunks.len() == 0 {
        seq![]
    } else {
        chunks[0] + joined(chunks.drop_first())
    }
}

/// The JSON texts that feeding the chunks one at a time, after the pending
/// text `p`, yields, and the text then pending.
pub open spec fn feed_all(p: Seq<u8>, chunks: Seq<Seq<u8>>) -> (Seq<Seq<char>>, Seq<u8>)
    decreases chunks.len(),
{
    if chunks.len() == 0 {
        (seq![], p)
    } else {
        let step = split_lines(p, chunks[0]);
        let rest = feed_all(step.1, chunks.drop_first());
        (frames(step.0) + rest.0, rest.1)
    }
}

/// However a stream is cut into chunks, the decoder yields the items of its
/// newline-terminated lines in order, and keeps the same unterminated tail:
/// a byte at a time or all at once gives the same events.
pub proof fn lemma_chunking_invariant(p: Seq<u8>, chunks: Seq<Seq<u8>>)
    ensures
        feed_all(p, chunks) == ({
            let whole = split_lines(p, joined(chunks));
            (frames(whole.0), whole.1)
        }),
    decreases chunks.len(),
{
    if chunks.len() == 0 {
        assert(frames(seq![]) =~= Seq::<Seq<char>>::empty());
    } else {
        let c = chunks[0];
        let tail = chunks.drop_first();
        lemma_chunking_invariant(split_lines(p, c).1, tail);
        lemma_split_concat(p, c, joined(tail));
        lemma_frames_concat(split_lines(p, c).0, split_lines(split_lines(p, c).1, joined(tail)).0);
    }
}

/// A heartbeat line yields nothing.
pub proof fn lemma_heartbeat_dropped(line: Seq<u8>)
    requires
        is_heartbeat(line_text(line)),
    ensures
        frames(seq![line]) == Seq::<Seq<char>>::empty(),
{
    assert(seq![line].drop_last() =~= Seq::<Seq<u8>>::empty());
    assert(seq![line].last() == line);
    assert(frames(Seq::<Seq<u8>>::empty()) == Seq::<Seq<char>>::empty());
}

/// A line that describes no event yields its one error item in its place, and
/// the lines around it yield their items as they would alone.
pub proof fn lemma_bad_line_isolated(before: Seq<Seq<u8>>, bad: Seq<u8>, after: Seq<Seq<u8>>)
    requires
        is_kept(bad),
        event_of(line_text(bad)) is None,
    ensures
        frames(before + seq![bad] + after) == frames(before) + seq![line_text(bad)] + frames(after),
{
    lemma_frames_concat(before + seq![bad], after);
    lemma_frames_concat(before, seq![bad]);
    assert(seq![bad].drop_last() =~= Seq::<Seq<u8>>::empty());
    assert(seq![bad].last() == bad);
    assert(frames(Seq::<Seq<u8>>::empty()) == Seq::<Seq<char>>::empty());
    assert(frames(seq![bad]) =~= seq![line_text(bad)]);
}

/// Turns the chunks of a live response body into events, one line at a time.
pub struct EventDecoder {
    buffer: Vec<u8>,
}

impl EventDecoder {
    /// The received bytes that no newline has ended yet.
    pub closed spec fn pending(&self) -> Seq<u8> {
        self.buffer@
    }

    pub fn new() -> (r: EventDecoder)
        ensures
            r.pending() == Seq::<u8>::empty(),
    {
        EventDecoder { buffer: Vec::new() }
    }

    /// Takes in one chunk and gives back the items of the lines that it ends,
    /// in order; an unterminated line waits for the next chunk.
    pub fn push_chunk(&mut self, chunk: &[u8]) -> (items: Vec<Result<CloudEvent, Error>>)
        ensures
            final(self).pending() == split_lines(old(self).pending(), chunk@).1,
            items_agree(items@, frames(split_lines(old(self).pending(), chunk@).0)),
            has_no_newline(old(self).pending()) ==> has_no_newline(final(self).pending()),
    {
        let mut held: Vec<u8> = Vec::new();
        std::mem::swap(&mut held, &mut self.buffer);
        let (lines, rest) = scan_lines(held, chunk);
        self.buffer = rest;
        let ghost all = split_lines(old(self).pending(), chunk@).0;
        proof {
            if has_no_newline(old(self).pending()) {
                lemma_rest_has_no_newline(old(self).pending(), chunk@);
            }
        }
        let mut items: Vec<Result<CloudEvent, Error>> = Vec::new();
        let mut j: usize = 0;
        assert(all.take(0) =~= Seq::<Seq<u8>>::empty());
        while j < lines.len()
            invariant
                j <= lines@.len(),
                lines@.len() == all.len(),
                forall|k: int| 0 <= k < lines@.len() ==> #[trigger] lines@[k]@ == all[k],
                items_agree(items@, frames(all.take(j as int))),
            decreases lines@.len() - j,
        {
            assert(all.take(j as int + 1).drop_last() =~= all.take(j as int));
            assert(all.take(j as int + 1).last() == lines@[j as int]@);
            match decode_line(lines[j].as_slice()) {
                Some(x) => {
                    items.push(x);
                },
                None => {},
            }
            j = j + 1;
        }
        assert(all.take(j as int) =~= all);
        items
    }
}

/// A line of a whole body: one that a newline ends loses a carriage return
/// before it.
pub open spec fn strip_cr(l: Seq<u8>) -> Seq<u8> {
    if l.len() > 0 && l.last() == 13 {
        l.drop_last()
    } else {
        l
    }
}

/// The lines of a whole body; the last one needs no newline.
pub open spec fn body_lines(b: Seq<u8>) -> Seq<Seq<u8>> {
    let r = split_lines(seq![], b);
    let ls = r.0.map_values(|l: Seq<u8>| strip_cr(l));
    if r.1.len() > 0 {
        ls.push(r.1)
    } else {
        ls
    }
}

/// The texts of the lines of a whole body that are not blank.
pub open spec fn body_texts(lines: Seq<Seq<u8>>) -> Seq<Seq<char>>
    decreases lines.len(),
{
    if lines.len() == 0 {
        seq![]
    } else {
        let pre = body_texts(lines.drop_last());
        let t = lossy_of(lines.last());
        if trimmed_of(t).len() > 0 {
            pre.push(t)
        } else {
            pre
        }
    }
}

fn without_cr(l: &Vec<u8>) -> (r: Vec<u8>)
    ensures
        r@ == strip_cr(l@),
{
    let n = l.len();
    let end = if n > 0 && l[n - 1] == 13 {
        n - 1
    } else {
        n
    };
    let mut r: Vec<u8> = Vec::new();
    let mut i: usize = 0;
    while i < end
        invariant
            end <= l@.len(),
            i <= end,
            r@ == l@.take(i as int),
        decreases end - i,
    {
        r.push(l[i]);
        assert(l@.take(i as int + 1) =~= l@.take(i as int).push(l@[i as int]));
        i = i + 1;
    }
    assert(strip_cr(l@) =~= l@.take(end as int));
    r
}

/// The lines of a whole body.
fn split_body(body: &[u8]) -> (r: Vec<Vec<u8>>)
    ensures
        r@.len() == body_lines(body@).len(),
        forall|k: int| 0 <= k < r@.len() ==> #[trigger] r@[k]@ == body_lines(body@)[k],
{
    let start: Vec<u8> = Vec::new();
    assert(start@ =~= Seq::<u8>::empty());
    let (lines, rest) = scan_lines(start, body);
    let ghost sp = split_lines(seq![], body@);
    let ghost ls = sp.0.map_values(|l: Seq<u8>| strip_cr(l));
    assert(forall|k: int| 0 <= k < ls.len() ==> #[trigger] ls[k] == strip_cr(sp.0[k]));
    let mut out: Vec<Vec<u8>> = Vec::new();
    let mut j: usize = 0;
    while j < lines.len()
        invariant
            j <= lines@.len(),
            lines@.len() == sp.0.len(),
            ls.len() == sp.0.len(),
            forall|k: int| 0 <= k < ls.len() ==> #[trigger] ls[k] == strip_cr(sp.0[k]),
            forall|k: int| 0 <= k < lines@.len() ==> #[trigger] lines@[k]@ == sp.0[k],
            out@.len() == j,
            forall|k: int| 0 <= k < j ==> #[trigger] out@[k]@ == ls[k],
        decreases lines@.len() - j,
    {
        out.push(without_cr(&lines[j]));
        j = j + 1;
    }
    if rest.len() > 0 {
        out.push(rest);
    }
    out
}

/// The texts of the non-blank lines of a whole body, in order.
fn body_text_list(body: &[u8]) -> (r: Vec<String>)
    ensures
        r@.len() == body_texts(body_lines(body@)).len(),
        forall|k: int| 0 <= k < r@.len() ==> #[trigger] r@[k]@ == body_texts(body_lines(body@))[k],
{
    let lines = split_body(body);
    let ghost all = body_lines(body@);
    let mut texts: Vec<String> = Vec::new();
    let mut j: usize = 0;
    assert(all.take(0) =~= Seq::<Seq<u8>>::empty());
    while j < lines.len()
        invariant
            j <= lines@.len(),
            lines@.len() == all.len(),
            forall|k: int| 0 <= k < lines@.len() ==> #[trigger] lines@[k]@ == all[k],
            texts@.len() == body_texts(all.take(j as int)).len(),
            forall|k: int|
                0 <= k < texts@.len() ==> #[trigger] texts@[k]@ == body_texts(all.take(j as int))[k],
        decreases lines@.len() - j,
    {
        assert(all.take(j as int + 1).drop_last() =~= all.take(j as int));
        assert(all.take(j as int + 1).last() == lines@[j as int]@);
        let t = lossy_text(lines[j].as_slice());
        let blank = trim_text(t.as_str()).is_empty();
        if !blank {
            texts.push(t);
        }
        j = j + 1;
    }
    assert(all.take(j as int) =~= all);
    texts
}

/// Decodes every non-blank line of a whole body as an event; the first line
/// that describes none fails the whole body.
pub fn parse_event_lines(body: &[u8]) -> (r: Result<Vec<CloudEvent>, Error>)
    ensures
        ({
            let ts = body_texts(body_lines(body@));
            &&& r is Ok <==> forall|k: int| 0 <= k < ts.len() ==> (#[trigger] event_of(ts[k])) is Some
            &&& r matches Ok(v) ==> v@.len() == ts.len() && forall|k: int|
                0 <= k < v@.len() ==> event_of(ts[k]) == Some(#[trigger] v@[k].view())
            &&& r matches Err(e) ==> e is JsonError
        }),
        body@.len() == 0 ==> (r matches Ok(v) && v@.len() == 0),
{
    let texts = body_text_list(body);
    let ghost ts = body_texts(body_lines(body@));
    proof {
        if body@.len() == 0 {
            assert(body_lines(body@) =~= Seq::<Seq<u8>>::empty());
        }
    }
    let mut events: Vec<CloudEvent> = Vec::new();
    let mut j: usize = 0;
    while j < texts.len()
        invariant
            j <= texts@.len(),
            ts == body_texts(body_lines(body@)),
            texts@.len() == ts.len(),
            body@.len() == 0 ==> ts.len() == 0,
            forall|k: int| 0 <= k < texts@.len() ==> #[trigger] texts@[k]@ == ts[k],
            events@.len() == j,
            forall|k: int| 0 <= k < j ==> event_of(ts[k]) == Some(#[trigger] events@[k].view()),
        decreases texts@.len() - j,
    {
        match decode_event(texts[j].as_str()) {
            Ok(e) => events.push(e),
            Err(e) => {
                assert(!(event_of(ts[j as int]) is Some));
                return Err(e);
            },
        }
        j = j + 1;
    }
    assert forall|k: int| 0 <= k < ts.len() implies (#[trigger] event_of(ts[k])) is Some by {
        assert(event_of(ts[k]) == Some(events@[k].view()));
    }
    Ok(events)
}

/// Decodes every non-blank line of a whole body as a JSON value; the first
/// line that is not one fails the whole body.
pub fn parse_value_lines(body: &[u8]) -> (r: Result<Vec<serde_json::Value>, Error>)
    ensures
        r is Ok <==> forall|k: int|
            0 <= k < body_texts(body_lines(body@)).len() ==> #[trigger] is_json(
                body_texts(body_lines(body@))[k],
            ),
        r matches Ok(v) ==> v@.len() == body_texts(body_lines(body@)).len(),
        r matches Err(e) ==> e is JsonError,
        body@.len() == 0 ==> (r matches Ok(v) && v@.len() == 0),
{
    let texts = body_text_list(body);
    let ghost ts = body_texts(body_lines(body@));
    proof {
        if body@.len() == 0 {
            assert(body_lines(body@) =~= Seq::<Seq<u8>>::empty());
        }
    }
    let mut values: Vec<serde_json::Value> = Vec::new();
    let mut j: usize = 0;
    while j < texts.len()
        invariant
            j <= texts@.len(),
            ts == body_texts(body_lines(body@)),
            texts@.len() == ts.len(),
            body@.len() == 0 ==> ts.len() == 0,
            forall|k: int| 0 <= k < texts@.len() ==> #[trigger] texts@[k]@ == ts[k],
            values@.len() == j,
            forall|k: int| 0 <= k < j ==> #[trigger] is_json(ts[k]),
        decreases texts@.len() - j,
    {
        match parse_value(texts[j].as_str()) {
            Ok(v) => values.push(v),
            Err(e) => {
                assert(!is_json(ts[j as int]));
                return Err(Error::JsonError(e));
            },
        }
        j = j + 1;
    }
    Ok(values)
}

} // verus!
