//! Line framing for the serial link: received bytes are gathered until a newline,
//! and each complete line is handed out, decoded and trimmed.
use vstd::prelude::*;
use vstd::utf8::{decode_utf8, valid_utf8};
use crate::text::{trim, trimmed};

verus! {

/// The text that lossy UTF-8 decoding gives for `b`.
pub uninterp spec fn lossy_text(b: Seq<u8>) -> Seq<char>;

/// Relies on `String::from_utf8_lossy`: decodes `b`, replacing each invalid sequence
/// with U+FFFD; valid UTF-8 is decoded as it is.
#[verifier::external_body]
fn decode_lossy(b: &[u8]) -> (r: String)
    ensures
        r@ == lossy_text(b@),
        valid_utf8(b@) ==> r@ == decode_utf8(b@),
{
    String::from_utf8_lossy(b).into_owned()
}

/// The byte that ends a line.
pub const NEWLINE: u8 = 10;

/// The text of a line whose bytes (without the newline) are `b`.
pub open spec fn line_of(b: Seq<u8>) -> Seq<char> {
    trim(lossy_text(b))
}

/// Reading `s` after the partial line `cur`: the lines completed, and what is left
/// of the last, unfinished line.
pub open spec fn split_from(cur: Seq<u8>, s: Seq<u8>) -> (Seq<Seq<char>>, Seq<u8>)
    decreases s.len(),
{
    if s.len() == 0 {
        (Seq::empty(), cur)
    } else if s[0] == NEWLINE {
        let rest = split_from(Seq::empty(), s.drop_first());
        (seq![line_of(cur)] + rest.0, rest.1)
    } else {
        split_from(cur.push(s[0]), s.drop_first())
    }
}

/// The bytes (without the newline) of each line that reading `s` after the partial
/// line `cur` completes.
pub open spec fn raw_lines(cur: Seq<u8>, s: Seq<u8>) -> Seq<Seq<u8>>
    decreases s.len(),
{
    if s.len() == 0 {
        Seq::empty()
    } else if s[0] == NEWLINE {
        seq![cur] + raw_lines(Seq::empty(), s.drop_first())
    } else {
        raw_lines(cur.push(s[0]), s.drop_first())
    }
}

/// Each completed line whose bytes are valid UTF-8 is those bytes decoded and
/// trimmed.
pub open spec fn decodes_valid(lines: Seq<String>, raw: Seq<Seq<u8>>) -> bool {
    &&& lines.len() == raw.len()
    &&& forall|j: int|
        0 <= j < raw.len() && valid_utf8(#[trigger] raw[j]) ==> lines[j]@ == trim(
            decode_utf8(raw[j]),
        )
}

/// Reading the chunks one after the other, from the partial line `cur`.
pub open spec fn feed_all(cur: Seq<u8>, chunks: Seq<Seq<u8>>) -> (Seq<Seq<char>>, Seq<u8>)
    decreases chunks.len(),
{
    if chunks.len() == 0 {
        (Seq::empty(), cur)
    } else {
        let first = split_from(cur, chunks[0]);
        let rest = feed_all(first.1, chunks.drop_first());
        (first.0 + rest.0, rest.1)
    }
}

/// The texts of a sequence of strings.
pub open spec fn texts(v: Seq<String>) -> Seq<Seq<char>> {
    v.map_values(|s: String| s@)
}

/// Reading `s` and then `t` completes the same lines as reading `s + t`.
pub proof fn lemma_split_concat(cur: Seq<u8>, s: Seq<u8>, t: Seq<u8>)
    ensures
        split_from(cur, s + t) == (split_from(cur, s).0 + split_from(split_from(cur, s).1, t).0,
            split_from(split_from(cur, s).1, t).1),
    decreases s.len(),
{
    if s.len() == 0 {
        assert(s + t =~= t);
        assert(Seq::<Seq<char>>::empty() + split_from(cur, t).0 =~= split_from(cur, t).0);
    } else {
        assert((s + t).drop_first() =~= s.drop_first() + t);
        assert((s + t)[0] == s[0]);
        if s[0] == NEWLINE {
            lemma_split_concat(Seq::empty(), s.drop_first(), t);
            let a = split_from(Seq::<u8>::empty(), s.drop_first());
            let b = split_from(a.1, t);
            assert(seq![line_of(cur)] + (a.0 + b.0) =~= (seq![line_of(cur)] + a.0) + b.0);
        } else {
            lemma_split_concat(cur.push(s[0]), s.drop_first(), t);
        }
    }
}

/// Feeding chunks one by one completes the lines of their concatenation.
pub proof fn lemma_feed_all_flatten(cur: Seq<u8>, chunks: Seq<Seq<u8>>)
    ensures
        feed_all(cur, chunks) == split_from(cur, chunks.flatten()),
    decreases chunks.len(),
{
    if chunks.len() == 0 {
        assert(chunks.flatten() =~= Seq::<u8>::empty());
    } else {
        lemma_feed_all_flatten(split_from(cur, chunks[0]).1, chunks.drop_first());
        lemma_split_concat(cur, chunks[0], chunks.drop_first().flatten());
    }
}

/// Text without a newline completes no line and is kept.
pub proof fn lemma_split_no_newline(cur: Seq<u8>, s: Seq<u8>)
    requires
        forall|j: int| 0 <= j < s.len() ==> s[j] != NEWLINE,
    ensures
        split_from(cur, s) == (Seq::<Seq<char>>::empty(), cur + s),
    decreases s.len(),
{
    if s.len() == 0 {
        assert(cur + s =~= cur);
    } else {
        assert(s[0] != NEWLINE);
        lemma_split_no_newline(cur.push(s[0]), s.drop_first());
        assert(cur.push(s[0]) + s.drop_first() =~= cur + s);
    }
}

/// Whatever chunks the bytes arrive in, a stream that holds exactly one newline
/// gives exactly one line: the bytes before that newline, decoded and trimmed.
pub proof fn lemma_one_newline_one_line(chunks: Seq<Seq<u8>>, k: int)
    requires
        0 <= k < chunks.flatten().len(),
        chunks.flatten()[k] == NEWLINE,
        forall|j: int| 0 <= j < chunks.flatten().len() && j != k ==> chunks.flatten()[j] != NEWLINE,
    ensures
        feed_all(Seq::empty(), chunks).0 == seq![line_of(chunks.flatten().take(k))],
{
    let s = chunks.flatten();
    lemma_feed_all_flatten(Seq::empty(), chunks);
    let before = s.take(k);
    let after = s.skip(k);
    assert(s =~= before + after);
    lemma_split_concat(Seq::empty(), before, after);
    lemma_split_no_newline(Seq::empty(), before);
    assert(Seq::<u8>::empty() + before =~= before);
    assert(after.drop_first() =~= s.skip(k + 1));
    lemma_split_no_newline(Seq::empty(), s.skip(k + 1));
    let rest = split_from(Seq::<u8>::empty(), after.drop_first());
    assert(seq![line_of(before)] + rest.0 =~= seq![line_of(before)]);
    assert(Seq::<Seq<char>>::empty() + seq![line_of(before)] =~= seq![line_of(before)]);
}

/// Accumulates the bytes of the line being received.
pub struct LineReader {
    buffered: Vec<u8>,
}

/// What the serial read loop observed on one attempt.
pub enum ReadEvent {
    /// Bytes were read (possibly none).
    Data(Vec<u8>),
    /// The read timed out; this is expected and not an error.
    TimedOut,
    /// The read failed.
    Failed,
    /// The loop was asked to stop.
    Cancelled,
}

/// What the read loop is to do next.
pub enum ReadAction {
    /// Publish these lines, in order, and read again.
    Continue(Vec<String>),
    /// Leave the loop for good.
    Stop,
}

impl LineReader {
    /// The bytes of the unfinished line.
    pub closed spec fn buffered_bytes(&self) -> Seq<u8> {
        self.buffered@
    }

    /// A reader with nothing buffered.
    pub fn new() -> (r: LineReader)
        ensures
            r.buffered_bytes() == Seq::<u8>::empty(),
    {
        LineReader { buffered: Vec::new() }
    }

    /// The bytes of the unfinished line, as a vector.
    pub fn pending(&self) -> (r: Vec<u8>)
        ensures
            r@ == self.buffered_bytes(),
    {
        self.buffered.clone()
    }

    /// Appends received bytes and returns every line that they complete, in order;
    /// the bytes after the last newline stay buffered. A line whose bytes are
    /// valid UTF-8 is exactly those characters, trimmed.
    pub fn push_bytes(&mut self, chunk: &[u8]) -> (lines: Vec<String>)
        ensures
            (texts(lines@), final(self).buffered_bytes()) == split_from(
                old(self).buffered_bytes(),
                chunk@,
            ),
            decodes_valid(lines@, raw_lines(old(self).buffered_bytes(), chunk@)),
    {
        let ghost start = self.buffered@;
        let ghost mut raw: Seq<Seq<u8>> = Seq::empty();
        let mut lines: Vec<String> = Vec::new();
        let mut i: usize = 0;
        assert(chunk@.skip(0) =~= chunk@);
        assert(texts(lines@) =~= Seq::<Seq<char>>::empty());
        assert(raw_lines(start, chunk@) =~= raw + raw_lines(start, chunk@));
        while i < chunk.len()
            invariant
                i <= chunk@.len(),
                split_from(start, chunk@) == (texts(lines@) + split_from(
                    self.buffered@,
                    chunk@.skip(i as int),
                ).0, split_from(self.buffered@, chunk@.skip(i as int)).1),
                raw_lines(start, chunk@) == raw + raw_lines(self.buffered@, chunk@.skip(i as int)),
                decodes_valid(lines@, raw),
            decreases chunk.len() - i,
        {
            let b = chunk[i];
            let ghost s = chunk@.skip(i as int);
            assert(s.drop_first() =~= chunk@.skip(i + 1));
            assert(s[0] == b);
            if b == NEWLINE {
                let text = decode_lossy(self.buffered.as_slice());
                let line = trimmed(text.as_str());
                let ghost before = lines@;
                let ghost raw_before = raw;
                lines.push(line);
                proof {
                    raw = raw.push(self.buffered@);
                    let rest_raw = raw_lines(Seq::<u8>::empty(), chunk@.skip(i + 1));
                    assert(raw_before + (seq![self.buffered@] + rest_raw) =~= raw + rest_raw);
                    assert forall|j: int|
                        0 <= j < raw.len() && valid_utf8(#[trigger] raw[j]) implies lines@[j]@
                        == trim(decode_utf8(raw[j])) by {
                        if j < raw_before.len() {
                            assert(raw[j] == raw_before[j]);
                            assert(lines@[j] == before[j]);
                        }
                    }
                }
                let ghost rest = split_from(Seq::<u8>::empty(), chunk@.skip(i + 1));
                assert(texts(lines@) =~= texts(before) + seq![line@]);
                assert(texts(before) + (seq![line@] + rest.0) =~= texts(lines@) + rest.0);
                self.buffered = Vec::new();
            } else {
                self.buffered.push(b);
            }
            i = i + 1;
        }
        assert(chunk@.skip(i as int) =~= Seq::<u8>::empty());
        assert(texts(lines@) + Seq::<Seq<char>>::empty() =~= texts(lines@));
        assert(raw + Seq::<Seq<u8>>::empty() =~= raw);
        lines
    }

    /// Decides what the read loop does after one read attempt: received bytes are
    /// framed into lines and the loop goes on; a timeout changes nothing and the loop
    /// goes on; a failed read or a request to stop ends the loop.
    pub fn on_read(&mut self, event: ReadEvent) -> (r: ReadAction)
        ensures
            event matches ReadEvent::Data(b) ==> (r matches ReadAction::Continue(lines) && (texts(
                lines@,
            ), final(self).buffered_bytes()) == split_from(old(self).buffered_bytes(), b@)
                && decodes_valid(lines@, raw_lines(old(self).buffered_bytes(), b@))),
            event is TimedOut ==> (r matches ReadAction::Continue(lines) && lines@.len() == 0
                && final(self).buffered_bytes() == old(self).buffered_bytes()),
            (event is Failed || event is Cancelled) ==> (r is Stop && final(self).buffered_bytes()
                == old(self).buffered_bytes()),
    {
        match event {
            ReadEvent::Data(b) => ReadAction::Continue(self.push_bytes(b.as_slice())),
            ReadEvent::TimedOut => ReadAction::Continue(Vec::new()),
            _ => ReadAction::Stop,
        }
    }
}

} // verus!
