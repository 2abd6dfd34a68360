//! The console protocol's decisions: cutting the serial byte stream into lines, keeping
//! those between a command's start and stop markers, and recognizing the console.

use vstd::prelude::*;
use crate::text::{ascii_lower, chars_of, contains, contains_chars, contains_str, lower_chars};

verus! {

/// The text that `String::from_utf8_lossy` makes of some bytes (invalid sequences become
/// U+FFFD).
pub uninterp spec fn utf8_lossy(bytes: Seq<u8>) -> Seq<char>;

/// Decodes a line's bytes with `String::from_utf8_lossy`; the contract names the result.
#[verifier::external_body]
fn decode_lossy(bytes: &Vec<u8>) -> (s: String)
    ensures
        s@ == utf8_lossy(bytes@),
{
    String::from_utf8_lossy(bytes.as_slice()).into_owned()
}

/// The mathematical content of a [`LineCollector`].
pub struct CollectorView {
    /// Bytes of the line not yet ended by `\n`.
    pub pending: Seq<u8>,
    /// The start marker has been seen (or there is none).
    pub started: bool,
    /// The lines kept so far.
    pub lines: Seq<Seq<char>>,
    /// The stop marker has been seen.
    pub done: bool,
    pub start: Option<Seq<char>>,
    pub stop: Option<Seq<char>>,
}

/// `bytes` without one trailing carriage return.
pub open spec fn strip_cr(bytes: Seq<u8>) -> Seq<u8> {
    if bytes.len() > 0 && bytes.last() == 13 {
        bytes.drop_last()
    } else {
        bytes
    }
}

/// What a complete line of text does: it may start the capture; once started, it is kept,
/// and a line holding the stop marker ends the capture. Once the capture has ended, lines
/// change nothing.
pub open spec fn text_step(st: CollectorView, s: Seq<char>) -> CollectorView {
    if st.done {
        st
    } else {
        let started = st.started || (st.start matches Some(m) && contains(s, m));
        if started {
            CollectorView {
                started,
                lines: st.lines.push(s),
                done: st.stop matches Some(m) && contains(s, m),
                ..st
            }
        } else {
            CollectorView { started, ..st }
        }
    }
}

/// What the bytes of a complete line do: they leave the pending buffer and are decoded.
pub open spec fn line_step(st: CollectorView, bytes: Seq<u8>) -> CollectorView {
    text_step(CollectorView { pending: seq![], ..st }, utf8_lossy(bytes))
}

/// What one received byte does.
pub open spec fn byte_step(st: CollectorView, b: u8) -> CollectorView {
    if st.done {
        st
    } else if b == 10 {
        line_step(st, strip_cr(st.pending))
    } else {
        CollectorView { pending: st.pending.push(b), ..st }
    }
}

/// The state after the first `n` bytes of `chunk`.
pub open spec fn feed_fold(st: CollectorView, chunk: Seq<u8>, n: int) -> CollectorView
    decreases n,
{
    if n <= 0 {
        st
    } else {
        byte_step(feed_fold(st, chunk, n - 1), chunk[n - 1])
    }
}

/// Collects the lines of a command's response as its bytes arrive.
pub struct LineCollector {
    pending: Vec<u8>,
    started: bool,
    lines: Vec<String>,
    done: bool,
    start: Option<Vec<char>>,
    stop: Option<Vec<char>>,
}

pub open spec fn opt_chars(o: Option<Vec<char>>) -> Option<Seq<char>> {
    match o {
        Some(v) => Some(v@),
        None => None,
    }
}

pub open spec fn str_opt(o: Option<&str>) -> Option<Seq<char>> {
    match o {
        Some(v) => Some(v@),
        None => None,
    }
}

pub open spec fn string_views(v: Seq<String>) -> Seq<Seq<char>> {
    v.map_values(|s: String| s@)
}

impl View for LineCollector {
    type V = CollectorView;

    closed spec fn view(&self) -> CollectorView {
        CollectorView {
            pending: self.pending@,
            started: self.started,
            lines: string_views(self.lines@),
            done: self.done,
            start: opt_chars(self.start),
            stop: opt_chars(self.stop),
        }
    }
}

fn opt_chars_of(o: Option<&str>) -> (r: Option<Vec<char>>)
    ensures
        opt_chars(r) == str_opt(o),
{
    match o {
        Some(s) => Some(chars_of(s)),
        None => None,
    }
}

impl LineCollector {
    /// A collector for a response that starts at a line holding `start` (at once when there
    /// is none) and ends at a line holding `stop` (never when there is none).
    pub fn new(start: Option<&str>, stop: Option<&str>) -> (c: LineCollector)
        ensures
            c@ == (CollectorView {
                pending: seq![],
                started: start is None,
                lines: seq![],
                done: false,
                start: str_opt(start),
                stop: str_opt(stop),
            }),
    {
        let c = LineCollector {
            pending: Vec::new(),
            started: start.is_none(),
            lines: Vec::new(),
            done: false,
            start: opt_chars_of(start),
            stop: opt_chars_of(stop),
        };
        assert(string_views(c.lines@) =~= Seq::<Seq<char>>::empty());
        c
    }

    /// The stop marker has been seen.
    pub fn is_done(&self) -> (b: bool)
        ensures
            b == self@.done,
    {
        self.done
    }

    /// Takes in one complete line of text (without its line end).
    pub fn push_line(&mut self, line: String)
        ensures
            final(self)@ == text_step(old(self)@, line@),
    {
        if self.done {
            return;
        }
        let sc = chars_of(line.as_str());
        let hit_start = match &self.start {
            Some(m) => contains_chars(&sc, m),
            None => false,
        };
        let started = self.started || hit_start;
        self.started = started;
        if started {
            let hit_stop = match &self.stop {
                Some(m) => contains_chars(&sc, m),
                None => false,
            };
            let ghost before = string_views(self.lines@);
            self.lines.push(line);
            assert(string_views(self.lines@) =~= before.push(sc@));
            self.done = hit_stop;
        }
    }

    fn end_line(&mut self)
        requires
            !old(self)@.done,
        ensures
            final(self)@ == line_step(old(self)@, strip_cr(old(self)@.pending)),
    {
        let n = self.pending.len();
        if n > 0 && self.pending[n - 1] == 13 {
            self.pending.pop();
        }
        let s = decode_lossy(&self.pending);
        self.pending = Vec::new();
        self.push_line(s);
    }

    /// Takes in received bytes; says whether the stop marker has been seen. Bytes after the
    /// stop line are dropped.
    pub fn feed(&mut self, chunk: &[u8]) -> (done: bool)
        ensures
            final(self)@ == feed_fold(old(self)@, chunk@, chunk@.len() as int),
            done == final(self)@.done,
    {
        let mut i: usize = 0;
        while i < chunk.len()
            invariant
                i <= chunk.len(),
                self@ == feed_fold(old(self)@, chunk@, i as int),
            decreases chunk.len() - i,
        {
            let b = chunk[i];
            if self.done {
            } else if b == 10 {
                self.end_line();
            } else {
                self.pending.push(b);
            }
            i = i + 1;
        }
        self.done
    }

    /// The kept lines, or nothing when no line was kept.
    pub fn finish(self) -> (r: Option<Vec<String>>)
        ensures
            match r {
                Some(v) => self@.lines.len() > 0 && string_views(v@) == self@.lines,
                None => self@.lines.len() == 0,
            },
    {
        if self.lines.len() == 0 {
            None
        } else {
            Some(self.lines)
        }
    }
}

/// Some line, in lower case, mentions `pylon`: the console answered.
pub open spec fn mentions_pylon(lines: Seq<Seq<char>>) -> bool {
    exists|i: int| 0 <= i < lines.len() && contains(ascii_lower(#[trigger] lines[i]), "pylon"@)
}

/// Feeding bytes in two chunks leaves the collector as feeding them at once would: how
/// the serial reads split the stream does not matter.
pub proof fn law_feed_chunking(st: CollectorView, a: Seq<u8>, b: Seq<u8>)
    ensures
        feed_fold(feed_fold(st, a, a.len() as int), b, b.len() as int) == feed_fold(
            st,
            a + b,
            (a + b).len() as int,
        ),
{
    lemma_feed_split(st, a, b, b.len() as int);
}

proof fn lemma_feed_prefix(st: CollectorView, s: Seq<u8>, t: Seq<u8>, n: int)
    requires
        0 <= n <= s.len(),
        n <= t.len(),
        s.take(n) == t.take(n),
    ensures
        feed_fold(st, s, n) == feed_fold(st, t, n),
    decreases n,
{
    if n > 0 {
        assert(s.take(n - 1) =~= s.take(n).take(n - 1));
        assert(t.take(n - 1) =~= t.take(n).take(n - 1));
        lemma_feed_prefix(st, s, t, n - 1);
        assert(s[n - 1] == s.take(n)[n - 1]);
        assert(t[n - 1] == t.take(n)[n - 1]);
    }
}

proof fn lemma_feed_split(st: CollectorView, a: Seq<u8>, b: Seq<u8>, m: int)
    requires
        0 <= m <= b.len(),
    ensures
        feed_fold(feed_fold(st, a, a.len() as int), b, m) == feed_fold(st, a + b, a.len() + m),
    decreases m,
{
    if m == 0 {
        assert((a + b).take(a.len() as int) =~= a.take(a.len() as int));
        lemma_feed_prefix(st, a, a + b, a.len() as int);
    } else {
        lemma_feed_split(st, a, b, m - 1);
        assert((a + b)[a.len() + m - 1] == b[m - 1]);
    }
}

/// Once the stop line has been seen, further bytes change nothing.
pub proof fn law_done_is_final(st: CollectorView, chunk: Seq<u8>, n: int)
    requires
        st.done,
    ensures
        feed_fold(st, chunk, n) == st,
    decreases n,
{
    if n > 0 {
        law_done_is_final(st, chunk, n - 1);
    }
}

/// Without a start marker, every complete line is kept until the stop line.
pub proof fn law_no_start_marker_keeps_lines(st: CollectorView, bytes: Seq<u8>)
    requires
        st.start is None,
        st.started,
        !st.done,
    ensures
        line_step(st, bytes).lines == st.lines.push(utf8_lossy(bytes)),
        line_step(st, bytes).started,
{
}

/// Some line, in lower case, mentions `pylon`.
pub fn any_line_mentions_pylon(lines: &Vec<String>) -> (b: bool)
    ensures
        b == mentions_pylon(string_views(lines@)),
{
    let ghost lv = string_views(lines@);
    let mut i: usize = 0;
    while i < lines.len()
        invariant
            i <= lines.len(),
            lv == string_views(lines@),
            forall|j: int| 0 <= j < i ==> !contains(ascii_lower(#[trigger] lv[j]), "pylon"@),
        decreases lines.len() - i,
    {
        let l = lower_chars(&chars_of(lines[i].as_str()));
        assert(lv[i as int] == lines@[i as int]@);
        if contains_str(&l, "pylon") {
            assert(contains(ascii_lower(lv[i as int]), "pylon"@));
            return true;
        }
        i = i + 1;
    }
    false
}

/// Whether the response to `help` shows the console: some line mentions `pylon`.
pub fn console_answers(resp: &Option<Vec<String>>) -> (b: bool)
    ensures
        b == match *resp {
            Some(v) => mentions_pylon(string_views(v@)),
            None => false,
        },
{
    match resp {
        Some(lines) => any_line_mentions_pylon(lines),
        None => false,
    }
}


/// One carriage return before the line end is dropped, and nothing else.
pub proof fn law_strip_cr(bytes: Seq<u8>)
    ensures
        strip_cr(bytes.push(13u8)) == bytes,
        bytes.len() == 0 || bytes.last() != 13 ==> strip_cr(bytes) == bytes,
{
    assert(bytes.push(13u8).drop_last() =~= bytes);
}

/// Bytes without a line end only accumulate while the response is open: the kept lines,
/// the markers and the flags stay as they were.
pub proof fn law_partial_line_accumulates(st: CollectorView, chunk: Seq<u8>, n: int)
    requires
        !st.done,
        0 <= n <= chunk.len(),
        forall|i: int| 0 <= i < chunk.len() ==> #[trigger] chunk[i] != 10,
    ensures
        feed_fold(st, chunk, n) == (CollectorView { pending: st.pending + chunk.take(n), ..st }),
    decreases n,
{
    if n > 0 {
        law_partial_line_accumulates(st, chunk, n - 1);
        assert(st.pending + chunk.take(n - 1) + seq![chunk[n - 1]] =~= st.pending + chunk.take(n));
        assert((st.pending + chunk.take(n - 1)).push(chunk[n - 1]) =~= st.pending + chunk.take(n));
    } else {
        assert(st.pending + chunk.take(0) =~= st.pending);
    }
}

/// A line end closes the pending line: its text (without a final carriage return)
/// starts the capture when it holds the start marker, is kept once the capture has
/// started, and ends the capture when it holds the stop marker.
pub proof fn law_line_end(st: CollectorView)
    requires
        !st.done,
    ensures
        byte_step(st, 10u8).pending.len() == 0,
        byte_step(st, 10u8).started == (st.started || (st.start matches Some(m) && contains(
            utf8_lossy(strip_cr(st.pending)),
            m,
        ))),
        byte_step(st, 10u8).started ==> byte_step(st, 10u8).lines == st.lines.push(
            utf8_lossy(strip_cr(st.pending)),
        ),
        !byte_step(st, 10u8).started ==> byte_step(st, 10u8).lines == st.lines,
        byte_step(st, 10u8).done == (byte_step(st, 10u8).started && (st.stop matches Some(m) && contains(
            utf8_lossy(strip_cr(st.pending)),
            m,
        ))),
{
}
} // verus!
