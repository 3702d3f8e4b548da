//! Wire framing. TCP carries concatenated JSON objects with no delimiter:
//! the reader keeps an accumulator and cuts it at the balanced closing brace,
//! honouring string literals and backslash escapes. Serial frames are
//! bracketed by STX (0x02) and ETX (0x03); bytes outside any pair are noise.

use vstd::prelude::*;

verus! {

/// ASCII whitespace, as trimmed from the front of the TCP accumulator.
pub open spec fn is_ws(b: u8) -> bool {
    b == 32 || b == 9 || b == 10 || b == 13
}

/// How many leading whitespace bytes the accumulator holds.
pub open spec fn ws_prefix_len(s: Seq<u8>) -> int
    decreases s.len(),
{
    if s.len() == 0 {
        0
    } else if is_ws(s[0]) {
        1 + ws_prefix_len(s.drop_first())
    } else {
        0
    }
}

pub proof fn lemma_ws_prefix_bounds(s: Seq<u8>)
    ensures
        0 <= ws_prefix_len(s) <= s.len(),
        forall|j: int| 0 <= j < ws_prefix_len(s) ==> is_ws(s[j]),
        ws_prefix_len(s) < s.len() ==> !is_ws(s[ws_prefix_len(s)]),
    decreases s.len(),
{
    if s.len() > 0 && is_ws(s[0]) {
        lemma_ws_prefix_bounds(s.drop_first());
        assert(forall|j: int| 1 <= j < ws_prefix_len(s) ==> s[j] == s.drop_first()[j - 1]);
        if ws_prefix_len(s) < s.len() {
            assert(s[ws_prefix_len(s)] == s.drop_first()[ws_prefix_len(s.drop_first())]);
        }
    }
}

/// The index of the balanced closing brace, scanning from `i` with the given
/// depth, string and escape state; `None` where the buffer closes no object.
pub open spec fn frame_end(s: Seq<u8>, i: int, depth: int, in_str: bool, esc: bool) -> Option<int>
    decreases s.len() - i when 0 <= i <= s.len()
{
    if i >= s.len() {
        None
    } else {
        let b = s[i];
        if esc {
            frame_end(s, i + 1, depth, in_str, false)
        } else if in_str && b == 92 {
            frame_end(s, i + 1, depth, true, true)
        } else if b == 34 {
            frame_end(s, i + 1, depth, !in_str, false)
        } else if !in_str && b == 123 {
            frame_end(s, i + 1, depth + 1, false, false)
        } else if !in_str && b == 125 {
            if depth == 1 {
                Some(i)
            } else {
                frame_end(s, i + 1, depth - 1, false, false)
            }
        } else {
            frame_end(s, i + 1, depth, in_str, false)
        }
    }
}

/// What one extraction step does to the accumulator: the first complete
/// frame after the whitespace trim, and what stays behind it.
pub open spec fn tcp_extract(s: Seq<u8>) -> Option<(Seq<u8>, Seq<u8>)> {
    let t = s.skip(ws_prefix_len(s));
    match frame_end(t, 0, 0, false, false) {
        Some(e) => Some((t.take(e + 1), t.skip(e + 1))),
        None => None,
    }
}

/// Copy `v[a..b]` out.
pub fn vec_subrange(v: &Vec<u8>, a: usize, b: usize) -> (r: Vec<u8>)
    requires
        a <= b <= v@.len(),
    ensures
        r@ == v@.subrange(a as int, b as int),
{
    let mut r: Vec<u8> = Vec::new();
    let mut i: usize = a;
    while i < b
        invariant
            a <= i <= b <= v@.len(),
            r@ =~= v@.subrange(a as int, i as int),
        decreases b - i,
    {
        r.push(v[i]);
        assert(r@ =~= v@.subrange(a as int, i + 1));
        i += 1;
    }
    r
}

/// Cut the first complete JSON object off the front of the TCP accumulator,
/// per `tcp_extract`; the accumulator is untouched when no object closes yet.
pub fn extract_complete_json(buffer: &mut Vec<u8>) -> (r: Option<Vec<u8>>)
    ensures
        match r {
            Some(frame) => tcp_extract(old(buffer)@)
                == Some((frame@, final(buffer)@)),
            None => final(buffer)@ == old(buffer)@
                && tcp_extract(old(buffer)@) is None,
        },
{
    let ghost s = buffer@;
    proof {
        lemma_ws_prefix_bounds(s);
    }
    // Skip the leading whitespace.
    let mut w: usize = 0;
    while w < buffer.len() && is_ws_byte(buffer[w])
        invariant
            0 <= w <= s.len(),
            s == old(buffer)@,
            buffer@ == s,
            forall|j: int| 0 <= j < w ==> is_ws(s[j]),
            w <= ws_prefix_len(s),
        decreases s.len() - w,
    {
        proof {
            lemma_ws_prefix_step(s, w as int);
        }
        w += 1;
    }
    proof {
        if w < s.len() {
            assert(!is_ws(s[w as int]));
        }
        lemma_ws_prefix_exact(s, w as int);
    }
    let ghost t = s.skip(w as int);

    // Scan for the balanced closing brace.
    let mut i: usize = w;
    let mut depth: i128 = 0;
    let mut in_str: bool = false;
    let mut esc: bool = false;
    while i < buffer.len()
        invariant
            w <= i <= s.len(),
            s == old(buffer)@,
            buffer@ == s,
            t == s.skip(w as int),
            ws_prefix_len(s) == w,
            -(i as int) <= depth <= i as int,
            frame_end(t, 0, 0, false, false)
                == frame_end(t, i - w, depth as int, in_str, esc),
        decreases s.len() - i,
    {
        let b = buffer[i];
        proof {
            assert(t[i - w] == s[i as int]);
        }
        if esc {
            esc = false;
        } else if in_str && b == 92 {
            esc = true;
        } else if b == 34 {
            in_str = !in_str;
        } else if !in_str && b == 123 {
            depth = depth + 1;
        } else if !in_str && b == 125 {
            if depth == 1 {
                // The object closes here: cut it off and keep the tail.
                let frame = vec_subrange(buffer, w, i + 1);
                let rest = vec_subrange(buffer, i + 1, buffer.len());
                proof {
                    assert(frame@ =~= t.take(i + 1 - w));
                    assert(rest@ =~= t.skip(i + 1 - w));
                    assert(t[i - w] == s[i as int]);
                    assert(frame_end(t, i - w, depth as int, in_str, esc)
                        == Some(i - w));
                    assert(frame_end(t, 0, 0, false, false) == Some(i - w));
                    assert(tcp_extract(s)
                        == Some((t.take(i - w + 1), t.skip(i - w + 1))));
                }
                *buffer = rest;
                return Some(frame);
            }
            depth = depth - 1;
        }
        i += 1;
    }
    None
}

/// One whitespace byte extends the whitespace prefix by one.
pub proof fn lemma_ws_prefix_step(s: Seq<u8>, w: int)
    requires
        0 <= w < s.len(),
        forall|j: int| 0 <= j < w ==> is_ws(s[j]),
        is_ws(s[w]),
        w <= ws_prefix_len(s),
    ensures
        w + 1 <= ws_prefix_len(s),
    decreases s.len(),
{
    lemma_ws_prefix_bounds(s);
    if ws_prefix_len(s) < s.len() {
        if w + 1 > ws_prefix_len(s) {
            assert(is_ws(s[ws_prefix_len(s)]));
        }
    }
}

/// A whitespace run that ends at a non-whitespace byte or at the buffer's
/// end is the whole whitespace prefix.
pub proof fn lemma_ws_prefix_exact(s: Seq<u8>, w: int)
    requires
        0 <= w <= s.len(),
        forall|j: int| 0 <= j < w ==> is_ws(s[j]),
        w < s.len() ==> !is_ws(s[w]),
        w <= ws_prefix_len(s),
    ensures
        ws_prefix_len(s) == w,
{
    lemma_ws_prefix_bounds(s);
    if ws_prefix_len(s) > w {
        assert(is_ws(s[w]));
    }
}

/// ASCII whitespace test on a byte.
pub fn is_ws_byte(b: u8) -> (r: bool)
    ensures
        r == is_ws(b),
{
    b == 32 || b == 9 || b == 10 || b == 13
}

/// Start-of-text, the serial frame opener.
pub const STX: u8 = 2;

/// End-of-text, the serial frame closer.
pub const ETX: u8 = 3;

/// The accumulator is flushed once it grows past this many bytes while
/// holding no frame opener.
pub const SERIAL_FLUSH_LIMIT: usize = 2048;

/// The first position of `b` at or after `from`.
pub open spec fn find_byte(s: Seq<u8>, b: u8, from: int) -> Option<int>
    decreases s.len() - from when 0 <= from <= s.len()
{
    if from >= s.len() {
        None
    } else if s[from] == b {
        Some(from)
    } else {
        find_byte(s, b, from + 1)
    }
}

pub proof fn lemma_find_byte(s: Seq<u8>, b: u8, from: int)
    requires
        0 <= from <= s.len(),
    ensures
        match find_byte(s, b, from) {
            Some(i) => from <= i < s.len() && s[i] == b
                && forall|j: int| from <= j < i ==> s[j] != b,
            None => forall|j: int| from <= j < s.len() ==> s[j] != b,
        },
    decreases s.len() - from,
{
    if from < s.len() && s[from] != b {
        lemma_find_byte(s, b, from + 1);
    }
}

/// Finding a byte is invariant under dropping a prefix.
pub proof fn lemma_find_byte_skip(s: Seq<u8>, b: u8, k: int, from: int)
    requires
        0 <= k <= from <= s.len(),
    ensures
        find_byte(s, b, from) == (match find_byte(s.skip(k), b, from - k) {
            Some(i) => Some(i + k),
            None => None::<int>,
        }),
    decreases s.len() - from,
{
    assert(s.skip(k).len() == s.len() - k);
    if from < s.len() {
        assert(s.skip(k)[from - k] == s[from]);
        if s[from] != b {
            lemma_find_byte_skip(s, b, k, from + 1);
        }
    }
}

/// What the serial discipline makes of a byte run: the frames between each
/// STX and the nearest following ETX, in order, and the bytes that stay in
/// the accumulator. Noise before an STX awaiting its ETX is dropped; a run
/// without any STX is kept whole, subject to the flush rule.
pub open spec fn serial_split(s: Seq<u8>) -> (Seq<Seq<u8>>, Seq<u8>)
    decreases s.len(),
    via serial_split_decreases
{
    match find_byte(s, STX, 0) {
        None => (Seq::empty(), s),
        Some(st) => match find_byte(s, ETX, st + 1) {
            None => (Seq::empty(), s.skip(st)),
            Some(et) => {
                let rec = serial_split(s.skip(et + 1));
                (seq![s.subrange(st + 1, et)] + rec.0, rec.1)
            }
        },
    }
}

#[via_fn]
proof fn serial_split_decreases(s: Seq<u8>) {
    lemma_find_byte(s, STX, 0);
    match find_byte(s, STX, 0) {
        Some(st) => {
            lemma_find_byte(s, ETX, st + 1);
        }
        None => {}
    }
}

/// The flush rule: an over-long accumulator without a frame opener is
/// emptied.
pub open spec fn spec_flush(rest: Seq<u8>) -> Seq<u8> {
    if rest.len() > SERIAL_FLUSH_LIMIT && find_byte(rest, STX, 0) is None {
        Seq::empty()
    } else {
        rest
    }
}

/// The first position of `b` at or after `from`, executably.
pub fn find_byte_vec(v: &Vec<u8>, b: u8, from: usize) -> (r: Option<usize>)
    requires
        from <= v@.len(),
    ensures
        match r {
            Some(i) => find_byte(v@, b, from as int) == Some(i as int) && i < v@.len(),
            None => find_byte(v@, b, from as int) is None,
        },
{
    let mut i: usize = from;
    while i < v.len()
        invariant
            from <= i <= v@.len(),
            find_byte(v@, b, from as int) == find_byte(v@, b, i as int),
        decreases v@.len() - i,
    {
        if v[i] == b {
            return Some(i);
        }
        i += 1;
    }
    None
}

/// The byte accumulator of one serial line.
pub struct SerialAccumulator {
    pub buf: Vec<u8>,
}

impl SerialAccumulator {
    /// The bytes waiting for a frame boundary.
    pub open spec fn view(&self) -> Seq<u8> {
        self.buf@
    }

    pub fn new() -> (r: Self)
        ensures
            r@ =~= Seq::<u8>::empty(),
    {
        SerialAccumulator { buf: Vec::new() }
    }

    /// Feed one read's bytes; the complete frames come back oldest first,
    /// and the accumulator keeps what `serial_split` leaves, flushed when
    /// over-long without an STX.
    pub fn push_bytes(&mut self, data: &[u8]) -> (frames: Vec<Vec<u8>>)
        ensures
            frames@.map_values(|f: Vec<u8>| f@) == serial_split(old(self)@ + data@).0,
            final(self)@ == spec_flush(serial_split(old(self)@ + data@).1),
    {
        self.buf.extend_from_slice(data);
        let ghost total = self.buf@;
        assert(total =~= old(self)@ + data@);
        let mut frames: Vec<Vec<u8>> = Vec::new();
        loop
            invariant
                total == old(self)@ + data@,
                serial_split(total).0 =~= frames@.map_values(|f: Vec<u8>| f@)
                    + serial_split(self.buf@).0,
                serial_split(total).1 == serial_split(self.buf@).1,
            ensures
                total == old(self)@ + data@,
                serial_split(total).0 =~= frames@.map_values(|f: Vec<u8>| f@),
                serial_split(total).1 == self.buf@,
            decreases self.buf@.len(),
        {
            let ghost cur = self.buf@;
            let blen = self.buf.len();
            let st_opt = find_byte_vec(&self.buf, STX, 0);
            match st_opt {
                None => {
                    proof {
                        assert(serial_split(cur).0 =~= Seq::<Seq<u8>>::empty());
                        assert(serial_split(cur).1 == cur);
                    }
                    break;
                }
                Some(st) => {
                    proof {
                        lemma_find_byte(cur, STX, 0);
                    }
                    match find_byte_vec(&self.buf, ETX, st + 1) {
                        None => {
                            // No closer yet: drop the noise before the STX
                            // and wait for more bytes.
                            proof {
                                lemma_split_stuck(cur, st as int);
                            }
                            if st > 0 {
                                let tail = vec_subrange(&self.buf, st, blen);
                                proof {
                                    assert(tail@ =~= cur.skip(st as int));
                                }
                                self.buf = tail;
                            } else {
                                proof {
                                    assert(cur.skip(0) =~= cur);
                                }
                            }
                            break;
                        }
                        Some(et) => {
                            proof {
                                lemma_find_byte(cur, ETX, st + 1);
                            }
                            let frame = vec_subrange(&self.buf, st + 1, et);
                            let rest = vec_subrange(&self.buf, et + 1, blen);
                            proof {
                                assert(rest@ =~= cur.skip(et + 1));
                                assert(serial_split(cur).0
                                    =~= seq![cur.subrange(st + 1, et as int)]
                                        + serial_split(cur.skip(et + 1)).0);
                                lemma_map_values_push(frames@, frame);
                                assert((frames@.push(frame)).map_values(|f: Vec<u8>| f@)
                                    + serial_split(cur.skip(et + 1)).0
                                    =~= frames@.map_values(|f: Vec<u8>| f@)
                                        + serial_split(cur).0);
                            }
                            frames.push(frame);
                            self.buf = rest;
                        }
                    }
                }
            }
        }
        if self.buf.len() > SERIAL_FLUSH_LIMIT {
            if find_byte_vec(&self.buf, STX, 0).is_none() {
                self.buf = Vec::new();
            }
        }
        frames
    }
}

/// A buffer whose first STX has no following ETX keeps exactly its bytes
/// from that STX on, and yields no frame.
proof fn lemma_split_stuck(s: Seq<u8>, st: int)
    requires
        find_byte(s, STX, 0) == Some(st),
        find_byte(s, ETX, st + 1) is None,
    ensures
        serial_split(s) == (Seq::<Seq<u8>>::empty(), s.skip(st)),
        serial_split(s.skip(st)) == (Seq::<Seq<u8>>::empty(), s.skip(st)),
{
    lemma_find_byte(s, STX, 0);
    let t = s.skip(st);
    assert(t[0] == s[st]);
    assert(find_byte(t, STX, 0) == Some(0int));
    lemma_find_byte_skip(s, ETX, st, st + 1);
    assert(find_byte(t, ETX, 1) is None);
    assert(t.skip(0) =~= t);
}

/// Mapping the view over a pushed vector is pushing the view.
proof fn lemma_map_values_push(s: Seq<Vec<u8>>, v: Vec<u8>)
    ensures
        s.push(v).map_values(|f: Vec<u8>| f@) =~= s.map_values(|f: Vec<u8>| f@).push(v@),
{
}

} // verus!
