use vstd::prelude::*;

verus! {

/// Marker written after every message sent over a raw stream. Receivers scan
/// the stream for this exact sequence to find where a message ends.
pub const MSG_TERMINATOR: [u8; 3] = [254, 253, 255];

/// The terminator as a sequence of bytes.
pub open spec fn terminator() -> Seq<u8> {
    seq![254u8, 253u8, 255u8]
}

/// The terminator starts at position `i` of `s`.
pub open spec fn terminator_at(s: Seq<u8>, i: int) -> bool {
    &&& 0 <= i
    &&& i + 3 <= s.len()
    &&& s[i] == 254u8
    &&& s[i + 1] == 253u8
    &&& s[i + 2] == 255u8
}

/// The terminator occurs somewhere in `s`.
pub open spec fn has_terminator(s: Seq<u8>) -> bool {
    exists|i: int| terminator_at(s, i)
}

/// A message followed by the terminator.
pub open spec fn framed(m: Seq<u8>) -> Seq<u8> {
    m + terminator()
}

/// The bytes that carry `msgs`, in order, on a stream.
pub open spec fn stream_of(msgs: Seq<Seq<u8>>) -> Seq<u8>
    decreases msgs.len(),
{
    if msgs.len() == 0 {
        Seq::empty()
    } else {
        stream_of(msgs.drop_last()) + framed(msgs.last())
    }
}

/// Splits `s` into the complete messages it holds and the bytes after the
/// last terminator, having checked positions before `i` for a terminator.
pub open spec fn split_scan(s: Seq<u8>, i: int) -> (Seq<Seq<u8>>, Seq<u8>)
    decreases s.len() - i,
{
    if i < 0 || i + 3 > s.len() {
        (Seq::empty(), s)
    } else if terminator_at(s, i) {
        let rest = split_scan(s.subrange(i + 3, s.len() as int), 0);
        (seq![s.subrange(0, i)] + rest.0, rest.1)
    } else {
        split_scan(s, i + 1)
    }
}

/// The complete messages in `s`, each without its terminator, and the
/// incomplete tail that follows them.
pub open spec fn split_stream(s: Seq<u8>) -> (Seq<Seq<u8>>, Seq<u8>) {
    split_scan(s, 0)
}

/// What feeding `chunks` one after another to a splitter holding `pending`
/// hands out, and what it holds afterwards.
pub open spec fn feed_all(pending: Seq<u8>, chunks: Seq<Seq<u8>>) -> (Seq<Seq<u8>>, Seq<u8>)
    decreases chunks.len(),
{
    if chunks.len() == 0 {
        (Seq::empty(), pending)
    } else {
        let first = split_stream(pending + chunks[0]);
        let later = feed_all(first.1, chunks.drop_first());
        (first.0 + later.0, later.1)
    }
}

/// The views of a list of byte buffers.
pub open spec fn views(v: Seq<Vec<u8>>) -> Seq<Seq<u8>> {
    v.map_values(|b: Vec<u8>| b@)
}

/// Positions already known to hold no terminator need no second look.
proof fn lemma_skip_clean(u: Seq<u8>, i: int)
    requires
        0 <= i,
        forall|j: int| 0 <= j < i ==> !terminator_at(u, j),
    ensures
        split_scan(u, 0) == split_scan(u, i),
    decreases i,
{
    if i > 0 {
        lemma_skip_clean(u, i - 1);
        assert(!terminator_at(u, i - 1));
    }
}

/// Splitting `s + t` from scan position `i` hands out what splitting `s`
/// hands out, then what its tail followed by `t` holds.
proof fn lemma_scan_concat(s: Seq<u8>, t: Seq<u8>, i: int)
    requires
        0 <= i,
        forall|j: int| 0 <= j < i ==> !terminator_at(s + t, j),
    ensures
        split_scan(s + t, i) == ({
            let a = split_scan(s, i);
            let b = split_stream(a.1 + t);
            (a.0 + b.0, b.1)
        }),
    decreases s.len() - i,
{
    let a = split_scan(s, i);
    if i + 3 > s.len() {
        lemma_skip_clean(s + t, i);
        assert(a.0 + split_stream(s + t).0 =~= split_stream(s + t).0);
    } else if terminator_at(s, i) {
        let st = s + t;
        assert(terminator_at(st, i));
        let s2 = s.subrange(i + 3, s.len() as int);
        assert(st.subrange(i + 3, st.len() as int) =~= s2 + t);
        assert(st.subrange(0, i) =~= s.subrange(0, i));
        lemma_scan_concat(s2, t, 0);
        let inner = split_scan(s2, 0);
        let b = split_stream(inner.1 + t);
        assert(seq![s.subrange(0, i)] + (inner.0 + b.0) =~= (seq![s.subrange(0, i)] + inner.0)
            + b.0);
    } else {
        assert(!terminator_at(s + t, i));
        lemma_scan_concat(s, t, i + 1);
    }
}

/// Splitting a stream in two places gives what splitting it once does.
pub proof fn lemma_split_concat(s: Seq<u8>, t: Seq<u8>)
    ensures
        split_stream(s + t) == ({
            let a = split_stream(s);
            let b = split_stream(a.1 + t);
            (a.0 + b.0, b.1)
        }),
{
    lemma_scan_concat(s, t, 0);
}

/// A message free of the terminator, framed, splits back into itself.
proof fn lemma_split_one(m: Seq<u8>)
    requires
        !has_terminator(m),
    ensures
        split_stream(framed(m)) == (seq![m], Seq::<u8>::empty()),
{
    let f = framed(m);
    let n = m.len() as int;
    assert forall|j: int| 0 <= j < n implies !terminator_at(f, j) by {
        if terminator_at(f, j) {
            if j + 3 <= n {
                assert(terminator_at(m, j));
            } else if j == n - 2 {
                assert(f[j + 2] == 254u8);
            } else {
                assert(f[j + 1] == 254u8);
            }
        }
    }
    lemma_skip_clean(f, n);
    assert(terminator_at(f, n));
    assert(f.subrange(0, n) =~= m);
    let rest = f.subrange(n + 3, f.len() as int);
    assert(rest =~= Seq::<u8>::empty());
    assert(split_scan(rest, 0) == (Seq::<Seq<u8>>::empty(), rest));
    assert(seq![m] + Seq::<Seq<u8>>::empty() =~= seq![m]);
}

/// A stream of messages that hold no terminator splits back into exactly
/// those messages, with nothing left over.
pub proof fn lemma_stream_round_trip(msgs: Seq<Seq<u8>>)
    requires
        forall|k: int| 0 <= k < msgs.len() ==> !has_terminator(#[trigger] msgs[k]),
    ensures
        split_stream(stream_of(msgs)) == (msgs, Seq::<u8>::empty()),
    decreases msgs.len(),
{
    if msgs.len() == 0 {
        assert(split_scan(Seq::<u8>::empty(), 0) == (Seq::<Seq<u8>>::empty(), Seq::<u8>::empty()));
    } else {
        let init = msgs.drop_last();
        assert forall|k: int| 0 <= k < init.len() implies !has_terminator(#[trigger] init[k]) by {
            assert(init[k] == msgs[k]);
        }
        lemma_stream_round_trip(init);
        lemma_split_concat(stream_of(init), framed(msgs.last()));
        assert(Seq::<u8>::empty() + framed(msgs.last()) =~= framed(msgs.last()));
        assert(!has_terminator(msgs[msgs.len() - 1]));
        lemma_split_one(msgs.last());
        assert(init + seq![msgs.last()] =~= msgs);
    }
}

/// What is left after the complete messages never holds a terminator.
proof fn lemma_scan_tail_clean(s: Seq<u8>, i: int)
    requires
        0 <= i,
        forall|j: int| 0 <= j < i ==> !terminator_at(s, j),
    ensures
        !has_terminator(split_scan(s, i).1),
    decreases s.len() - i,
{
    if i + 3 > s.len() {
        assert forall|j: int| !terminator_at(s, j) by {
            if 0 <= j < i {
            }
        }
    } else if terminator_at(s, i) {
        lemma_scan_tail_clean(s.subrange(i + 3, s.len() as int), 0);
    } else {
        lemma_scan_tail_clean(s, i + 1);
    }
}

/// Bytes free of the terminator hold no complete message.
proof fn lemma_split_clean(s: Seq<u8>)
    requires
        !has_terminator(s),
    ensures
        split_stream(s) == (Seq::<Seq<u8>>::empty(), s),
{
    assert forall|j: int| 0 <= j < s.len() implies !terminator_at(s, j) by {}
    lemma_skip_clean(s, s.len() as int);
}

/// A message without the byte `0xFF`, as any UTF-8 text is, holds no
/// terminator.
pub proof fn lemma_no_ff_no_terminator(m: Seq<u8>)
    requires
        forall|i: int| 0 <= i < m.len() ==> m[i] != 255u8,
    ensures
        !has_terminator(m),
{
    assert forall|i: int| !terminator_at(m, i) by {
        if terminator_at(m, i) {
            assert(m[i + 2] == 255u8);
        }
    }
}

/// Feeding pieces one after another to a splitter gives what feeding their
/// concatenation at once does.
pub proof fn lemma_feed_all(pending: Seq<u8>, chunks: Seq<Seq<u8>>)
    requires
        !has_terminator(pending),
    ensures
        feed_all(pending, chunks) == split_stream(pending + chunks.flatten()),
    decreases chunks.len(),
{
    if chunks.len() == 0 {
        assert(pending + chunks.flatten() =~= pending);
        lemma_split_clean(pending);
    } else {
        let first = split_stream(pending + chunks[0]);
        lemma_scan_tail_clean(pending + chunks[0], 0);
        lemma_feed_all(first.1, chunks.drop_first());
        lemma_split_concat(pending + chunks[0], chunks.drop_first().flatten());
        assert(pending + chunks.flatten() =~= (pending + chunks[0]) + chunks.drop_first().flatten());
    }
}

/// However a stream of terminator-free messages is cut into pieces, feeding
/// the pieces in order to a fresh splitter hands out exactly the messages, in
/// order, and leaves nothing pending.
pub proof fn lemma_fragmented_stream(msgs: Seq<Seq<u8>>, chunks: Seq<Seq<u8>>)
    requires
        forall|k: int| 0 <= k < msgs.len() ==> !has_terminator(#[trigger] msgs[k]),
        chunks.flatten() == stream_of(msgs),
    ensures
        feed_all(Seq::empty(), chunks) == (msgs, Seq::<u8>::empty()),
{
    assert(!has_terminator(Seq::<u8>::empty()));
    lemma_feed_all(Seq::empty(), chunks);
    assert(Seq::<u8>::empty() + chunks.flatten() =~= stream_of(msgs));
    lemma_stream_round_trip(msgs);
}

/// Frames one message for a raw stream: the message, then the terminator.
pub fn frame_message(msg: &[u8]) -> (r: Vec<u8>)
    ensures
        r@ == framed(msg@),
{
    let mut r: Vec<u8> = Vec::new();
    let mut i: usize = 0;
    while i < msg.len()
        invariant
            i <= msg.len(),
            r@ == msg@.subrange(0, i as int),
        decreases msg.len() - i,
    {
        r.push(msg[i]);
        i = i + 1;
    }
    r.push(MSG_TERMINATOR[0]);
    r.push(MSG_TERMINATOR[1]);
    r.push(MSG_TERMINATOR[2]);
    assert(r@ =~= framed(msg@));
    r
}

/// Reassembles messages from a stream that arrives in pieces of any size.
pub struct MessageSplitter {
    pending: Vec<u8>,
}

impl MessageSplitter {
    /// The bytes received after the last complete message.
    pub closed spec fn pending(&self) -> Seq<u8> {
        self.pending@
    }

    /// A splitter that has received nothing.
    pub fn new() -> (r: MessageSplitter)
        ensures
            r.pending() == Seq::<u8>::empty(),
            !has_terminator(r.pending()),
    {
        MessageSplitter { pending: Vec::new() }
    }

    /// Takes the next piece of the stream and returns the messages that it
    /// completes, in order and without their terminators.
    pub fn feed(&mut self, chunk: &[u8]) -> (msgs: Vec<Vec<u8>>)
        ensures
            views(msgs@) == split_stream(old(self).pending() + chunk@).0,
            final(self).pending() == split_stream(old(self).pending() + chunk@).1,
            !has_terminator(final(self).pending()),
    {
        let ghost before = self.pending@;
        let ghost whole = self.pending@ + chunk@;
        let mut buf: Vec<u8> = Vec::new();
        std::mem::swap(&mut buf, &mut self.pending);
        assert(buf@ =~= before + chunk@.subrange(0, 0));
        let mut k: usize = 0;
        while k < chunk.len()
            invariant
                k <= chunk.len(),
                buf@ == before + chunk@.subrange(0, k as int),
            decreases chunk.len() - k,
        {
            buf.push(chunk[k]);
            k = k + 1;
            assert(buf@ =~= before + chunk@.subrange(0, k as int));
        }
        assert(buf@ =~= whole);
        let mut out: Vec<Vec<u8>> = Vec::new();
        let mut start: usize = 0;
        let mut i: usize = 0;
        assert(whole.subrange(0, whole.len() as int) =~= whole);
        assert(views(out@) + split_stream(whole).0 =~= split_stream(whole).0);
        while buf.len() - i >= 3
            invariant
                buf@ == whole,
                start <= i <= buf.len(),
                views(out@) + split_scan(whole.subrange(start as int, whole.len() as int), i - start).0
                    == split_stream(whole).0,
                split_scan(whole.subrange(start as int, whole.len() as int), i - start).1
                    == split_stream(whole).1,
            decreases buf.len() - i,
        {
            let ghost tail = whole.subrange(start as int, whole.len() as int);
            if buf[i] == 254 && buf[i + 1] == 253 && buf[i + 2] == 255 {
                let mut m: Vec<u8> = Vec::with_capacity(i - start);
                let mut j: usize = start;
                while j < i
                    invariant
                        buf@ == whole,
                        start <= j <= i,
                        i + 3 <= buf.len(),
                        m@ == whole.subrange(start as int, j as int),
                    decreases i - j,
                {
                    m.push(buf[j]);
                    j = j + 1;
                }
                assert(terminator_at(tail, i - start));
                assert(tail.subrange(0, i - start) =~= m@);
                assert(tail.subrange(i - start + 3, tail.len() as int)
                    =~= whole.subrange(i + 3, whole.len() as int));
                let ghost done = out@;
                out.push(m);
                assert(views(out@) =~= views(done) + seq![m@]);
                assert(views(out@) + split_scan(whole.subrange(i + 3, whole.len() as int), 0).0
                    =~= views(done) + split_scan(tail, i - start).0);
                start = i + 3;
                i = i + 3;
            } else {
                assert(!terminator_at(tail, i - start));
                i = i + 1;
            }
        }
        let ghost tail = whole.subrange(start as int, whole.len() as int);
        assert(split_scan(tail, i - start).0 =~= Seq::<Seq<u8>>::empty());
        assert(views(out@) =~= views(out@) + split_scan(tail, i - start).0);
        let mut rest: Vec<u8> = Vec::with_capacity(buf.len() - start);
        let mut j: usize = start;
        while j < buf.len()
            invariant
                buf@ == whole,
                start <= j <= buf.len(),
                rest@ == whole.subrange(start as int, j as int),
            decreases buf.len() - j,
        {
            rest.push(buf[j]);
            j = j + 1;
        }
        assert(rest@ =~= tail);
        proof {
            lemma_scan_tail_clean(whole, 0);
        }
        self.pending = rest;
        out
    }
}

} // verus!
