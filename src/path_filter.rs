use vstd::prelude::*;

verus! {

/// Marker that a log line writes just before a source file path.
pub const FILE_START: [u8; 4] = [35, 70, 83, 35];

/// Marker that a log line writes just after a source file path.
pub const FILE_END: [u8; 4] = [35, 70, 69, 35];

/// `#FS#` as bytes.
pub open spec fn file_start() -> Seq<u8> {
    seq![35u8, 70u8, 83u8, 35u8]
}

/// `#FE#` as bytes.
pub open spec fn file_end() -> Seq<u8> {
    seq![35u8, 70u8, 69u8, 35u8]
}

/// The four bytes of `s` at position `i` are `m`.
pub open spec fn marker_at(s: Seq<u8>, i: int, m: Seq<u8>) -> bool {
    0 <= i && i + 4 <= s.len() && s.subrange(i, i + 4) == m
}

/// The first position at or after `from` where `m` stands in `s`, or -1.
pub open spec fn first_marker(s: Seq<u8>, from: int, m: Seq<u8>) -> int
    decreases s.len() - from,
{
    if from < 0 || from + 4 > s.len() {
        -1
    } else if marker_at(s, from, m) {
        from
    } else {
        first_marker(s, from + 1, m)
    }
}

/// A byte that separates the components of a path (`/` or `\`).
pub open spec fn is_separator(b: u8) -> bool {
    b == 47u8 || b == 92u8
}

/// What follows the last separator of `p`; all of `p` if it has none.
pub open spec fn last_component(p: Seq<u8>) -> Seq<u8>
    decreases p.len(),
{
    if p.len() == 0 {
        p
    } else if is_separator(p.last()) {
        Seq::empty()
    } else {
        last_component(p.drop_last()).push(p.last())
    }
}

/// A log line with the first path between `#FS#` and the next `#FE#`
/// replaced, markers included, by its last component. A line without such a
/// pair is left as it is.
pub open spec fn shortened(s: Seq<u8>) -> Seq<u8> {
    let a = first_marker(s, 0, file_start());
    if a < 0 {
        s
    } else {
        let b = first_marker(s, a + 4, file_end());
        if b < 0 {
            s
        } else {
            s.subrange(0, a) + last_component(s.subrange(a + 4, b)) + s.subrange(b + 4, s.len() as int)
        }
    }
}

fn find_marker(s: &[u8], from: usize, m: &[u8; 4]) -> (r: Option<usize>)
    ensures
        r is None <==> first_marker(s@, from as int, m@) == -1,
        r matches Some(k) ==> k == first_marker(s@, from as int, m@),
{
    let mut i: usize = from;
    while i < s.len() && s.len() - i >= 4
        invariant
            from <= i,
            first_marker(s@, from as int, m@) == first_marker(s@, i as int, m@),
        decreases s.len() - i,
    {
        if s[i] == m[0] && s[i + 1] == m[1] && s[i + 2] == m[2] && s[i + 3] == m[3] {
            assert(s@.subrange(i as int, i + 4) =~= m@);
            return Some(i);
        }
        assert(!marker_at(s@, i as int, m@)) by {
            if marker_at(s@, i as int, m@) {
                assert(s@.subrange(i as int, i + 4)[0] == s@[i as int]);
                assert(s@.subrange(i as int, i + 4)[1] == s@[i + 1]);
                assert(s@.subrange(i as int, i + 4)[2] == s@[i + 2]);
                assert(s@.subrange(i as int, i + 4)[3] == s@[i + 3]);
            }
        }
        i = i + 1;
    }
    None
}

fn copy_range(s: &[u8], lo: usize, hi: usize, out: &mut Vec<u8>)
    requires
        lo <= hi <= s.len(),
    ensures
        final(out)@ == old(out)@ + s@.subrange(lo as int, hi as int),
{
    let ghost start = out@;
    let mut i: usize = lo;
    while i < hi
        invariant
            lo <= i <= hi,
            hi <= s.len(),
            out@ == start + s@.subrange(lo as int, i as int),
        decreases hi - i,
    {
        out.push(s[i]);
        i = i + 1;
        assert(out@ =~= start + s@.subrange(lo as int, i as int));
    }
    assert(start + s@.subrange(lo as int, hi as int) =~= out@);
}

/// Where the last component of `s[lo..hi]` starts.
fn last_component_start(s: &[u8], lo: usize, hi: usize) -> (r: usize)
    requires
        lo <= hi <= s.len(),
    ensures
        lo <= r <= hi,
        s@.subrange(r as int, hi as int) == last_component(s@.subrange(lo as int, hi as int)),
{
    let ghost p = s@.subrange(lo as int, hi as int);
    let mut i: usize = hi;
    while i > lo && !(s[i - 1] == 47 || s[i - 1] == 92)
        invariant
            lo <= i <= hi,
            hi <= s.len(),
            p == s@.subrange(lo as int, hi as int),
            last_component(p) == last_component(s@.subrange(lo as int, i as int)) + s@.subrange(
                i as int,
                hi as int,
            ),
        decreases i - lo,
    {
        let ghost q = s@.subrange(lo as int, i as int);
        assert(q.drop_last() =~= s@.subrange(lo as int, i - 1));
        assert(last_component(q) == last_component(q.drop_last()).push(q.last()));
        assert(last_component(q.drop_last()).push(q.last()) + s@.subrange(i as int, hi as int)
            =~= last_component(q.drop_last()) + s@.subrange(i - 1, hi as int));
        i = i - 1;
    }
    let ghost q = s@.subrange(lo as int, i as int);
    assert(last_component(q) =~= Seq::<u8>::empty());
    assert(last_component(p) =~= s@.subrange(i as int, hi as int));
    i
}

/// Shortens the source path that a log line carries between `#FS#` and
/// `#FE#` to its last component, dropping the markers.
pub fn shorten_file_path(msg: &[u8]) -> (r: Vec<u8>)
    ensures
        r@ == shortened(msg@),
{
    let mut out: Vec<u8> = Vec::new();
    match find_marker(msg, 0, &FILE_START) {
        None => {
            copy_range(msg, 0, msg.len(), &mut out);
            assert(msg@.subrange(0, msg@.len() as int) =~= msg@);
        },
        Some(a) => {
            assert(a + 4 <= msg.len()) by {
                lemma_first_marker_bound(msg@, 0, file_start());
            }
            match find_marker(msg, a + 4, &FILE_END) {
                None => {
                    copy_range(msg, 0, msg.len(), &mut out);
                    assert(msg@.subrange(0, msg@.len() as int) =~= msg@);
                },
                Some(b) => {
                    proof {
                        lemma_first_marker_bound(msg@, a + 4, file_end());
                    }
                    let c = last_component_start(msg, a + 4, b);
                    copy_range(msg, 0, a, &mut out);
                    copy_range(msg, c, b, &mut out);
                    copy_range(msg, b + 4, msg.len(), &mut out);
                    assert(out@ =~= shortened(msg@));
                },
            }
        },
    }
    out
}

/// A line without `#FS#` passes unchanged.
pub proof fn lemma_unmarked_unchanged(s: Seq<u8>)
    requires
        first_marker(s, 0, file_start()) == -1,
    ensures
        shortened(s) == s,
{
}

proof fn lemma_first_marker_bound(s: Seq<u8>, from: int, m: Seq<u8>)
    ensures
        first_marker(s, from, m) == -1 || (from <= first_marker(s, from, m) && first_marker(
            s,
            from,
            m,
        ) + 4 <= s.len()),
    decreases s.len() - from,
{
    if from >= 0 && from + 4 <= s.len() && !marker_at(s, from, m) {
        lemma_first_marker_bound(s, from + 1, m);
    }
}

} // verus!
