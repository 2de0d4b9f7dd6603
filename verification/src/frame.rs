//! NETCONF 1.0 message framing: a byte stream is cut into messages at the
//! literal six-byte end-of-message marker `]]>]]>`.
use vstd::prelude::*;

verus! {

/// The six-byte end-of-message marker `]]>]]>`.
pub open spec fn marker() -> Seq<u8> {
    seq![93u8, 93u8, 62u8, 93u8, 93u8, 62u8]
}

/// True when the marker occurs in `s` at position `i`.
pub open spec fn marker_at(s: Seq<u8>, i: int) -> bool {
    &&& 0 <= i
    &&& i + 6 <= s.len()
    &&& s.subrange(i, i + 6) == marker()
}

/// Position of the first marker occurrence at or after `i`, if any.
pub open spec fn find_marker_from(s: Seq<u8>, i: int) -> Option<int>
    decreases s.len() - i,
{
    if i < 0 || i + 6 > s.len() {
        None
    } else if marker_at(s, i) {
        Some(i)
    } else {
        find_marker_from(s, i + 1)
    }
}

/// How a buffer splits at the first marker: the message before it and the
/// bytes after it.
pub open spec fn frame_split(s: Seq<u8>) -> Option<(Seq<u8>, Seq<u8>)> {
    match find_marker_from(s, 0) {
        Some(i) => Some((s.subrange(0, i), s.subrange(i + 6, s.len() as int))),
        None => None,
    }
}

/// Accumulates incoming bytes and hands out complete messages.
///
/// The caller appends whatever the transport returned, in chunks of any size,
/// and asks for the next message; the split happens at the first marker in
/// the whole accumulated buffer, so a marker bisected by a chunk boundary is
/// still found.
pub struct Framer {
    buffer: Vec<u8>,
}

impl View for Framer {
    type V = Seq<u8>;

    closed spec fn view(&self) -> Seq<u8> {
        self.buffer@
    }
}

/// True when the marker occurs at `i`, decided by the six byte comparisons.
fn is_marker_at(s: &Vec<u8>, i: usize) -> (r: bool)
    requires
        i + 6 <= s@.len(),
    ensures
        r == marker_at(s@, i as int),
{
    let n = s.len();
    let r = s[i] == 93 && s[i + 1] == 93 && s[i + 2] == 62 && s[i + 3] == 93 && s[i + 4] == 93
        && s[i + 5] == 62;
    proof {
        if r {
            assert(s@.subrange(i as int, i + 6) =~= marker());
        } else {
            if marker_at(s@, i as int) {
                let ss = s@.subrange(i as int, i + 6);
                assert(s@[i as int] == ss[0] && s@[i + 1] == ss[1] && s@[i + 2] == ss[2]
                    && s@[i + 3] == ss[3] && s@[i + 4] == ss[4] && s@[i + 5] == ss[5]);
            }
        }
    }
    r
}

/// First marker occurrence at or after `i`.
fn find_marker_exec(s: &Vec<u8>, i: usize) -> (r: Option<usize>)
    requires
        i <= s@.len(),
    ensures
        r is Some <==> find_marker_from(s@, i as int) is Some,
        r matches Some(j) ==> find_marker_from(s@, i as int) == Some(j as int) && i <= j && j + 6
            <= s@.len(),
    decreases s@.len() - i,
{
    if s.len() - i < 6 {
        return None;
    }
    if is_marker_at(s, i) {
        Some(i)
    } else {
        find_marker_exec(s, i + 1)
    }
}

impl Framer {
    /// A framer with an empty buffer.
    pub fn new() -> (f: Framer)
        ensures
            f@ == Seq::<u8>::empty(),
    {
        Framer { buffer: Vec::new() }
    }

    /// Append one chunk, exactly as the transport produced it.
    pub fn push_bytes(&mut self, chunk: &Vec<u8>)
        ensures
            final(self)@ == old(self)@ + chunk@,
    {
        crate::util::append_bytes(&mut self.buffer, chunk);
    }

    /// The next complete message, if a marker has arrived: the bytes before
    /// the first marker are returned and the bytes after it stay buffered.
    pub fn take_message(&mut self) -> (r: Option<Vec<u8>>)
        ensures
            r is Some <==> frame_split(old(self)@) is Some,
            r matches Some(msg) ==> frame_split(old(self)@) == Some((msg@, final(self)@)),
            r is None ==> final(self)@ == old(self)@,
    {
        match find_marker_exec(&self.buffer, 0) {
            None => None,
            Some(i) => {
                let n = self.buffer.len();
                let msg = crate::util::subvec(&self.buffer, 0, i);
                let rest = crate::util::subvec(&self.buffer, i + 6, n);
                self.buffer = rest;
                Some(msg)
            },
        }
    }
}

/// Helper for the framing law: the first marker in `s` at or after `i` is at
/// `k` when `k` carries a marker and no position before it does.
proof fn lemma_find_first(s: Seq<u8>, i: int, k: int)
    requires
        0 <= i <= k,
        marker_at(s, k),
        forall|j: int| i <= j < k ==> !marker_at(s, j),
    ensures
        find_marker_from(s, i) == Some(k),
    decreases k - i,
{
    if i == k {
    } else {
        lemma_find_first(s, i + 1, k);
    }
}

/// Framing law: however the framed bytes of a message were chunked, the
/// accumulated buffer is `m + marker() + rest`, and the split returns exactly
/// `m`, leaving exactly `rest` buffered.  The requirement says that no marker
/// occurrence starts inside `m`; it fails for example when `m` itself ends in
/// `]]>`, where the wire form is ambiguous.
pub proof fn lemma_framing(m: Seq<u8>, rest: Seq<u8>)
    requires
        forall|j: int| 0 <= j < m.len() ==> !marker_at(m + marker() + rest, j),
    ensures
        frame_split(m + marker() + rest) == Some((m, rest)),
{
    let s = m + marker() + rest;
    assert(marker_at(s, m.len() as int)) by {
        assert(s.subrange(m.len() as int, m.len() as int + 6) =~= marker());
    };
    lemma_find_first(s, 0, m.len() as int);
    assert(s.subrange(0, m.len() as int) =~= m);
    assert(s.subrange(m.len() as int + 6, s.len() as int) =~= rest);
}

} // verus!
