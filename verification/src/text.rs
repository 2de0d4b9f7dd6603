//! Character-level scanning for the XML wire format: whitespace runs, name
//! runs, literal matching, and text with the five standard entity escapes.
use vstd::prelude::*;

verus! {

/// XML whitespace.
pub open spec fn is_ws(b: u8) -> bool {
    b == 32 || b == 9 || b == 13 || b == 10
}

/// Bytes allowed in the element and attribute names of this dialect.
pub open spec fn is_name_byte(b: u8) -> bool {
    (97 <= b && b <= 122) || b == 45 || b == 58
}

/// First position at or after `i` whose byte is not whitespace.
pub open spec fn skip_ws(s: Seq<u8>, i: int) -> int
    decreases s.len() - i,
{
    if 0 <= i && i < s.len() && is_ws(s[i]) {
        skip_ws(s, i + 1)
    } else {
        i
    }
}

pub proof fn lemma_skip_ws_bounds(s: Seq<u8>, i: int)
    requires
        0 <= i <= s.len(),
    ensures
        i <= skip_ws(s, i) <= s.len(),
    decreases s.len() - i,
{
    if i < s.len() && is_ws(s[i]) {
        lemma_skip_ws_bounds(s, i + 1);
    }
}

pub fn skip_ws_exec(s: &Vec<u8>, i: usize) -> (r: usize)
    requires
        i <= s@.len(),
    ensures
        r == skip_ws(s@, i as int),
        i <= r <= s@.len(),
    decreases s@.len() - i,
{
    if i < s.len() {
        let b = s[i];
        if b == 32 || b == 9 || b == 13 || b == 10 {
            return skip_ws_exec(s, i + 1);
        }
    }
    i
}

/// End of the name run that starts at `i`.
pub open spec fn name_end(s: Seq<u8>, i: int) -> int
    decreases s.len() - i,
{
    if 0 <= i && i < s.len() && is_name_byte(s[i]) {
        name_end(s, i + 1)
    } else {
        i
    }
}

pub proof fn lemma_name_end_bounds(s: Seq<u8>, i: int)
    requires
        0 <= i <= s.len(),
    ensures
        i <= name_end(s, i) <= s.len(),
    decreases s.len() - i,
{
    if i < s.len() && is_name_byte(s[i]) {
        lemma_name_end_bounds(s, i + 1);
    }
}

pub fn name_end_exec(s: &Vec<u8>, i: usize) -> (r: usize)
    requires
        i <= s@.len(),
    ensures
        r == name_end(s@, i as int),
        i <= r <= s@.len(),
    decreases s@.len() - i,
{
    if i < s.len() {
        let b = s[i];
        if (97 <= b && b <= 122) || b == 45 || b == 58 {
            return name_end_exec(s, i + 1);
        }
    }
    i
}

/// True when `lit` occurs in `s` starting at `i`.
pub open spec fn starts_with(s: Seq<u8>, i: int, lit: Seq<u8>) -> bool {
    &&& 0 <= i
    &&& i + lit.len() <= s.len()
    &&& s.subrange(i, i + lit.len() as int) == lit
}

pub fn starts_with_exec(s: &Vec<u8>, i: usize, lit: &Vec<u8>) -> (r: bool)
    requires
        i <= s@.len(),
    ensures
        r == starts_with(s@, i as int, lit@),
{
    let n = s.len();
    if n - i < lit.len() {
        return false;
    }
    let mut k: usize = 0;
    while k < lit.len()
        invariant
            k <= lit@.len(),
            i + lit@.len() <= n,
            n == s@.len(),
            forall|j: int| 0 <= j < k ==> s@[i + j] == lit@[j],
        decreases lit@.len() - k,
    {
        if s[i + k] != lit[k] {
            proof {
                if starts_with(s@, i as int, lit@) {
                    assert(s@.subrange(i as int, i + lit@.len() as int)[k as int] == lit@[k as int]);
                }
            }
            return false;
        }
        k += 1;
    }
    proof {
        assert(s@.subrange(i as int, i + lit@.len() as int) =~= lit@);
    }
    true
}

/// How one byte is written inside text content (`quot` false) or inside a
/// double-quoted attribute value (`quot` true).
pub open spec fn esc_byte(b: u8, quot: bool) -> Seq<u8> {
    if b == 38 {
        seq![38u8, 97u8, 109u8, 112u8, 59u8]
    } else if b == 60 {
        seq![38u8, 108u8, 116u8, 59u8]
    } else if b == 62 {
        seq![38u8, 103u8, 116u8, 59u8]
    } else if b == 34 && quot {
        seq![38u8, 113u8, 117u8, 111u8, 116u8, 59u8]
    } else {
        seq![b]
    }
}

/// The escaped form of `s`.
pub open spec fn escape(s: Seq<u8>, quot: bool) -> Seq<u8>
    decreases s.len(),
{
    if s.len() == 0 {
        Seq::empty()
    } else {
        esc_byte(s[0], quot) + escape(s.drop_first(), quot)
    }
}

pub proof fn lemma_escape_snoc(s: Seq<u8>, b: u8, quot: bool)
    ensures
        escape(s.push(b), quot) == escape(s, quot) + esc_byte(b, quot),
    decreases s.len(),
{
    if s.len() == 0 {
        assert(s.push(b)[0] == b);
        assert(s.push(b).drop_first() =~= Seq::<u8>::empty());
        assert(escape(s.push(b), quot) == esc_byte(b, quot) + escape(Seq::<u8>::empty(), quot));
        assert(escape(Seq::<u8>::empty(), quot) =~= Seq::<u8>::empty());
        assert(esc_byte(b, quot) + Seq::<u8>::empty() =~= esc_byte(b, quot));
        assert(escape(s, quot) =~= Seq::<u8>::empty());
        assert(Seq::<u8>::empty() + esc_byte(b, quot) =~= esc_byte(b, quot));
    } else {
        assert(s.push(b).drop_first() =~= s.drop_first().push(b));
        lemma_escape_snoc(s.drop_first(), b, quot);
        assert(esc_byte(s[0], quot) + (escape(s.drop_first(), quot) + esc_byte(b, quot)) =~= (
        esc_byte(s[0], quot) + escape(s.drop_first(), quot)) + esc_byte(b, quot));
    }
}

/// Append the escaped form of `s` to `out`.
pub fn escape_into(out: &mut Vec<u8>, s: &Vec<u8>, quot: bool)
    ensures
        final(out)@ == old(out)@ + escape(s@, quot),
{
    let ghost base = out@;
    let mut i: usize = 0;
    while i < s.len()
        invariant
            i <= s@.len(),
            out@ == base + escape(s@.subrange(0, i as int), quot),
        decreases s@.len() - i,
    {
        let b = s[i];
        if b == 38 {
            out.push(38);
            out.push(97);
            out.push(109);
            out.push(112);
            out.push(59);
        } else if b == 60 {
            out.push(38);
            out.push(108);
            out.push(116);
            out.push(59);
        } else if b == 62 {
            out.push(38);
            out.push(103);
            out.push(116);
            out.push(59);
        } else if b == 34 && quot {
            out.push(38);
            out.push(113);
            out.push(117);
            out.push(111);
            out.push(116);
            out.push(59);
        } else {
            out.push(b);
        }
        proof {
            lemma_escape_snoc(s@.subrange(0, i as int), s@[i as int], quot);
            assert(s@.subrange(0, i + 1) =~= s@.subrange(0, i as int).push(s@[i as int]));
            assert(out@ =~= base + escape(s@.subrange(0, i + 1), quot));
        }
        i += 1;
    }
    proof {
        assert(s@.subrange(0, s@.len() as int) =~= s@);
    }
}

/// Prepend a decoded byte to a partial text-parse result.
pub open spec fn cons_result(b: u8, r: Option<(Seq<u8>, int)>) -> Option<(Seq<u8>, int)> {
    match r {
        Some(p) => Some((seq![b] + p.0, p.1)),
        None => None,
    }
}

/// Prepend already-decoded bytes to a partial text-parse result.
pub open spec fn prepend_result(pre: Seq<u8>, r: Option<(Seq<u8>, int)>) -> Option<(Seq<u8>, int)> {
    match r {
        Some(p) => Some((pre + p.0, p.1)),
        None => None,
    }
}

/// Text content read from `i` up to the terminator byte `term`, with the
/// five standard entities expanded.  Returns the decoded bytes and the
/// position of the terminator; a missing terminator or a malformed entity is
/// a failure.
pub open spec fn parse_text(s: Seq<u8>, i: int, term: u8) -> Option<(Seq<u8>, int)>
    decreases s.len() - i,
{
    if i < 0 || i >= s.len() {
        None
    } else if s[i] == term {
        Some((Seq::empty(), i))
    } else if s[i] == 38 {
        if i + 5 <= s.len() && s[i + 1] == 97 && s[i + 2] == 109 && s[i + 3] == 112 && s[i + 4]
            == 59 {
            cons_result(38, parse_text(s, i + 5, term))
        } else if i + 4 <= s.len() && s[i + 1] == 108 && s[i + 2] == 116 && s[i + 3] == 59 {
            cons_result(60, parse_text(s, i + 4, term))
        } else if i + 4 <= s.len() && s[i + 1] == 103 && s[i + 2] == 116 && s[i + 3] == 59 {
            cons_result(62, parse_text(s, i + 4, term))
        } else if i + 6 <= s.len() && s[i + 1] == 113 && s[i + 2] == 117 && s[i + 3] == 111 && s[i
            + 4] == 116 && s[i + 5] == 59 {
            cons_result(34, parse_text(s, i + 6, term))
        } else if i + 6 <= s.len() && s[i + 1] == 97 && s[i + 2] == 112 && s[i + 3] == 111 && s[i
            + 4] == 115 && s[i + 5] == 59 {
            cons_result(39, parse_text(s, i + 6, term))
        } else {
            None
        }
    } else {
        cons_result(s[i], parse_text(s, i + 1, term))
    }
}

proof fn lemma_prepend_cons(pre: Seq<u8>, b: u8, r: Option<(Seq<u8>, int)>)
    ensures
        prepend_result(pre, cons_result(b, r)) == prepend_result(pre.push(b), r),
{
    match r {
        Some(p) => {
            assert(pre + (seq![b] + p.0) =~= pre.push(b) + p.0);
        },
        None => {},
    }
}

pub proof fn lemma_parse_text_pos(s: Seq<u8>, i: int, term: u8)
    requires
        0 <= i,
    ensures
        parse_text(s, i, term) matches Some(p) ==> i <= p.1 <= s.len(),
    decreases s.len() - i,
{
    if i < s.len() && s[i] != term {
        if s[i] == 38 {
            if i + 5 <= s.len() && s[i + 1] == 97 && s[i + 2] == 109 && s[i + 3] == 112 && s[i + 4]
                == 59 {
                lemma_parse_text_pos(s, i + 5, term);
            } else if i + 4 <= s.len() && s[i + 1] == 108 && s[i + 2] == 116 && s[i + 3] == 59 {
                lemma_parse_text_pos(s, i + 4, term);
            } else if i + 4 <= s.len() && s[i + 1] == 103 && s[i + 2] == 116 && s[i + 3] == 59 {
                lemma_parse_text_pos(s, i + 4, term);
            } else if i + 6 <= s.len() && s[i + 1] == 113 && s[i + 2] == 117 && s[i + 3] == 111
                && s[i + 4] == 116 && s[i + 5] == 59 {
                lemma_parse_text_pos(s, i + 6, term);
            } else if i + 6 <= s.len() && s[i + 1] == 97 && s[i + 2] == 112 && s[i + 3] == 111
                && s[i + 4] == 115 && s[i + 5] == 59 {
                lemma_parse_text_pos(s, i + 6, term);
            }
        } else {
            lemma_parse_text_pos(s, i + 1, term);
        }
    }
}

/// Executable text parse; mirrors `parse_text`.
pub fn parse_text_exec(s: &Vec<u8>, i: usize, term: u8) -> (r: Option<(Vec<u8>, usize)>)
    requires
        i <= s@.len(),
    ensures
        r is Some <==> parse_text(s@, i as int, term) is Some,
        r matches Some(p) ==> parse_text(s@, i as int, term) == Some((p.0@, p.1 as int)) && i
            <= p.1 < s@.len(),
{
    let mut acc: Vec<u8> = Vec::new();
    let mut p: usize = i;
    loop
        invariant
            i <= p <= s@.len(),
            parse_text(s@, i as int, term) == prepend_result(acc@, parse_text(s@, p as int, term)),
        decreases s@.len() - p,
    {
        if p >= s.len() {
            return None;
        }
        let b = s[p];
        if b == term {
            proof {
                assert(acc@ + Seq::<u8>::empty() =~= acc@);
            }
            return Some((acc, p));
        }
        if b == 38 {
            if s.len() - p >= 5 && s[p + 1] == 97 && s[p + 2] == 109 && s[p + 3] == 112 && s[p + 4]
                == 59 {
                proof {
                    lemma_prepend_cons(acc@, 38, parse_text(s@, p + 5, term));
                }
                acc.push(38);
                p = p + 5;
            } else if s.len() - p >= 4 && s[p + 1] == 108 && s[p + 2] == 116 && s[p + 3] == 59 {
                proof {
                    lemma_prepend_cons(acc@, 60, parse_text(s@, p + 4, term));
                }
                acc.push(60);
                p = p + 4;
            } else if s.len() - p >= 4 && s[p + 1] == 103 && s[p + 2] == 116 && s[p + 3] == 59 {
                proof {
                    lemma_prepend_cons(acc@, 62, parse_text(s@, p + 4, term));
                }
                acc.push(62);
                p = p + 4;
            } else if s.len() - p >= 6 && s[p + 1] == 113 && s[p + 2] == 117 && s[p + 3] == 111
                && s[p + 4] == 116 && s[p + 5] == 59 {
                proof {
                    lemma_prepend_cons(acc@, 34, parse_text(s@, p + 6, term));
                }
                acc.push(34);
                p = p + 6;
            } else if s.len() - p >= 6 && s[p + 1] == 97 && s[p + 2] == 112 && s[p + 3] == 111
                && s[p + 4] == 115 && s[p + 5] == 59 {
                proof {
                    lemma_prepend_cons(acc@, 39, parse_text(s@, p + 6, term));
                }
                acc.push(39);
                p = p + 6;
            } else {
                return None;
            }
        } else {
            proof {
                lemma_prepend_cons(acc@, s@[p as int], parse_text(s@, p + 1, term));
            }
            acc.push(b);
            p = p + 1;
        }
    }
}

/// Inversion: escaped text followed by its terminator parses back to the
/// original bytes, ending exactly on the terminator.
#[verifier::rlimit(100)]
pub proof fn lemma_parse_escape(u: Seq<u8>, i: int, s: Seq<u8>, quot: bool, term: u8)
    requires
        0 <= i,
        i + escape(s, quot).len() < u.len(),
        u.subrange(i, i + escape(s, quot).len() as int) == escape(s, quot),
        u[i + escape(s, quot).len() as int] == term,
        term == 60 || (term == 34 && quot),
    ensures
        parse_text(u, i, term) == Some((s, i + escape(s, quot).len() as int)),
    decreases s.len(),
{
    let e = escape(s, quot);
    assert(forall|k: int|
        0 <= k < e.len() ==> u[i + k] == #[trigger] e[k]) by {
        assert forall|k: int| 0 <= k < e.len() implies u[i + k] == #[trigger] e[k] by {
            assert(u.subrange(i, i + e.len() as int)[k] == e[k]);
        }
    }
    if s.len() == 0 {
        assert(u[i] == term);
    } else {
        let b = s[0];
        let eb = esc_byte(b, quot);
        let s1 = s.drop_first();
        let e1 = escape(s1, quot);
        assert(e == eb + e1);
        assert(forall|k: int| 0 <= k < e1.len() ==> #[trigger] e1[k] == e[eb.len() + k]);
        let d = eb.len() as int;
        assert(u.subrange(i + d, i + d + e1.len() as int) =~= e1) by {
            assert(forall|k: int|
                0 <= k < e1.len() ==> #[trigger] u.subrange(i + d, i + d + e1.len() as int)[k] == u[
                i + d + k]);
        }
        lemma_parse_escape(u, i + d, s1, quot, term);
        assert(seq![b] + s1 =~= s);
        if b == 38 {
            assert(u[i + 0] == e[0] && u[i + 1] == e[1] && u[i + 2] == e[2] && u[i + 3] == e[3]
                && u[i + 4] == e[4]);
            assert(e[0] == 38 && e[1] == 97 && e[2] == 109 && e[3] == 112 && e[4] == 59);
            assert(parse_text(u, i, term) == cons_result(38, parse_text(u, i + 5, term)));
        } else if b == 60 {
            assert(u[i + 0] == e[0] && u[i + 1] == e[1] && u[i + 2] == e[2] && u[i + 3] == e[3]);
            assert(e[0] == 38 && e[1] == 108 && e[2] == 116 && e[3] == 59);
            assert(parse_text(u, i, term) == cons_result(60, parse_text(u, i + 4, term)));
        } else if b == 62 {
            assert(u[i + 0] == e[0] && u[i + 1] == e[1] && u[i + 2] == e[2] && u[i + 3] == e[3]);
            assert(e[0] == 38 && e[1] == 103 && e[2] == 116 && e[3] == 59);
            assert(parse_text(u, i, term) == cons_result(62, parse_text(u, i + 4, term)));
        } else if b == 34 && quot {
            assert(u[i + 0] == e[0] && u[i + 1] == e[1] && u[i + 2] == e[2] && u[i + 3] == e[3]
                && u[i + 4] == e[4] && u[i + 5] == e[5]);
            assert(e[0] == 38 && e[1] == 113 && e[2] == 117 && e[3] == 111 && e[4] == 116 && e[5]
                == 59);
            assert(parse_text(u, i, term) == cons_result(34, parse_text(u, i + 6, term)));
        } else {
            assert(u[i + 0] == e[0]);
            assert(e[0] == b);
            assert(b != term && b != 38);
            assert(parse_text(u, i, term) == cons_result(b, parse_text(u, i + 1, term)));
        }
    }
}

} // verus!
