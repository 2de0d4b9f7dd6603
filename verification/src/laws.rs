//! The reply-interpretation laws every operation obeys, proved once over
//! the scan functions of `ops`.
use vstd::prelude::*;
use crate::error::NETCONFErrorV;
use crate::ops::{is_warning, scan_commit, scan_commit_reply, scan_confirm, scan_confirm_reply, scan_cmd, scan_command_reply, scan_load, scan_load_items, scan_load_reply, Outcome};
use crate::tok::w_text;
use crate::xml::{ErrV, LoadItemV, LoadResultsV, ReplyElemV};

verus! {

proof fn lemma_confirm_warning_prepend(w: ErrV, rest: Seq<ReplyElemV>, okk: bool, warns: Seq<ErrV>)
    requires
        is_warning(w),
    ensures
        scan_confirm(seq![ReplyElemV::ErrorElem(w)] + rest, okk, warns) == scan_confirm(
            rest,
            okk,
            warns.push(w),
        ),
{
    let s = seq![ReplyElemV::ErrorElem(w)] + rest;
    assert(s[0] == ReplyElemV::ErrorElem(w));
    assert(s.drop_first() =~= rest);
}

proof fn lemma_cmd_warning_prepend(
    w: ErrV,
    rest: Seq<ReplyElemV>,
    fmt: Seq<u8>,
    found: Option<Seq<u8>>,
    warns: Seq<ErrV>,
)
    requires
        is_warning(w),
    ensures
        scan_cmd(seq![ReplyElemV::ErrorElem(w)] + rest, fmt, found, warns) == scan_cmd(
            rest,
            fmt,
            found,
            warns.push(w),
        ),
{
    let s = seq![ReplyElemV::ErrorElem(w)] + rest;
    assert(s[0] == ReplyElemV::ErrorElem(w));
    assert(s.drop_first() =~= rest);
}

/// Severity law, confirming commit: a warning-severity error followed by
/// the required `ok` marker yields success, and the warning is surfaced as
/// a diagnostic, never as the result.
pub proof fn lemma_severity_law_confirm(w: ErrV)
    requires
        is_warning(w),
    ensures
        scan_confirm_reply(seq![ReplyElemV::ErrorElem(w), ReplyElemV::OkElem]) == (Outcome::Success {
            value: (),
            warnings: seq![w],
        }),
{
    reveal_with_fuel(scan_confirm, 4);
    let s = seq![ReplyElemV::ErrorElem(w), ReplyElemV::OkElem];
    assert(s =~= seq![ReplyElemV::ErrorElem(w)] + seq![ReplyElemV::OkElem]);
    lemma_confirm_warning_prepend(w, seq![ReplyElemV::OkElem], false, Seq::empty());
    let t = seq![ReplyElemV::OkElem];
    assert(t[0] is OkElem);
    assert(t.drop_first() =~= Seq::<ReplyElemV>::empty());
    assert(scan_confirm(t.drop_first(), true, Seq::<ErrV>::empty().push(w)) == (Outcome::Success {
        value: (),
        warnings: Seq::<ErrV>::empty().push(w),
    }));
    assert(Seq::<ErrV>::empty().push(w) =~= seq![w]);
}

/// Severity law, command execution: a warning before the first `output`
/// still yields that output, with the warning as a diagnostic.
pub proof fn lemma_severity_law_command(w: ErrV, t: Seq<u8>)
    requires
        is_warning(w),
    ensures
        scan_command_reply(seq![ReplyElemV::ErrorElem(w), ReplyElemV::Output(t)], w_text())
            == (Outcome::Success { value: t, warnings: seq![w] }),
{
    reveal_with_fuel(scan_cmd, 4);
    let s = seq![ReplyElemV::ErrorElem(w), ReplyElemV::Output(t)];
    assert(s =~= seq![ReplyElemV::ErrorElem(w)] + seq![ReplyElemV::Output(t)]);
    lemma_cmd_warning_prepend(w, seq![ReplyElemV::Output(t)], w_text(), None, Seq::empty());
    let u = seq![ReplyElemV::Output(t)];
    assert(u[0] == ReplyElemV::Output(t));
    assert(u.drop_first() =~= Seq::<ReplyElemV>::empty());
    assert(scan_cmd(u.drop_first(), w_text(), Some(t), Seq::<ErrV>::empty().push(w))
        == (Outcome::Success { value: t, warnings: Seq::<ErrV>::empty().push(w) }));
    assert(Seq::<ErrV>::empty().push(w) =~= seq![w]);
}

/// True when every error in the sequence has warning severity.
pub open spec fn fatal_free(elems: Seq<ReplyElemV>) -> bool {
    forall|i: int|
        0 <= i < elems.len() ==> (#[trigger] elems[i] matches ReplyElemV::ErrorElem(e)
            ==> is_warning(e))
}

/// Fatal-severity law, first half: a commit scan that succeeds saw no
/// fatal error anywhere in the sequence.
pub proof fn lemma_fatal_excludes_success_commit(elems: Seq<ReplyElemV>, okk: bool, warns: Seq<ErrV>)
    ensures
        scan_commit(elems, okk, warns) is Success ==> fatal_free(elems),
    decreases elems.len(),
{
    if elems.len() > 0 {
        match elems[0] {
            ReplyElemV::ErrorElem(e) => {
                if is_warning(e) {
                    lemma_fatal_excludes_success_commit(elems.drop_first(), okk, warns.push(e));
                }
            },
            ReplyElemV::OkElem => {
                lemma_fatal_excludes_success_commit(elems.drop_first(), true, warns);
            },
            ReplyElemV::CommitResultsElem => {
                lemma_fatal_excludes_success_commit(elems.drop_first(), true, warns);
            },
            ReplyElemV::Other(_) => {
                lemma_fatal_excludes_success_commit(elems.drop_first(), true, warns);
            },
            _ => {},
        }
        if scan_commit(elems, okk, warns) is Success {
            assert forall|i: int| 0 <= i < elems.len() implies (#[trigger] elems[i] matches
                ReplyElemV::ErrorElem(e) ==> is_warning(e)) by {
                if i > 0 {
                    assert(elems[i] == elems.drop_first()[i - 1]);
                }
            }
        }
    }
}

/// True when every element is one the commit grammar accepts without
/// aborting: a marker, a bare text payload, or a warning-severity error.
pub open spec fn commit_benign(elems: Seq<ReplyElemV>) -> bool {
    forall|i: int|
        0 <= i < elems.len() ==> match #[trigger] elems[i] {
            ReplyElemV::ErrorElem(e) => is_warning(e),
            ReplyElemV::OkElem => true,
            ReplyElemV::CommitResultsElem => true,
            ReplyElemV::Other(_) => true,
            _ => false,
        }
}

/// Fatal-severity law, second half: however much accepted material comes
/// first, a fatal error aborts the commit scan and is carried as the
/// failure, whatever follows it.
pub proof fn lemma_fatal_aborts_commit(
    pre: Seq<ReplyElemV>,
    e: ErrV,
    rest: Seq<ReplyElemV>,
    okk: bool,
    warns: Seq<ErrV>,
)
    requires
        !is_warning(e),
        commit_benign(pre),
    ensures
        scan_commit(pre + seq![ReplyElemV::ErrorElem(e)] + rest, okk, warns) == Outcome::<
            (),
        >::Failure(NETCONFErrorV::RpcError(e)),
    decreases pre.len(),
{
    let s = pre + seq![ReplyElemV::ErrorElem(e)] + rest;
    if pre.len() == 0 {
        assert(s[0] == ReplyElemV::ErrorElem(e));
    } else {
        assert(s[0] == pre[0]);
        assert(s.drop_first() =~= pre.drop_first() + seq![ReplyElemV::ErrorElem(e)] + rest);
        assert(forall|i: int|
            1 <= i < pre.len() ==> pre[i] == #[trigger] pre.drop_first()[i - 1]);
        match pre[0] {
            ReplyElemV::ErrorElem(w) => {
                lemma_fatal_aborts_commit(pre.drop_first(), e, rest, okk, warns.push(w));
            },
            ReplyElemV::OkElem => {
                lemma_fatal_aborts_commit(pre.drop_first(), e, rest, true, warns);
            },
            ReplyElemV::CommitResultsElem => {
                lemma_fatal_aborts_commit(pre.drop_first(), e, rest, true, warns);
            },
            ReplyElemV::Other(_) => {
                lemma_fatal_aborts_commit(pre.drop_first(), e, rest, true, warns);
            },
            _ => {},
        }
    }
}

/// Grammar law, confirming commit: an element outside the accepted set at
/// its scan position yields a grammar failure carrying exactly that
/// element, even though a valid success marker stood before it.
pub proof fn lemma_grammar_law_confirm(bad: ReplyElemV, rest: Seq<ReplyElemV>)
    requires
        !(bad is OkElem),
        !(bad is ErrorElem),
    ensures
        scan_confirm_reply(seq![ReplyElemV::OkElem, bad] + rest) == Outcome::<()>::Failure(
            NETCONFErrorV::UnexpectedCommand(bad),
        ),
{
    reveal_with_fuel(scan_confirm, 4);
    let s = seq![ReplyElemV::OkElem, bad] + rest;
    assert(s[0] == ReplyElemV::OkElem);
    assert(s.drop_first() =~= seq![bad] + rest);
    assert((seq![bad] + rest)[0] == bad);
    assert(scan_confirm(seq![bad] + rest, true, Seq::empty()) == Outcome::<()>::Failure(
        NETCONFErrorV::UnexpectedCommand(bad),
    ));
}

/// Load completeness law, inner step: an inner sequence of only
/// `load-error-count` entries never sets the success marker.
proof fn lemma_load_counts_only(items: Seq<LoadItemV>, warns: Seq<ErrV>, diags: Seq<Seq<u8>>)
    requires
        forall|i: int| 0 <= i < items.len() ==> #[trigger] items[i] is ErrorCount,
    ensures
        scan_load_items(items, false, warns, diags) == Outcome::<Seq<Seq<u8>>>::Failure(
            NETCONFErrorV::MissingOk,
        ),
    decreases items.len(),
{
    if items.len() > 0 {
        assert(items[0] is ErrorCount);
        assert(forall|i: int|
            1 <= i < items.len() ==> items[i] == #[trigger] items.drop_first()[i - 1]);
        match items[0] {
            LoadItemV::ErrorCount(m) => {
                lemma_load_counts_only(items.drop_first(), warns, diags.push(m));
            },
            _ => {},
        }
    }
}

/// Load completeness law: a `load-configuration-results` whose inner
/// sequence holds only `load-error-count` entries, no `ok` and no error,
/// is a missing-confirmation failure.
pub proof fn lemma_load_completeness_law(lr: LoadResultsV)
    requires
        forall|i: int| 0 <= i < lr.items.len() ==> #[trigger] lr.items[i] is ErrorCount,
    ensures
        scan_load_reply(seq![ReplyElemV::LoadResults(lr)]) == Outcome::<Seq<Seq<u8>>>::Failure(
            NETCONFErrorV::MissingOk,
        ),
{
    let s = seq![ReplyElemV::LoadResults(lr)];
    assert(s[0] == ReplyElemV::LoadResults(lr));
    assert(s.drop_first() =~= Seq::<ReplyElemV>::empty());
    assert(scan_load(s.drop_first(), Some(lr.items)) == scan_load_items(
        lr.items,
        false,
        Seq::empty(),
        Seq::empty(),
    ));
    lemma_load_counts_only(lr.items, Seq::empty(), Seq::empty());
}

} // verus!
