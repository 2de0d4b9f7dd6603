//! One interpreter per operation: each scans a decoded reply sequence, in
//! order, against that operation's grammar, recovering warning-severity
//! errors and failing on everything else the grammar refuses.  The scan
//! spec functions are the authoritative statement of that policy; every
//! interpreter returns exactly what its scan says.
use vstd::prelude::*;
use crate::error::{NETCONFError, NETCONFErrorV, NETCONFResult};
use crate::tok::{a_rollback, a_rollback_v, w_base_capability, w_base_capability_v, w_json, w_set, w_text, w_text_v, w_warning, w_warning_v, w_zero, w_zero_v};
use crate::util::bytes_eq;
use crate::xml::{Capabilities, ErrV, Hello, HelloV, LoadConfigurationResultsEnum, LoadErrorCount, LoadItemV, ReplyElemV, ReqV, RPC, RPCCommand, RPCError, RPCReply, RPCReplyCommand, elems_view, items_view, caps_view};

verus! {

/// Warning severity is recovered locally; every other severity is fatal.
pub open spec fn is_warning(e: ErrV) -> bool {
    e.severity == w_warning()
}

pub fn is_warning_exec(e: &RPCError) -> (r: bool)
    ensures
        r == is_warning(e@),
{
    bytes_eq(&e.error_severity, &w_warning_v())
}

/// Error views as a sequence.
pub open spec fn errs_view(s: Seq<RPCError>) -> Seq<ErrV> {
    s.map_values(|e: RPCError| e@)
}

/// Load-error-count messages as a sequence.
pub open spec fn lec_view(s: Seq<LoadErrorCount>) -> Seq<Seq<u8>> {
    s.map_values(|c: LoadErrorCount| c.message@)
}

/// What scanning a reply yields: the operation's value together with the
/// warnings that were surfaced, or the failure that aborted the scan.
pub ghost enum Outcome<T> {
    Success { value: T, warnings: Seq<ErrV> },
    Failure(NETCONFErrorV),
}

/// Scan for `command`: the first `Output` (text format) or bare text
/// (json format) is the result; later non-error elements are ignored.
pub open spec fn scan_cmd(
    elems: Seq<ReplyElemV>,
    fmt: Seq<u8>,
    found: Option<Seq<u8>>,
    warns: Seq<ErrV>,
) -> Outcome<Seq<u8>>
    decreases elems.len(),
{
    if elems.len() == 0 {
        match found {
            Some(v) => Outcome::Success { value: v, warnings: warns },
            None => Outcome::Failure(NETCONFErrorV::MissingOk),
        }
    } else {
        let e0 = elems[0];
        match e0 {
            ReplyElemV::ErrorElem(e) => if is_warning(e) {
                scan_cmd(elems.drop_first(), fmt, found, warns.push(e))
            } else {
                Outcome::Failure(NETCONFErrorV::RpcError(e))
            },
            _ => if found is Some {
                scan_cmd(elems.drop_first(), fmt, found, warns)
            } else {
                match e0 {
                    ReplyElemV::Output(t) => if fmt == w_text() {
                        scan_cmd(elems.drop_first(), fmt, Some(t), warns)
                    } else {
                        Outcome::Failure(NETCONFErrorV::UnexpectedCommand(e0))
                    },
                    ReplyElemV::Other(t) => if fmt == w_json() {
                        scan_cmd(elems.drop_first(), fmt, Some(t), warns)
                    } else {
                        Outcome::Failure(NETCONFErrorV::UnexpectedCommand(e0))
                    },
                    _ => Outcome::Failure(NETCONFErrorV::UnexpectedCommand(e0)),
                }
            },
        }
    }
}

pub open spec fn scan_command_reply(elems: Seq<ReplyElemV>, fmt: Seq<u8>) -> Outcome<Seq<u8>> {
    scan_cmd(elems, fmt, None, Seq::empty())
}

/// Scan for `lock-configuration`: only the empty reply succeeds; any element
/// at all, even `ok`, is unexpected.
pub open spec fn scan_lock_reply(elems: Seq<ReplyElemV>) -> Outcome<()> {
    if elems.len() == 0 {
        Outcome::Success { value: (), warnings: Seq::empty() }
    } else {
        Outcome::Failure(NETCONFErrorV::UnexpectedCommand(elems[0]))
    }
}

/// Scan for `unlock-configuration`: an empty reply or `ok` markers alone.
pub open spec fn scan_unlock_reply(elems: Seq<ReplyElemV>) -> Outcome<()>
    decreases elems.len(),
{
    if elems.len() == 0 {
        Outcome::Success { value: (), warnings: Seq::empty() }
    } else if elems[0] is OkElem {
        scan_unlock_reply(elems.drop_first())
    } else {
        Outcome::Failure(NETCONFErrorV::UnexpectedCommand(elems[0]))
    }
}

/// Scan for `commit-configuration`: `ok`, `commit-results` or a bare text
/// payload each count as the success marker.
pub open spec fn scan_commit(elems: Seq<ReplyElemV>, okk: bool, warns: Seq<ErrV>) -> Outcome<()>
    decreases elems.len(),
{
    if elems.len() == 0 {
        if okk {
            Outcome::Success { value: (), warnings: warns }
        } else {
            Outcome::Failure(NETCONFErrorV::MissingOk)
        }
    } else {
        match elems[0] {
            ReplyElemV::ErrorElem(e) => if is_warning(e) {
                scan_commit(elems.drop_first(), okk, warns.push(e))
            } else {
                Outcome::Failure(NETCONFErrorV::RpcError(e))
            },
            ReplyElemV::OkElem => scan_commit(elems.drop_first(), true, warns),
            ReplyElemV::CommitResultsElem => scan_commit(elems.drop_first(), true, warns),
            ReplyElemV::Other(_) => scan_commit(elems.drop_first(), true, warns),
            _ => Outcome::Failure(NETCONFErrorV::UnexpectedCommand(elems[0])),
        }
    }
}

pub open spec fn scan_commit_reply(elems: Seq<ReplyElemV>) -> Outcome<()> {
    scan_commit(elems, false, Seq::empty())
}

/// Scan for the confirming commit: only `ok` is the marker.
pub open spec fn scan_confirm(elems: Seq<ReplyElemV>, okk: bool, warns: Seq<ErrV>) -> Outcome<()>
    decreases elems.len(),
{
    if elems.len() == 0 {
        if okk {
            Outcome::Success { value: (), warnings: warns }
        } else {
            Outcome::Failure(NETCONFErrorV::MissingOk)
        }
    } else {
        match elems[0] {
            ReplyElemV::ErrorElem(e) => if is_warning(e) {
                scan_confirm(elems.drop_first(), okk, warns.push(e))
            } else {
                Outcome::Failure(NETCONFErrorV::RpcError(e))
            },
            ReplyElemV::OkElem => scan_confirm(elems.drop_first(), true, warns),
            _ => Outcome::Failure(NETCONFErrorV::UnexpectedCommand(elems[0])),
        }
    }
}

pub open spec fn scan_confirm_reply(elems: Seq<ReplyElemV>) -> Outcome<()> {
    scan_confirm(elems, false, Seq::empty())
}

/// Inner scan of `load-configuration-results`: success needs at least one
/// `ok`; `load-error-count` entries are diagnostics, not failures.
pub open spec fn scan_load_items(
    items: Seq<LoadItemV>,
    okk: bool,
    warns: Seq<ErrV>,
    diags: Seq<Seq<u8>>,
) -> Outcome<Seq<Seq<u8>>>
    decreases items.len(),
{
    if items.len() == 0 {
        if okk {
            Outcome::Success { value: diags, warnings: warns }
        } else {
            Outcome::Failure(NETCONFErrorV::MissingOk)
        }
    } else {
        match items[0] {
            LoadItemV::ErrorItem(e) => if is_warning(e) {
                scan_load_items(items.drop_first(), okk, warns.push(e), diags)
            } else {
                Outcome::Failure(NETCONFErrorV::RpcError(e))
            },
            LoadItemV::OkItem => scan_load_items(items.drop_first(), true, warns, diags),
            LoadItemV::ErrorCount(m) => scan_load_items(items.drop_first(), okk, warns, diags.push(m)),
        }
    }
}

/// Outer scan for `load-configuration`: exactly the results element is
/// accepted, then its inner sequence decides.
pub open spec fn scan_load(elems: Seq<ReplyElemV>, found: Option<Seq<LoadItemV>>) -> Outcome<
    Seq<Seq<u8>>,
>
    decreases elems.len(),
{
    if elems.len() == 0 {
        match found {
            Some(items) => scan_load_items(items, false, Seq::empty(), Seq::empty()),
            None => Outcome::Failure(NETCONFErrorV::MissingOk),
        }
    } else {
        match elems[0] {
            ReplyElemV::LoadResults(lr) => scan_load(elems.drop_first(), Some(lr.items)),
            _ => Outcome::Failure(NETCONFErrorV::UnexpectedCommand(elems[0])),
        }
    }
}

pub open spec fn scan_load_reply(elems: Seq<ReplyElemV>) -> Outcome<Seq<Seq<u8>>> {
    scan_load(elems, None)
}

/// Scan for the diff retrieval: the first `configuration-information`
/// element carries the diff text.
pub open spec fn scan_diff(
    elems: Seq<ReplyElemV>,
    found: Option<Seq<u8>>,
    warns: Seq<ErrV>,
) -> Outcome<Seq<u8>>
    decreases elems.len(),
{
    if elems.len() == 0 {
        match found {
            Some(v) => Outcome::Success { value: v, warnings: warns },
            None => Outcome::Failure(NETCONFErrorV::MissingOk),
        }
    } else {
        let e0 = elems[0];
        match e0 {
            ReplyElemV::ErrorElem(e) => if is_warning(e) {
                scan_diff(elems.drop_first(), found, warns.push(e))
            } else {
                Outcome::Failure(NETCONFErrorV::RpcError(e))
            },
            _ => if found is Some {
                scan_diff(elems.drop_first(), found, warns)
            } else {
                match e0 {
                    ReplyElemV::ConfigInfo { output, .. } => scan_diff(
                        elems.drop_first(),
                        Some(output),
                        warns,
                    ),
                    _ => Outcome::Failure(NETCONFErrorV::UnexpectedCommand(e0)),
                }
            },
        }
    }
}

pub open spec fn scan_diff_reply(elems: Seq<ReplyElemV>) -> Outcome<Seq<u8>> {
    scan_diff(elems, None, Seq::empty())
}

/// Scan for the configuration retrieval: the first `configuration-text`
/// element or bare text payload carries the result.
pub open spec fn scan_get(
    elems: Seq<ReplyElemV>,
    found: Option<Seq<u8>>,
    warns: Seq<ErrV>,
) -> Outcome<Seq<u8>>
    decreases elems.len(),
{
    if elems.len() == 0 {
        match found {
            Some(v) => Outcome::Success { value: v, warnings: warns },
            None => Outcome::Failure(NETCONFErrorV::MissingOk),
        }
    } else {
        let e0 = elems[0];
        match e0 {
            ReplyElemV::ErrorElem(e) => if is_warning(e) {
                scan_get(elems.drop_first(), found, warns.push(e))
            } else {
                Outcome::Failure(NETCONFErrorV::RpcError(e))
            },
            _ => if found is Some {
                scan_get(elems.drop_first(), found, warns)
            } else {
                match e0 {
                    ReplyElemV::ConfigText(t) => scan_get(elems.drop_first(), Some(t), warns),
                    ReplyElemV::Other(t) => scan_get(elems.drop_first(), Some(t), warns),
                    _ => Outcome::Failure(NETCONFErrorV::UnexpectedCommand(e0)),
                }
            },
        }
    }
}

pub open spec fn scan_get_reply(elems: Seq<ReplyElemV>) -> Outcome<Seq<u8>> {
    scan_get(elems, None, Seq::empty())
}

proof fn lemma_elems_view_drop(s: Seq<RPCReplyCommand>)
    requires
        s.len() > 0,
    ensures
        elems_view(s).len() == s.len(),
        elems_view(s)[0] == s[0]@,
        elems_view(s.drop_first()) =~= elems_view(s).drop_first(),
{
}

proof fn lemma_items_view_drop(s: Seq<LoadConfigurationResultsEnum>)
    requires
        s.len() > 0,
    ensures
        items_view(s).len() == s.len(),
        items_view(s)[0] == s[0]@,
        items_view(s.drop_first()) =~= items_view(s).drop_first(),
{
}

proof fn lemma_errs_view_push(s: Seq<RPCError>, e: RPCError)
    ensures
        errs_view(s.push(e)) =~= errs_view(s).push(e@),
{
}

proof fn lemma_lec_view_push(s: Seq<LoadErrorCount>, c: LoadErrorCount)
    ensures
        lec_view(s.push(c)) =~= lec_view(s).push(c.message@),
{
}

/// View of the partial result held while scanning.
pub open spec fn found_view(o: Option<Vec<u8>>) -> Option<Seq<u8>> {
    match o {
        Some(v) => Some(v@),
        None => None,
    }
}

proof fn lemma_elems_view_skip(s: Seq<RPCReplyCommand>, i: int)
    requires
        0 <= i < s.len(),
    ensures
        elems_view(s).skip(i).len() == s.len() - i,
        elems_view(s).skip(i)[0] == s[i]@,
        elems_view(s).skip(i).drop_first() =~= elems_view(s).skip(i + 1),
{
    assert(elems_view(s).skip(i)[0] == elems_view(s)[i]);
}

proof fn lemma_items_view_skip(s: Seq<LoadConfigurationResultsEnum>, i: int)
    requires
        0 <= i < s.len(),
    ensures
        items_view(s).skip(i).len() == s.len() - i,
        items_view(s).skip(i)[0] == s[i]@,
        items_view(s).skip(i).drop_first() =~= items_view(s).skip(i + 1),
{
    assert(items_view(s).skip(i)[0] == items_view(s)[i]);
}

/// Interpret the reply to a `command` request.
pub fn interpret_command_reply(reply: &RPCReply, format: &Vec<u8>) -> (r: NETCONFResult<
    (Vec<u8>, Vec<RPCError>),
>)
    ensures
        r is Ok <==> scan_command_reply(reply@, format@) is Success,
        r matches Ok(p) ==> scan_command_reply(reply@, format@) == (Outcome::Success {
            value: p.0@,
            warnings: errs_view(p.1@),
        }),
        r matches Err(e) ==> scan_command_reply(reply@, format@) == Outcome::<Seq<u8>>::Failure(
            e@,
        ),
{
    let ghost ev = reply@;
    let v = &reply.rpc_reply;
    let mut warns: Vec<RPCError> = Vec::new();
    let mut found: Option<Vec<u8>> = None;
    let mut i: usize = 0;
    proof {
        assert(errs_view(warns@) =~= Seq::<ErrV>::empty());
        assert(ev.skip(0) =~= ev);
    }
    while i < v.len()
        invariant
            i <= v@.len(),
            ev == reply@,
            ev == elems_view(v@),
            scan_cmd(ev, format@, None, Seq::empty()) == scan_cmd(
                ev.skip(i as int),
                format@,
                found_view(found),
                errs_view(warns@),
            ),
        decreases v@.len() - i,
    {
        proof {
            lemma_elems_view_skip(v@, i as int);
        }
        match &v[i] {
            RPCReplyCommand::RPCError(err) => {
                if is_warning_exec(err) {
                    let d = err.duplicate();
                    proof {
                        lemma_errs_view_push(warns@, d);
                    }
                    warns.push(d);
                } else {
                    return Err(NETCONFError::RpcError(err.duplicate()));
                }
            },
            e2 => {
                if found.is_some() {
                    proof {
                        assert(!(e2@ is ErrorElem));
                    }
                } else {
                    match e2 {
                        RPCReplyCommand::Output { text } => {
                            if bytes_eq(format, &w_text_v()) {
                                found = Some(crate::util::copy_bytes(text));
                            } else {
                                return Err(NETCONFError::UnexpectedCommand(e2.duplicate()));
                            }
                        },
                        RPCReplyCommand::Other(text) => {
                            if bytes_eq(format, &crate::tok::w_json_v()) {
                                found = Some(crate::util::copy_bytes(text));
                            } else {
                                return Err(NETCONFError::UnexpectedCommand(e2.duplicate()));
                            }
                        },
                        other => {
                            return Err(NETCONFError::UnexpectedCommand(other.duplicate()));
                        },
                    }
                }
            },
        }
        i += 1;
    }
    proof {
        assert(ev.skip(v@.len() as int).len() == 0);
    }
    match found {
        Some(out) => Ok((out, warns)),
        None => Err(NETCONFError::MissingOk),
    }
}

/// Interpret the reply to `lock-configuration`.
pub fn interpret_lock_reply(reply: &RPCReply) -> (r: NETCONFResult<()>)
    ensures
        r is Ok <==> scan_lock_reply(reply@) is Success,
        r matches Err(e) ==> scan_lock_reply(reply@) == Outcome::<()>::Failure(e@),
{
    if reply.rpc_reply.len() == 0 {
        Ok(())
    } else {
        proof {
            assert(reply@[0] == reply.rpc_reply@[0]@);
        }
        Err(NETCONFError::UnexpectedCommand(reply.rpc_reply[0].duplicate()))
    }
}

/// Interpret the reply to `unlock-configuration`.
pub fn interpret_unlock_reply(reply: &RPCReply) -> (r: NETCONFResult<()>)
    ensures
        r is Ok <==> scan_unlock_reply(reply@) is Success,
        r matches Err(e) ==> scan_unlock_reply(reply@) == Outcome::<()>::Failure(e@),
{
    let ghost ev = reply@;
    let v = &reply.rpc_reply;
    let mut i: usize = 0;
    proof {
        assert(ev.skip(0) =~= ev);
    }
    while i < v.len()
        invariant
            i <= v@.len(),
            ev == reply@,
            ev == elems_view(v@),
            scan_unlock_reply(ev) == scan_unlock_reply(ev.skip(i as int)),
        decreases v@.len() - i,
    {
        proof {
            lemma_elems_view_skip(v@, i as int);
        }
        match &v[i] {
            RPCReplyCommand::Okay => {},
            other => {
                return Err(NETCONFError::UnexpectedCommand(other.duplicate()));
            },
        }
        i += 1;
    }
    proof {
        assert(ev.skip(v@.len() as int).len() == 0);
    }
    Ok(())
}

/// Interpret the reply to a commit, plain or confirmed.
pub fn interpret_commit_reply(reply: &RPCReply) -> (r: NETCONFResult<Vec<RPCError>>)
    ensures
        r is Ok <==> scan_commit_reply(reply@) is Success,
        r matches Ok(w) ==> scan_commit_reply(reply@) == (Outcome::Success {
            value: (),
            warnings: errs_view(w@),
        }),
        r matches Err(e) ==> scan_commit_reply(reply@) == Outcome::<()>::Failure(e@),
{
    let ghost ev = reply@;
    let v = &reply.rpc_reply;
    let mut warns: Vec<RPCError> = Vec::new();
    let mut okk: bool = false;
    let mut i: usize = 0;
    proof {
        assert(errs_view(warns@) =~= Seq::<ErrV>::empty());
        assert(ev.skip(0) =~= ev);
    }
    while i < v.len()
        invariant
            i <= v@.len(),
            ev == reply@,
            ev == elems_view(v@),
            scan_commit(ev, false, Seq::empty()) == scan_commit(
                ev.skip(i as int),
                okk,
                errs_view(warns@),
            ),
        decreases v@.len() - i,
    {
        proof {
            lemma_elems_view_skip(v@, i as int);
        }
        match &v[i] {
            RPCReplyCommand::RPCError(err) => {
                if is_warning_exec(err) {
                    let d = err.duplicate();
                    proof {
                        lemma_errs_view_push(warns@, d);
                    }
                    warns.push(d);
                } else {
                    return Err(NETCONFError::RpcError(err.duplicate()));
                }
            },
            RPCReplyCommand::Okay => {
                okk = true;
            },
            RPCReplyCommand::CommitResults => {
                okk = true;
            },
            RPCReplyCommand::Other(_) => {
                okk = true;
            },
            other => {
                return Err(NETCONFError::UnexpectedCommand(other.duplicate()));
            },
        }
        i += 1;
    }
    proof {
        assert(ev.skip(v@.len() as int).len() == 0);
    }
    if okk {
        Ok(warns)
    } else {
        Err(NETCONFError::MissingOk)
    }
}

/// Interpret the reply to the confirming commit.
pub fn interpret_confirm_reply(reply: &RPCReply) -> (r: NETCONFResult<Vec<RPCError>>)
    ensures
        r is Ok <==> scan_confirm_reply(reply@) is Success,
        r matches Ok(w) ==> scan_confirm_reply(reply@) == (Outcome::Success {
            value: (),
            warnings: errs_view(w@),
        }),
        r matches Err(e) ==> scan_confirm_reply(reply@) == Outcome::<()>::Failure(e@),
{
    let ghost ev = reply@;
    let v = &reply.rpc_reply;
    let mut warns: Vec<RPCError> = Vec::new();
    let mut okk: bool = false;
    let mut i: usize = 0;
    proof {
        assert(errs_view(warns@) =~= Seq::<ErrV>::empty());
        assert(ev.skip(0) =~= ev);
    }
    while i < v.len()
        invariant
            i <= v@.len(),
            ev == reply@,
            ev == elems_view(v@),
            scan_confirm(ev, false, Seq::empty()) == scan_confirm(
                ev.skip(i as int),
                okk,
                errs_view(warns@),
            ),
        decreases v@.len() - i,
    {
        proof {
            lemma_elems_view_skip(v@, i as int);
        }
        match &v[i] {
            RPCReplyCommand::RPCError(err) => {
                if is_warning_exec(err) {
                    let d = err.duplicate();
                    proof {
                        lemma_errs_view_push(warns@, d);
                    }
                    warns.push(d);
                } else {
                    return Err(NETCONFError::RpcError(err.duplicate()));
                }
            },
            RPCReplyCommand::Okay => {
                okk = true;
            },
            other => {
                return Err(NETCONFError::UnexpectedCommand(other.duplicate()));
            },
        }
        i += 1;
    }
    proof {
        assert(ev.skip(v@.len() as int).len() == 0);
    }
    if okk {
        Ok(warns)
    } else {
        Err(NETCONFError::MissingOk)
    }
}

/// View of the results element held while scanning a load reply.
pub open spec fn lr_found_view(o: Option<Vec<LoadConfigurationResultsEnum>>) -> Option<
    Seq<LoadItemV>,
> {
    match o {
        Some(v) => Some(items_view(v@)),
        None => None,
    }
}

/// Interpret the reply to `load-configuration`: the diagnostics of the inner
/// sequence, or its failure.
pub fn interpret_load_reply(reply: &RPCReply) -> (r: NETCONFResult<
    (Vec<LoadErrorCount>, Vec<RPCError>),
>)
    ensures
        r is Ok <==> scan_load_reply(reply@) is Success,
        r matches Ok(p) ==> scan_load_reply(reply@) == (Outcome::Success {
            value: lec_view(p.0@),
            warnings: errs_view(p.1@),
        }),
        r matches Err(e) ==> scan_load_reply(reply@) == Outcome::<Seq<Seq<u8>>>::Failure(e@),
{
    let ghost ev = reply@;
    let v = &reply.rpc_reply;
    let mut found: Option<Vec<LoadConfigurationResultsEnum>> = None;
    let mut i: usize = 0;
    proof {
        assert(ev.skip(0) =~= ev);
    }
    while i < v.len()
        invariant
            i <= v@.len(),
            ev == reply@,
            ev == elems_view(v@),
            scan_load(ev, None) == scan_load(ev.skip(i as int), lr_found_view(found)),
        decreases v@.len() - i,
    {
        proof {
            lemma_elems_view_skip(v@, i as int);
        }
        match &v[i] {
            RPCReplyCommand::LoadConfigurationResults(lr) => {
                let d = lr.duplicate();
                proof {
                    assert(items_view(d.load_configuration_results@) == lr@.items);
                }
                found = Some(d.load_configuration_results);
            },
            other => {
                return Err(NETCONFError::UnexpectedCommand(other.duplicate()));
            },
        }
        i += 1;
    }
    proof {
        assert(ev.skip(v@.len() as int).len() == 0);
    }
    let items = match found {
        Some(items) => items,
        None => {
            return Err(NETCONFError::MissingOk);
        },
    };
    let ghost inner = items_view(items@);
    let mut warns: Vec<RPCError> = Vec::new();
    let mut diags: Vec<LoadErrorCount> = Vec::new();
    let mut okk: bool = false;
    let mut j: usize = 0;
    proof {
        assert(errs_view(warns@) =~= Seq::<ErrV>::empty());
        assert(lec_view(diags@) =~= Seq::<Seq<u8>>::empty());
        assert(inner.skip(0) =~= inner);
    }
    while j < items.len()
        invariant
            j <= items@.len(),
            inner == items_view(items@),
            scan_load(reply@, None) == scan_load_items(
                inner.skip(j as int),
                okk,
                errs_view(warns@),
                lec_view(diags@),
            ),
        decreases items@.len() - j,
    {
        proof {
            lemma_items_view_skip(items@, j as int);
        }
        match &items[j] {
            LoadConfigurationResultsEnum::RPCError(err) => {
                if is_warning_exec(err) {
                    let d = err.duplicate();
                    proof {
                        lemma_errs_view_push(warns@, d);
                    }
                    warns.push(d);
                } else {
                    return Err(NETCONFError::RpcError(err.duplicate()));
                }
            },
            LoadConfigurationResultsEnum::Okay => {
                okk = true;
            },
            LoadConfigurationResultsEnum::LoadErrorCount(c) => {
                let d = c.duplicate();
                proof {
                    lemma_lec_view_push(diags@, d);
                }
                diags.push(d);
            },
        }
        j += 1;
    }
    proof {
        assert(inner.skip(items@.len() as int).len() == 0);
    }
    if okk {
        Ok((diags, warns))
    } else {
        Err(NETCONFError::MissingOk)
    }
}

/// Interpret the reply to the diff retrieval.
pub fn interpret_diff_reply(reply: &RPCReply) -> (r: NETCONFResult<(Vec<u8>, Vec<RPCError>)>)
    ensures
        r is Ok <==> scan_diff_reply(reply@) is Success,
        r matches Ok(p) ==> scan_diff_reply(reply@) == (Outcome::Success {
            value: p.0@,
            warnings: errs_view(p.1@),
        }),
        r matches Err(e) ==> scan_diff_reply(reply@) == Outcome::<Seq<u8>>::Failure(e@),
{
    let ghost ev = reply@;
    let v = &reply.rpc_reply;
    let mut warns: Vec<RPCError> = Vec::new();
    let mut found: Option<Vec<u8>> = None;
    let mut i: usize = 0;
    proof {
        assert(errs_view(warns@) =~= Seq::<ErrV>::empty());
        assert(ev.skip(0) =~= ev);
    }
    while i < v.len()
        invariant
            i <= v@.len(),
            ev == reply@,
            ev == elems_view(v@),
            scan_diff(ev, None, Seq::empty()) == scan_diff(
                ev.skip(i as int),
                found_view(found),
                errs_view(warns@),
            ),
        decreases v@.len() - i,
    {
        proof {
            lemma_elems_view_skip(v@, i as int);
        }
        match &v[i] {
            RPCReplyCommand::RPCError(err) => {
                if is_warning_exec(err) {
                    let d = err.duplicate();
                    proof {
                        lemma_errs_view_push(warns@, d);
                    }
                    warns.push(d);
                } else {
                    return Err(NETCONFError::RpcError(err.duplicate()));
                }
            },
            e2 => {
                if found.is_some() {
                    proof {
                        assert(!(e2@ is ErrorElem));
                    }
                } else {
                    match e2 {
                        RPCReplyCommand::ConfigurationInformation { configuration_output, .. } => {
                            found = Some(crate::util::copy_bytes(configuration_output));
                        },
                        other => {
                            return Err(NETCONFError::UnexpectedCommand(other.duplicate()));
                        },
                    }
                }
            },
        }
        i += 1;
    }
    proof {
        assert(ev.skip(v@.len() as int).len() == 0);
    }
    match found {
        Some(out) => Ok((out, warns)),
        None => Err(NETCONFError::MissingOk),
    }
}

/// Interpret the reply to the configuration retrieval.
pub fn interpret_get_reply(reply: &RPCReply) -> (r: NETCONFResult<(Vec<u8>, Vec<RPCError>)>)
    ensures
        r is Ok <==> scan_get_reply(reply@) is Success,
        r matches Ok(p) ==> scan_get_reply(reply@) == (Outcome::Success {
            value: p.0@,
            warnings: errs_view(p.1@),
        }),
        r matches Err(e) ==> scan_get_reply(reply@) == Outcome::<Seq<u8>>::Failure(e@),
{
    let ghost ev = reply@;
    let v = &reply.rpc_reply;
    let mut warns: Vec<RPCError> = Vec::new();
    let mut found: Option<Vec<u8>> = None;
    let mut i: usize = 0;
    proof {
        assert(errs_view(warns@) =~= Seq::<ErrV>::empty());
        assert(ev.skip(0) =~= ev);
    }
    while i < v.len()
        invariant
            i <= v@.len(),
            ev == reply@,
            ev == elems_view(v@),
            scan_get(ev, None, Seq::empty()) == scan_get(
                ev.skip(i as int),
                found_view(found),
                errs_view(warns@),
            ),
        decreases v@.len() - i,
    {
        proof {
            lemma_elems_view_skip(v@, i as int);
        }
        match &v[i] {
            RPCReplyCommand::RPCError(err) => {
                if is_warning_exec(err) {
                    let d = err.duplicate();
                    proof {
                        lemma_errs_view_push(warns@, d);
                    }
                    warns.push(d);
                } else {
                    return Err(NETCONFError::RpcError(err.duplicate()));
                }
            },
            e2 => {
                if found.is_some() {
                    proof {
                        assert(!(e2@ is ErrorElem));
                    }
                } else {
                    match e2 {
                        RPCReplyCommand::ConfigurationText { text } => {
                            found = Some(crate::util::copy_bytes(text));
                        },
                        RPCReplyCommand::Other(text) => {
                            found = Some(crate::util::copy_bytes(text));
                        },
                        other => {
                            return Err(NETCONFError::UnexpectedCommand(other.duplicate()));
                        },
                    }
                }
            },
        }
        i += 1;
    }
    proof {
        assert(ev.skip(v@.len() as int).len() == 0);
    }
    match found {
        Some(out) => Ok((out, warns)),
        None => Err(NETCONFError::MissingOk),
    }
}

/// The fixed capability announcement this client sends.
pub fn client_hello() -> (h: Hello)
    ensures
        h@ == (HelloV {
            capabilities: seq![w_base_capability()],
            session_id: None,
            namespace_junos: None,
            namespace: None,
        }),
{
    let mut caps: Vec<Vec<u8>> = Vec::new();
    caps.push(w_base_capability_v());
    let h = Hello {
        capabilities: Capabilities { capability: caps },
        session_id: None,
        namespace_junos: None,
        namespace: None,
    };
    proof {
        assert(caps_view(h.capabilities.capability@) =~= seq![w_base_capability()]);
    }
    h
}

/// The `command` request.
pub fn command_rpc(command: Vec<u8>, format: Vec<u8>) -> (r: RPC)
    ensures
        r@ == (ReqV::Command { format: format@, command: command@ }),
{
    RPC { rpc: RPCCommand::Command { format, command } }
}

/// The `lock-configuration` request.
pub fn lock_rpc() -> (r: RPC)
    ensures
        r@ == ReqV::LockConfiguration,
{
    RPC { rpc: RPCCommand::LockConfiguration {} }
}

/// The `unlock-configuration` request.
pub fn unlock_rpc() -> (r: RPC)
    ensures
        r@ == ReqV::UnlockConfiguration,
{
    RPC { rpc: RPCCommand::UnlockConfiguration {} }
}

/// The `load-configuration` request.  The payload lands in the child the
/// format selects; formats outside `text` and `set` are a caller error.
pub fn load_rpc(cfg: Vec<u8>, action: Vec<u8>, format: Vec<u8>) -> (r: RPC)
    requires
        format@ == w_text() || format@ == w_set(),
    ensures
        r@ == (ReqV::LoadConfiguration {
            format: format@,
            action: action@,
            cfg_text: if format@ == w_text() {
                Some(cfg@)
            } else {
                None
            },
            cfg_set: if format@ == w_set() {
                Some(cfg@)
            } else {
                None
            },
        }),
{
    proof {
        assert(w_text() != w_set()) by {
            assert(w_text().len() != w_set().len());
        }
    }
    if bytes_eq(&format, &w_text_v()) {
        RPC {
            rpc: RPCCommand::LoadConfiguration {
                format,
                action,
                cfg_text: Some(cfg),
                cfg_set: None,
            },
        }
    } else {
        RPC {
            rpc: RPCCommand::LoadConfiguration {
                format,
                action,
                cfg_text: None,
                cfg_set: Some(cfg),
            },
        }
    }
}

/// The commit request: plain, or confirmed with a timeout.
pub fn commit_rpc(confirm_timeout: Option<i32>) -> (r: RPC)
    ensures
        r@ == (match confirm_timeout {
            None => ReqV::CommitConfiguration,
            Some(t) => ReqV::CommitConfirmedConfiguration { confirm_timeout: t as int },
        }),
{
    match confirm_timeout {
        None => RPC { rpc: RPCCommand::CommitConfiguration {} },
        Some(t) => RPC {
            rpc: RPCCommand::CommitConfirmedConfiguration {
                confirmed: crate::xml::ConfigurationConfirmed {},
                confirm_timeout: t,
            },
        },
    }
}

/// The confirming commit: a second plain commit inside the window.
pub fn confirm_rpc() -> (r: RPC)
    ensures
        r@ == ReqV::CommitConfiguration,
{
    RPC { rpc: RPCCommand::CommitConfiguration {} }
}

/// The diff retrieval: rollback 0 compared against the candidate.
pub fn diff_rpc(format: Vec<u8>) -> (r: RPC)
    ensures
        r@ == (ReqV::GetConfiguration {
            format: format@,
            rollback: Some(w_zero()),
            compare: Some(a_rollback()),
            source: None,
        }),
{
    RPC {
        rpc: RPCCommand::GetConfiguration {
            format,
            rollback: Some(w_zero_v()),
            compare: Some(a_rollback_v()),
            source: None,
        },
    }
}

/// The configuration retrieval from a named source.
pub fn get_rpc(format: Vec<u8>, source: Vec<u8>) -> (r: RPC)
    ensures
        r@ == (ReqV::GetConfiguration {
            format: format@,
            rollback: None,
            compare: None,
            source: Some(source@),
        }),
{
    RPC {
        rpc: RPCCommand::GetConfiguration { format, rollback: None, compare: None, source: Some(source) },
    }
}

} // verus!
