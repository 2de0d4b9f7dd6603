//! Parsing of wire XML back into the data model: one spec parser per
//! production, each mirrored by an executable parser that returns exactly
//! what the spec parser says.  Any element or attribute outside the schema
//! at its position is a hard failure, never skipped.
use vstd::prelude::*;
use crate::error::{NETCONFError, NETCONFErrorV};
use crate::num::{parse_i32, parse_i32_exec};
use crate::text::{is_name_byte, name_end, name_end_exec, parse_text, parse_text_exec, skip_ws, skip_ws_exec, starts_with, starts_with_exec};
use crate::tok::{a_action, a_action_v, a_compare, a_compare_v, a_format, a_format_v, a_rollback, a_rollback_v, a_source, a_source_v, a_xmlns, a_xmlns_nc, a_xmlns_nc_v, a_xmlns_v, n_bad_element, n_bad_element_v, n_capabilities, n_capabilities_v, n_capability, n_capability_v, n_command, n_command_v, n_commit_configuration, n_commit_configuration_v, n_commit_results, n_commit_results_v, n_configuration_information, n_configuration_information_v, n_configuration_output, n_configuration_output_v, n_configuration_set, n_configuration_set_v, n_configuration_text, n_configuration_text_v, n_confirm_timeout, n_confirm_timeout_v, n_confirmed, n_confirmed_v, n_error_info, n_error_info_v, n_error_message, n_error_message_v, n_error_path, n_error_path_v, n_error_severity, n_error_severity_v, n_error_tag, n_error_tag_v, n_error_type, n_error_type_v, n_get_configuration, n_get_configuration_v, n_hello, n_hello_v, n_load_configuration, n_load_configuration_results, n_load_configuration_results_v, n_load_configuration_v, n_load_error_count, n_load_error_count_v, n_lock_configuration, n_lock_configuration_v, n_ok, n_ok_v, n_output, n_output_v, n_rpc, n_rpc_error, n_rpc_error_v, n_rpc_reply, n_rpc_reply_v, n_rpc_v, n_session_id, n_session_id_v, n_source_daemon, n_source_daemon_v, n_unlock_configuration, n_unlock_configuration_v};
use crate::util::{bytes_eq, copy_bytes, subvec};
use crate::xml::{Capabilities, ConfigurationConfirmed, ErrV, Hello, HelloV, LoadConfigurationResults, LoadConfigurationResultsEnum, LoadErrorCount, LoadItemV, LoadResultsV, ReplyElemV, ReqV, RPC, RPCCommand, RPCError, RPCErrorInfo, RPCReply, RPCReplyCommand, RPCReplyCommand as RElem, elems_view, items_view, caps_view, opt_view, info_view};

verus! {

/// An element or attribute name: a non-empty name run.
pub open spec fn parse_name(s: Seq<u8>, i: int) -> Option<(Seq<u8>, int)> {
    let j = name_end(s, i);
    if 0 <= i && i < j {
        Some((s.subrange(i, j), j))
    } else {
        None
    }
}

pub fn parse_name_exec(s: &Vec<u8>, i: usize) -> (r: Option<(Vec<u8>, usize)>)
    requires
        i <= s@.len(),
    ensures
        r is Some <==> parse_name(s@, i as int) is Some,
        r matches Some(p) ==> parse_name(s@, i as int) == Some((p.0@, p.1 as int)) && i <= p.1
            <= s@.len(),
{
    let j = name_end_exec(s, i);
    if i < j {
        Some((subvec(s, i, j), j))
    } else {
        None
    }
}

/// An optional attribute ` name="value"`; absent attributes consume nothing.
pub open spec fn parse_opt_attr(s: Seq<u8>, i: int, name: Seq<u8>) -> Option<
    (Option<Seq<u8>>, int),
> {
    let j = skip_ws(s, i);
    if starts_with(s, j, name + seq![61u8, 34u8]) {
        let k = j + name.len() + 2;
        match parse_text(s, k, 34) {
            Some(p) => Some((Some(p.0), p.1 + 1)),
            None => None,
        }
    } else {
        Some((None, i))
    }
}

pub fn parse_opt_attr_exec(s: &Vec<u8>, i: usize, name: &Vec<u8>) -> (r: Option<
    (Option<Vec<u8>>, usize),
>)
    requires
        i <= s@.len(),
    ensures
        r is Some <==> parse_opt_attr(s@, i as int, name@) is Some,
        r matches Some(p) ==> parse_opt_attr(s@, i as int, name@) == Some(
            (opt_view(p.0), p.1 as int),
        ) && p.1 <= s@.len(),
{
    let n = s.len();
    let j = skip_ws_exec(s, i);
    let mut lit = copy_bytes(name);
    lit.push(61);
    lit.push(34);
    proof {
        assert(lit@ =~= name@ + seq![61u8, 34u8]);
    }
    if starts_with_exec(s, j, &lit) {
        proof {
            assert(j + name@.len() + 2 <= n);
        }
        let k = j + name.len() + 2;
        match parse_text_exec(s, k, 34) {
            Some(p) => Some((Some(p.0), p.1 + 1)),
            None => None,
        }
    } else {
        Some((None, i))
    }
}

/// Attributes on the reply envelope are read and discarded; the position
/// returned holds the byte after them.
pub open spec fn skip_attrs(s: Seq<u8>, i: int) -> Option<int>
    decreases s.len() - i,
{
    let j = skip_ws(s, i);
    if 0 <= j && j < s.len() && is_name_byte(s[j]) {
        let ne = name_end(s, j);
        if ne + 1 < s.len() && s[ne] == 61 && s[ne + 1] == 34 {
            match parse_text(s, ne + 2, 34) {
                Some(p) => if i < p.1 + 1 && p.1 + 1 <= s.len() {
                    skip_attrs(s, p.1 + 1)
                } else {
                    None
                },
                None => None,
            }
        } else {
            None
        }
    } else {
        Some(j)
    }
}

pub fn skip_attrs_exec(s: &Vec<u8>, i: usize) -> (r: Option<usize>)
    requires
        i <= s@.len(),
    ensures
        r is Some <==> skip_attrs(s@, i as int) is Some,
        r matches Some(j) ==> skip_attrs(s@, i as int) == Some(j as int) && j <= s@.len(),
    decreases s@.len() - i,
{
    let j = skip_ws_exec(s, i);
    if j < s.len() {
        let b = s[j];
        if (97 <= b && b <= 122) || b == 45 || b == 58 {
            let ne = name_end_exec(s, j);
            if ne < s.len() && ne + 1 < s.len() && s[ne] == 61 && s[ne + 1] == 34 {
                match parse_text_exec(s, ne + 2, 34) {
                    Some(p) => {
                        if i < p.1 + 1 && p.1 + 1 <= s.len() {
                            skip_attrs_exec(s, p.1 + 1)
                        } else {
                            None
                        }
                    },
                    None => None,
                }
            } else {
                None
            }
        } else {
            Some(j)
        }
    } else {
        Some(j)
    }
}

/// The tail of an element with no body, starting right after its name:
/// either `/>` or `>` followed by its close tag.
pub open spec fn parse_empty_end(s: Seq<u8>, i: int, name: Seq<u8>) -> Option<int> {
    let j = skip_ws(s, i);
    if starts_with(s, j, seq![47u8, 62u8]) {
        Some(j + 2)
    } else if 0 <= j && j < s.len() && s[j] == 62 {
        let k = skip_ws(s, j + 1);
        if starts_with(s, k, crate::encode::close_tag(name)) {
            Some(k + name.len() + 3)
        } else {
            None
        }
    } else {
        None
    }
}

/// The close tag of `name` as an executable literal.
fn close_tag_v(name: &Vec<u8>) -> (r: Vec<u8>)
    ensures
        r@ == crate::encode::close_tag(name@),
{
    let mut r: Vec<u8> = Vec::new();
    r.push(60);
    r.push(47);
    crate::util::append_bytes(&mut r, name);
    r.push(62);
    proof {
        assert(r@ =~= crate::encode::close_tag(name@));
    }
    r
}

/// The open tag of `name` as an executable literal.
fn open_tag_v(name: &Vec<u8>) -> (r: Vec<u8>)
    ensures
        r@ == crate::encode::open_tag(name@),
{
    let mut r: Vec<u8> = Vec::new();
    r.push(60);
    crate::util::append_bytes(&mut r, name);
    r.push(62);
    proof {
        assert(r@ =~= crate::encode::open_tag(name@));
    }
    r
}

pub fn parse_empty_end_exec(s: &Vec<u8>, i: usize, name: &Vec<u8>) -> (r: Option<usize>)
    requires
        i <= s@.len(),
    ensures
        r is Some <==> parse_empty_end(s@, i as int, name@) is Some,
        r matches Some(j) ==> parse_empty_end(s@, i as int, name@) == Some(j as int) && j
            <= s@.len(),
{
    let n = s.len();
    let j = skip_ws_exec(s, i);
    let mut se: Vec<u8> = Vec::new();
    se.push(47);
    se.push(62);
    proof {
        assert(se@ =~= seq![47u8, 62u8]);
    }
    if starts_with_exec(s, j, &se) {
        proof {
            assert(j + 2 <= n);
        }
        Some(j + 2)
    } else if j < s.len() && s[j] == 62 {
        let k = skip_ws_exec(s, j + 1);
        let ct = close_tag_v(name);
        if starts_with_exec(s, k, &ct) {
            proof {
                assert(k + name@.len() + 3 <= n);
            }
            Some(k + name.len() + 3)
        } else {
            None
        }
    } else {
        None
    }
}

/// The body of a text element, starting right after its name: `>`, the
/// text, the close tag.
pub open spec fn parse_text_body(s: Seq<u8>, i: int, name: Seq<u8>) -> Option<(Seq<u8>, int)> {
    if 0 <= i && i < s.len() && s[i] == 62 {
        match parse_text(s, i + 1, 60) {
            Some(p) => if starts_with(s, p.1, crate::encode::close_tag(name)) {
                Some((p.0, p.1 + name.len() + 3))
            } else {
                None
            },
            None => None,
        }
    } else {
        None
    }
}

pub fn parse_text_body_exec(s: &Vec<u8>, i: usize, name: &Vec<u8>) -> (r: Option<(Vec<u8>, usize)>)
    requires
        i <= s@.len(),
    ensures
        r is Some <==> parse_text_body(s@, i as int, name@) is Some,
        r matches Some(p) ==> parse_text_body(s@, i as int, name@) == Some((p.0@, p.1 as int))
            && p.1 <= s@.len(),
{
    if i < s.len() && s[i] == 62 {
        match parse_text_exec(s, i + 1, 60) {
            Some(p) => {
                let ct = close_tag_v(name);
                if starts_with_exec(s, p.1, &ct) {
                    proof {
                        assert(p.1 + name@.len() + 3 <= s@.len());
                    }
                    Some((p.0, p.1 + name.len() + 3))
                } else {
                    None
                }
            },
            None => None,
        }
    } else {
        None
    }
}

/// A whole text element `<name>text</name>`, with leading whitespace.
pub open spec fn parse_text_elem(s: Seq<u8>, i: int, name: Seq<u8>) -> Option<(Seq<u8>, int)> {
    let j = skip_ws(s, i);
    if starts_with(s, j, crate::encode::open_tag(name)) {
        parse_text_body(s, j + name.len() + 1, name)
    } else {
        None
    }
}

pub fn parse_text_elem_exec(s: &Vec<u8>, i: usize, name: &Vec<u8>) -> (r: Option<(Vec<u8>, usize)>)
    requires
        i <= s@.len(),
    ensures
        r is Some <==> parse_text_elem(s@, i as int, name@) is Some,
        r matches Some(p) ==> parse_text_elem(s@, i as int, name@) == Some((p.0@, p.1 as int))
            && p.1 <= s@.len(),
{
    let n = s.len();
    let j = skip_ws_exec(s, i);
    let ot = open_tag_v(name);
    if starts_with_exec(s, j, &ot) {
        proof {
            assert(j + name@.len() + 2 <= n);
        }
        parse_text_body_exec(s, j + name.len() + 1, name)
    } else {
        None
    }
}

/// An optional text element: absent when the next tag is a different one.
pub open spec fn parse_opt_text_elem(s: Seq<u8>, i: int, name: Seq<u8>) -> Option<
    (Option<Seq<u8>>, int),
> {
    let j = skip_ws(s, i);
    if starts_with(s, j, crate::encode::open_tag(name)) {
        match parse_text_body(s, j + name.len() + 1, name) {
            Some(p) => Some((Some(p.0), p.1)),
            None => None,
        }
    } else {
        Some((None, i))
    }
}

pub fn parse_opt_text_elem_exec(s: &Vec<u8>, i: usize, name: &Vec<u8>) -> (r: Option<
    (Option<Vec<u8>>, usize),
>)
    requires
        i <= s@.len(),
    ensures
        r is Some <==> parse_opt_text_elem(s@, i as int, name@) is Some,
        r matches Some(p) ==> parse_opt_text_elem(s@, i as int, name@) == Some(
            (opt_view(p.0), p.1 as int),
        ) && p.1 <= s@.len(),
{
    let n = s.len();
    let j = skip_ws_exec(s, i);
    let ot = open_tag_v(name);
    if starts_with_exec(s, j, &ot) {
        proof {
            assert(j + name@.len() + 2 <= n);
        }
        match parse_text_body_exec(s, j + name.len() + 1, name) {
            Some(p) => Some((Some(p.0), p.1)),
            None => None,
        }
    } else {
        Some((None, i))
    }
}

/// The fields of an `rpc-error`, in schema order, starting at the `>` of
/// its open tag.
pub open spec fn parse_err_info(s: Seq<u8>, i: int) -> Option<(Option<Seq<u8>>, int)> {
    let j = skip_ws(s, i);
    if starts_with(s, j, crate::encode::open_tag(n_error_info())) {
        match parse_text_elem(s, j + n_error_info().len() + 2, n_bad_element()) {
            Some(b) => {
                let k = skip_ws(s, b.1);
                if starts_with(s, k, crate::encode::close_tag(n_error_info())) {
                    Some((Some(b.0), k + n_error_info().len() + 3))
                } else {
                    None
                }
            },
            None => None,
        }
    } else {
        Some((None, i))
    }
}

pub fn parse_err_info_exec(s: &Vec<u8>, i: usize) -> (r: Option<(Option<Vec<u8>>, usize)>)
    requires
        i <= s@.len(),
    ensures
        r is Some <==> parse_err_info(s@, i as int) is Some,
        r matches Some(p) ==> parse_err_info(s@, i as int) == Some((opt_view(p.0), p.1 as int))
            && p.1 <= s@.len(),
{
    let n = s.len();
    let j = skip_ws_exec(s, i);
    let nv = n_error_info_v();
    let ot = open_tag_v(&nv);
    if starts_with_exec(s, j, &ot) {
        proof {
            assert(j + n_error_info().len() + 2 <= n);
        }
        match parse_text_elem_exec(s, j + nv.len() + 2, &n_bad_element_v()) {
            Some(b) => {
                let k = skip_ws_exec(s, b.1);
                let ct = close_tag_v(&nv);
                if starts_with_exec(s, k, &ct) {
                    proof {
                        assert(k + n_error_info().len() + 3 <= n);
                    }
                    Some((Some(b.0), k + nv.len() + 3))
                } else {
                    None
                }
            },
            None => None,
        }
    } else {
        Some((None, i))
    }
}

/// The body of an `rpc-error`, starting at the `>` of its open tag.
pub open spec fn parse_err_body(s: Seq<u8>, i: int) -> Option<(ErrV, int)> {
    if 0 <= i && i < s.len() && s[i] == 62 {
        match parse_text_elem(s, i + 1, n_error_severity()) {
            Some(sev) => match parse_text_elem(s, sev.1, n_error_message()) {
                Some(msg) => match parse_opt_text_elem(s, msg.1, n_error_path()) {
                    Some(path) => match parse_opt_text_elem(s, path.1, n_error_type()) {
                        Some(typ) => match parse_opt_text_elem(s, typ.1, n_error_tag()) {
                            Some(tag) => match parse_err_info(s, tag.1) {
                                Some(info) => match parse_opt_text_elem(
                                    s,
                                    info.1,
                                    n_source_daemon(),
                                ) {
                                    Some(sd) => {
                                        let j = skip_ws(s, sd.1);
                                        if starts_with(
                                            s,
                                            j,
                                            crate::encode::close_tag(n_rpc_error()),
                                        ) {
                                            Some(
                                                (
                                                    ErrV {
                                                        severity: sev.0,
                                                        message: msg.0,
                                                        path: path.0,
                                                        typ: typ.0,
                                                        tag: tag.0,
                                                        bad_element: info.0,
                                                        source_daemon: sd.0,
                                                    },
                                                    j + n_rpc_error().len() + 3,
                                                ),
                                            )
                                        } else {
                                            None
                                        }
                                    },
                                    None => None,
                                },
                                None => None,
                            },
                            None => None,
                        },
                        None => None,
                    },
                    None => None,
                },
                None => None,
            },
            None => None,
        }
    } else {
        None
    }
}

pub fn parse_err_body_exec(s: &Vec<u8>, i: usize) -> (r: Option<(RPCError, usize)>)
    requires
        i <= s@.len(),
    ensures
        r is Some <==> parse_err_body(s@, i as int) is Some,
        r matches Some(p) ==> parse_err_body(s@, i as int) == Some((p.0@, p.1 as int)) && p.1
            <= s@.len(),
{
    let n = s.len();
    if i < n && s[i] == 62 {
        match parse_text_elem_exec(s, i + 1, &n_error_severity_v()) {
            Some(sev) => match parse_text_elem_exec(s, sev.1, &n_error_message_v()) {
                Some(msg) => match parse_opt_text_elem_exec(s, msg.1, &n_error_path_v()) {
                    Some(path) => match parse_opt_text_elem_exec(s, path.1, &n_error_type_v()) {
                        Some(typ) => match parse_opt_text_elem_exec(s, typ.1, &n_error_tag_v()) {
                            Some(tag) => match parse_err_info_exec(s, tag.1) {
                                Some(info) => match parse_opt_text_elem_exec(
                                    s,
                                    info.1,
                                    &n_source_daemon_v(),
                                ) {
                                    Some(sd) => {
                                        let j = skip_ws_exec(s, sd.1);
                                        let ct = close_tag_v(&n_rpc_error_v());
                                        if starts_with_exec(s, j, &ct) {
                                            proof {
                                                assert(j + n_rpc_error().len() + 3 <= n);
                                            }
                                            let e = RPCError {
                                                error_severity: sev.0,
                                                error_message: msg.0,
                                                error_path: path.0,
                                                error_type: typ.0,
                                                error_tag: tag.0,
                                                error_info: match info.0 {
                                                    Some(b) => Some(RPCErrorInfo { bad_element: b }),
                                                    None => None,
                                                },
                                                source_daemon: sd.0,
                                            };
                                            Some((e, j + n_rpc_error_v().len() + 3))
                                        } else {
                                            None
                                        }
                                    },
                                    None => None,
                                },
                                None => None,
                            },
                            None => None,
                        },
                        None => None,
                    },
                    None => None,
                },
                None => None,
            },
            None => None,
        }
    } else {
        None
    }
}

/// One entry of `load-configuration-results`, starting at its `<`.
pub open spec fn parse_load_item(s: Seq<u8>, i: int) -> Option<(LoadItemV, int)> {
    if 0 <= i && i < s.len() && s[i] == 60 {
        match parse_name(s, i + 1) {
            Some(nm) => if nm.0 == n_ok() {
                match parse_empty_end(s, nm.1, n_ok()) {
                    Some(e) => Some((LoadItemV::OkItem, e)),
                    None => None,
                }
            } else if nm.0 == n_rpc_error() {
                match parse_err_body(s, nm.1) {
                    Some(p) => Some((LoadItemV::ErrorItem(p.0), p.1)),
                    None => None,
                }
            } else if nm.0 == n_load_error_count() {
                match parse_text_body(s, nm.1, n_load_error_count()) {
                    Some(p) => Some((LoadItemV::ErrorCount(p.0), p.1)),
                    None => None,
                }
            } else {
                None
            },
            None => None,
        }
    } else {
        None
    }
}

pub fn parse_load_item_exec(s: &Vec<u8>, i: usize) -> (r: Option<
    (LoadConfigurationResultsEnum, usize),
>)
    requires
        i <= s@.len(),
    ensures
        r is Some <==> parse_load_item(s@, i as int) is Some,
        r matches Some(p) ==> parse_load_item(s@, i as int) == Some((p.0@, p.1 as int)) && p.1
            <= s@.len(),
{
    if i < s.len() && s[i] == 60 {
        match parse_name_exec(s, i + 1) {
            Some(nm) => {
                if bytes_eq(&nm.0, &n_ok_v()) {
                    match parse_empty_end_exec(s, nm.1, &n_ok_v()) {
                        Some(e) => Some((LoadConfigurationResultsEnum::Okay, e)),
                        None => None,
                    }
                } else if bytes_eq(&nm.0, &n_rpc_error_v()) {
                    match parse_err_body_exec(s, nm.1) {
                        Some(p) => Some((LoadConfigurationResultsEnum::RPCError(p.0), p.1)),
                        None => None,
                    }
                } else if bytes_eq(&nm.0, &n_load_error_count_v()) {
                    match parse_text_body_exec(s, nm.1, &n_load_error_count_v()) {
                        Some(p) => Some(
                            (
                                LoadConfigurationResultsEnum::LoadErrorCount(
                                    LoadErrorCount { message: p.0 },
                                ),
                                p.1,
                            ),
                        ),
                        None => None,
                    }
                } else {
                    None
                }
            },
            None => None,
        }
    } else {
        None
    }
}

/// The entries of `load-configuration-results`, up to its close tag.
pub open spec fn parse_load_items(s: Seq<u8>, i: int) -> Option<(Seq<LoadItemV>, int)>
    decreases s.len() - i,
{
    let j = skip_ws(s, i);
    if starts_with(s, j, seq![60u8, 47u8]) {
        Some((Seq::empty(), j))
    } else {
        match parse_load_item(s, j) {
            Some(p) => if i < p.1 && p.1 <= s.len() {
                match parse_load_items(s, p.1) {
                    Some(rest) => Some((seq![p.0] + rest.0, rest.1)),
                    None => None,
                }
            } else {
                None
            },
            None => None,
        }
    }
}

pub fn parse_load_items_exec(s: &Vec<u8>, i: usize) -> (r: Option<
    (Vec<LoadConfigurationResultsEnum>, usize),
>)
    requires
        i <= s@.len(),
    ensures
        r is Some <==> parse_load_items(s@, i as int) is Some,
        r matches Some(p) ==> parse_load_items(s@, i as int) == Some(
            (items_view(p.0@), p.1 as int),
        ) && p.1 <= s@.len(),
    decreases s@.len() - i,
{
    let j = skip_ws_exec(s, i);
    let mut ce: Vec<u8> = Vec::new();
    ce.push(60);
    ce.push(47);
    proof {
        assert(ce@ =~= seq![60u8, 47u8]);
    }
    if starts_with_exec(s, j, &ce) {
        let out: Vec<LoadConfigurationResultsEnum> = Vec::new();
        proof {
            assert(items_view(out@) =~= Seq::<LoadItemV>::empty());
        }
        Some((out, j))
    } else {
        match parse_load_item_exec(s, j) {
            Some(p) => {
                if i < p.1 && p.1 <= s.len() {
                    match parse_load_items_exec(s, p.1) {
                        Some(rest) => {
                            let mut out = rest.0;
                            out.insert(0, p.0);
                            proof {
                                assert(items_view(out@) =~= seq![p.0@] + items_view(
                                    rest.0@,
                                ));
                            }
                            Some((out, rest.1))
                        },
                        None => None,
                    }
                } else {
                    None
                }
            },
            None => None,
        }
    }
}

/// One reply element, starting at its `<`.
pub open spec fn parse_reply_elem(s: Seq<u8>, i: int) -> Option<(ReplyElemV, int)> {
    if 0 <= i && i < s.len() && s[i] == 60 {
        match parse_name(s, i + 1) {
            Some(nm) => if nm.0 == n_output() {
                match parse_text_body(s, nm.1, n_output()) {
                    Some(p) => Some((ReplyElemV::Output(p.0), p.1)),
                    None => None,
                }
            } else if nm.0 == n_configuration_text() {
                match parse_text_body(s, nm.1, n_configuration_text()) {
                    Some(p) => Some((ReplyElemV::ConfigText(p.0), p.1)),
                    None => None,
                }
            } else if nm.0 == n_ok() {
                match parse_empty_end(s, nm.1, n_ok()) {
                    Some(e) => Some((ReplyElemV::OkElem, e)),
                    None => None,
                }
            } else if nm.0 == n_commit_results() {
                match parse_empty_end(s, nm.1, n_commit_results()) {
                    Some(e) => Some((ReplyElemV::CommitResultsElem, e)),
                    None => None,
                }
            } else if nm.0 == n_rpc_error() {
                match parse_err_body(s, nm.1) {
                    Some(p) => Some((ReplyElemV::ErrorElem(p.0), p.1)),
                    None => None,
                }
            } else if nm.0 == n_load_configuration_results() {
                match parse_opt_attr(s, nm.1, a_format()) {
                    Some(fo) => match parse_opt_attr(s, fo.1, a_action()) {
                        Some(ao) => {
                            let j = skip_ws(s, ao.1);
                            if starts_with(s, j, seq![47u8, 62u8]) {
                                Some(
                                    (
                                        ReplyElemV::LoadResults(
                                            LoadResultsV {
                                                format: fo.0,
                                                action: ao.0,
                                                items: Seq::empty(),
                                            },
                                        ),
                                        j + 2,
                                    ),
                                )
                            } else if 0 <= j && j < s.len() && s[j] == 62 {
                                match parse_load_items(s, j + 1) {
                                    Some(li) => if starts_with(
                                        s,
                                        li.1,
                                        crate::encode::close_tag(n_load_configuration_results()),
                                    ) {
                                        Some(
                                            (
                                                ReplyElemV::LoadResults(
                                                    LoadResultsV {
                                                        format: fo.0,
                                                        action: ao.0,
                                                        items: li.0,
                                                    },
                                                ),
                                                li.1 + n_load_configuration_results().len() + 3,
                                            ),
                                        )
                                    } else {
                                        None
                                    },
                                    None => None,
                                }
                            } else {
                                None
                            }
                        },
                        None => None,
                    },
                    None => None,
                }
            } else if nm.0 == n_configuration_information() {
                match parse_opt_attr(s, nm.1, a_format()) {
                    Some(fo) => match parse_opt_attr(s, fo.1, a_rollback()) {
                        Some(ro) => match parse_opt_attr(s, ro.1, a_compare()) {
                            Some(co) => {
                                let j = skip_ws(s, co.1);
                                if 0 <= j && j < s.len() && s[j] == 62 {
                                    match parse_text_elem(s, j + 1, n_configuration_output()) {
                                        Some(p) => {
                                            let k = skip_ws(s, p.1);
                                            if starts_with(
                                                s,
                                                k,
                                                crate::encode::close_tag(
                                                    n_configuration_information(),
                                                ),
                                            ) {
                                                Some(
                                                    (
                                                        ReplyElemV::ConfigInfo {
                                                            format: fo.0,
                                                            rollback: ro.0,
                                                            compare: co.0,
                                                            output: p.0,
                                                        },
                                                        k + n_configuration_information().len()
                                                            + 3,
                                                    ),
                                                )
                                            } else {
                                                None
                                            }
                                        },
                                        None => None,
                                    }
                                } else {
                                    None
                                }
                            },
                            None => None,
                        },
                        None => None,
                    },
                    None => None,
                }
            } else {
                None
            },
            None => None,
        }
    } else {
        None
    }
}

#[verifier::rlimit(100)]
#[verifier::spinoff_prover]
pub fn parse_reply_elem_exec(s: &Vec<u8>, i: usize) -> (r: Option<(RPCReplyCommand, usize)>)
    requires
        i <= s@.len(),
    ensures
        r is Some <==> parse_reply_elem(s@, i as int) is Some,
        r matches Some(p) ==> parse_reply_elem(s@, i as int) == Some((p.0@, p.1 as int)) && p.1
            <= s@.len(),
{
    let n = s.len();
    if i < n && s[i] == 60 {
        match parse_name_exec(s, i + 1) {
            Some(nm) => {
                if bytes_eq(&nm.0, &n_output_v()) {
                    match parse_text_body_exec(s, nm.1, &n_output_v()) {
                        Some(p) => Some((RPCReplyCommand::Output { text: p.0 }, p.1)),
                        None => None,
                    }
                } else if bytes_eq(&nm.0, &n_configuration_text_v()) {
                    match parse_text_body_exec(s, nm.1, &n_configuration_text_v()) {
                        Some(p) => Some((RPCReplyCommand::ConfigurationText { text: p.0 }, p.1)),
                        None => None,
                    }
                } else if bytes_eq(&nm.0, &n_ok_v()) {
                    match parse_empty_end_exec(s, nm.1, &n_ok_v()) {
                        Some(e) => Some((RPCReplyCommand::Okay, e)),
                        None => None,
                    }
                } else if bytes_eq(&nm.0, &n_commit_results_v()) {
                    match parse_empty_end_exec(s, nm.1, &n_commit_results_v()) {
                        Some(e) => Some((RPCReplyCommand::CommitResults, e)),
                        None => None,
                    }
                } else if bytes_eq(&nm.0, &n_rpc_error_v()) {
                    match parse_err_body_exec(s, nm.1) {
                        Some(p) => Some((RPCReplyCommand::RPCError(p.0), p.1)),
                        None => None,
                    }
                } else if bytes_eq(&nm.0, &n_load_configuration_results_v()) {
                    match parse_opt_attr_exec(s, nm.1, &a_format_v()) {
                        Some(fo) => match parse_opt_attr_exec(s, fo.1, &a_action_v()) {
                            Some(ao) => {
                                let j = skip_ws_exec(s, ao.1);
                                let mut ce: Vec<u8> = Vec::new();
                                ce.push(47);
                                ce.push(62);
                                proof {
                                    assert(ce@ =~= seq![47u8, 62u8]);
                                }
                                if starts_with_exec(s, j, &ce) {
                                    proof {
                                        assert(j + 2 <= n);
                                        assert(items_view(
                                            Seq::<LoadConfigurationResultsEnum>::empty(),
                                        ) =~= Seq::<LoadItemV>::empty());
                                    }
                                    Some(
                                        (
                                            RPCReplyCommand::LoadConfigurationResults(
                                                LoadConfigurationResults {
                                                    format: fo.0,
                                                    action: ao.0,
                                                    load_configuration_results: Vec::new(),
                                                },
                                            ),
                                            j + 2,
                                        ),
                                    )
                                } else if j < n && s[j] == 62 {
                                    match parse_load_items_exec(s, j + 1) {
                                        Some(li) => {
                                            let ct = close_tag_v(
                                                &n_load_configuration_results_v(),
                                            );
                                            if starts_with_exec(s, li.1, &ct) {
                                                proof {
                                                    assert(li.1
                                                        + n_load_configuration_results().len() + 3
                                                        <= n);
                                                }
                                                Some(
                                                    (
                                                        RPCReplyCommand::LoadConfigurationResults(
                                                            LoadConfigurationResults {
                                                                format: fo.0,
                                                                action: ao.0,
                                                                load_configuration_results: li.0,
                                                            },
                                                        ),
                                                        li.1
                                                            + n_load_configuration_results_v().len()
                                                            + 3,
                                                    ),
                                                )
                                            } else {
                                                None
                                            }
                                        },
                                        None => None,
                                    }
                                } else {
                                    None
                                }
                            },
                            None => None,
                        },
                        None => None,
                    }
                } else if bytes_eq(&nm.0, &n_configuration_information_v()) {
                    match parse_opt_attr_exec(s, nm.1, &a_format_v()) {
                        Some(fo) => match parse_opt_attr_exec(s, fo.1, &a_rollback_v()) {
                            Some(ro) => match parse_opt_attr_exec(s, ro.1, &a_compare_v()) {
                                Some(co) => {
                                    let j = skip_ws_exec(s, co.1);
                                    if j < n && s[j] == 62 {
                                        match parse_text_elem_exec(
                                            s,
                                            j + 1,
                                            &n_configuration_output_v(),
                                        ) {
                                            Some(p) => {
                                                let k = skip_ws_exec(s, p.1);
                                                let ct = close_tag_v(
                                                    &n_configuration_information_v(),
                                                );
                                                if starts_with_exec(s, k, &ct) {
                                                    proof {
                                                        assert(k
                                                            + n_configuration_information().len()
                                                            + 3 <= n);
                                                    }
                                                    Some(
                                                        (
                                                            RPCReplyCommand::ConfigurationInformation {
                                                                format: fo.0,
                                                                rollback: ro.0,
                                                                compare: co.0,
                                                                configuration_output: p.0,
                                                            },
                                                            k + n_configuration_information_v().len()
                                                                + 3,
                                                        ),
                                                    )
                                                } else {
                                                    None
                                                }
                                            },
                                            None => None,
                                        }
                                    } else {
                                        None
                                    }
                                },
                                None => None,
                            },
                            None => None,
                        },
                        None => None,
                    }
                } else {
                    None
                }
            },
            None => None,
        }
    } else {
        None
    }
}

/// The reply elements up to the envelope's close tag, bare text runs
/// becoming the fallback element.
pub open spec fn parse_reply_items(s: Seq<u8>, i: int) -> Option<(Seq<ReplyElemV>, int)>
    decreases s.len() - i,
{
    let j = skip_ws(s, i);
    if starts_with(s, j, seq![60u8, 47u8]) {
        Some((Seq::empty(), j))
    } else if 0 <= j && j < s.len() && s[j] == 60 {
        match parse_reply_elem(s, j) {
            Some(p) => if i < p.1 && p.1 <= s.len() {
                match parse_reply_items(s, p.1) {
                    Some(rest) => Some((seq![p.0] + rest.0, rest.1)),
                    None => None,
                }
            } else {
                None
            },
            None => None,
        }
    } else if 0 <= j && j < s.len() {
        match parse_text(s, j, 60) {
            Some(p) => if i < p.1 && p.1 <= s.len() {
                match parse_reply_items(s, p.1) {
                    Some(rest) => Some((seq![ReplyElemV::Other(p.0)] + rest.0, rest.1)),
                    None => None,
                }
            } else {
                None
            },
            None => None,
        }
    } else {
        None
    }
}

pub fn parse_reply_items_exec(s: &Vec<u8>, i: usize) -> (r: Option<(Vec<RPCReplyCommand>, usize)>)
    requires
        i <= s@.len(),
    ensures
        r is Some <==> parse_reply_items(s@, i as int) is Some,
        r matches Some(p) ==> parse_reply_items(s@, i as int) == Some(
            (elems_view(p.0@), p.1 as int),
        ) && p.1 <= s@.len(),
    decreases s@.len() - i,
{
    let j = skip_ws_exec(s, i);
    let mut ce: Vec<u8> = Vec::new();
    ce.push(60);
    ce.push(47);
    proof {
        assert(ce@ =~= seq![60u8, 47u8]);
    }
    if starts_with_exec(s, j, &ce) {
        let out: Vec<RPCReplyCommand> = Vec::new();
        proof {
            assert(elems_view(out@) =~= Seq::<ReplyElemV>::empty());
        }
        Some((out, j))
    } else if j < s.len() && s[j] == 60 {
        match parse_reply_elem_exec(s, j) {
            Some(p) => {
                if i < p.1 && p.1 <= s.len() {
                    match parse_reply_items_exec(s, p.1) {
                        Some(rest) => {
                            let mut out = rest.0;
                            out.insert(0, p.0);
                            proof {
                                assert(elems_view(out@) =~= seq![p.0@] + elems_view(rest.0@));
                            }
                            Some((out, rest.1))
                        },
                        None => None,
                    }
                } else {
                    None
                }
            },
            None => None,
        }
    } else if j < s.len() {
        match parse_text_exec(s, j, 60) {
            Some(p) => {
                if i < p.1 && p.1 <= s.len() {
                    match parse_reply_items_exec(s, p.1) {
                        Some(rest) => {
                            let mut out = rest.0;
                            out.insert(0, RPCReplyCommand::Other(p.0));
                            proof {
                                assert(elems_view(out@) =~= seq![ReplyElemV::Other(p.0@)]
                                    + elems_view(rest.0@));
                            }
                            Some((out, rest.1))
                        },
                        None => None,
                    }
                } else {
                    None
                }
            },
            None => None,
        }
    } else {
        None
    }
}

/// A whole `rpc-reply` document: envelope attributes are tolerated and
/// ignored, anything after the envelope but trailing whitespace is refused.
pub open spec fn parse_reply_doc(s: Seq<u8>) -> Option<Seq<ReplyElemV>> {
    let i0 = skip_ws(s, 0);
    if 0 <= i0 && i0 < s.len() && s[i0] == 60 {
        match parse_name(s, i0 + 1) {
            Some(nm) => if nm.0 == n_rpc_reply() {
                match skip_attrs(s, nm.1) {
                    Some(j) => if starts_with(s, j, seq![47u8, 62u8]) {
                        if skip_ws(s, j + 2) == s.len() {
                            Some(Seq::empty())
                        } else {
                            None
                        }
                    } else if 0 <= j && j < s.len() && s[j] == 62 {
                        match parse_reply_items(s, j + 1) {
                            Some(p) => if starts_with(
                                s,
                                p.1,
                                crate::encode::close_tag(n_rpc_reply()),
                            ) {
                                if skip_ws(s, p.1 + n_rpc_reply().len() + 3) == s.len() {
                                    Some(p.0)
                                } else {
                                    None
                                }
                            } else {
                                None
                            },
                            None => None,
                        }
                    } else {
                        None
                    },
                    None => None,
                }
            } else {
                None
            },
            None => None,
        }
    } else {
        None
    }
}

/// Decode one framed message into a reply; used by every operation.
pub fn decode_reply(bytes: &Vec<u8>) -> (r: Result<RPCReply, NETCONFError>)
    ensures
        r is Ok <==> parse_reply_doc(bytes@) is Some,
        r matches Ok(rep) ==> parse_reply_doc(bytes@) == Some(rep@),
        r matches Err(e) ==> parse_reply_doc(bytes@) is None && e@ == NETCONFErrorV::XmlError,
{
    let n = bytes.len();
    let i0 = skip_ws_exec(bytes, 0);
    if i0 < n && bytes[i0] == 60 {
        match parse_name_exec(bytes, i0 + 1) {
            Some(nm) => {
                if bytes_eq(&nm.0, &n_rpc_reply_v()) {
                    match skip_attrs_exec(bytes, nm.1) {
                        Some(j) => {
                            let mut ce: Vec<u8> = Vec::new();
                            ce.push(47);
                            ce.push(62);
                            proof {
                                assert(ce@ =~= seq![47u8, 62u8]);
                            }
                            if starts_with_exec(bytes, j, &ce) {
                                proof {
                                    assert(j + 2 <= n);
                                }
                                if skip_ws_exec(bytes, j + 2) == n {
                                    proof {
                                        assert(elems_view(Seq::<RPCReplyCommand>::empty()) =~= Seq::<
                                            ReplyElemV,
                                        >::empty());
                                    }
                                    Ok(RPCReply { rpc_reply: Vec::new() })
                                } else {
                                    Err(NETCONFError::XmlError)
                                }
                            } else if j < n && bytes[j] == 62 {
                                match parse_reply_items_exec(bytes, j + 1) {
                                    Some(p) => {
                                        let ct = close_tag_v(&n_rpc_reply_v());
                                        if starts_with_exec(bytes, p.1, &ct) {
                                            proof {
                                                assert(p.1 + n_rpc_reply().len() + 3 <= n);
                                            }
                                            if skip_ws_exec(bytes, p.1 + n_rpc_reply_v().len() + 3)
                                                == n {
                                                Ok(RPCReply { rpc_reply: p.0 })
                                            } else {
                                                Err(NETCONFError::XmlError)
                                            }
                                        } else {
                                            Err(NETCONFError::XmlError)
                                        }
                                    },
                                    None => Err(NETCONFError::XmlError),
                                }
                            } else {
                                Err(NETCONFError::XmlError)
                            }
                        },
                        None => Err(NETCONFError::XmlError),
                    }
                } else {
                    Err(NETCONFError::XmlError)
                }
            },
            None => Err(NETCONFError::XmlError),
        }
    } else {
        Err(NETCONFError::XmlError)
    }
}

/// One request element, starting at its `<`.
pub open spec fn parse_req_elem(s: Seq<u8>, i: int) -> Option<(ReqV, int)> {
    if 0 <= i && i < s.len() && s[i] == 60 {
        match parse_name(s, i + 1) {
            Some(nm) => if nm.0 == n_get_configuration() {
                match parse_opt_attr(s, nm.1, a_format()) {
                    Some(fo) => match fo.0 {
                        Some(f) => match parse_opt_attr(s, fo.1, a_rollback()) {
                            Some(ro) => match parse_opt_attr(s, ro.1, a_compare()) {
                                Some(co) => match parse_opt_attr(s, co.1, a_source()) {
                                    Some(so) => match parse_empty_end(
                                        s,
                                        so.1,
                                        n_get_configuration(),
                                    ) {
                                        Some(e) => Some(
                                            (
                                                ReqV::GetConfiguration {
                                                    format: f,
                                                    rollback: ro.0,
                                                    compare: co.0,
                                                    source: so.0,
                                                },
                                                e,
                                            ),
                                        ),
                                        None => None,
                                    },
                                    None => None,
                                },
                                None => None,
                            },
                            None => None,
                        },
                        None => None,
                    },
                    None => None,
                }
            } else if nm.0 == n_command() {
                match parse_opt_attr(s, nm.1, a_format()) {
                    Some(fo) => match fo.0 {
                        Some(f) => match parse_text_body(s, fo.1, n_command()) {
                            Some(p) => Some((ReqV::Command { format: f, command: p.0 }, p.1)),
                            None => None,
                        },
                        None => None,
                    },
                    None => None,
                }
            } else if nm.0 == n_lock_configuration() {
                match parse_empty_end(s, nm.1, n_lock_configuration()) {
                    Some(e) => Some((ReqV::LockConfiguration, e)),
                    None => None,
                }
            } else if nm.0 == n_unlock_configuration() {
                match parse_empty_end(s, nm.1, n_unlock_configuration()) {
                    Some(e) => Some((ReqV::UnlockConfiguration, e)),
                    None => None,
                }
            } else if nm.0 == n_load_configuration() {
                match parse_opt_attr(s, nm.1, a_format()) {
                    Some(fo) => match fo.0 {
                        Some(f) => match parse_opt_attr(s, fo.1, a_action()) {
                            Some(ao) => match ao.0 {
                                Some(a) => {
                                    let j = skip_ws(s, ao.1);
                                    if 0 <= j && j < s.len() && s[j] == 62 {
                                        match parse_opt_text_elem(
                                            s,
                                            j + 1,
                                            n_configuration_text(),
                                        ) {
                                            Some(ct) => match parse_opt_text_elem(
                                                s,
                                                ct.1,
                                                n_configuration_set(),
                                            ) {
                                                Some(cs) => {
                                                    let k = skip_ws(s, cs.1);
                                                    if starts_with(
                                                        s,
                                                        k,
                                                        crate::encode::close_tag(
                                                            n_load_configuration(),
                                                        ),
                                                    ) {
                                                        Some(
                                                            (
                                                                ReqV::LoadConfiguration {
                                                                    format: f,
                                                                    action: a,
                                                                    cfg_text: ct.0,
                                                                    cfg_set: cs.0,
                                                                },
                                                                k + n_load_configuration().len()
                                                                    + 3,
                                                            ),
                                                        )
                                                    } else {
                                                        None
                                                    }
                                                },
                                                None => None,
                                            },
                                            None => None,
                                        }
                                    } else {
                                        None
                                    }
                                },
                                None => None,
                            },
                            None => None,
                        },
                        None => None,
                    },
                    None => None,
                }
            } else if nm.0 == n_commit_configuration() {
                let j = skip_ws(s, nm.1);
                if starts_with(s, j, seq![47u8, 62u8]) {
                    Some((ReqV::CommitConfiguration, j + 2))
                } else if 0 <= j && j < s.len() && s[j] == 62 {
                    let k = skip_ws(s, j + 1);
                    if starts_with(s, k, crate::encode::close_tag(n_commit_configuration())) {
                        Some((ReqV::CommitConfiguration, k + n_commit_configuration().len() + 3))
                    } else if starts_with(s, k, seq![60u8] + n_confirmed()) {
                        match parse_empty_end(s, k + 1 + n_confirmed().len(), n_confirmed()) {
                            Some(c) => {
                                let m = skip_ws(s, c);
                                if starts_with(
                                    s,
                                    m,
                                    crate::encode::open_tag(n_confirm_timeout()),
                                ) {
                                    match parse_i32(s, m + n_confirm_timeout().len() + 2) {
                                        Some(t) => if starts_with(
                                            s,
                                            t.1,
                                            crate::encode::close_tag(n_confirm_timeout()),
                                        ) {
                                            let w = skip_ws(
                                                s,
                                                t.1 + n_confirm_timeout().len() + 3,
                                            );
                                            if starts_with(
                                                s,
                                                w,
                                                crate::encode::close_tag(
                                                    n_commit_configuration(),
                                                ),
                                            ) {
                                                Some(
                                                    (
                                                        ReqV::CommitConfirmedConfiguration {
                                                            confirm_timeout: t.0,
                                                        },
                                                        w + n_commit_configuration().len() + 3,
                                                    ),
                                                )
                                            } else {
                                                None
                                            }
                                        } else {
                                            None
                                        },
                                        None => None,
                                    }
                                } else {
                                    None
                                }
                            },
                            None => None,
                        }
                    } else {
                        None
                    }
                } else {
                    None
                }
            } else {
                None
            },
            None => None,
        }
    } else {
        None
    }
}

#[verifier::rlimit(100)]
#[verifier::spinoff_prover]
pub fn parse_req_elem_exec(s: &Vec<u8>, i: usize) -> (r: Option<(RPCCommand, usize)>)
    requires
        i <= s@.len(),
    ensures
        r is Some <==> parse_req_elem(s@, i as int) is Some,
        r matches Some(p) ==> parse_req_elem(s@, i as int) == Some((p.0@, p.1 as int)) && p.1
            <= s@.len(),
{
    let n = s.len();
    if i < n && s[i] == 60 {
        match parse_name_exec(s, i + 1) {
            Some(nm) => {
                if bytes_eq(&nm.0, &n_get_configuration_v()) {
                    match parse_opt_attr_exec(s, nm.1, &a_format_v()) {
                        Some(fo) => match fo.0 {
                            Some(f) => match parse_opt_attr_exec(s, fo.1, &a_rollback_v()) {
                                Some(ro) => match parse_opt_attr_exec(s, ro.1, &a_compare_v()) {
                                    Some(co) => match parse_opt_attr_exec(s, co.1, &a_source_v()) {
                                        Some(so) => match parse_empty_end_exec(
                                            s,
                                            so.1,
                                            &n_get_configuration_v(),
                                        ) {
                                            Some(e) => Some(
                                                (
                                                    RPCCommand::GetConfiguration {
                                                        format: f,
                                                        rollback: ro.0,
                                                        compare: co.0,
                                                        source: so.0,
                                                    },
                                                    e,
                                                ),
                                            ),
                                            None => None,
                                        },
                                        None => None,
                                    },
                                    None => None,
                                },
                                None => None,
                            },
                            None => None,
                        },
                        None => None,
                    }
                } else if bytes_eq(&nm.0, &n_command_v()) {
                    match parse_opt_attr_exec(s, nm.1, &a_format_v()) {
                        Some(fo) => match fo.0 {
                            Some(f) => match parse_text_body_exec(s, fo.1, &n_command_v()) {
                                Some(p) => Some(
                                    (RPCCommand::Command { format: f, command: p.0 }, p.1),
                                ),
                                None => None,
                            },
                            None => None,
                        },
                        None => None,
                    }
                } else if bytes_eq(&nm.0, &n_lock_configuration_v()) {
                    match parse_empty_end_exec(s, nm.1, &n_lock_configuration_v()) {
                        Some(e) => Some((RPCCommand::LockConfiguration {}, e)),
                        None => None,
                    }
                } else if bytes_eq(&nm.0, &n_unlock_configuration_v()) {
                    match parse_empty_end_exec(s, nm.1, &n_unlock_configuration_v()) {
                        Some(e) => Some((RPCCommand::UnlockConfiguration {}, e)),
                        None => None,
                    }
                } else if bytes_eq(&nm.0, &n_load_configuration_v()) {
                    match parse_opt_attr_exec(s, nm.1, &a_format_v()) {
                        Some(fo) => match fo.0 {
                            Some(f) => match parse_opt_attr_exec(s, fo.1, &a_action_v()) {
                                Some(ao) => match ao.0 {
                                    Some(a) => {
                                        let j = skip_ws_exec(s, ao.1);
                                        if j < n && s[j] == 62 {
                                            match parse_opt_text_elem_exec(
                                                s,
                                                j + 1,
                                                &n_configuration_text_v(),
                                            ) {
                                                Some(ct) => match parse_opt_text_elem_exec(
                                                    s,
                                                    ct.1,
                                                    &n_configuration_set_v(),
                                                ) {
                                                    Some(cs) => {
                                                        let k = skip_ws_exec(s, cs.1);
                                                        let ctag = close_tag_v(
                                                            &n_load_configuration_v(),
                                                        );
                                                        if starts_with_exec(s, k, &ctag) {
                                                            proof {
                                                                assert(k
                                                                    + n_load_configuration().len()
                                                                    + 3 <= n);
                                                            }
                                                            Some(
                                                                (
                                                                    RPCCommand::LoadConfiguration {
                                                                        format: f,
                                                                        action: a,
                                                                        cfg_text: ct.0,
                                                                        cfg_set: cs.0,
                                                                    },
                                                                    k
                                                                        + n_load_configuration_v().len()
                                                                        + 3,
                                                                ),
                                                            )
                                                        } else {
                                                            None
                                                        }
                                                    },
                                                    None => None,
                                                },
                                                None => None,
                                            }
                                        } else {
                                            None
                                        }
                                    },
                                    None => None,
                                },
                                None => None,
                            },
                            None => None,
                        },
                        None => None,
                    }
                } else if bytes_eq(&nm.0, &n_commit_configuration_v()) {
                    let j = skip_ws_exec(s, nm.1);
                    let mut ce: Vec<u8> = Vec::new();
                    ce.push(47);
                    ce.push(62);
                    proof {
                        assert(ce@ =~= seq![47u8, 62u8]);
                    }
                    if starts_with_exec(s, j, &ce) {
                        proof {
                            assert(j + 2 <= n);
                        }
                        Some((RPCCommand::CommitConfiguration {}, j + 2))
                    } else if j < n && s[j] == 62 {
                        let k = skip_ws_exec(s, j + 1);
                        let ctag = close_tag_v(&n_commit_configuration_v());
                        let mut conf_open = Vec::new();
                        conf_open.push(60u8);
                        crate::util::append_bytes(&mut conf_open, &n_confirmed_v());
                        proof {
                            assert(conf_open@ =~= seq![60u8] + n_confirmed());
                        }
                        if starts_with_exec(s, k, &ctag) {
                            proof {
                                assert(k + n_commit_configuration().len() + 3 <= n);
                            }
                            Some(
                                (
                                    RPCCommand::CommitConfiguration {},
                                    k + n_commit_configuration_v().len() + 3,
                                ),
                            )
                        } else if starts_with_exec(s, k, &conf_open) {
                            proof {
                                assert(k + 1 + n_confirmed().len() <= n);
                            }
                            match parse_empty_end_exec(
                                s,
                                k + 1 + n_confirmed_v().len(),
                                &n_confirmed_v(),
                            ) {
                                Some(c) => {
                                    let m = skip_ws_exec(s, c);
                                    let cto = open_tag_v(&n_confirm_timeout_v());
                                    if starts_with_exec(s, m, &cto) {
                                        proof {
                                            assert(m + n_confirm_timeout().len() + 2 <= n);
                                        }
                                        match parse_i32_exec(
                                            s,
                                            m + n_confirm_timeout_v().len() + 2,
                                        ) {
                                            Some(t) => {
                                                let ctc = close_tag_v(&n_confirm_timeout_v());
                                                if starts_with_exec(s, t.1, &ctc) {
                                                    proof {
                                                        assert(t.1 + n_confirm_timeout().len() + 3
                                                            <= n);
                                                    }
                                                    let w = skip_ws_exec(
                                                        s,
                                                        t.1 + n_confirm_timeout_v().len() + 3,
                                                    );
                                                    if starts_with_exec(s, w, &ctag) {
                                                        proof {
                                                            assert(w
                                                                + n_commit_configuration().len()
                                                                + 3 <= n);
                                                        }
                                                        Some(
                                                            (
                                                                RPCCommand::CommitConfirmedConfiguration {
                                                                    confirmed: ConfigurationConfirmed {  },
                                                                    confirm_timeout: t.0,
                                                                },
                                                                w
                                                                    + n_commit_configuration_v().len()
                                                                    + 3,
                                                            ),
                                                        )
                                                    } else {
                                                        None
                                                    }
                                                } else {
                                                    None
                                                }
                                            },
                                            None => None,
                                        }
                                    } else {
                                        None
                                    }
                                },
                                None => None,
                            }
                        } else {
                            None
                        }
                    } else {
                        None
                    }
                } else {
                    None
                }
            },
            None => None,
        }
    } else {
        None
    }
}

/// A whole `rpc` document: the bare envelope around one request.
pub open spec fn parse_rpc_doc(s: Seq<u8>) -> Option<ReqV> {
    let i0 = skip_ws(s, 0);
    if starts_with(s, i0, crate::encode::open_tag(n_rpc())) {
        let j = skip_ws(s, i0 + n_rpc().len() + 2);
        match parse_req_elem(s, j) {
            Some(p) => {
                let m = skip_ws(s, p.1);
                if starts_with(s, m, crate::encode::close_tag(n_rpc())) {
                    if skip_ws(s, m + n_rpc().len() + 3) == s.len() {
                        Some(p.0)
                    } else {
                        None
                    }
                } else {
                    None
                }
            },
            None => None,
        }
    } else {
        None
    }
}

/// Decode one framed message into a request envelope.
pub fn decode_rpc(bytes: &Vec<u8>) -> (r: Result<RPC, NETCONFError>)
    ensures
        r is Ok <==> parse_rpc_doc(bytes@) is Some,
        r matches Ok(rpc) ==> parse_rpc_doc(bytes@) == Some(rpc@),
        r matches Err(e) ==> parse_rpc_doc(bytes@) is None && e@ == NETCONFErrorV::XmlError,
{
    let n = bytes.len();
    let i0 = skip_ws_exec(bytes, 0);
    let ot = open_tag_v(&n_rpc_v());
    if starts_with_exec(bytes, i0, &ot) {
        proof {
            assert(i0 + n_rpc().len() + 2 <= n);
        }
        let j = skip_ws_exec(bytes, i0 + n_rpc_v().len() + 2);
        match parse_req_elem_exec(bytes, j) {
            Some(p) => {
                let m = skip_ws_exec(bytes, p.1);
                let ct = close_tag_v(&n_rpc_v());
                if starts_with_exec(bytes, m, &ct) {
                    proof {
                        assert(m + n_rpc().len() + 3 <= n);
                    }
                    if skip_ws_exec(bytes, m + n_rpc_v().len() + 3) == n {
                        Ok(RPC { rpc: p.0 })
                    } else {
                        Err(NETCONFError::XmlError)
                    }
                } else {
                    Err(NETCONFError::XmlError)
                }
            },
            None => Err(NETCONFError::XmlError),
        }
    } else {
        Err(NETCONFError::XmlError)
    }
}

/// The capability list inside a `hello`.
pub open spec fn parse_caps(s: Seq<u8>, i: int) -> Option<(Seq<Seq<u8>>, int)>
    decreases s.len() - i,
{
    let j = skip_ws(s, i);
    if starts_with(s, j, crate::encode::open_tag(n_capability())) {
        match parse_text_body(s, j + n_capability().len() + 1, n_capability()) {
            Some(p) => if i < p.1 && p.1 <= s.len() {
                match parse_caps(s, p.1) {
                    Some(rest) => Some((seq![p.0] + rest.0, rest.1)),
                    None => None,
                }
            } else {
                None
            },
            None => None,
        }
    } else {
        Some((Seq::empty(), i))
    }
}

pub fn parse_caps_exec(s: &Vec<u8>, i: usize) -> (r: Option<(Vec<Vec<u8>>, usize)>)
    requires
        i <= s@.len(),
    ensures
        r is Some <==> parse_caps(s@, i as int) is Some,
        r matches Some(p) ==> parse_caps(s@, i as int) == Some((caps_view(p.0@), p.1 as int))
            && p.1 <= s@.len(),
    decreases s@.len() - i,
{
    let n = s.len();
    let j = skip_ws_exec(s, i);
    let ot = open_tag_v(&n_capability_v());
    if starts_with_exec(s, j, &ot) {
        proof {
            assert(j + n_capability().len() + 2 <= n);
        }
        match parse_text_body_exec(s, j + n_capability_v().len() + 1, &n_capability_v()) {
            Some(p) => {
                if i < p.1 && p.1 <= s.len() {
                    match parse_caps_exec(s, p.1) {
                        Some(rest) => {
                            let mut out = rest.0;
                            out.insert(0, p.0);
                            proof {
                                assert(caps_view(out@) =~= seq![p.0@] + caps_view(rest.0@));
                            }
                            Some((out, rest.1))
                        },
                        None => None,
                    }
                } else {
                    None
                }
            },
            None => None,
        }
    } else {
        let out: Vec<Vec<u8>> = Vec::new();
        proof {
            assert(caps_view(out@) =~= Seq::<Seq<u8>>::empty());
        }
        Some((out, i))
    }
}

/// A whole `hello` document.
pub open spec fn parse_hello_doc(s: Seq<u8>) -> Option<HelloV> {
    let i0 = skip_ws(s, 0);
    if 0 <= i0 && i0 < s.len() && s[i0] == 60 {
        match parse_name(s, i0 + 1) {
            Some(nm) => if nm.0 == n_hello() {
                match parse_opt_attr(s, nm.1, a_xmlns()) {
                    Some(xj) => match parse_opt_attr(s, xj.1, a_xmlns_nc()) {
                        Some(xn) => {
                            let j = skip_ws(s, xn.1);
                            if 0 <= j && j < s.len() && s[j] == 62 {
                                let k = skip_ws(s, j + 1);
                                if starts_with(
                                    s,
                                    k,
                                    crate::encode::open_tag(n_capabilities()),
                                ) {
                                    match parse_caps(s, k + n_capabilities().len() + 2) {
                                        Some(cp) => {
                                            let m = skip_ws(s, cp.1);
                                            if starts_with(
                                                s,
                                                m,
                                                crate::encode::close_tag(n_capabilities()),
                                            ) {
                                                match parse_opt_text_elem(
                                                    s,
                                                    m + n_capabilities().len() + 3,
                                                    n_session_id(),
                                                ) {
                                                    Some(sid) => {
                                                        let m4 = skip_ws(s, sid.1);
                                                        if starts_with(
                                                            s,
                                                            m4,
                                                            crate::encode::close_tag(n_hello()),
                                                        ) {
                                                            if skip_ws(
                                                                s,
                                                                m4 + n_hello().len() + 3,
                                                            ) == s.len() {
                                                                Some(
                                                                    HelloV {
                                                                        capabilities: cp.0,
                                                                        session_id: sid.0,
                                                                        namespace_junos: xj.0,
                                                                        namespace: xn.0,
                                                                    },
                                                                )
                                                            } else {
                                                                None
                                                            }
                                                        } else {
                                                            None
                                                        }
                                                    },
                                                    None => None,
                                                }
                                            } else {
                                                None
                                            }
                                        },
                                        None => None,
                                    }
                                } else {
                                    None
                                }
                            } else {
                                None
                            }
                        },
                        None => None,
                    },
                    None => None,
                }
            } else {
                None
            },
            None => None,
        }
    } else {
        None
    }
}

/// Decode one framed message into a `hello`; part of the handshake.
#[verifier::rlimit(60)]
pub fn decode_hello(bytes: &Vec<u8>) -> (r: Result<Hello, NETCONFError>)
    ensures
        r is Ok <==> parse_hello_doc(bytes@) is Some,
        r matches Ok(h) ==> parse_hello_doc(bytes@) == Some(h@),
        r matches Err(e) ==> parse_hello_doc(bytes@) is None && e@ == NETCONFErrorV::XmlError,
{
    let n = bytes.len();
    let i0 = skip_ws_exec(bytes, 0);
    if i0 < n && bytes[i0] == 60 {
        match parse_name_exec(bytes, i0 + 1) {
            Some(nm) => {
                if bytes_eq(&nm.0, &n_hello_v()) {
                    match parse_opt_attr_exec(bytes, nm.1, &a_xmlns_v()) {
                        Some(xj) => match parse_opt_attr_exec(bytes, xj.1, &a_xmlns_nc_v()) {
                            Some(xn) => {
                                let j = skip_ws_exec(bytes, xn.1);
                                if j < n && bytes[j] == 62 {
                                    let k = skip_ws_exec(bytes, j + 1);
                                    let oc = open_tag_v(&n_capabilities_v());
                                    if starts_with_exec(bytes, k, &oc) {
                                        proof {
                                            assert(k + n_capabilities().len() + 2 <= n);
                                        }
                                        match parse_caps_exec(
                                            bytes,
                                            k + n_capabilities_v().len() + 2,
                                        ) {
                                            Some(cp) => {
                                                let m = skip_ws_exec(bytes, cp.1);
                                                let cc = close_tag_v(&n_capabilities_v());
                                                if starts_with_exec(bytes, m, &cc) {
                                                    proof {
                                                        assert(m + n_capabilities().len() + 3
                                                            <= n);
                                                    }
                                                    match parse_opt_text_elem_exec(
                                                        bytes,
                                                        m + n_capabilities_v().len() + 3,
                                                        &n_session_id_v(),
                                                    ) {
                                                        Some(sid) => {
                                                            let m4 = skip_ws_exec(bytes, sid.1);
                                                            let ch = close_tag_v(&n_hello_v());
                                                            if starts_with_exec(bytes, m4, &ch) {
                                                                proof {
                                                                    assert(m4 + n_hello().len()
                                                                        + 3 <= n);
                                                                }
                                                                if skip_ws_exec(
                                                                    bytes,
                                                                    m4 + n_hello_v().len() + 3,
                                                                ) == n {
                                                                    Ok(
                                                                        Hello {
                                                                            capabilities: Capabilities {
                                                                                capability: cp.0,
                                                                            },
                                                                            session_id: sid.0,
                                                                            namespace_junos: xj.0,
                                                                            namespace: xn.0,
                                                                        },
                                                                    )
                                                                } else {
                                                                    Err(NETCONFError::XmlError)
                                                                }
                                                            } else {
                                                                Err(NETCONFError::XmlError)
                                                            }
                                                        },
                                                        None => Err(NETCONFError::XmlError),
                                                    }
                                                } else {
                                                    Err(NETCONFError::XmlError)
                                                }
                                            },
                                            None => Err(NETCONFError::XmlError),
                                        }
                                    } else {
                                        Err(NETCONFError::XmlError)
                                    }
                                } else {
                                    Err(NETCONFError::XmlError)
                                }
                            },
                            None => Err(NETCONFError::XmlError),
                        },
                        None => Err(NETCONFError::XmlError),
                    }
                } else {
                    Err(NETCONFError::XmlError)
                }
            },
            None => Err(NETCONFError::XmlError),
        }
    } else {
        Err(NETCONFError::XmlError)
    }
}

} // verus!
