//! Rendering of requests, replies and hellos into their wire XML.  The spec
//! functions define the canonical encoding; the executable functions produce
//! exactly it.
use vstd::prelude::*;
use crate::frame::marker;
use crate::text::{escape, escape_into};
use crate::num::{enc_i32, write_i32};
use crate::tok::{a_action, a_action_v, a_compare, a_compare_v, a_format, a_format_v, a_rollback, a_rollback_v, a_source, a_source_v, a_xmlns, a_xmlns_nc, a_xmlns_nc_v, a_xmlns_v, n_bad_element, n_bad_element_v, n_capabilities, n_capabilities_v, n_capability, n_capability_v, n_command, n_command_v, n_commit_configuration, n_commit_configuration_v, n_commit_results, n_commit_results_v, n_configuration_information, n_configuration_information_v, n_configuration_output, n_configuration_output_v, n_configuration_set, n_configuration_set_v, n_configuration_text, n_configuration_text_v, n_confirm_timeout, n_confirm_timeout_v, n_confirmed, n_confirmed_v, n_error_info, n_error_info_v, n_error_message, n_error_message_v, n_error_path, n_error_path_v, n_error_severity, n_error_severity_v, n_error_tag, n_error_tag_v, n_error_type, n_error_type_v, n_get_configuration, n_get_configuration_v, n_hello, n_hello_v, n_load_configuration, n_load_configuration_results, n_load_configuration_results_v, n_load_configuration_v, n_load_error_count, n_load_error_count_v, n_lock_configuration, n_lock_configuration_v, n_ok, n_ok_v, n_output, n_output_v, n_rpc, n_rpc_error, n_rpc_error_v, n_rpc_reply, n_rpc_reply_v, n_rpc_v, n_session_id, n_session_id_v, n_source_daemon, n_source_daemon_v, n_unlock_configuration, n_unlock_configuration_v};
use crate::util::append_bytes;
use crate::xml::{ErrV, Hello, HelloV, LoadConfigurationResults, LoadConfigurationResultsEnum, LoadErrorCount, LoadItemV, LoadResultsV, RPC, RPCCommand, RPCError, RPCReply, RPCReplyCommand, ReplyElemV, ReqV, caps_view, elems_view, items_view, opt_view};

verus! {

pub open spec fn open_tag(name: Seq<u8>) -> Seq<u8> {
    seq![60u8] + name + seq![62u8]
}

pub open spec fn close_tag(name: Seq<u8>) -> Seq<u8> {
    seq![60u8, 47u8] + name + seq![62u8]
}

pub open spec fn empty_tag(name: Seq<u8>) -> Seq<u8> {
    seq![60u8] + name + seq![47u8, 62u8]
}

pub open spec fn attr(name: Seq<u8>, v: Seq<u8>) -> Seq<u8> {
    seq![32u8] + name + seq![61u8, 34u8] + escape(v, true) + seq![34u8]
}

pub open spec fn opt_attr(name: Seq<u8>, v: Option<Seq<u8>>) -> Seq<u8> {
    match v {
        Some(t) => attr(name, t),
        None => Seq::empty(),
    }
}

pub open spec fn text_elem(name: Seq<u8>, t: Seq<u8>) -> Seq<u8> {
    open_tag(name) + escape(t, false) + close_tag(name)
}

pub open spec fn opt_text_elem(name: Seq<u8>, t: Option<Seq<u8>>) -> Seq<u8> {
    match t {
        Some(v) => text_elem(name, v),
        None => Seq::empty(),
    }
}

/// Wire form of one request.
pub open spec fn enc_req(r: ReqV) -> Seq<u8> {
    match r {
        ReqV::GetConfiguration { format, rollback, compare, source } => seq![60u8]
            + n_get_configuration() + attr(a_format(), format) + opt_attr(a_rollback(), rollback)
            + opt_attr(a_compare(), compare) + opt_attr(a_source(), source) + seq![47u8, 62u8],
        ReqV::Command { format, command } => seq![60u8] + n_command() + attr(a_format(), format)
            + seq![62u8] + escape(command, false) + close_tag(n_command()),
        ReqV::LockConfiguration => empty_tag(n_lock_configuration()),
        ReqV::UnlockConfiguration => empty_tag(n_unlock_configuration()),
        ReqV::LoadConfiguration { format, action, cfg_text, cfg_set } => seq![60u8]
            + n_load_configuration() + attr(a_format(), format) + attr(a_action(), action)
            + seq![62u8] + opt_text_elem(n_configuration_text(), cfg_text) + opt_text_elem(
            n_configuration_set(),
            cfg_set,
        ) + close_tag(n_load_configuration()),
        ReqV::CommitConfiguration => empty_tag(n_commit_configuration()),
        ReqV::CommitConfirmedConfiguration { confirm_timeout } => open_tag(n_commit_configuration())
            + empty_tag(n_confirmed()) + open_tag(n_confirm_timeout()) + enc_i32(confirm_timeout)
            + close_tag(n_confirm_timeout()) + close_tag(n_commit_configuration()),
    }
}

/// Wire form of a full `<rpc>` envelope.
pub open spec fn enc_rpc(r: ReqV) -> Seq<u8> {
    open_tag(n_rpc()) + enc_req(r) + close_tag(n_rpc())
}

/// Wire form of an `rpc-error` element.
pub open spec fn enc_err(e: ErrV) -> Seq<u8> {
    open_tag(n_rpc_error()) + text_elem(n_error_severity(), e.severity) + text_elem(
        n_error_message(),
        e.message,
    ) + opt_text_elem(n_error_path(), e.path) + opt_text_elem(n_error_type(), e.typ)
        + opt_text_elem(n_error_tag(), e.tag) + (match e.bad_element {
        Some(b) => open_tag(n_error_info()) + text_elem(n_bad_element(), b) + close_tag(
            n_error_info(),
        ),
        None => Seq::empty(),
    }) + opt_text_elem(n_source_daemon(), e.source_daemon) + close_tag(n_rpc_error())
}

/// Wire form of one load-result entry.
pub open spec fn enc_load_item(it: LoadItemV) -> Seq<u8> {
    match it {
        LoadItemV::OkItem => empty_tag(n_ok()),
        LoadItemV::ErrorItem(e) => enc_err(e),
        LoadItemV::ErrorCount(m) => text_elem(n_load_error_count(), m),
    }
}

pub open spec fn enc_load_items(items: Seq<LoadItemV>) -> Seq<u8>
    decreases items.len(),
{
    if items.len() == 0 {
        Seq::empty()
    } else {
        enc_load_item(items[0]) + enc_load_items(items.drop_first())
    }
}

/// Wire form of a `load-configuration-results` element.
pub open spec fn enc_load_results(lr: LoadResultsV) -> Seq<u8> {
    seq![60u8] + n_load_configuration_results() + opt_attr(a_format(), lr.format) + opt_attr(
        a_action(),
        lr.action,
    ) + seq![62u8] + enc_load_items(lr.items) + close_tag(n_load_configuration_results())
}

/// Wire form of one reply element.
pub open spec fn enc_reply_elem(e: ReplyElemV) -> Seq<u8> {
    match e {
        ReplyElemV::Output(t) => text_elem(n_output(), t),
        ReplyElemV::LoadResults(lr) => enc_load_results(lr),
        ReplyElemV::ConfigInfo { format, rollback, compare, output } => seq![60u8]
            + n_configuration_information() + opt_attr(a_format(), format) + opt_attr(
            a_rollback(),
            rollback,
        ) + opt_attr(a_compare(), compare) + seq![62u8] + text_elem(
            n_configuration_output(),
            output,
        ) + close_tag(n_configuration_information()),
        ReplyElemV::ConfigText(t) => text_elem(n_configuration_text(), t),
        ReplyElemV::ErrorElem(e) => enc_err(e),
        ReplyElemV::OkElem => empty_tag(n_ok()),
        ReplyElemV::CommitResultsElem => empty_tag(n_commit_results()),
        ReplyElemV::Other(t) => escape(t, false),
    }
}

pub open spec fn enc_reply_elems(elems: Seq<ReplyElemV>) -> Seq<u8>
    decreases elems.len(),
{
    if elems.len() == 0 {
        Seq::empty()
    } else {
        enc_reply_elem(elems[0]) + enc_reply_elems(elems.drop_first())
    }
}

/// Wire form of a full `<rpc-reply>` envelope.
pub open spec fn enc_reply(elems: Seq<ReplyElemV>) -> Seq<u8> {
    open_tag(n_rpc_reply()) + enc_reply_elems(elems) + close_tag(n_rpc_reply())
}

pub open spec fn enc_caps(caps: Seq<Seq<u8>>) -> Seq<u8>
    decreases caps.len(),
{
    if caps.len() == 0 {
        Seq::empty()
    } else {
        text_elem(n_capability(), caps[0]) + enc_caps(caps.drop_first())
    }
}

/// Wire form of a `hello` message.
pub open spec fn enc_hello(h: HelloV) -> Seq<u8> {
    seq![60u8] + n_hello() + opt_attr(a_xmlns(), h.namespace_junos) + opt_attr(
        a_xmlns_nc(),
        h.namespace,
    ) + seq![62u8] + open_tag(n_capabilities()) + enc_caps(h.capabilities) + close_tag(
        n_capabilities(),
    ) + opt_text_elem(n_session_id(), h.session_id) + close_tag(n_hello())
}

/// A message as it goes on the wire: the XML, a newline, the marker, a
/// newline.
pub open spec fn framed(msg: Seq<u8>) -> Seq<u8> {
    msg + seq![10u8] + marker() + seq![10u8]
}

fn put_open(out: &mut Vec<u8>, name: &Vec<u8>)
    ensures
        final(out)@ == old(out)@ + open_tag(name@),
{
    out.push(60);
    append_bytes(out, name);
    out.push(62);
    proof {
        assert(out@ =~= old(out)@ + open_tag(name@));
    }
}

fn put_close(out: &mut Vec<u8>, name: &Vec<u8>)
    ensures
        final(out)@ == old(out)@ + close_tag(name@),
{
    out.push(60);
    out.push(47);
    append_bytes(out, name);
    out.push(62);
    proof {
        assert(out@ =~= old(out)@ + close_tag(name@));
    }
}

fn put_empty(out: &mut Vec<u8>, name: &Vec<u8>)
    ensures
        final(out)@ == old(out)@ + empty_tag(name@),
{
    out.push(60);
    append_bytes(out, name);
    out.push(47);
    out.push(62);
    proof {
        assert(out@ =~= old(out)@ + empty_tag(name@));
    }
}

fn put_attr(out: &mut Vec<u8>, name: &Vec<u8>, v: &Vec<u8>)
    ensures
        final(out)@ == old(out)@ + attr(name@, v@),
{
    out.push(32);
    append_bytes(out, name);
    out.push(61);
    out.push(34);
    escape_into(out, v, true);
    out.push(34);
    proof {
        assert(out@ =~= old(out)@ + attr(name@, v@));
    }
}

fn put_opt_attr(out: &mut Vec<u8>, name: &Vec<u8>, v: &Option<Vec<u8>>)
    ensures
        final(out)@ == old(out)@ + opt_attr(name@, opt_view(*v)),
{
    match v {
        Some(t) => put_attr(out, name, t),
        None => {
            proof {
                assert(out@ =~= old(out)@ + opt_attr(name@, opt_view(*v)));
            }
        },
    }
}

fn put_text_elem(out: &mut Vec<u8>, name: &Vec<u8>, t: &Vec<u8>)
    ensures
        final(out)@ == old(out)@ + text_elem(name@, t@),
{
    put_open(out, name);
    escape_into(out, t, false);
    put_close(out, name);
    proof {
        assert(out@ =~= old(out)@ + text_elem(name@, t@));
    }
}

fn put_opt_text_elem(out: &mut Vec<u8>, name: &Vec<u8>, t: &Option<Vec<u8>>)
    ensures
        final(out)@ == old(out)@ + opt_text_elem(name@, opt_view(*t)),
{
    match t {
        Some(v) => put_text_elem(out, name, v),
        None => {
            proof {
                assert(out@ =~= old(out)@ + opt_text_elem(name@, opt_view(*t)));
            }
        },
    }
}

/// Append the wire form of an `rpc-error`.
fn put_err(out: &mut Vec<u8>, e: &RPCError)
    ensures
        final(out)@ == old(out)@ + enc_err(e@),
{
    put_open(out, &n_rpc_error_v());
    put_text_elem(out, &n_error_severity_v(), &e.error_severity);
    put_text_elem(out, &n_error_message_v(), &e.error_message);
    put_opt_text_elem(out, &n_error_path_v(), &e.error_path);
    put_opt_text_elem(out, &n_error_type_v(), &e.error_type);
    put_opt_text_elem(out, &n_error_tag_v(), &e.error_tag);
    match &e.error_info {
        Some(info) => {
            put_open(out, &n_error_info_v());
            put_text_elem(out, &n_bad_element_v(), &info.bad_element);
            put_close(out, &n_error_info_v());
        },
        None => {},
    }
    put_opt_text_elem(out, &n_source_daemon_v(), &e.source_daemon);
    put_close(out, &n_rpc_error_v());
    proof {
        assert(out@ =~= old(out)@ + enc_err(e@));
    }
}

/// Append the wire form of the load-result entries.
fn put_load_items(out: &mut Vec<u8>, items: &Vec<LoadConfigurationResultsEnum>)
    ensures
        final(out)@ == old(out)@ + enc_load_items(items_view(items@)),
{
    let ghost base = out@;
    let ghost iv = items_view(items@);
    let mut i: usize = 0;
    proof {
        assert(iv.skip(0) =~= iv);
    }
    while i < items.len()
        invariant
            i <= items@.len(),
            iv == items_view(items@),
            out@ + enc_load_items(iv.skip(i as int)) == base + enc_load_items(iv),
        decreases items@.len() - i,
    {
        let ghost pre = out@;
        proof {
            assert(iv.skip(i as int)[0] == iv[i as int]);
            assert(iv.skip(i as int).drop_first() =~= iv.skip(i + 1));
        }
        match &items[i] {
            LoadConfigurationResultsEnum::Okay => put_empty(out, &n_ok_v()),
            LoadConfigurationResultsEnum::RPCError(e) => put_err(out, e),
            LoadConfigurationResultsEnum::LoadErrorCount(c) => put_text_elem(
                out,
                &n_load_error_count_v(),
                &c.message,
            ),
        }
        proof {
            assert(out@ == pre + enc_load_item(iv[i as int]));
            assert(out@ + enc_load_items(iv.skip(i + 1)) =~= pre + enc_load_items(iv.skip(i as int)));
        }
        i += 1;
    }
    proof {
        assert(enc_load_items(iv.skip(items@.len() as int)) =~= Seq::<u8>::empty());
        assert(out@ + Seq::<u8>::empty() =~= out@);
    }
}

/// Append the wire form of one reply element.
fn put_reply_elem(out: &mut Vec<u8>, e: &RPCReplyCommand)
    ensures
        final(out)@ == old(out)@ + enc_reply_elem(e@),
{
    match e {
        RPCReplyCommand::Output { text } => put_text_elem(out, &n_output_v(), text),
        RPCReplyCommand::LoadConfigurationResults(lr) => {
            out.push(60);
            append_bytes(out, &n_load_configuration_results_v());
            put_opt_attr(out, &a_format_v(), &lr.format);
            put_opt_attr(out, &a_action_v(), &lr.action);
            out.push(62);
            put_load_items(out, &lr.load_configuration_results);
            put_close(out, &n_load_configuration_results_v());
            proof {
                assert(out@ =~= old(out)@ + enc_reply_elem(e@));
            }
        },
        RPCReplyCommand::ConfigurationInformation { format, rollback, compare, configuration_output } => {
            out.push(60);
            append_bytes(out, &n_configuration_information_v());
            put_opt_attr(out, &a_format_v(), format);
            put_opt_attr(out, &a_rollback_v(), rollback);
            put_opt_attr(out, &a_compare_v(), compare);
            out.push(62);
            put_text_elem(out, &n_configuration_output_v(), configuration_output);
            put_close(out, &n_configuration_information_v());
            proof {
                assert(out@ =~= old(out)@ + enc_reply_elem(e@));
            }
        },
        RPCReplyCommand::ConfigurationText { text } => put_text_elem(
            out,
            &n_configuration_text_v(),
            text,
        ),
        RPCReplyCommand::RPCError(err) => put_err(out, err),
        RPCReplyCommand::Okay => put_empty(out, &n_ok_v()),
        RPCReplyCommand::CommitResults => put_empty(out, &n_commit_results_v()),
        RPCReplyCommand::Other(t) => escape_into(out, t, false),
    }
}

/// Append the wire form of a reply-element sequence.
fn put_reply_elems(out: &mut Vec<u8>, elems: &Vec<RPCReplyCommand>)
    ensures
        final(out)@ == old(out)@ + enc_reply_elems(elems_view(elems@)),
{
    let ghost base = out@;
    let ghost ev = elems_view(elems@);
    let mut i: usize = 0;
    proof {
        assert(ev.skip(0) =~= ev);
    }
    while i < elems.len()
        invariant
            i <= elems@.len(),
            ev == elems_view(elems@),
            out@ + enc_reply_elems(ev.skip(i as int)) == base + enc_reply_elems(ev),
        decreases elems@.len() - i,
    {
        let ghost pre = out@;
        proof {
            assert(ev.skip(i as int)[0] == ev[i as int]);
            assert(ev.skip(i as int).drop_first() =~= ev.skip(i + 1));
        }
        put_reply_elem(out, &elems[i]);
        proof {
            assert(out@ + enc_reply_elems(ev.skip(i + 1)) =~= pre + enc_reply_elems(ev.skip(i as int)));
        }
        i += 1;
    }
    proof {
        assert(enc_reply_elems(ev.skip(elems@.len() as int)) =~= Seq::<u8>::empty());
        assert(out@ + Seq::<u8>::empty() =~= out@);
    }
}

/// The wire XML of one request envelope.
pub fn encode_rpc(r: &RPC) -> (out: Vec<u8>)
    ensures
        out@ == enc_rpc(r@),
{
    let mut out: Vec<u8> = Vec::new();
    put_open(&mut out, &n_rpc_v());
    match &r.rpc {
        RPCCommand::GetConfiguration { format, rollback, compare, source } => {
            out.push(60);
            append_bytes(&mut out, &n_get_configuration_v());
            put_attr(&mut out, &a_format_v(), format);
            put_opt_attr(&mut out, &a_rollback_v(), rollback);
            put_opt_attr(&mut out, &a_compare_v(), compare);
            put_opt_attr(&mut out, &a_source_v(), source);
            out.push(47);
            out.push(62);
        },
        RPCCommand::Command { format, command } => {
            out.push(60);
            append_bytes(&mut out, &n_command_v());
            put_attr(&mut out, &a_format_v(), format);
            out.push(62);
            escape_into(&mut out, command, false);
            put_close(&mut out, &n_command_v());
        },
        RPCCommand::LockConfiguration {} => put_empty(&mut out, &n_lock_configuration_v()),
        RPCCommand::UnlockConfiguration {} => put_empty(&mut out, &n_unlock_configuration_v()),
        RPCCommand::LoadConfiguration { format, action, cfg_text, cfg_set } => {
            out.push(60);
            append_bytes(&mut out, &n_load_configuration_v());
            put_attr(&mut out, &a_format_v(), format);
            put_attr(&mut out, &a_action_v(), action);
            out.push(62);
            put_opt_text_elem(&mut out, &n_configuration_text_v(), cfg_text);
            put_opt_text_elem(&mut out, &n_configuration_set_v(), cfg_set);
            put_close(&mut out, &n_load_configuration_v());
        },
        RPCCommand::CommitConfiguration {} => put_empty(&mut out, &n_commit_configuration_v()),
        RPCCommand::CommitConfirmedConfiguration { confirmed: _, confirm_timeout } => {
            put_open(&mut out, &n_commit_configuration_v());
            put_empty(&mut out, &n_confirmed_v());
            put_open(&mut out, &n_confirm_timeout_v());
            write_i32(&mut out, *confirm_timeout);
            put_close(&mut out, &n_confirm_timeout_v());
            put_close(&mut out, &n_commit_configuration_v());
        },
    }
    put_close(&mut out, &n_rpc_v());
    proof {
        assert(out@ =~= enc_rpc(r@));
    }
    out
}

/// The wire XML of a reply envelope; used by tests and by the round trip.
pub fn encode_reply(r: &RPCReply) -> (out: Vec<u8>)
    ensures
        out@ == enc_reply(r@),
{
    let mut out: Vec<u8> = Vec::new();
    put_open(&mut out, &n_rpc_reply_v());
    put_reply_elems(&mut out, &r.rpc_reply);
    put_close(&mut out, &n_rpc_reply_v());
    proof {
        assert(out@ =~= enc_reply(r@));
    }
    out
}

/// The wire XML of a `hello`.
pub fn encode_hello(h: &Hello) -> (out: Vec<u8>)
    ensures
        out@ == enc_hello(h@),
{
    let mut out: Vec<u8> = Vec::new();
    out.push(60);
    append_bytes(&mut out, &n_hello_v());
    put_opt_attr(&mut out, &a_xmlns_v(), &h.namespace_junos);
    put_opt_attr(&mut out, &a_xmlns_nc_v(), &h.namespace);
    out.push(62);
    put_open(&mut out, &n_capabilities_v());
    let ghost cv = caps_view(h.capabilities.capability@);
    let ghost base = out@;
    let mut i: usize = 0;
    proof {
        assert(cv.skip(0) =~= cv);
    }
    while i < h.capabilities.capability.len()
        invariant
            i <= h.capabilities.capability@.len(),
            cv == caps_view(h.capabilities.capability@),
            out@ + enc_caps(cv.skip(i as int)) == base + enc_caps(cv),
        decreases h.capabilities.capability@.len() - i,
    {
        let ghost pre = out@;
        proof {
            assert(cv.skip(i as int)[0] == cv[i as int]);
            assert(cv.skip(i as int).drop_first() =~= cv.skip(i + 1));
        }
        put_text_elem(&mut out, &n_capability_v(), &h.capabilities.capability[i]);
        proof {
            assert(out@ + enc_caps(cv.skip(i + 1)) =~= pre + enc_caps(cv.skip(i as int)));
        }
        i += 1;
    }
    proof {
        assert(enc_caps(cv.skip(h.capabilities.capability@.len() as int)) =~= Seq::<u8>::empty());
        assert(out@ + Seq::<u8>::empty() =~= out@);
    }
    put_close(&mut out, &n_capabilities_v());
    put_opt_text_elem(&mut out, &n_session_id_v(), &h.session_id);
    put_close(&mut out, &n_hello_v());
    proof {
        assert(out@ =~= enc_hello(h@));
    }
    out
}

/// A request as written to the transport: its XML plus the framing trailer.
pub fn rpc_payload(r: &RPC) -> (out: Vec<u8>)
    ensures
        out@ == framed(enc_rpc(r@)),
{
    let mut out = encode_rpc(r);
    out.push(10);
    out.push(93);
    out.push(93);
    out.push(62);
    out.push(93);
    out.push(93);
    out.push(62);
    out.push(10);
    proof {
        assert(out@ =~= framed(enc_rpc(r@)));
    }
    out
}

/// The client's `hello` as written to the transport.
pub fn hello_payload(h: &Hello) -> (out: Vec<u8>)
    ensures
        out@ == framed(enc_hello(h@)),
{
    let mut out = encode_hello(h);
    out.push(10);
    out.push(93);
    out.push(93);
    out.push(62);
    out.push(93);
    out.push(93);
    out.push(62);
    out.push(10);
    proof {
        assert(out@ =~= framed(enc_hello(h@)));
    }
    out
}

} // verus!
