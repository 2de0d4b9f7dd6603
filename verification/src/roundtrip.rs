//! The codec round trip: whatever the encoder produces, the decoder parses
//! back to the same value.  One inversion lemma per production, composed
//! into the two public round-trip laws at the bottom.
use vstd::prelude::*;
use crate::encode::{attr, close_tag, empty_tag, enc_caps, enc_err, enc_hello, enc_load_item, enc_load_items, enc_load_results, enc_reply, enc_reply_elem, enc_reply_elems, enc_req, enc_rpc, open_tag, opt_attr, opt_text_elem, text_elem};
use crate::decode::{parse_caps, parse_empty_end, parse_err_body, parse_err_info, parse_hello_doc, parse_load_item, parse_load_items, parse_name, parse_opt_attr, parse_opt_text_elem, parse_reply_doc, parse_reply_elem, parse_reply_items, parse_req_elem, parse_rpc_doc, parse_text_body, parse_text_elem, skip_attrs};
use crate::num::{enc_i32, lemma_parse_enc_i32, parse_i32};
use crate::text::{escape, esc_byte, is_name_byte, is_ws, lemma_parse_escape, name_end, parse_text, skip_ws, starts_with};
use crate::tok::{a_action, a_compare, a_format, a_rollback, a_source, a_xmlns, a_xmlns_nc, n_bad_element, n_capabilities, n_capability, n_command, n_commit_configuration, n_commit_results, n_configuration_information, n_configuration_output, n_configuration_set, n_configuration_text, n_confirm_timeout, n_confirmed, n_error_info, n_error_message, n_error_path, n_error_severity, n_error_tag, n_error_type, n_get_configuration, n_hello, n_load_configuration, n_load_configuration_results, n_load_error_count, n_lock_configuration, n_ok, n_output, n_rpc, n_rpc_error, n_rpc_reply, n_session_id, n_source_daemon, n_unlock_configuration};
use crate::xml::{ErrV, HelloV, LoadItemV, LoadResultsV, ReplyElemV, ReqV};

verus! {

/// Every byte of a wire name is a name byte.
pub open spec fn all_name_bytes(s: Seq<u8>) -> bool {
    forall|k: int| 0 <= k < s.len() ==> is_name_byte(#[trigger] s[k])
}

/// Bytes covered by a `starts_with` fact, one by one.
proof fn lemma_starts_index(u: Seq<u8>, i: int, a: Seq<u8>)
    requires
        starts_with(u, i, a),
    ensures
        forall|k: int| 0 <= k < a.len() ==> u[i + k] == #[trigger] a[k],
{
    assert forall|k: int| 0 <= k < a.len() implies u[i + k] == #[trigger] a[k] by {
        assert(u.subrange(i, i + a.len() as int)[k] == a[k]);
    }
}

/// A match of a concatenation splits into matches of its halves.
proof fn lemma_starts_concat(u: Seq<u8>, i: int, a: Seq<u8>, b: Seq<u8>)
    requires
        starts_with(u, i, a + b),
    ensures
        starts_with(u, i, a),
        starts_with(u, i + a.len(), b),
{
    lemma_starts_index(u, i, a + b);
    assert(forall|k: int| 0 <= k < a.len() ==> (a + b)[k] == #[trigger] a[k]);
    assert(forall|k: int| 0 <= k < b.len() ==> (a + b)[a.len() + k] == #[trigger] b[k]);
    assert(u.subrange(i, i + a.len() as int) =~= a) by {
        assert(forall|k: int|
            0 <= k < a.len() ==> #[trigger] u.subrange(i, i + a.len() as int)[k] == u[i + k]);
    }
    assert(u.subrange(i + a.len(), i + a.len() + b.len() as int) =~= b) by {
        assert(forall|k: int|
            0 <= k < b.len() ==> #[trigger] u.subrange(i + a.len(), i + a.len() + b.len() as int)[k]
                == u[i + a.len() + k]);
    }
}

/// Matches of two adjacent pieces join into one.
proof fn lemma_starts_join(u: Seq<u8>, i: int, a: Seq<u8>, b: Seq<u8>)
    requires
        starts_with(u, i, a),
        starts_with(u, i + a.len(), b),
    ensures
        starts_with(u, i, a + b),
{
    lemma_starts_index(u, i, a);
    lemma_starts_index(u, i + a.len(), b);
    assert(forall|k: int| 0 <= k < a.len() ==> (a + b)[k] == #[trigger] a[k]);
    assert(forall|k: int| 0 <= k < b.len() ==> (a + b)[a.len() + k] == #[trigger] b[k]);
    assert(u.subrange(i, i + (a + b).len() as int) =~= a + b) by {
        assert(forall|k: int|
            0 <= k < (a + b).len() ==> #[trigger] u.subrange(i, i + (a + b).len() as int)[k] == u[i
                + k]);
    }
}

/// A name run bounded on the right stops exactly at its end.
proof fn lemma_name_run(u: Seq<u8>, i: int, k: int)
    requires
        0 <= i <= k <= u.len(),
        forall|j: int| i <= j < k ==> is_name_byte(u[j]),
        k == u.len() || !is_name_byte(u[k]),
    ensures
        name_end(u, i) == k,
    decreases k - i,
{
    if i < k {
        lemma_name_run(u, i + 1, k);
    }
}

/// An encoded name followed by a non-name byte parses back to itself.
proof fn lemma_parse_name_of(u: Seq<u8>, i: int, nm: Seq<u8>)
    requires
        starts_with(u, i, nm),
        all_name_bytes(nm),
        nm.len() > 0,
        i + nm.len() == u.len() || !is_name_byte(u[i + nm.len()]),
    ensures
        parse_name(u, i) == Some((nm, i + nm.len())),
{
    lemma_starts_index(u, i, nm);
    assert forall|j: int| i <= j < i + nm.len() implies is_name_byte(u[j]) by {
        assert(u[i + (j - i)] == nm[j - i]);
        assert(is_name_byte(nm[j - i]));
    }
    lemma_name_run(u, i, i + nm.len());
    assert(u.subrange(i, i + nm.len() as int) =~= nm);
}

/// Two whole-tag matches at one position name the same element.
proof fn lemma_open_tag_unique(u: Seq<u8>, i: int, a: Seq<u8>, b: Seq<u8>)
    requires
        starts_with(u, i, open_tag(a)),
        starts_with(u, i, open_tag(b)),
        all_name_bytes(a),
        all_name_bytes(b),
    ensures
        a == b,
{
    lemma_starts_index(u, i, open_tag(a));
    lemma_starts_index(u, i, open_tag(b));
    assert(forall|k: int| 0 <= k < a.len() ==> open_tag(a)[1 + k] == #[trigger] a[k]);
    assert(forall|k: int| 0 <= k < b.len() ==> open_tag(b)[1 + k] == #[trigger] b[k]);
    if a.len() < b.len() {
        assert(u[i + 1 + a.len()] == open_tag(a)[1 + a.len() as int]);
        assert(open_tag(a)[1 + a.len() as int] == 62);
        assert(u[i + 1 + a.len()] == b[a.len() as int]);
        assert(is_name_byte(b[a.len() as int]));
        assert(false);
    } else if b.len() < a.len() {
        assert(u[i + 1 + b.len()] == open_tag(b)[1 + b.len() as int]);
        assert(open_tag(b)[1 + b.len() as int] == 62);
        assert(u[i + 1 + b.len()] == a[b.len() as int]);
        assert(is_name_byte(a[b.len() as int]));
        assert(false);
    } else {
        assert(a =~= b) by {
            assert(forall|k: int|
                0 <= k < a.len() ==> #[trigger] a[k] == u[i + 1 + k] && #[trigger] b[k] == u[i + 1
                    + k]);
        }
    }
}

/// Two whole attribute matches at one position name the same attribute.
proof fn lemma_attr_name_unique(u: Seq<u8>, i: int, a: Seq<u8>, b: Seq<u8>)
    requires
        starts_with(u, i, a + seq![61u8, 34u8]),
        starts_with(u, i, b + seq![61u8, 34u8]),
        all_name_bytes(a),
        all_name_bytes(b),
    ensures
        a == b,
{
    lemma_starts_index(u, i, a + seq![61u8, 34u8]);
    lemma_starts_index(u, i, b + seq![61u8, 34u8]);
    assert(forall|k: int| 0 <= k < a.len() ==> (a + seq![61u8, 34u8])[k] == #[trigger] a[k]);
    assert(forall|k: int| 0 <= k < b.len() ==> (b + seq![61u8, 34u8])[k] == #[trigger] b[k]);
    if a.len() < b.len() {
        assert(u[i + a.len()] == (a + seq![61u8, 34u8])[a.len() as int]);
        assert(u[i + a.len()] == b[a.len() as int]);
        assert(is_name_byte(b[a.len() as int]));
        assert(false);
    } else if b.len() < a.len() {
        assert(u[i + b.len()] == (b + seq![61u8, 34u8])[b.len() as int]);
        assert(u[i + b.len()] == a[b.len() as int]);
        assert(is_name_byte(a[b.len() as int]));
        assert(false);
    } else {
        assert(a =~= b) by {
            assert(forall|k: int|
                0 <= k < a.len() ==> #[trigger] a[k] == u[i + k] && #[trigger] b[k] == u[i + k]);
        }
    }
}

/// The text body `>text</name>` parses back to the text.
proof fn rt_text_body(u: Seq<u8>, i: int, name: Seq<u8>, t: Seq<u8>)
    requires
        starts_with(u, i, seq![62u8] + escape(t, false) + close_tag(name)),
    ensures
        parse_text_body(u, i, name) == Some(
            (t, i + 1 + escape(t, false).len() + name.len() + 3),
        ),
{
    let e = escape(t, false);
    lemma_starts_concat(u, i, seq![62u8] + e, close_tag(name));
    lemma_starts_concat(u, i, seq![62u8], e);
    lemma_starts_index(u, i, seq![62u8]);
    assert(seq![62u8][0] == 62);
    assert(u[i + 0] == 62);
    let p = i + 1 + e.len();
    lemma_starts_index(u, p, close_tag(name));
    assert(u[p] == close_tag(name)[0]);
    assert(close_tag(name)[0] == 60);
    assert(u.subrange(i + 1, i + 1 + e.len() as int) =~= e) by {
        lemma_starts_index(u, i + 1, e);
        assert(forall|k: int|
            0 <= k < e.len() ==> #[trigger] u.subrange(i + 1, i + 1 + e.len() as int)[k] == u[i + 1
                + k]);
    }
    lemma_parse_escape(u, i + 1, t, false, 60);
}

/// A whole text element parses back to its text.
proof fn rt_text_elem(u: Seq<u8>, i: int, name: Seq<u8>, t: Seq<u8>)
    requires
        starts_with(u, i, text_elem(name, t)),
        name.len() > 0,
    ensures
        parse_text_elem(u, i, name) == Some((t, i + text_elem(name, t).len())),
{
    lemma_starts_concat(u, i, open_tag(name) + escape(t, false), close_tag(name));
    lemma_starts_concat(u, i, open_tag(name), escape(t, false));
    lemma_starts_index(u, i, open_tag(name));
    assert(open_tag(name)[0] == 60);
    assert(u[i + 0] == 60);
    assert(skip_ws(u, i) == i);
    assert(u.subrange(i, i + open_tag(name).len() as int) == open_tag(name));
    assert(starts_with(u, i + name.len() + 1, seq![62u8] + escape(t, false) + close_tag(name)))
        by {
        lemma_starts_index(u, i, text_elem(name, t));
        let w = seq![62u8] + escape(t, false) + close_tag(name);
        assert(forall|k: int|
            0 <= k < w.len() ==> text_elem(name, t)[name.len() + 1 + k] == #[trigger] w[k]);
        assert(u.subrange(
            i + name.len() + 1,
            i + name.len() + 1 + w.len() as int,
        ) =~= w) by {
            assert(forall|k: int|
                0 <= k < w.len() ==> #[trigger] u.subrange(
                    i + name.len() + 1,
                    i + name.len() + 1 + w.len() as int,
                )[k] == u[i + name.len() + 1 + k]);
        }
    }
    rt_text_body(u, i + name.len() + 1, name, t);
}

/// The `/>` tail of an empty element parses back.
proof fn rt_empty_end(u: Seq<u8>, i: int, name: Seq<u8>)
    requires
        starts_with(u, i, seq![47u8, 62u8]),
    ensures
        parse_empty_end(u, i, name) == Some(i + 2),
{
    lemma_starts_index(u, i, seq![47u8, 62u8]);
    assert(u[i + 0] == 47);
    assert(skip_ws(u, i) == i);
}

/// A present attribute parses back to its value.
proof fn rt_attr_present(u: Seq<u8>, i: int, name: Seq<u8>, t: Seq<u8>)
    requires
        starts_with(u, i, attr(name, t)),
        all_name_bytes(name),
        name.len() > 0,
    ensures
        parse_opt_attr(u, i, name) == Some((Some(t), i + attr(name, t).len())),
{
    let e = escape(t, true);
    lemma_starts_concat(u, i, seq![32u8] + name + seq![61u8, 34u8] + e, seq![34u8]);
    lemma_starts_concat(u, i, seq![32u8] + name + seq![61u8, 34u8], e);
    assert(seq![32u8] + (name + seq![61u8, 34u8]) =~= seq![32u8] + name + seq![61u8, 34u8]);
    lemma_starts_concat(u, i, seq![32u8], name + seq![61u8, 34u8]);
    lemma_starts_index(u, i, seq![32u8]);
    lemma_starts_index(u, i + 1, name + seq![61u8, 34u8]);
    assert(seq![32u8][0] == 32);
    assert(u[i + 0] == 32);
    assert((name + seq![61u8, 34u8])[0] == name[0]);
    assert(u[i + 1 + 0] == name[0]);
    assert(is_name_byte(name[0]));
    assert(!is_ws(name[0]));
    assert(skip_ws(u, i) == skip_ws(u, i + 1));
    assert(skip_ws(u, i + 1) == i + 1);
    let k = i + 1 + name.len() + 2;
    assert(u.subrange(k, k + e.len() as int) =~= e) by {
        lemma_starts_index(u, i + 1 + name.len() + 2, e);
        assert(forall|j: int|
            0 <= j < e.len() ==> #[trigger] u.subrange(k, k + e.len() as int)[j] == u[k + j]);
    }
    lemma_starts_index(u, i + 1 + name.len() + 2 + e.len(), seq![34u8]);
    assert(seq![34u8][0] == 34);
    assert(u[i + 1 + name.len() + 2 + e.len() + 0] == seq![34u8][0]);
    assert(u[k + e.len() as int] == 34);
    lemma_parse_escape(u, k, t, true, 34);
}

/// An absent attribute consumes nothing when what follows is no match.
proof fn rt_attr_absent(u: Seq<u8>, i: int, name: Seq<u8>)
    requires
        !starts_with(u, skip_ws(u, i), name + seq![61u8, 34u8]),
    ensures
        parse_opt_attr(u, i, name) == Some((None::<Seq<u8>>, i)),
{
}

/// A position that carries some other whole open tag does not match this one.
proof fn lemma_other_tag(u: Seq<u8>, p: int, name: Seq<u8>, other: Seq<u8>)
    requires
        starts_with(u, p, open_tag(other)),
        all_name_bytes(name),
        all_name_bytes(other),
        name != other,
    ensures
        !starts_with(u, p, open_tag(name)),
{
    if starts_with(u, p, open_tag(name)) {
        lemma_open_tag_unique(u, p, name, other);
    }
}

/// A position that carries a close tag matches no open tag.
proof fn lemma_close_not_open(u: Seq<u8>, p: int, name: Seq<u8>, closed: Seq<u8>)
    requires
        starts_with(u, p, close_tag(closed)),
        all_name_bytes(name),
        name.len() > 0,
    ensures
        !starts_with(u, p, open_tag(name)),
{
    if starts_with(u, p, open_tag(name)) {
        lemma_starts_index(u, p, close_tag(closed));
        lemma_starts_index(u, p, open_tag(name));
        assert(u[p + 1] == close_tag(closed)[1]);
        assert(close_tag(closed)[1] == 47);
        assert(u[p + 1] == open_tag(name)[1]);
        assert(open_tag(name)[1] == name[0]);
        assert(is_name_byte(name[0]));
    }
}

/// The wire names this codec uses are name runs.
proof fn lemma_wire_names()
    ensures
        all_name_bytes(n_rpc()),
        all_name_bytes(n_rpc_reply()),
        all_name_bytes(n_hello()),
        all_name_bytes(n_capabilities()),
        all_name_bytes(n_capability()),
        all_name_bytes(n_session_id()),
        all_name_bytes(n_get_configuration()),
        all_name_bytes(n_command()),
        all_name_bytes(n_lock_configuration()),
        all_name_bytes(n_unlock_configuration()),
        all_name_bytes(n_load_configuration()),
        all_name_bytes(n_configuration_text()),
        all_name_bytes(n_configuration_set()),
        all_name_bytes(n_commit_configuration()),
        all_name_bytes(n_confirmed()),
        all_name_bytes(n_confirm_timeout()),
        all_name_bytes(n_output()),
        all_name_bytes(n_load_configuration_results()),
        all_name_bytes(n_configuration_information()),
        all_name_bytes(n_configuration_output()),
        all_name_bytes(n_rpc_error()),
        all_name_bytes(n_ok()),
        all_name_bytes(n_commit_results()),
        all_name_bytes(n_load_error_count()),
        all_name_bytes(n_error_severity()),
        all_name_bytes(n_error_message()),
        all_name_bytes(n_error_path()),
        all_name_bytes(n_error_type()),
        all_name_bytes(n_error_tag()),
        all_name_bytes(n_error_info()),
        all_name_bytes(n_bad_element()),
        all_name_bytes(n_source_daemon()),
        all_name_bytes(a_format()),
        all_name_bytes(a_rollback()),
        all_name_bytes(a_compare()),
        all_name_bytes(a_source()),
        all_name_bytes(a_action()),
        all_name_bytes(a_xmlns()),
        all_name_bytes(a_xmlns_nc()),
{
}

/// The optional elements of an error body and its close tag all start with
/// `<`; whichever stands at `p` next refuses the open tag of `name` when
/// `name` is none of the names that can stand there.
proof fn rt_err_opt_absent(u: Seq<u8>, p: int, name: Seq<u8>, e: ErrV)
    requires
        all_name_bytes(name),
        name.len() > 0,
        name != n_error_type() && name != n_error_tag() && name != n_error_info() && name
            != n_source_daemon(),
        starts_with(
            u,
            p,
            opt_text_elem(n_error_type(), e.typ) + opt_text_elem(n_error_tag(), e.tag) + (match e.bad_element {
                Some(b) => open_tag(n_error_info()) + text_elem(n_bad_element(), b) + close_tag(
                    n_error_info(),
                ),
                None => Seq::empty(),
            }) + opt_text_elem(n_source_daemon(), e.source_daemon) + close_tag(n_rpc_error()),
        ),
    ensures
        !starts_with(u, p, open_tag(name)),
{
    lemma_wire_names();
    {
        let c_typ = opt_text_elem(n_error_type(), e.typ);
        let c_tag = opt_text_elem(n_error_tag(), e.tag);
        let c_info = (match e.bad_element {
            Some(b) => open_tag(n_error_info()) + text_elem(n_bad_element(), b) + close_tag(
                n_error_info(),
            ),
            None => Seq::empty(),
        });
        let c_sd = opt_text_elem(n_source_daemon(), e.source_daemon);
        let c_close = close_tag(n_rpc_error());
        lemma_starts_concat(u, p, c_typ + c_tag + c_info + c_sd, c_close);
        lemma_starts_concat(u, p, c_typ + c_tag + c_info, c_sd);
        lemma_starts_concat(u, p, c_typ + c_tag, c_info);
        lemma_starts_concat(u, p, c_typ, c_tag);
        if e.typ is Some {
            lemma_starts_concat(u, p, open_tag(n_error_type()) + escape(e.typ->0, false), close_tag(n_error_type()));
            lemma_starts_concat(u, p, open_tag(n_error_type()), escape(e.typ->0, false));
            lemma_other_tag(u, p, name, n_error_type());
        } else if e.tag is Some {
            lemma_starts_concat(u, p, open_tag(n_error_tag()) + escape(e.tag->0, false), close_tag(n_error_tag()));
            lemma_starts_concat(u, p, open_tag(n_error_tag()), escape(e.tag->0, false));
            lemma_other_tag(u, p, name, n_error_tag());
        } else if e.bad_element is Some {
            lemma_starts_concat(u, p, open_tag(n_error_info()) + text_elem(n_bad_element(), e.bad_element->0), close_tag(n_error_info()));
            lemma_starts_concat(u, p, open_tag(n_error_info()), text_elem(n_bad_element(), e.bad_element->0));
            lemma_other_tag(u, p, name, n_error_info());
        } else if e.source_daemon is Some {
            lemma_starts_concat(u, p, open_tag(n_source_daemon()) + escape(e.source_daemon->0, false), close_tag(n_source_daemon()));
            lemma_starts_concat(u, p, open_tag(n_source_daemon()), escape(e.source_daemon->0, false));
            lemma_other_tag(u, p, name, n_source_daemon());
        } else {
            lemma_close_not_open(u, p, name, n_rpc_error());
        }
    }
}

/// The optional error fields from the tag position onward.
#[verifier::rlimit(100)]
#[verifier::spinoff_prover]
proof fn rt_err_opts2(u: Seq<u8>, p: int, e: ErrV)
    requires
        starts_with(
            u,
            p,
            opt_text_elem(n_error_tag(), e.tag) + (match e.bad_element {
                Some(b) => open_tag(n_error_info()) + text_elem(n_bad_element(), b) + close_tag(
                    n_error_info(),
                ),
                None => Seq::empty(),
            }) + opt_text_elem(n_source_daemon(), e.source_daemon) + close_tag(n_rpc_error()),
        ),
    ensures
        ({
            let c_tag = opt_text_elem(n_error_tag(), e.tag);
            let c_info = (match e.bad_element {
                Some(b) => open_tag(n_error_info()) + text_elem(n_bad_element(), b) + close_tag(
                    n_error_info(),
                ),
                None => Seq::empty(),
            });
            let c_sd = opt_text_elem(n_source_daemon(), e.source_daemon);
            let o_info = p + c_tag.len();
            let o_sd = o_info + c_info.len();
            let o_close = o_sd + c_sd.len();
            &&& parse_opt_text_elem(u, p, n_error_tag()) == Some((e.tag, o_info))
            &&& parse_err_info(u, o_info) == Some((e.bad_element, o_sd))
            &&& parse_opt_text_elem(u, o_sd, n_source_daemon()) == Some(
                (e.source_daemon, o_close),
            )
            &&& starts_with(u, o_close, close_tag(n_rpc_error()))
            &&& skip_ws(u, o_close) == o_close
        }),
{
    lemma_wire_names();
    let c_tag = opt_text_elem(n_error_tag(), e.tag);
    let c_info = (match e.bad_element {
        Some(b) => open_tag(n_error_info()) + text_elem(n_bad_element(), b) + close_tag(
            n_error_info(),
        ),
        None => Seq::empty(),
    });
    let c_sd = opt_text_elem(n_source_daemon(), e.source_daemon);
    let c_close = close_tag(n_rpc_error());
    lemma_starts_concat(u, p, c_tag + c_info + c_sd, c_close);
    lemma_starts_concat(u, p, c_tag + c_info, c_sd);
    lemma_starts_concat(u, p, c_tag, c_info);
    let o_info = p + c_tag.len();
    let o_sd = o_info + c_info.len();
    let o_close = o_sd + c_sd.len();
    lemma_starts_join(u, o_sd, c_sd, c_close);
    lemma_starts_join(u, o_info, c_info, c_sd);
    lemma_starts_join(u, o_info, c_info + c_sd, c_close);
    match e.tag {
        Some(tv) => {
            rt_text_elem(u, p, n_error_tag(), tv);
        },
        None => {
            rt_err_opt_absent3(u, o_info, n_error_tag(), e);
            lemma_err_tail_open2(u, o_info, e);
            assert(skip_ws(u, p) == p);
        },
    }
    assert(parse_opt_text_elem(u, p, n_error_tag()) == Some((e.tag, o_info)));
    match e.bad_element {
        Some(b) => {
            let ci1 = open_tag(n_error_info());
            let ci2 = text_elem(n_bad_element(), b);
            lemma_starts_concat(u, o_info, ci1 + ci2, close_tag(n_error_info()));
            lemma_starts_concat(u, o_info, ci1, ci2);
            lemma_starts_index(u, o_info, ci1);
            assert(ci1[0] == 60);
            assert(u[o_info + 0] == 60);
            assert(skip_ws(u, o_info) == o_info);
            rt_text_elem(u, o_info + ci1.len(), n_bad_element(), b);
            let bend = o_info + ci1.len() + ci2.len();
            lemma_starts_index(u, bend, close_tag(n_error_info()));
            assert(close_tag(n_error_info())[0] == 60);
            assert(u[bend + 0] == 60);
            assert(skip_ws(u, bend) == bend);
            assert(parse_err_info(u, o_info) == Some((Some(b), o_sd)));
        },
        None => {
            rt_err_opt_absent4(u, o_sd, n_error_info(), e);
            lemma_err_tail_open3(u, o_sd, e);
            assert(skip_ws(u, o_info) == o_info);
            assert(parse_err_info(u, o_info) == Some((None::<Seq<u8>>, o_sd)));
        },
    }
    match e.source_daemon {
        Some(tv) => {
            rt_text_elem(u, o_sd, n_source_daemon(), tv);
        },
        None => {
            lemma_close_not_open(u, o_close, n_source_daemon(), n_rpc_error());
            lemma_starts_index(u, o_close, c_close);
            assert(c_close[0] == 60);
            assert(u[o_close + 0] == 60);
            assert(skip_ws(u, o_sd) == o_sd);
        },
    }
    assert(parse_opt_text_elem(u, o_sd, n_source_daemon()) == Some((e.source_daemon, o_close)));
    lemma_starts_index(u, o_close, c_close);
    assert(c_close[0] == 60);
    assert(u[o_close + 0] == 60);
    assert(skip_ws(u, o_close) == o_close);
}

/// The path and type fields, given the rest of the error body.
#[verifier::rlimit(100)]
#[verifier::spinoff_prover]
proof fn rt_err_opts1(u: Seq<u8>, p: int, e: ErrV)
    requires
        starts_with(
            u,
            p,
            opt_text_elem(n_error_path(), e.path) + opt_text_elem(n_error_type(), e.typ)
                + opt_text_elem(n_error_tag(), e.tag) + (match e.bad_element {
                Some(b) => open_tag(n_error_info()) + text_elem(n_bad_element(), b) + close_tag(
                    n_error_info(),
                ),
                None => Seq::empty(),
            }) + opt_text_elem(n_source_daemon(), e.source_daemon) + close_tag(n_rpc_error()),
        ),
    ensures
        ({
            let c_path = opt_text_elem(n_error_path(), e.path);
            let c_typ = opt_text_elem(n_error_type(), e.typ);
            let c_tag = opt_text_elem(n_error_tag(), e.tag);
            let c_info = (match e.bad_element {
                Some(b) => open_tag(n_error_info()) + text_elem(n_bad_element(), b) + close_tag(
                    n_error_info(),
                ),
                None => Seq::empty(),
            });
            let c_sd = opt_text_elem(n_source_daemon(), e.source_daemon);
            let o_typ = p + c_path.len();
            let o_tag = o_typ + c_typ.len();
            &&& parse_opt_text_elem(u, p, n_error_path()) == Some((e.path, o_typ))
            &&& parse_opt_text_elem(u, o_typ, n_error_type()) == Some((e.typ, o_tag))
            &&& starts_with(
                u,
                o_tag,
                c_tag + c_info + c_sd + close_tag(n_rpc_error()),
            )
        }),
{
    lemma_wire_names();
    let c_path = opt_text_elem(n_error_path(), e.path);
    let c_typ = opt_text_elem(n_error_type(), e.typ);
    let c_tag = opt_text_elem(n_error_tag(), e.tag);
    let c_info = (match e.bad_element {
        Some(b) => open_tag(n_error_info()) + text_elem(n_bad_element(), b) + close_tag(
            n_error_info(),
        ),
        None => Seq::empty(),
    });
    let c_sd = opt_text_elem(n_source_daemon(), e.source_daemon);
    let c_close = close_tag(n_rpc_error());
    lemma_starts_concat(u, p, c_path + c_typ + c_tag + c_info + c_sd, c_close);
    lemma_starts_concat(u, p, c_path + c_typ + c_tag + c_info, c_sd);
    lemma_starts_concat(u, p, c_path + c_typ + c_tag, c_info);
    lemma_starts_concat(u, p, c_path + c_typ, c_tag);
    lemma_starts_concat(u, p, c_path, c_typ);
    let o_typ = p + c_path.len();
    let o_tag = o_typ + c_typ.len();
    let o_info = o_tag + c_tag.len();
    let o_sd = o_info + c_info.len();
    lemma_starts_join(u, o_sd, c_sd, c_close);
    lemma_starts_join(u, o_info, c_info, c_sd);
    lemma_starts_join(u, o_info, c_info + c_sd, c_close);
    lemma_starts_join(u, o_tag, c_tag, c_info);
    lemma_starts_join(u, o_tag, c_tag + c_info, c_sd);
    lemma_starts_join(u, o_tag, c_tag + c_info + c_sd, c_close);
    lemma_starts_join(u, o_typ, c_typ, c_tag + c_info + c_sd + c_close);
    match e.path {
        Some(pv) => {
            rt_text_elem(u, p, n_error_path(), pv);
        },
        None => {
            rt_err_opt_absent(u, o_typ, n_error_path(), e);
            assert(c_typ + (c_tag + c_info + c_sd + c_close) =~= c_typ + c_tag + c_info + c_sd
                + c_close);
            lemma_starts_index(u, o_typ, c_typ + c_tag + c_info + c_sd + c_close);
            assert((c_typ + c_tag + c_info + c_sd + c_close)[0] == 60) by {
                if e.typ is Some {
                    assert(c_typ[0] == open_tag(n_error_type())[0]);
                } else if e.tag is Some {
                    assert(c_tag[0] == open_tag(n_error_tag())[0]);
                } else if e.bad_element is Some {
                    assert(c_info[0] == open_tag(n_error_info())[0]);
                } else if e.source_daemon is Some {
                    assert(c_sd[0] == open_tag(n_source_daemon())[0]);
                } else {
                    assert(c_close[0] == 60);
                }
            }
            assert(u[o_typ + 0] == 60);
            assert(skip_ws(u, p) == p);
        },
    }
    assert(parse_opt_text_elem(u, p, n_error_path()) == Some((e.path, o_typ)));
    match e.typ {
        Some(tv) => {
            rt_text_elem(u, o_typ, n_error_type(), tv);
        },
        None => {
            rt_err_opt_absent2(u, o_tag, n_error_type(), e);
            lemma_err_tail_open(u, o_tag, e);
            assert(skip_ws(u, o_typ) == o_typ);
        },
    }
    assert(parse_opt_text_elem(u, o_typ, n_error_type()) == Some((e.typ, o_tag)));
}

/// The body of an encoded `rpc-error` parses back to the same error.
#[verifier::rlimit(100)]
#[verifier::spinoff_prover]
proof fn rt_err_body(u: Seq<u8>, g: int, e: ErrV)
    requires
        starts_with(
            u,
            g,
            seq![62u8] + text_elem(n_error_severity(), e.severity) + text_elem(
                n_error_message(),
                e.message,
            ) + opt_text_elem(n_error_path(), e.path) + opt_text_elem(n_error_type(), e.typ)
                + opt_text_elem(n_error_tag(), e.tag) + (match e.bad_element {
                Some(b) => open_tag(n_error_info()) + text_elem(n_bad_element(), b) + close_tag(
                    n_error_info(),
                ),
                None => Seq::empty(),
            }) + opt_text_elem(n_source_daemon(), e.source_daemon) + close_tag(n_rpc_error()),
        ),
    ensures
        ({
            let body = seq![62u8] + text_elem(n_error_severity(), e.severity) + text_elem(
                n_error_message(),
                e.message,
            ) + opt_text_elem(n_error_path(), e.path) + opt_text_elem(n_error_type(), e.typ)
                + opt_text_elem(n_error_tag(), e.tag) + (match e.bad_element {
                Some(b) => open_tag(n_error_info()) + text_elem(n_bad_element(), b) + close_tag(
                    n_error_info(),
                ),
                None => Seq::empty(),
            }) + opt_text_elem(n_source_daemon(), e.source_daemon) + close_tag(n_rpc_error());
            parse_err_body(u, g) == Some((e, g + body.len()))
        }),
{
    lemma_wire_names();
    let c_sev = text_elem(n_error_severity(), e.severity);
    let c_msg = text_elem(n_error_message(), e.message);
    let c_path = opt_text_elem(n_error_path(), e.path);
    let c_typ = opt_text_elem(n_error_type(), e.typ);
    let c_tag = opt_text_elem(n_error_tag(), e.tag);
    let c_info = (match e.bad_element {
        Some(b) => open_tag(n_error_info()) + text_elem(n_bad_element(), b) + close_tag(
            n_error_info(),
        ),
        None => Seq::empty(),
    });
    let c_sd = opt_text_elem(n_source_daemon(), e.source_daemon);
    let c_close = close_tag(n_rpc_error());
    lemma_starts_concat(u, g, seq![62u8] + c_sev + c_msg + c_path + c_typ + c_tag + c_info + c_sd, c_close);
    lemma_starts_concat(u, g, seq![62u8] + c_sev + c_msg + c_path + c_typ + c_tag + c_info, c_sd);
    lemma_starts_concat(u, g, seq![62u8] + c_sev + c_msg + c_path + c_typ + c_tag, c_info);
    lemma_starts_concat(u, g, seq![62u8] + c_sev + c_msg + c_path + c_typ, c_tag);
    lemma_starts_concat(u, g, seq![62u8] + c_sev + c_msg + c_path, c_typ);
    lemma_starts_concat(u, g, seq![62u8] + c_sev + c_msg, c_path);
    lemma_starts_concat(u, g, seq![62u8] + c_sev, c_msg);
    lemma_starts_concat(u, g, seq![62u8], c_sev);
    lemma_starts_index(u, g, seq![62u8]);
    assert(seq![62u8][0] == 62);
    assert(u[g + 0] == 62);
    let o_sev = g + 1;
    let o_msg = o_sev + c_sev.len();
    let o_path = o_msg + c_msg.len();
    let o_typ = o_path + c_path.len();
    let o_tag = o_typ + c_typ.len();
    let o_info = o_tag + c_tag.len();
    let o_sd = o_info + c_info.len();
    let o_close = o_sd + c_sd.len();
    lemma_starts_join(u, o_sd, c_sd, c_close);
    lemma_starts_join(u, o_info, c_info, c_sd);
    lemma_starts_join(u, o_info, c_info + c_sd, c_close);
    lemma_starts_join(u, o_tag, c_tag, c_info);
    lemma_starts_join(u, o_tag, c_tag + c_info, c_sd);
    lemma_starts_join(u, o_tag, c_tag + c_info + c_sd, c_close);
    lemma_starts_join(u, o_typ, c_typ, c_tag);
    lemma_starts_join(u, o_typ, c_typ + c_tag, c_info);
    lemma_starts_join(u, o_typ, c_typ + c_tag + c_info, c_sd);
    lemma_starts_join(u, o_typ, c_typ + c_tag + c_info + c_sd, c_close);
    lemma_starts_join(u, o_path, c_path, c_typ + c_tag + c_info + c_sd + c_close);
    assert(c_path + (c_typ + c_tag + c_info + c_sd + c_close) =~= c_path + c_typ + c_tag + c_info
        + c_sd + c_close);
    rt_text_elem(u, o_sev, n_error_severity(), e.severity);
    rt_text_elem(u, o_msg, n_error_message(), e.message);
    rt_err_opts1(u, o_path, e);
    rt_err_opts2(u, o_tag, e);
    assert(ErrV {
        severity: e.severity,
        message: e.message,
        path: e.path,
        typ: e.typ,
        tag: e.tag,
        bad_element: e.bad_element,
        source_daemon: e.source_daemon,
    } == e);
}

/// Like `rt_err_opt_absent`, one stage later: tag, info, daemon or close.
proof fn rt_err_opt_absent2(u: Seq<u8>, p: int, name: Seq<u8>, e: ErrV)
    requires
        all_name_bytes(name),
        name.len() > 0,
        name != n_error_tag() && name != n_error_info() && name != n_source_daemon(),
        starts_with(
            u,
            p,
            opt_text_elem(n_error_tag(), e.tag) + (match e.bad_element {
                Some(b) => open_tag(n_error_info()) + text_elem(n_bad_element(), b) + close_tag(
                    n_error_info(),
                ),
                None => Seq::empty(),
            }) + opt_text_elem(n_source_daemon(), e.source_daemon) + close_tag(n_rpc_error()),
        ),
    ensures
        !starts_with(u, p, open_tag(name)),
{
    lemma_wire_names();
    let c_tag = opt_text_elem(n_error_tag(), e.tag);
    let c_info = (match e.bad_element {
        Some(b) => open_tag(n_error_info()) + text_elem(n_bad_element(), b) + close_tag(
            n_error_info(),
        ),
        None => Seq::empty(),
    });
    let c_sd = opt_text_elem(n_source_daemon(), e.source_daemon);
    let c_close = close_tag(n_rpc_error());
    lemma_starts_concat(u, p, c_tag + c_info + c_sd, c_close);
    lemma_starts_concat(u, p, c_tag + c_info, c_sd);
    lemma_starts_concat(u, p, c_tag, c_info);
    if e.tag is Some {
        lemma_starts_concat(u, p, open_tag(n_error_tag()) + escape(e.tag->0, false), close_tag(n_error_tag()));
        lemma_starts_concat(u, p, open_tag(n_error_tag()), escape(e.tag->0, false));
        lemma_other_tag(u, p, name, n_error_tag());
    } else if e.bad_element is Some {
        lemma_starts_concat(u, p, open_tag(n_error_info()) + text_elem(n_bad_element(), e.bad_element->0), close_tag(n_error_info()));
        lemma_starts_concat(u, p, open_tag(n_error_info()), text_elem(n_bad_element(), e.bad_element->0));
        lemma_other_tag(u, p, name, n_error_info());
    } else if e.source_daemon is Some {
        lemma_starts_concat(u, p, open_tag(n_source_daemon()) + escape(e.source_daemon->0, false), close_tag(n_source_daemon()));
        lemma_starts_concat(u, p, open_tag(n_source_daemon()), escape(e.source_daemon->0, false));
        lemma_other_tag(u, p, name, n_source_daemon());
    } else {
        lemma_close_not_open(u, p, name, n_rpc_error());
    }
}

/// Like the others, from the info position: info, daemon or close.
proof fn rt_err_opt_absent3(u: Seq<u8>, p: int, name: Seq<u8>, e: ErrV)
    requires
        all_name_bytes(name),
        name.len() > 0,
        name != n_error_info() && name != n_source_daemon(),
        starts_with(
            u,
            p,
            (match e.bad_element {
                Some(b) => open_tag(n_error_info()) + text_elem(n_bad_element(), b) + close_tag(
                    n_error_info(),
                ),
                None => Seq::empty(),
            }) + opt_text_elem(n_source_daemon(), e.source_daemon) + close_tag(n_rpc_error()),
        ),
    ensures
        !starts_with(u, p, open_tag(name)),
{
    lemma_wire_names();
    let c_info = (match e.bad_element {
        Some(b) => open_tag(n_error_info()) + text_elem(n_bad_element(), b) + close_tag(
            n_error_info(),
        ),
        None => Seq::empty(),
    });
    let c_sd = opt_text_elem(n_source_daemon(), e.source_daemon);
    let c_close = close_tag(n_rpc_error());
    lemma_starts_concat(u, p, c_info + c_sd, c_close);
    lemma_starts_concat(u, p, c_info, c_sd);
    if e.bad_element is Some {
        lemma_starts_concat(u, p, open_tag(n_error_info()) + text_elem(n_bad_element(), e.bad_element->0), close_tag(n_error_info()));
        lemma_starts_concat(u, p, open_tag(n_error_info()), text_elem(n_bad_element(), e.bad_element->0));
        lemma_other_tag(u, p, name, n_error_info());
    } else if e.source_daemon is Some {
        lemma_starts_concat(u, p, open_tag(n_source_daemon()) + escape(e.source_daemon->0, false), close_tag(n_source_daemon()));
        lemma_starts_concat(u, p, open_tag(n_source_daemon()), escape(e.source_daemon->0, false));
        lemma_other_tag(u, p, name, n_source_daemon());
    } else {
        lemma_close_not_open(u, p, name, n_rpc_error());
    }
}

/// Like the others, from the daemon position: daemon or close.
proof fn rt_err_opt_absent4(u: Seq<u8>, p: int, name: Seq<u8>, e: ErrV)
    requires
        all_name_bytes(name),
        name.len() > 0,
        name != n_source_daemon(),
        starts_with(
            u,
            p,
            opt_text_elem(n_source_daemon(), e.source_daemon) + close_tag(n_rpc_error()),
        ),
    ensures
        !starts_with(u, p, open_tag(name)),
{
    lemma_wire_names();
    let c_sd = opt_text_elem(n_source_daemon(), e.source_daemon);
    let c_close = close_tag(n_rpc_error());
    lemma_starts_concat(u, p, c_sd, c_close);
    if e.source_daemon is Some {
        lemma_starts_concat(u, p, open_tag(n_source_daemon()) + escape(e.source_daemon->0, false), close_tag(n_source_daemon()));
        lemma_starts_concat(u, p, open_tag(n_source_daemon()), escape(e.source_daemon->0, false));
        lemma_other_tag(u, p, name, n_source_daemon());
    } else {
        lemma_close_not_open(u, p, name, n_rpc_error());
    }
}

/// The error-body tail from the tag position starts with `<`.
proof fn lemma_err_tail_open(u: Seq<u8>, p: int, e: ErrV)
    requires
        starts_with(
            u,
            p,
            opt_text_elem(n_error_tag(), e.tag) + (match e.bad_element {
                Some(b) => open_tag(n_error_info()) + text_elem(n_bad_element(), b) + close_tag(
                    n_error_info(),
                ),
                None => Seq::empty(),
            }) + opt_text_elem(n_source_daemon(), e.source_daemon) + close_tag(n_rpc_error()),
        ),
    ensures
        u[p] == 60,
        0 <= p < u.len(),
{
    let c_tag = opt_text_elem(n_error_tag(), e.tag);
    let c_info = (match e.bad_element {
        Some(b) => open_tag(n_error_info()) + text_elem(n_bad_element(), b) + close_tag(
            n_error_info(),
        ),
        None => Seq::empty(),
    });
    let c_sd = opt_text_elem(n_source_daemon(), e.source_daemon);
    let c_close = close_tag(n_rpc_error());
    let w = c_tag + c_info + c_sd + c_close;
    lemma_starts_index(u, p, w);
    assert(w[0] == 60) by {
        if e.tag is Some {
            assert(c_tag[0] == open_tag(n_error_tag())[0]);
        } else if e.bad_element is Some {
            assert(c_info[0] == open_tag(n_error_info())[0]);
        } else if e.source_daemon is Some {
            assert(c_sd[0] == open_tag(n_source_daemon())[0]);
        } else {
            assert(c_close[0] == 60);
        }
    }
    assert(u[p + 0] == w[0]);
}

/// The error-body tail from the info position starts with `<`.
proof fn lemma_err_tail_open2(u: Seq<u8>, p: int, e: ErrV)
    requires
        starts_with(
            u,
            p,
            (match e.bad_element {
                Some(b) => open_tag(n_error_info()) + text_elem(n_bad_element(), b) + close_tag(
                    n_error_info(),
                ),
                None => Seq::empty(),
            }) + opt_text_elem(n_source_daemon(), e.source_daemon) + close_tag(n_rpc_error()),
        ),
    ensures
        u[p] == 60,
        0 <= p < u.len(),
{
    let c_info = (match e.bad_element {
        Some(b) => open_tag(n_error_info()) + text_elem(n_bad_element(), b) + close_tag(
            n_error_info(),
        ),
        None => Seq::empty(),
    });
    let c_sd = opt_text_elem(n_source_daemon(), e.source_daemon);
    let c_close = close_tag(n_rpc_error());
    let w = c_info + c_sd + c_close;
    lemma_starts_index(u, p, w);
    assert(w[0] == 60) by {
        if e.bad_element is Some {
            assert(c_info[0] == open_tag(n_error_info())[0]);
        } else if e.source_daemon is Some {
            assert(c_sd[0] == open_tag(n_source_daemon())[0]);
        } else {
            assert(c_close[0] == 60);
        }
    }
    assert(u[p + 0] == w[0]);
}

/// The error-body tail from the daemon position starts with `<`.
proof fn lemma_err_tail_open3(u: Seq<u8>, p: int, e: ErrV)
    requires
        starts_with(
            u,
            p,
            opt_text_elem(n_source_daemon(), e.source_daemon) + close_tag(n_rpc_error()),
        ),
    ensures
        u[p] == 60,
        0 <= p < u.len(),
{
    let c_sd = opt_text_elem(n_source_daemon(), e.source_daemon);
    let c_close = close_tag(n_rpc_error());
    let w = c_sd + c_close;
    lemma_starts_index(u, p, w);
    assert(w[0] == 60) by {
        if e.source_daemon is Some {
            assert(c_sd[0] == open_tag(n_source_daemon())[0]);
        } else {
            assert(c_close[0] == 60);
        }
    }
    assert(u[p + 0] == w[0]);
}

/// Escaping never shortens text.
proof fn lemma_escape_len(t: Seq<u8>, quot: bool)
    ensures
        escape(t, quot).len() >= t.len(),
    decreases t.len(),
{
    if t.len() > 0 {
        lemma_escape_len(t.drop_first(), quot);
    }
}

/// Encoded elements start with `<`; the fallback never does.
proof fn lemma_elem_first(e: ReplyElemV)
    requires
        !(e is Other),
    ensures
        enc_reply_elem(e).len() > 0,
        enc_reply_elem(e)[0] == 60,
{
    match e {
        ReplyElemV::Output(t) => {
            assert(enc_reply_elem(e)[0] == open_tag(n_output())[0]);
        },
        ReplyElemV::LoadResults(lr) => {
            assert(enc_reply_elem(e)[0] == seq![60u8][0]);
        },
        ReplyElemV::ConfigInfo { format, rollback, compare, output } => {
            assert(enc_reply_elem(e)[0] == seq![60u8][0]);
        },
        ReplyElemV::ConfigText(t) => {
            assert(enc_reply_elem(e)[0] == open_tag(n_configuration_text())[0]);
        },
        ReplyElemV::ErrorElem(err) => {
            assert(enc_reply_elem(e)[0] == open_tag(n_rpc_error())[0]);
        },
        ReplyElemV::OkElem => {
            assert(enc_reply_elem(e)[0] == empty_tag(n_ok())[0]);
        },
        ReplyElemV::CommitResultsElem => {
            assert(enc_reply_elem(e)[0] == empty_tag(n_commit_results())[0]);
        },
        ReplyElemV::Other(t) => {},
    }
}

/// An encoded element name parses back, bounded by what must follow it.
proof fn rt_elem_name(u: Seq<u8>, i: int, name: Seq<u8>, rest: Seq<u8>)
    requires
        starts_with(u, i, seq![60u8] + name + rest),
        all_name_bytes(name),
        name.len() > 0,
        rest.len() > 0,
        !is_name_byte(rest[0]),
    ensures
        0 <= i < u.len(),
        u[i] == 60,
        parse_name(u, i + 1) == Some((name, i + 1 + name.len())),
        starts_with(u, i + 1 + name.len(), rest),
    decreases 0int,
{
    lemma_starts_concat(u, i, seq![60u8] + name, rest);
    lemma_starts_concat(u, i, seq![60u8], name);
    lemma_starts_index(u, i, seq![60u8]);
    assert(seq![60u8][0] == 60);
    assert(u[i + 0] == 60);
    lemma_starts_index(u, i + 1 + name.len(), rest);
    assert(u[i + 1 + name.len() + 0] == rest[0]);
    lemma_parse_name_of(u, i + 1, name);
}

/// An encoded empty-tag element parses back.
proof fn rt_empty_elem(u: Seq<u8>, i: int, name: Seq<u8>)
    requires
        starts_with(u, i, empty_tag(name)),
        all_name_bytes(name),
        name.len() > 0,
    ensures
        0 <= i < u.len(),
        u[i] == 60,
        parse_name(u, i + 1) == Some((name, i + 1 + name.len())),
        parse_empty_end(u, i + 1 + name.len(), name) == Some(i + empty_tag(name).len()),
{
    assert(empty_tag(name) =~= seq![60u8] + name + seq![47u8, 62u8]);
    rt_elem_name(u, i, name, seq![47u8, 62u8]);
    rt_empty_end(u, i + 1 + name.len(), name);
}

/// One encoded load-result entry parses back.
#[verifier::rlimit(100)]
proof fn rt_load_item(u: Seq<u8>, i: int, it: LoadItemV)
    requires
        starts_with(u, i, enc_load_item(it)),
    ensures
        parse_load_item(u, i) == Some((it, i + enc_load_item(it).len())),
{
    lemma_wire_names();
    match it {
        LoadItemV::OkItem => {
            rt_empty_elem(u, i, n_ok());
        },
        LoadItemV::ErrorItem(e) => {
            let body = seq![62u8] + text_elem(n_error_severity(), e.severity) + text_elem(
                n_error_message(),
                e.message,
            ) + opt_text_elem(n_error_path(), e.path) + opt_text_elem(n_error_type(), e.typ)
                + opt_text_elem(n_error_tag(), e.tag) + (match e.bad_element {
                Some(b) => open_tag(n_error_info()) + text_elem(n_bad_element(), b) + close_tag(
                    n_error_info(),
                ),
                None => Seq::empty(),
            }) + opt_text_elem(n_source_daemon(), e.source_daemon) + close_tag(n_rpc_error());
            assert(enc_err(e) =~= seq![60u8] + n_rpc_error() + body) by {
                assert(open_tag(n_rpc_error()) =~= seq![60u8] + n_rpc_error() + seq![62u8]);
            }
            rt_elem_name(u, i, n_rpc_error(), body);
            assert(body[0] == 62);
            rt_err_body(u, i + 1 + n_rpc_error().len(), e);
        },
        LoadItemV::ErrorCount(m) => {
            let body = seq![62u8] + escape(m, false) + close_tag(n_load_error_count());
            assert(text_elem(n_load_error_count(), m) =~= seq![60u8] + n_load_error_count()
                + body) by {
                assert(open_tag(n_load_error_count()) =~= seq![60u8] + n_load_error_count()
                    + seq![62u8]);
            }
            rt_elem_name(u, i, n_load_error_count(), body);
            rt_text_body(u, i + 1 + n_load_error_count().len(), n_load_error_count(), m);
        },
    }
}

/// An encoded load-result list, bounded by the close tag, parses back.
#[verifier::rlimit(100)]
#[verifier::spinoff_prover]
proof fn rt_load_items(u: Seq<u8>, i: int, items: Seq<LoadItemV>)
    requires
        starts_with(u, i, enc_load_items(items) + close_tag(n_load_configuration_results())),
    ensures
        parse_load_items(u, i) == Some((items, i + enc_load_items(items).len())),
    decreases items.len(),
{
    lemma_wire_names();
    let cl = close_tag(n_load_configuration_results());
    if items.len() == 0 {
        assert(enc_load_items(items) =~= Seq::<u8>::empty());
        assert(Seq::<u8>::empty() + cl =~= cl);
        lemma_starts_index(u, i, cl);
        assert(cl[0] == 60 && cl[1] == 47);
        assert(u[i + 0] == 60 && u[i + 1] == 47);
        assert(skip_ws(u, i) == i);
        assert(starts_with(u, i, seq![60u8, 47u8])) by {
            assert(u.subrange(i, i + 2) =~= seq![60u8, 47u8]);
        }
        assert(items =~= Seq::<LoadItemV>::empty());
    } else {
        let h = enc_load_item(items[0]);
        let t = enc_load_items(items.drop_first());
        assert(enc_load_items(items) == h + t);
        assert((h + t) + cl =~= h + (t + cl));
        lemma_starts_concat(u, i, h, t + cl);
        rt_load_item(u, i, items[0]);
        lemma_starts_index(u, i, h);
        assert(h.len() > 0) by {
            match items[0] {
                LoadItemV::OkItem => {},
                LoadItemV::ErrorItem(e) => {},
                LoadItemV::ErrorCount(m) => {},
            }
        }
        assert(h[0] == 60) by {
            match items[0] {
                LoadItemV::OkItem => {
                    assert(h[0] == empty_tag(n_ok())[0]);
                },
                LoadItemV::ErrorItem(e) => {
                    assert(h[0] == open_tag(n_rpc_error())[0]);
                },
                LoadItemV::ErrorCount(m) => {
                    assert(h[0] == open_tag(n_load_error_count())[0]);
                },
            }
        }
        assert(u[i + 0] == 60);
        assert(skip_ws(u, i) == i);
        assert(!starts_with(u, i, seq![60u8, 47u8])) by {
            if starts_with(u, i, seq![60u8, 47u8]) {
                lemma_starts_index(u, i, seq![60u8, 47u8]);
                assert(u[i + 1] == 47);
                assert(u[i + 1] == h[1]) by {
                    lemma_starts_index(u, i, h);
                }
                assert(h[1] != 47) by {
                    match items[0] {
                        LoadItemV::OkItem => {
                            assert(h[1] == n_ok()[0]);
                        },
                        LoadItemV::ErrorItem(e) => {
                            assert(h[1] == n_rpc_error()[0]);
                        },
                        LoadItemV::ErrorCount(m) => {
                            assert(h[1] == n_load_error_count()[0]);
                        },
                    }
                }
            }
        }
        rt_load_items(u, i + h.len(), items.drop_first());
        assert(seq![items[0]] + items.drop_first() =~= items);
    }
}


/// No attribute match right before another attribute's name.
proof fn rt_attr_absent_before_attr(u: Seq<u8>, p: int, name: Seq<u8>, other: Seq<u8>, v: Seq<u8>)
    requires
        starts_with(u, p, attr(other, v)),
        all_name_bytes(name),
        all_name_bytes(other),
        name != other,
        name.len() > 0,
        other.len() > 0,
    ensures
        parse_opt_attr(u, p, name) == Some((None::<Seq<u8>>, p)),
{
    let e = escape(v, true);
    lemma_starts_concat(u, p, seq![32u8] + other + seq![61u8, 34u8] + e, seq![34u8]);
    lemma_starts_concat(u, p, seq![32u8] + other + seq![61u8, 34u8], e);
    assert(seq![32u8] + (other + seq![61u8, 34u8]) =~= seq![32u8] + other + seq![61u8, 34u8]);
    lemma_starts_concat(u, p, seq![32u8], other + seq![61u8, 34u8]);
    lemma_starts_index(u, p, seq![32u8]);
    assert(seq![32u8][0] == 32);
    assert(u[p + 0] == 32);
    lemma_starts_index(u, p + 1, other + seq![61u8, 34u8]);
    assert((other + seq![61u8, 34u8])[0] == other[0]);
    assert(u[p + 1 + 0] == other[0]);
    assert(is_name_byte(other[0]) && !is_ws(other[0]));
    assert(skip_ws(u, p) == skip_ws(u, p + 1));
    assert(skip_ws(u, p + 1) == p + 1);
    if starts_with(u, p + 1, name + seq![61u8, 34u8]) {
        lemma_attr_name_unique(u, p + 1, name, other);
    }
}

/// No attribute match at the end of an open tag.
proof fn rt_attr_absent_at_end(u: Seq<u8>, p: int, name: Seq<u8>)
    requires
        0 <= p < u.len(),
        u[p] == 62 || u[p] == 47,
        all_name_bytes(name),
        name.len() > 0,
    ensures
        parse_opt_attr(u, p, name) == Some((None::<Seq<u8>>, p)),
{
    assert(skip_ws(u, p) == p);
    if starts_with(u, p, name + seq![61u8, 34u8]) {
        lemma_starts_index(u, p, name + seq![61u8, 34u8]);
        assert((name + seq![61u8, 34u8])[0] == name[0]);
        assert(u[p + 0] == name[0]);
        assert(is_name_byte(name[0]));
    }
}

/// An encoded `load-configuration-results` element parses back.
#[verifier::rlimit(100)]
#[verifier::spinoff_prover]
proof fn rt_load_results_elem(u: Seq<u8>, i: int, lr: LoadResultsV)
    requires
        starts_with(u, i, enc_load_results(lr)),
    ensures
        parse_reply_elem(u, i) == Some(
            (ReplyElemV::LoadResults(lr), i + enc_load_results(lr).len()),
        ),
{
    lemma_wire_names();
    let name = n_load_configuration_results();
    let c_f = opt_attr(a_format(), lr.format);
    let c_a = opt_attr(a_action(), lr.action);
    let c_items = enc_load_items(lr.items);
    let c_close = close_tag(name);
    let body = c_f + c_a + seq![62u8] + c_items + c_close;
    assert(enc_load_results(lr) =~= seq![60u8] + name + body);
    rt_elem_name(u, i, name, body);
    let o_f = i + 1 + name.len();
    let o_a = o_f + c_f.len();
    let o_gt = o_a + c_a.len();
    let o_items = o_gt + 1;
    let o_close = o_items + c_items.len();
    lemma_starts_concat(u, o_f, c_f + c_a + seq![62u8] + c_items, c_close);
    lemma_starts_concat(u, o_f, c_f + c_a + seq![62u8], c_items);
    lemma_starts_concat(u, o_f, c_f + c_a, seq![62u8]);
    lemma_starts_concat(u, o_f, c_f, c_a);
    lemma_starts_index(u, o_gt, seq![62u8]);
    assert(seq![62u8][0] == 62);
    assert(u[o_gt + 0] == 62);
    match lr.format {
        Some(fv) => {
            rt_attr_present(u, o_f, a_format(), fv);
        },
        None => {
            match lr.action {
                Some(av) => {
                    rt_attr_absent_before_attr(u, o_f, a_format(), a_action(), av);
                },
                None => {
                    rt_attr_absent_at_end(u, o_f, a_format());
                },
            }
        },
    }
    assert(parse_opt_attr(u, o_f, a_format()) == Some((lr.format, o_a)));
    match lr.action {
        Some(av) => {
            rt_attr_present(u, o_a, a_action(), av);
        },
        None => {
            rt_attr_absent_at_end(u, o_a, a_action());
        },
    }
    assert(parse_opt_attr(u, o_a, a_action()) == Some((lr.action, o_gt)));
    lemma_starts_join(u, o_items, c_items, c_close);
    rt_load_items(u, o_items, lr.items);
    assert(!starts_with(u, skip_ws(u, o_gt), seq![47u8, 62u8])) by {
        assert(skip_ws(u, o_gt) == o_gt);
        if starts_with(u, o_gt, seq![47u8, 62u8]) {
            lemma_starts_index(u, o_gt, seq![47u8, 62u8]);
            assert(u[o_gt + 0] == 47);
        }
    }
    lemma_starts_index(u, o_close, c_close);
    assert(c_close[0] == 60);
}

/// An encoded `configuration-information` element parses back.
#[verifier::rlimit(100)]
#[verifier::spinoff_prover]
proof fn rt_config_info_elem(
    u: Seq<u8>,
    i: int,
    format: Option<Seq<u8>>,
    rollback: Option<Seq<u8>>,
    compare: Option<Seq<u8>>,
    output: Seq<u8>,
)
    requires
        starts_with(
            u,
            i,
            enc_reply_elem(ReplyElemV::ConfigInfo { format, rollback, compare, output }),
        ),
    ensures
        parse_reply_elem(u, i) == Some(
            (
                ReplyElemV::ConfigInfo { format, rollback, compare, output },
                i + enc_reply_elem(
                    ReplyElemV::ConfigInfo { format, rollback, compare, output },
                ).len(),
            ),
        ),
{
    lemma_wire_names();
    let name = n_configuration_information();
    let c_f = opt_attr(a_format(), format);
    let c_r = opt_attr(a_rollback(), rollback);
    let c_c = opt_attr(a_compare(), compare);
    let c_out = text_elem(n_configuration_output(), output);
    let c_close = close_tag(name);
    let body = c_f + c_r + c_c + seq![62u8] + c_out + c_close;
    assert(enc_reply_elem(ReplyElemV::ConfigInfo { format, rollback, compare, output })
        =~= seq![60u8] + name + body);
    rt_elem_name(u, i, name, body);
    let o_f = i + 1 + name.len();
    let o_r = o_f + c_f.len();
    let o_c = o_r + c_r.len();
    let o_gt = o_c + c_c.len();
    let o_out = o_gt + 1;
    let o_close = o_out + c_out.len();
    lemma_starts_concat(u, o_f, c_f + c_r + c_c + seq![62u8] + c_out, c_close);
    lemma_starts_concat(u, o_f, c_f + c_r + c_c + seq![62u8], c_out);
    lemma_starts_concat(u, o_f, c_f + c_r + c_c, seq![62u8]);
    lemma_starts_concat(u, o_f, c_f + c_r, c_c);
    lemma_starts_concat(u, o_f, c_f, c_r);
    lemma_starts_index(u, o_gt, seq![62u8]);
    assert(seq![62u8][0] == 62);
    assert(u[o_gt + 0] == 62);
    match format {
        Some(fv) => {
            rt_attr_present(u, o_f, a_format(), fv);
        },
        None => {
            match rollback {
                Some(rv) => {
                    rt_attr_absent_before_attr(u, o_f, a_format(), a_rollback(), rv);
                },
                None => {
                    match compare {
                        Some(cv) => {
                            rt_attr_absent_before_attr(u, o_f, a_format(), a_compare(), cv);
                        },
                        None => {
                            rt_attr_absent_at_end(u, o_f, a_format());
                        },
                    }
                },
            }
        },
    }
    assert(parse_opt_attr(u, o_f, a_format()) == Some((format, o_r)));
    match rollback {
        Some(rv) => {
            rt_attr_present(u, o_r, a_rollback(), rv);
        },
        None => {
            match compare {
                Some(cv) => {
                    rt_attr_absent_before_attr(u, o_r, a_rollback(), a_compare(), cv);
                },
                None => {
                    rt_attr_absent_at_end(u, o_r, a_rollback());
                },
            }
        },
    }
    assert(parse_opt_attr(u, o_r, a_rollback()) == Some((rollback, o_c)));
    match compare {
        Some(cv) => {
            rt_attr_present(u, o_c, a_compare(), cv);
        },
        None => {
            rt_attr_absent_at_end(u, o_c, a_compare());
        },
    }
    assert(parse_opt_attr(u, o_c, a_compare()) == Some((compare, o_gt)));
    rt_text_elem(u, o_out, n_configuration_output(), output);
    lemma_starts_index(u, o_out, c_out);
    assert(c_out[0] == open_tag(n_configuration_output())[0]);
    assert(u[o_out + 0] == 60);
    assert(skip_ws(u, o_out) == o_out);
    lemma_starts_index(u, o_close, c_close);
    assert(c_close[0] == 60);
    assert(u[o_close + 0] == 60);
    assert(skip_ws(u, o_close) == o_close);
}

/// Every encoded reply element except the bare-text fallback parses back.
#[verifier::rlimit(100)]
#[verifier::spinoff_prover]
proof fn rt_reply_elem(u: Seq<u8>, i: int, e: ReplyElemV)
    requires
        starts_with(u, i, enc_reply_elem(e)),
        !(e is Other),
    ensures
        parse_reply_elem(u, i) == Some((e, i + enc_reply_elem(e).len())),
{
    lemma_wire_names();
    match e {
        ReplyElemV::Output(t) => {
            let body = seq![62u8] + escape(t, false) + close_tag(n_output());
            assert(text_elem(n_output(), t) =~= seq![60u8] + n_output() + body) by {
                assert(open_tag(n_output()) =~= seq![60u8] + n_output() + seq![62u8]);
            }
            rt_elem_name(u, i, n_output(), body);
            rt_text_body(u, i + 1 + n_output().len(), n_output(), t);
        },
        ReplyElemV::ConfigText(t) => {
            let body = seq![62u8] + escape(t, false) + close_tag(n_configuration_text());
            assert(text_elem(n_configuration_text(), t) =~= seq![60u8] + n_configuration_text()
                + body) by {
                assert(open_tag(n_configuration_text()) =~= seq![60u8] + n_configuration_text()
                    + seq![62u8]);
            }
            rt_elem_name(u, i, n_configuration_text(), body);
            rt_text_body(u, i + 1 + n_configuration_text().len(), n_configuration_text(), t);
        },
        ReplyElemV::OkElem => {
            rt_empty_elem(u, i, n_ok());
        },
        ReplyElemV::CommitResultsElem => {
            rt_empty_elem(u, i, n_commit_results());
        },
        ReplyElemV::ErrorElem(err) => {
            let body = seq![62u8] + text_elem(n_error_severity(), err.severity) + text_elem(
                n_error_message(),
                err.message,
            ) + opt_text_elem(n_error_path(), err.path) + opt_text_elem(n_error_type(), err.typ)
                + opt_text_elem(n_error_tag(), err.tag) + (match err.bad_element {
                Some(b) => open_tag(n_error_info()) + text_elem(n_bad_element(), b) + close_tag(
                    n_error_info(),
                ),
                None => Seq::empty(),
            }) + opt_text_elem(n_source_daemon(), err.source_daemon) + close_tag(n_rpc_error());
            assert(enc_err(err) =~= seq![60u8] + n_rpc_error() + body) by {
                assert(open_tag(n_rpc_error()) =~= seq![60u8] + n_rpc_error() + seq![62u8]);
            }
            rt_elem_name(u, i, n_rpc_error(), body);
            rt_err_body(u, i + 1 + n_rpc_error().len(), err);
        },
        ReplyElemV::LoadResults(lr) => {
            rt_load_results_elem(u, i, lr);
        },
        ReplyElemV::ConfigInfo { format, rollback, compare, output } => {
            rt_config_info_elem(u, i, format, rollback, compare, output);
        },
        ReplyElemV::Other(t) => {},
    }
}


/// Encoded elements other than the fallback carry a name byte after `<`.
proof fn lemma_elem_second(e: ReplyElemV)
    requires
        !(e is Other),
    ensures
        enc_reply_elem(e).len() > 1,
        is_name_byte(enc_reply_elem(e)[1]),
{
    lemma_wire_names();
    match e {
        ReplyElemV::Output(t) => {
            assert(enc_reply_elem(e)[1] == n_output()[0]);
        },
        ReplyElemV::LoadResults(lr) => {
            assert(enc_reply_elem(e)[1] == n_load_configuration_results()[0]);
        },
        ReplyElemV::ConfigInfo { format, rollback, compare, output } => {
            assert(enc_reply_elem(e)[1] == n_configuration_information()[0]);
        },
        ReplyElemV::ConfigText(t) => {
            assert(enc_reply_elem(e)[1] == n_configuration_text()[0]);
        },
        ReplyElemV::ErrorElem(err) => {
            assert(enc_reply_elem(e)[1] == n_rpc_error()[0]);
        },
        ReplyElemV::OkElem => {
            assert(enc_reply_elem(e)[1] == n_ok()[0]);
        },
        ReplyElemV::CommitResultsElem => {
            assert(enc_reply_elem(e)[1] == n_commit_results()[0]);
        },
        ReplyElemV::Other(t) => {},
    }
}

/// The shape a reply sequence must have for an exact round trip: a bare
/// text payload is non-empty, does not begin with whitespace, and two of
/// them never stand side by side, since adjacent runs would merge on the
/// wire.
pub open spec fn wf_reply_elems(elems: Seq<ReplyElemV>) -> bool {
    forall|i: int|
        0 <= i < elems.len() ==> (#[trigger] elems[i] matches ReplyElemV::Other(t) ==> t.len() > 0
            && !is_ws(t[0]) && (i + 1 < elems.len() ==> !(elems[i + 1] is Other)))
}

/// An encoded reply sequence, bounded by the envelope's close tag, parses
/// back element for element.
#[verifier::rlimit(100)]
#[verifier::spinoff_prover]
proof fn rt_reply_items(u: Seq<u8>, i: int, elems: Seq<ReplyElemV>)
    requires
        wf_reply_elems(elems),
        starts_with(u, i, enc_reply_elems(elems) + close_tag(n_rpc_reply())),
    ensures
        parse_reply_items(u, i) == Some((elems, i + enc_reply_elems(elems).len())),
    decreases elems.len(),
{
    lemma_wire_names();
    let cl = close_tag(n_rpc_reply());
    if elems.len() == 0 {
        assert(enc_reply_elems(elems) =~= Seq::<u8>::empty());
        assert(Seq::<u8>::empty() + cl =~= cl);
        lemma_starts_index(u, i, cl);
        assert(cl[0] == 60 && cl[1] == 47);
        assert(u[i + 0] == 60 && u[i + 1] == 47);
        assert(skip_ws(u, i) == i);
        assert(starts_with(u, i, seq![60u8, 47u8])) by {
            assert(u.subrange(i, i + 2) =~= seq![60u8, 47u8]);
        }
        assert(elems =~= Seq::<ReplyElemV>::empty());
    } else {
        let h = enc_reply_elem(elems[0]);
        let t = enc_reply_elems(elems.drop_first());
        assert(enc_reply_elems(elems) == h + t);
        assert((h + t) + cl =~= h + (t + cl));
        lemma_starts_concat(u, i, h, t + cl);
        assert(forall|k: int|
            1 <= k < elems.len() ==> #[trigger] elems.drop_first()[k - 1] == elems[k]);
        rt_reply_items(u, i + h.len(), elems.drop_first());
        lemma_starts_index(u, i, h);
        match elems[0] {
            ReplyElemV::Other(tx) => {
                assert(tx.len() > 0 && !is_ws(tx[0]));
                assert(h == escape(tx, false));
                lemma_escape_len(tx, false);
                assert(h.len() >= 1);
                assert(h[0] == esc_byte(tx[0], false)[0]);
                assert(u[i + 0] == h[0]);
                assert(!is_ws(h[0]) && h[0] != 60);
                assert(skip_ws(u, i) == i);
                assert(!starts_with(u, i, seq![60u8, 47u8])) by {
                    if starts_with(u, i, seq![60u8, 47u8]) {
                        lemma_starts_index(u, i, seq![60u8, 47u8]);
                        assert(u[i + 0] == 60);
                    }
                }
                let nxt = t + cl;
                assert(nxt[0] == 60) by {
                    if elems.len() > 1 {
                        assert(!(elems[1] is Other));
                        assert(elems.drop_first()[0] == elems[1]);
                        assert(t == enc_reply_elem(elems[1]) + enc_reply_elems(
                            elems.drop_first().drop_first(),
                        ));
                        lemma_elem_first(elems[1]);
                        assert(t[0] == enc_reply_elem(elems[1])[0]);
                    } else {
                        assert(elems.drop_first().len() == 0);
                        assert(t =~= Seq::<u8>::empty());
                        assert(nxt[0] == cl[0]);
                    }
                }
                lemma_starts_index(u, i + h.len(), nxt);
                assert(u[i + h.len() + 0] == 60);
                assert(u.subrange(i, i + h.len() as int) =~= h) by {
                    assert(forall|k: int|
                        0 <= k < h.len() ==> #[trigger] u.subrange(i, i + h.len() as int)[k] == u[i
                            + k]);
                }
                lemma_parse_escape(u, i, tx, false, 60);
                assert(parse_text(u, i, 60) == Some((tx, i + h.len())));
                assert(seq![ReplyElemV::Other(tx)] + elems.drop_first() =~= elems);
            },
            _ => {
                lemma_elem_first(elems[0]);
                lemma_elem_second(elems[0]);
                assert(u[i + 0] == h[0]);
                assert(h[0] == 60);
                assert(skip_ws(u, i) == i);
                assert(!starts_with(u, i, seq![60u8, 47u8])) by {
                    if starts_with(u, i, seq![60u8, 47u8]) {
                        lemma_starts_index(u, i, seq![60u8, 47u8]);
                        assert(u[i + 1] == 47);
                        assert(u[i + 1] == h[1]);
                        assert(is_name_byte(h[1]));
                    }
                }
                rt_reply_elem(u, i, elems[0]);
                assert(seq![elems[0]] + elems.drop_first() =~= elems);
            },
        }
    }
}

/// Codec round trip for replies: a well-shaped reply sequence, encoded and
/// decoded, comes back element for element.
#[verifier::rlimit(100)]
#[verifier::spinoff_prover]
pub proof fn lemma_reply_roundtrip(elems: Seq<ReplyElemV>)
    requires
        wf_reply_elems(elems),
    ensures
        parse_reply_doc(enc_reply(elems)) == Some(elems),
{
    lemma_wire_names();
    let name = n_rpc_reply();
    let body = enc_reply_elems(elems);
    let cl = close_tag(name);
    let s = enc_reply(elems);
    assert(s =~= seq![60u8] + name + (seq![62u8] + body + cl)) by {
        assert(open_tag(name) =~= seq![60u8] + name + seq![62u8]);
    }
    assert(starts_with(s, 0, s)) by {
        assert(s.subrange(0, s.len() as int) =~= s);
    }
    rt_elem_name(s, 0, name, seq![62u8] + body + cl);
    let p: int = 1 + name.len() as int;
    lemma_starts_concat(s, p, seq![62u8] + body, cl);
    lemma_starts_concat(s, p, seq![62u8], body);
    lemma_starts_index(s, p, seq![62u8]);
    assert(seq![62u8][0] == 62);
    assert(s[p + 0] == 62);
    assert(skip_ws(s, p) == p);
    assert(skip_attrs(s, p) == Some(p as int));
    assert(!starts_with(s, p, seq![47u8, 62u8])) by {
        if starts_with(s, p, seq![47u8, 62u8]) {
            lemma_starts_index(s, p, seq![47u8, 62u8]);
            assert(s[p + 0] == 47);
        }
    }
    lemma_starts_join(s, p + 1, body, cl);
    rt_reply_items(s, p + 1, elems);
    let k = p + 1 + body.len();
    assert(starts_with(s, k, cl));
    assert(k + name.len() + 3 == s.len());
    assert(skip_ws(s, s.len() as int) == s.len());
}


/// The request shapes the codec can write: a confirmed commit carries a
/// timeout in machine range.
pub open spec fn wf_req(r: ReqV) -> bool {
    match r {
        ReqV::CommitConfirmedConfiguration { confirm_timeout } => -2147483648
            <= confirm_timeout <= 2147483647,
        _ => true,
    }
}

/// One request variant of the round trip.
#[verifier::rlimit(100)]
#[verifier::spinoff_prover]
proof fn rt_req_command(u: Seq<u8>, i: int, r: ReqV)
    requires
        starts_with(u, i, enc_req(r)),
        wf_req(r),
        r is Command,
    ensures
        parse_req_elem(u, i) == Some((r, i + enc_req(r).len())),
{
    lemma_wire_names();
    assert(n_lock_configuration()[2] == 99 && n_load_configuration()[2] == 97);
    assert(n_unlock_configuration()[0] == 117 && n_commit_configuration()[0] == 99);
    match r {
        ReqV::Command { format, command } => {
            let name = n_command();
            let c_at = attr(a_format(), format);
            let body = c_at + seq![62u8] + escape(command, false) + close_tag(name);
            assert(enc_req(r) =~= seq![60u8] + name + body);
            rt_elem_name(u, i, name, body);
            assert(body[0] == 32) by {
                assert(c_at[0] == (seq![32u8] + a_format() + seq![61u8, 34u8] + escape(
                    format,
                    true,
                ) + seq![34u8])[0]);
            }
            let o_at = i + 1 + name.len();
            lemma_starts_concat(u, o_at, c_at + seq![62u8] + escape(command, false), close_tag(name));
            lemma_starts_concat(u, o_at, c_at + seq![62u8], escape(command, false));
            lemma_starts_concat(u, o_at, c_at, seq![62u8]);
            rt_attr_present(u, o_at, a_format(), format);
            let o_gt = o_at + c_at.len();
            lemma_starts_join(u, o_gt, seq![62u8], escape(command, false));
            lemma_starts_join(u, o_gt, seq![62u8] + escape(command, false), close_tag(name));
            rt_text_body(u, o_gt, name, command);
        },
        _ => {},
    }
}

/// One request variant of the round trip.
#[verifier::rlimit(100)]
#[verifier::spinoff_prover]
proof fn rt_req_get(u: Seq<u8>, i: int, r: ReqV)
    requires
        starts_with(u, i, enc_req(r)),
        wf_req(r),
        r is GetConfiguration,
    ensures
        parse_req_elem(u, i) == Some((r, i + enc_req(r).len())),
{
    lemma_wire_names();
    assert(n_lock_configuration()[2] == 99 && n_load_configuration()[2] == 97);
    assert(n_unlock_configuration()[0] == 117 && n_commit_configuration()[0] == 99);
    match r {
        ReqV::GetConfiguration { format, rollback, compare, source } => {
            let name = n_get_configuration();
            let c_f = attr(a_format(), format);
            let c_r = opt_attr(a_rollback(), rollback);
            let c_c = opt_attr(a_compare(), compare);
            let c_s = opt_attr(a_source(), source);
            let body = c_f + c_r + c_c + c_s + seq![47u8, 62u8];
            assert(enc_req(r) =~= seq![60u8] + name + body);
            rt_elem_name(u, i, name, body);
            assert(body[0] == 32) by {
                assert(c_f[0] == (seq![32u8] + a_format() + seq![61u8, 34u8] + escape(
                    format,
                    true,
                ) + seq![34u8])[0]);
            }
            let o_f = i + 1 + name.len();
            let o_r = o_f + c_f.len();
            let o_c = o_r + c_r.len();
            let o_s = o_c + c_c.len();
            let o_end = o_s + c_s.len();
            lemma_starts_concat(u, o_f, c_f + c_r + c_c + c_s, seq![47u8, 62u8]);
            lemma_starts_concat(u, o_f, c_f + c_r + c_c, c_s);
            lemma_starts_concat(u, o_f, c_f + c_r, c_c);
            lemma_starts_concat(u, o_f, c_f, c_r);
            lemma_starts_index(u, o_end, seq![47u8, 62u8]);
            assert(seq![47u8, 62u8][0] == 47);
            assert(u[o_end + 0] == 47);
            rt_attr_present(u, o_f, a_format(), format);
            match rollback {
                Some(rv) => {
                    rt_attr_present(u, o_r, a_rollback(), rv);
                },
                None => {
                    match compare {
                        Some(cv) => {
                            rt_attr_absent_before_attr(u, o_r, a_rollback(), a_compare(), cv);
                        },
                        None => {
                            match source {
                                Some(sv) => {
                                    rt_attr_absent_before_attr(u, o_r, a_rollback(), a_source(), sv);
                                },
                                None => {
                                    rt_attr_absent_at_end(u, o_r, a_rollback());
                                },
                            }
                        },
                    }
                },
            }
            assert(parse_opt_attr(u, o_r, a_rollback()) == Some((rollback, o_c)));
            match compare {
                Some(cv) => {
                    rt_attr_present(u, o_c, a_compare(), cv);
                },
                None => {
                    match source {
                        Some(sv) => {
                            rt_attr_absent_before_attr(u, o_c, a_compare(), a_source(), sv);
                        },
                        None => {
                            rt_attr_absent_at_end(u, o_c, a_compare());
                        },
                    }
                },
            }
            assert(parse_opt_attr(u, o_c, a_compare()) == Some((compare, o_s)));
            match source {
                Some(sv) => {
                    rt_attr_present(u, o_s, a_source(), sv);
                },
                None => {
                    rt_attr_absent_at_end(u, o_s, a_source());
                },
            }
            assert(parse_opt_attr(u, o_s, a_source()) == Some((source, o_end)));
            rt_empty_end(u, o_end, name);
        },
        _ => {},
    }
}

/// One request variant of the round trip.
#[verifier::rlimit(100)]
#[verifier::spinoff_prover]
proof fn rt_req_load(u: Seq<u8>, i: int, r: ReqV)
    requires
        starts_with(u, i, enc_req(r)),
        wf_req(r),
        r is LoadConfiguration,
    ensures
        parse_req_elem(u, i) == Some((r, i + enc_req(r).len())),
{
    lemma_wire_names();
    assert(n_lock_configuration()[2] == 99 && n_load_configuration()[2] == 97);
    assert(n_unlock_configuration()[0] == 117 && n_commit_configuration()[0] == 99);
    match r {
        ReqV::LoadConfiguration { format, action, cfg_text, cfg_set } => {
            let name = n_load_configuration();
            let c_f = attr(a_format(), format);
            let c_a = attr(a_action(), action);
            let c_t = opt_text_elem(n_configuration_text(), cfg_text);
            let c_s = opt_text_elem(n_configuration_set(), cfg_set);
            let c_close = close_tag(name);
            let body = c_f + c_a + seq![62u8] + c_t + c_s + c_close;
            assert(enc_req(r) =~= seq![60u8] + name + body);
            rt_elem_name(u, i, name, body);
            assert(body[0] == 32) by {
                assert(c_f[0] == (seq![32u8] + a_format() + seq![61u8, 34u8] + escape(
                    format,
                    true,
                ) + seq![34u8])[0]);
            }
            let o_f = i + 1 + name.len();
            let o_a = o_f + c_f.len();
            let o_gt = o_a + c_a.len();
            let o_t = o_gt + 1;
            let o_s = o_t + c_t.len();
            let o_close = o_s + c_s.len();
            lemma_starts_concat(u, o_f, c_f + c_a + seq![62u8] + c_t + c_s, c_close);
            lemma_starts_concat(u, o_f, c_f + c_a + seq![62u8] + c_t, c_s);
            lemma_starts_concat(u, o_f, c_f + c_a + seq![62u8], c_t);
            lemma_starts_concat(u, o_f, c_f + c_a, seq![62u8]);
            lemma_starts_concat(u, o_f, c_f, c_a);
            lemma_starts_index(u, o_gt, seq![62u8]);
            assert(seq![62u8][0] == 62);
            assert(u[o_gt + 0] == 62);
            rt_attr_present(u, o_f, a_format(), format);
            rt_attr_present(u, o_a, a_action(), action);
            match cfg_text {
                Some(tv) => {
                    rt_text_elem(u, o_t, n_configuration_text(), tv);
                    lemma_starts_index(u, o_t, c_t);
                    assert(c_t[0] == open_tag(n_configuration_text())[0]);
                    assert(u[o_t + 0] == 60);
                    assert(skip_ws(u, o_t) == o_t);
                },
                None => {
                    match cfg_set {
                        Some(sv) => {
                            lemma_starts_concat(u, o_s, open_tag(n_configuration_set()) + escape(sv, false), close_tag(n_configuration_set()));
                            lemma_starts_concat(u, o_s, open_tag(n_configuration_set()), escape(sv, false));
                            lemma_other_tag(u, o_s, n_configuration_text(), n_configuration_set());
                            lemma_starts_index(u, o_s, c_s);
                            assert(c_s[0] == open_tag(n_configuration_set())[0]);
                            assert(u[o_s + 0] == 60);
                            assert(skip_ws(u, o_t) == o_t);
                        },
                        None => {
                            lemma_close_not_open(u, o_close, n_configuration_text(), name);
                            lemma_starts_index(u, o_close, c_close);
                            assert(c_close[0] == 60);
                            assert(u[o_close + 0] == 60);
                            assert(skip_ws(u, o_t) == o_t);
                        },
                    }
                },
            }
            assert(parse_opt_text_elem(u, o_t, n_configuration_text()) == Some((cfg_text, o_s)));
            match cfg_set {
                Some(sv) => {
                    rt_text_elem(u, o_s, n_configuration_set(), sv);
                },
                None => {
                    lemma_close_not_open(u, o_close, n_configuration_set(), name);
                    lemma_starts_index(u, o_close, c_close);
                    assert(c_close[0] == 60);
                    assert(u[o_close + 0] == 60);
                    assert(skip_ws(u, o_s) == o_s);
                },
            }
            assert(parse_opt_text_elem(u, o_s, n_configuration_set()) == Some((cfg_set, o_close)));
            lemma_starts_index(u, o_close, c_close);
            assert(c_close[0] == 60);
            assert(u[o_close + 0] == 60);
            assert(skip_ws(u, o_close) == o_close);
        },
        _ => {},
    }
}

/// One request variant of the round trip.
#[verifier::rlimit(100)]
#[verifier::spinoff_prover]
proof fn rt_req_confirmed(u: Seq<u8>, i: int, r: ReqV)
    requires
        starts_with(u, i, enc_req(r)),
        wf_req(r),
        r is CommitConfirmedConfiguration,
    ensures
        parse_req_elem(u, i) == Some((r, i + enc_req(r).len())),
{
    lemma_wire_names();
    assert(n_lock_configuration()[2] == 99 && n_load_configuration()[2] == 97);
    assert(n_unlock_configuration()[0] == 117 && n_commit_configuration()[0] == 99);
    match r {
        ReqV::CommitConfirmedConfiguration { confirm_timeout } => {
            let name = n_commit_configuration();
            let c_conf = empty_tag(n_confirmed());
            let c_num = enc_i32(confirm_timeout);
            let c_cto = open_tag(n_confirm_timeout());
            let c_ctc = close_tag(n_confirm_timeout());
            let c_close = close_tag(name);
            let body = seq![62u8] + c_conf + c_cto + c_num + c_ctc + c_close;
            assert(enc_req(r) =~= seq![60u8] + name + body) by {
                assert(open_tag(name) =~= seq![60u8] + name + seq![62u8]);
            }
            rt_elem_name(u, i, name, body);
            let o_gt = i + 1 + name.len();
            let o_conf = o_gt + 1;
            let o_cto = o_conf + c_conf.len();
            let o_num = o_cto + c_cto.len();
            let o_ctc = o_num + c_num.len();
            let o_close = o_ctc + c_ctc.len();
            lemma_starts_concat(u, o_gt, seq![62u8] + c_conf + c_cto + c_num + c_ctc, c_close);
            lemma_starts_concat(u, o_gt, seq![62u8] + c_conf + c_cto + c_num, c_ctc);
            lemma_starts_concat(u, o_gt, seq![62u8] + c_conf + c_cto, c_num);
            lemma_starts_concat(u, o_gt, seq![62u8] + c_conf, c_cto);
            lemma_starts_concat(u, o_gt, seq![62u8], c_conf);
            lemma_starts_index(u, o_gt, seq![62u8]);
            assert(seq![62u8][0] == 62);
            assert(u[o_gt + 0] == 62);
            lemma_starts_index(u, o_conf, c_conf);
            assert(c_conf[0] == 60 && c_conf[1] == n_confirmed()[0]) by {
                assert(c_conf =~= seq![60u8] + n_confirmed() + seq![47u8, 62u8]);
            }
            assert(u[o_conf + 0] == 60 && u[o_conf + 1] == n_confirmed()[0]);
            assert(skip_ws(u, o_gt + 1) == o_conf);
            assert(!starts_with(u, o_conf, close_tag(name))) by {
                if starts_with(u, o_conf, close_tag(name)) {
                    lemma_starts_index(u, o_conf, close_tag(name));
                    assert(u[o_conf + 1] == close_tag(name)[1]);
                    assert(close_tag(name)[1] == 47);
                    assert(is_name_byte(n_confirmed()[0]));
                }
            }
            assert(starts_with(u, o_conf, seq![60u8] + n_confirmed())) by {
                assert(u.subrange(o_conf, o_conf + 1 + n_confirmed().len() as int) =~= seq![60u8]
                    + n_confirmed()) by {
                    assert(forall|k: int|
                        0 <= k < 1 + n_confirmed().len() ==> #[trigger] u.subrange(
                            o_conf,
                            o_conf + 1 + n_confirmed().len() as int,
                        )[k] == u[o_conf + k] && u[o_conf + k] == c_conf[k]);
                    assert(forall|k: int|
                        0 <= k < 1 + n_confirmed().len() ==> (seq![60u8] + n_confirmed())[k]
                            == c_conf[k]);
                }
            }
            assert(starts_with(u, o_conf + 1 + n_confirmed().len(), seq![47u8, 62u8])) by {
                assert(u.subrange(
                    o_conf + 1 + n_confirmed().len(),
                    o_conf + 1 + n_confirmed().len() + 2,
                ) =~= seq![47u8, 62u8]) by {
                    assert(forall|k: int|
                        0 <= k < 2 ==> #[trigger] u.subrange(
                            o_conf + 1 + n_confirmed().len(),
                            o_conf + 1 + n_confirmed().len() + 2,
                        )[k] == u[o_conf + 1 + n_confirmed().len() + k] && u[o_conf + 1
                            + n_confirmed().len() + k] == c_conf[1 + n_confirmed().len() + k]);
                }
            }
            rt_empty_end(u, o_conf + 1 + n_confirmed().len(), n_confirmed());
            assert(parse_empty_end(u, o_conf + 1 + n_confirmed().len(), n_confirmed()) == Some(
                o_cto,
            ));
            lemma_starts_index(u, o_cto, c_cto);
            assert(c_cto[0] == 60);
            assert(u[o_cto + 0] == 60);
            assert(skip_ws(u, o_cto) == o_cto);
            assert(u.subrange(o_num, o_num + c_num.len() as int) =~= c_num) by {
                lemma_starts_index(u, o_num, c_num);
                assert(forall|k: int|
                    0 <= k < c_num.len() ==> #[trigger] u.subrange(
                        o_num,
                        o_num + c_num.len() as int,
                    )[k] == u[o_num + k]);
            }
            lemma_starts_index(u, o_ctc, c_ctc);
            assert(c_ctc[0] == 60);
            assert(u[o_ctc + 0] == 60);
            assert(!crate::num::is_digit(60u8));
            lemma_parse_enc_i32(u, o_num, confirm_timeout);
            assert(parse_i32(u, o_num) == Some((confirm_timeout, o_ctc)));
            lemma_starts_index(u, o_close, c_close);
            assert(c_close[0] == 60);
            assert(u[o_close + 0] == 60);
            assert(skip_ws(u, o_close) == o_close);
        },
        _ => {},
    }
}

/// Every encoded request element parses back.
#[verifier::rlimit(100)]
#[verifier::spinoff_prover]
proof fn rt_req_elem(u: Seq<u8>, i: int, r: ReqV)
    requires
        starts_with(u, i, enc_req(r)),
        wf_req(r),
    ensures
        parse_req_elem(u, i) == Some((r, i + enc_req(r).len())),
{
    lemma_wire_names();
    assert(n_lock_configuration()[2] == 99 && n_load_configuration()[2] == 97);
    assert(n_unlock_configuration()[0] == 117 && n_commit_configuration()[0] == 99);
    match r {
        ReqV::Command { format, command } => {
            rt_req_command(u, i, r);
        },
        ReqV::GetConfiguration { format, rollback, compare, source } => {
            rt_req_get(u, i, r);
        },
        ReqV::LockConfiguration => {
            rt_empty_elem(u, i, n_lock_configuration());
        },
        ReqV::UnlockConfiguration => {
            rt_empty_elem(u, i, n_unlock_configuration());
        },
        ReqV::LoadConfiguration { format, action, cfg_text, cfg_set } => {
            rt_req_load(u, i, r);
        },
        ReqV::CommitConfiguration => {
            rt_empty_elem(u, i, n_commit_configuration());
        },
        ReqV::CommitConfirmedConfiguration { confirm_timeout } => {
            rt_req_confirmed(u, i, r);
        },
    }
}

/// The first byte of every encoded request element is `<`.
proof fn lemma_req_first(r: ReqV)
    ensures
        enc_req(r).len() > 0,
        enc_req(r)[0] == 60,
{
    match r {
        ReqV::GetConfiguration { format, rollback, compare, source } => {
            assert(enc_req(r)[0] == seq![60u8][0]);
        },
        ReqV::Command { format, command } => {
            assert(enc_req(r)[0] == seq![60u8][0]);
        },
        ReqV::LockConfiguration => {
            assert(enc_req(r)[0] == empty_tag(n_lock_configuration())[0]);
        },
        ReqV::UnlockConfiguration => {
            assert(enc_req(r)[0] == empty_tag(n_unlock_configuration())[0]);
        },
        ReqV::LoadConfiguration { format, action, cfg_text, cfg_set } => {
            assert(enc_req(r)[0] == seq![60u8][0]);
        },
        ReqV::CommitConfiguration => {
            assert(enc_req(r)[0] == empty_tag(n_commit_configuration())[0]);
        },
        ReqV::CommitConfirmedConfiguration { confirm_timeout } => {
            assert(enc_req(r)[0] == open_tag(n_commit_configuration())[0]);
        },
    }
}

/// The envelope around a parsed request element.
#[verifier::rlimit(100)]
#[verifier::spinoff_prover]
proof fn rt_rpc_doc_frame(s: Seq<u8>, body: Seq<u8>, r: ReqV)
    requires
        s == open_tag(n_rpc()) + body + close_tag(n_rpc()),
        body.len() > 0,
        body[0] == 60,
        parse_req_elem(s, open_tag(n_rpc()).len() as int) == Some(
            (r, open_tag(n_rpc()).len() + body.len() as int),
        ),
    ensures
        parse_rpc_doc(s) == Some(r),
{
    let name = n_rpc();
    let cl = close_tag(name);
    assert(starts_with(s, 0, s)) by {
        assert(s.subrange(0, s.len() as int) =~= s);
    }
    lemma_starts_concat(s, 0, open_tag(name) + body, cl);
    lemma_starts_concat(s, 0, open_tag(name), body);
    lemma_starts_index(s, 0, open_tag(name));
    assert(open_tag(name)[0] == 60);
    assert(s[0] == 60);
    assert(skip_ws(s, 0) == 0);
    let p: int = open_tag(name).len() as int;
    lemma_starts_index(s, p, body);
    assert(s[p + 0] == 60);
    assert(skip_ws(s, p) == p);
    let k = p + body.len();
    lemma_starts_index(s, k, cl);
    assert(cl[0] == 60);
    assert(s[k + 0] == 60);
    assert(skip_ws(s, k) == k);
    assert(k + name.len() + 3 == s.len());
    assert(skip_ws(s, s.len() as int) == s.len());
}

/// Codec round trip for requests: every request the encoder can write
/// decodes back to the same value.
#[verifier::rlimit(100)]
#[verifier::spinoff_prover]
pub proof fn lemma_request_roundtrip(r: ReqV)
    requires
        wf_req(r),
    ensures
        parse_rpc_doc(enc_rpc(r)) == Some(r),
{
    let body = enc_req(r);
    let s = enc_rpc(r);
    lemma_req_first(r);
    assert(starts_with(s, 0, s)) by {
        assert(s.subrange(0, s.len() as int) =~= s);
    }
    assert(s == (open_tag(n_rpc()) + body) + close_tag(n_rpc()));
    lemma_starts_concat(s, 0, open_tag(n_rpc()) + body, close_tag(n_rpc()));
    lemma_starts_concat(s, 0, open_tag(n_rpc()), body);
    rt_req_elem(s, open_tag(n_rpc()).len() as int, r);
    rt_rpc_doc_frame(s, body, r);
}

} // verus!
