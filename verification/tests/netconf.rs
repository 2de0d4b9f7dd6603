//! End-to-end checks of the framer, the codec and the reply interpreters.
use rucli::decode::{decode_hello, decode_reply, decode_rpc};
use rucli::encode::{encode_hello, encode_reply, encode_rpc, hello_payload, rpc_payload};
use rucli::error::NETCONFError;
use rucli::frame::Framer;
use rucli::ops::{
    client_hello, command_rpc, commit_rpc, confirm_rpc, diff_rpc, get_rpc, interpret_command_reply,
    interpret_commit_reply, interpret_confirm_reply, interpret_diff_reply, interpret_get_reply,
    interpret_load_reply, interpret_lock_reply, interpret_unlock_reply, load_rpc, lock_rpc,
    unlock_rpc,
};
use rucli::xml::{
    Capabilities, Hello, LoadConfigurationResults, LoadConfigurationResultsEnum, LoadErrorCount,
    RPCCommand, RPCError, RPCErrorInfo, RPCReply, RPCReplyCommand, RPC,
};

fn reply_of(s: &str) -> RPCReply {
    decode_reply(&s.as_bytes().to_vec()).expect("reply should decode")
}

fn warning(msg: &str) -> RPCError {
    RPCError {
        error_severity: b"warning".to_vec(),
        error_message: msg.as_bytes().to_vec(),
        error_path: None,
        error_type: None,
        error_tag: None,
        error_info: None,
        source_daemon: None,
    }
}

fn fatal(msg: &str) -> RPCError {
    RPCError {
        error_severity: b"error".to_vec(),
        error_message: msg.as_bytes().to_vec(),
        error_path: None,
        error_type: None,
        error_tag: None,
        error_info: None,
        source_daemon: None,
    }
}

#[test]
fn framer_returns_message_split_across_reads() {
    let mut f = Framer::new();
    f.push_bytes(&b"<rpc-reply><ok".to_vec());
    assert_eq!(f.take_message(), None);
    f.push_bytes(&b"/></rpc-reply>]]".to_vec());
    assert_eq!(f.take_message(), None);
    f.push_bytes(&b">]]>\ntrailing".to_vec());
    let msg = f.take_message().expect("a full message has arrived");
    assert_eq!(msg, b"<rpc-reply><ok/></rpc-reply>".to_vec());
    assert_eq!(f.take_message(), None);
    f.push_bytes(&b"]]>]]>".to_vec());
    let msg2 = f.take_message().expect("second message");
    assert_eq!(msg2, b"\ntrailing".to_vec());
}

#[test]
fn framer_splits_at_first_marker_only() {
    let mut f = Framer::new();
    f.push_bytes(&b"a]]>]]>b]]>]]>".to_vec());
    assert_eq!(f.take_message().unwrap(), b"a".to_vec());
    assert_eq!(f.take_message().unwrap(), b"b".to_vec());
    assert_eq!(f.take_message(), None);
}

#[test]
fn encode_command_exact_bytes() {
    let rpc = command_rpc(b"show version".to_vec(), b"text".to_vec());
    let out = encode_rpc(&rpc);
    assert_eq!(
        out,
        b"<rpc><command format=\"text\">show version</command></rpc>".to_vec()
    );
    let payload = rpc_payload(&rpc);
    assert_eq!(
        payload,
        b"<rpc><command format=\"text\">show version</command></rpc>\n]]>]]>\n".to_vec()
    );
}

#[test]
fn encode_escapes_text_and_attribute_values() {
    let rpc = command_rpc(b"a<b&c>d".to_vec(), b"te\"xt".to_vec());
    let out = encode_rpc(&rpc);
    assert_eq!(
        out,
        b"<rpc><command format=\"te&quot;xt\">a&lt;b&amp;c&gt;d</command></rpc>".to_vec()
    );
}

#[test]
fn request_round_trip_all_variants() {
    let cases = vec![
        command_rpc(b"show interfaces terse".to_vec(), b"json".to_vec()),
        command_rpc(b"quote \" amp & lt <".to_vec(), b"text".to_vec()),
        lock_rpc(),
        unlock_rpc(),
        load_rpc(b"set system host-name r1".to_vec(), b"set".to_vec(), b"set".to_vec()),
        load_rpc(b"system { host-name r1; }".to_vec(), b"update".to_vec(), b"text".to_vec()),
        commit_rpc(None),
        commit_rpc(Some(5)),
        commit_rpc(Some(-3)),
        commit_rpc(Some(i32::MAX)),
        commit_rpc(Some(i32::MIN)),
        confirm_rpc(),
        diff_rpc(b"text".to_vec()),
        get_rpc(b"json".to_vec(), b"candidate".to_vec()),
    ];
    for rpc in cases {
        let wire = encode_rpc(&rpc);
        let back = decode_rpc(&wire).expect("the canonical encoding should decode");
        assert_eq!(back, rpc);
    }
}

#[test]
fn reply_round_trip_all_variants() {
    let full_error = RPCError {
        error_severity: b"error".to_vec(),
        error_message: b"bad & dangerous <thing>".to_vec(),
        error_path: Some(b"[edit system]".to_vec()),
        error_type: Some(b"protocol".to_vec()),
        error_tag: Some(b"operation-failed".to_vec()),
        error_info: Some(RPCErrorInfo { bad_element: b"host-name".to_vec() }),
        source_daemon: Some(b"mgd".to_vec()),
    };
    let reply = RPCReply {
        rpc_reply: vec![
            RPCReplyCommand::Output { text: b"hello world".to_vec() },
            RPCReplyCommand::RPCError(full_error),
            RPCReplyCommand::Okay,
            RPCReplyCommand::CommitResults,
            RPCReplyCommand::ConfigurationText { text: b"system {}".to_vec() },
            RPCReplyCommand::ConfigurationInformation {
                format: Some(b"text".to_vec()),
                rollback: None,
                compare: Some(b"rollback".to_vec()),
                configuration_output: b"- old\n+ new\n".to_vec(),
            },
            RPCReplyCommand::LoadConfigurationResults(LoadConfigurationResults {
                format: None,
                action: Some(b"update".to_vec()),
                load_configuration_results: vec![
                    LoadConfigurationResultsEnum::LoadErrorCount(LoadErrorCount {
                        message: b"2".to_vec(),
                    }),
                    LoadConfigurationResultsEnum::RPCError(warning("minor")),
                    LoadConfigurationResultsEnum::Okay,
                ],
            }),
            RPCReplyCommand::Other(b"{\"output\": 3}".to_vec()),
        ],
    };
    let wire = encode_reply(&reply);
    let back = decode_reply(&wire).expect("the canonical reply encoding should decode");
    assert_eq!(back, reply);
}

#[test]
fn hello_round_trip_and_handshake_shapes() {
    let mine = client_hello();
    assert_eq!(
        mine.capabilities.capability,
        vec![b"urn:ietf:params:netconf:base:1.0".to_vec()]
    );
    let wire = encode_hello(&mine);
    assert_eq!(
        wire,
        b"<hello><capabilities><capability>urn:ietf:params:netconf:base:1.0</capability></capabilities></hello>"
            .to_vec()
    );
    assert_eq!(decode_hello(&wire).unwrap(), mine);
    assert_eq!(
        hello_payload(&mine)[wire.len()..].to_vec(),
        b"\n]]>]]>\n".to_vec()
    );
    let server = Hello {
        capabilities: Capabilities {
            capability: vec![b"urn:ietf:params:netconf:base:1.0".to_vec(), b"urn:x".to_vec()],
        },
        session_id: Some(b"8113".to_vec()),
        namespace_junos: Some(b"urn:example".to_vec()),
        namespace: None,
    };
    let swire = encode_hello(&server);
    assert_eq!(decode_hello(&swire).unwrap(), server);
    let real = b"\n<hello xmlns=\"urn:example\">\n  <capabilities>\n    <capability>urn:ietf:params:netconf:base:1.0</capability>\n  </capabilities>\n  <session-id>77</session-id>\n</hello>\n".to_vec();
    let parsed = decode_hello(&real).unwrap();
    assert_eq!(parsed.session_id, Some(b"77".to_vec()));
    assert_eq!(parsed.namespace_junos, Some(b"urn:example".to_vec()));
}

#[test]
fn decode_rejects_unknown_elements() {
    let r = decode_reply(&b"<rpc-reply><mystery/></rpc-reply>".to_vec());
    assert_eq!(r, Err(NETCONFError::XmlError));
    let r2 = decode_reply(&b"not xml at all".to_vec());
    assert_eq!(r2, Err(NETCONFError::XmlError));
    let r3 = decode_reply(&b"<rpc-reply><output>x</output>".to_vec());
    assert_eq!(r3, Err(NETCONFError::XmlError));
}

#[test]
fn exec_returns_first_output_text() {
    let reply = reply_of("<rpc-reply><output>Junos: 20.4R3</output></rpc-reply>");
    let (out, warns) = interpret_command_reply(&reply, &b"text".to_vec()).unwrap();
    assert_eq!(out, b"Junos: 20.4R3".to_vec());
    assert!(warns.is_empty());
}

#[test]
fn exec_warning_then_output_succeeds_with_diagnostic() {
    let reply = reply_of(
        "<rpc-reply><rpc-error><error-severity>warning</error-severity><error-message>minor</error-message></rpc-error><output>ok</output></rpc-reply>",
    );
    let (out, warns) = interpret_command_reply(&reply, &b"text".to_vec()).unwrap();
    assert_eq!(out, b"ok".to_vec());
    assert_eq!(warns.len(), 1);
    assert_eq!(warns[0].error_message, b"minor".to_vec());
}

#[test]
fn exec_fatal_error_wins_over_later_output() {
    let reply = reply_of(
        "<rpc-reply><rpc-error><error-severity>error</error-severity><error-message>boom</error-message></rpc-error><output>ok</output></rpc-reply>",
    );
    let e = interpret_command_reply(&reply, &b"text".to_vec()).unwrap_err();
    match e {
        NETCONFError::RpcError(err) => assert_eq!(err.error_message, b"boom".to_vec()),
        other => panic!("expected an rpc error, got {:?}", other),
    }
}

#[test]
fn exec_missing_output_is_missing_ok() {
    let reply = reply_of("<rpc-reply></rpc-reply>");
    assert_eq!(
        interpret_command_reply(&reply, &b"text".to_vec()),
        Err(NETCONFError::MissingOk)
    );
}

#[test]
fn lock_accepts_only_the_empty_reply() {
    assert_eq!(interpret_lock_reply(&reply_of("<rpc-reply></rpc-reply>")), Ok(()));
    assert_eq!(interpret_lock_reply(&reply_of("<rpc-reply/>")), Ok(()));
    let e = interpret_lock_reply(&reply_of("<rpc-reply><ok/></rpc-reply>")).unwrap_err();
    assert_eq!(e, NETCONFError::UnexpectedCommand(RPCReplyCommand::Okay));
}

#[test]
fn unlock_accepts_empty_or_ok() {
    assert_eq!(interpret_unlock_reply(&reply_of("<rpc-reply></rpc-reply>")), Ok(()));
    assert_eq!(interpret_unlock_reply(&reply_of("<rpc-reply><ok/></rpc-reply>")), Ok(()));
    assert!(interpret_unlock_reply(&reply_of("<rpc-reply><output>x</output></rpc-reply>")).is_err());
}

#[test]
fn apply_scenario_full_sequence_succeeds() {
    assert_eq!(interpret_lock_reply(&reply_of("<rpc-reply></rpc-reply>")), Ok(()));
    let load = reply_of(
        "<rpc-reply><load-configuration-results action=\"update\"><ok/></load-configuration-results></rpc-reply>",
    );
    let (diags, warns) = interpret_load_reply(&load).unwrap();
    assert!(diags.is_empty() && warns.is_empty());
    let diff = reply_of(
        "<rpc-reply><configuration-information><configuration-output>- old\n+ new\n</configuration-output></configuration-information></rpc-reply>",
    );
    let (text, _) = interpret_diff_reply(&diff).unwrap();
    assert_eq!(text, b"- old\n+ new\n".to_vec());
    let commit = reply_of("<rpc-reply><ok/></rpc-reply>");
    assert!(interpret_commit_reply(&commit).is_ok());
    assert_eq!(interpret_unlock_reply(&reply_of("<rpc-reply></rpc-reply>")), Ok(()));
}

#[test]
fn apply_scenario_fatal_load_error_aborts() {
    let load = reply_of(
        "<rpc-reply><load-configuration-results><rpc-error><error-severity>error</error-severity><error-message>syntax error</error-message></rpc-error><ok/></load-configuration-results></rpc-reply>",
    );
    let e = interpret_load_reply(&load).unwrap_err();
    match e {
        NETCONFError::RpcError(err) => {
            assert_eq!(err.error_severity, b"error".to_vec());
            assert_eq!(err.error_message, b"syntax error".to_vec());
        },
        other => panic!("expected an rpc error, got {:?}", other),
    }
}

#[test]
fn load_without_ok_is_missing_confirmation() {
    let load = reply_of(
        "<rpc-reply><load-configuration-results><load-error-count>2</load-error-count></load-configuration-results></rpc-reply>",
    );
    assert_eq!(interpret_load_reply(&load), Err(NETCONFError::MissingOk));
    let empty = reply_of("<rpc-reply></rpc-reply>");
    assert_eq!(interpret_load_reply(&empty), Err(NETCONFError::MissingOk));
}

#[test]
fn confirm_scenario_plain_commit_ok() {
    let rpc = confirm_rpc();
    assert_eq!(encode_rpc(&rpc), b"<rpc><commit-configuration/></rpc>".to_vec());
    let reply = reply_of("<rpc-reply><ok/></rpc-reply>");
    let warns = interpret_confirm_reply(&reply).unwrap();
    assert!(warns.is_empty());
}

#[test]
fn confirm_grammar_failure_carries_the_element() {
    let reply = reply_of("<rpc-reply><ok/><output>late</output></rpc-reply>");
    let e = interpret_confirm_reply(&reply).unwrap_err();
    assert_eq!(
        e,
        NETCONFError::UnexpectedCommand(RPCReplyCommand::Output { text: b"late".to_vec() })
    );
}

#[test]
fn commit_accepts_ok_commit_results_or_bare_text() {
    assert!(interpret_commit_reply(&reply_of("<rpc-reply><ok/></rpc-reply>")).is_ok());
    assert!(interpret_commit_reply(&reply_of("<rpc-reply><commit-results/></rpc-reply>")).is_ok());
    assert!(interpret_commit_reply(&reply_of("<rpc-reply>committed</rpc-reply>")).is_ok());
    assert_eq!(
        interpret_commit_reply(&reply_of("<rpc-reply></rpc-reply>")),
        Err(NETCONFError::MissingOk)
    );
}

#[test]
fn get_scenario_bare_json_payload_verbatim() {
    let rpc = get_rpc(b"json".to_vec(), b"candidate".to_vec());
    assert_eq!(
        encode_rpc(&rpc),
        b"<rpc><get-configuration format=\"json\" source=\"candidate\"/></rpc>".to_vec()
    );
    let reply = reply_of("<rpc-reply>{ \"configuration\": {} }</rpc-reply>");
    let (out, _) = interpret_get_reply(&reply).unwrap();
    assert_eq!(out, b"{ \"configuration\": {} }".to_vec());
}

#[test]
fn diff_request_uses_rollback_zero_compare() {
    let rpc = diff_rpc(b"text".to_vec());
    assert_eq!(
        encode_rpc(&rpc),
        b"<rpc><get-configuration format=\"text\" rollback=\"0\" compare=\"rollback\"/></rpc>"
            .to_vec()
    );
}

#[test]
fn confirmed_commit_carries_the_timeout() {
    let rpc = commit_rpc(Some(10));
    assert_eq!(
        encode_rpc(&rpc),
        b"<rpc><commit-configuration><confirmed/><confirm-timeout>10</confirm-timeout></commit-configuration></rpc>"
            .to_vec()
    );
    match rpc.rpc {
        RPCCommand::CommitConfirmedConfiguration { confirm_timeout, .. } => {
            assert_eq!(confirm_timeout, 10)
        },
        other => panic!("wrong request shape: {:?}", other),
    }
}

#[test]
fn whitespace_between_reply_elements_is_tolerated() {
    let reply = reply_of(
        "\n<rpc-reply xmlns=\"urn:example\">\n  <output>text here</output>\n</rpc-reply>\n",
    );
    let (out, _) = interpret_command_reply(&reply, &b"text".to_vec()).unwrap();
    assert_eq!(out, b"text here".to_vec());
}

#[test]
fn entities_in_reply_text_are_expanded() {
    let reply = reply_of("<rpc-reply><output>a &lt; b &amp; c &gt; d &quot;q&quot; &apos;s&apos;</output></rpc-reply>");
    let (out, _) = interpret_command_reply(&reply, &b"text".to_vec()).unwrap();
    assert_eq!(out, b"a < b & c > d \"q\" 's'".to_vec());
}

#[test]
fn dispatch_by_format_is_strict() {
    let output = reply_of("<rpc-reply><output>x</output></rpc-reply>");
    assert!(interpret_command_reply(&output, &b"json".to_vec()).is_err());
    let bare = reply_of("<rpc-reply>x</rpc-reply>");
    assert!(interpret_command_reply(&bare, &b"text".to_vec()).is_err());
    assert!(interpret_command_reply(&bare, &b"json".to_vec()).is_ok());
}

#[test]
fn load_rpc_places_payload_by_format() {
    let t = load_rpc(b"cfg".to_vec(), b"update".to_vec(), b"text".to_vec());
    match t.rpc {
        RPCCommand::LoadConfiguration { cfg_text, cfg_set, .. } => {
            assert_eq!(cfg_text, Some(b"cfg".to_vec()));
            assert_eq!(cfg_set, None);
        },
        other => panic!("wrong request shape: {:?}", other),
    }
    let s = load_rpc(b"set x".to_vec(), b"set".to_vec(), b"set".to_vec());
    match s.rpc {
        RPCCommand::LoadConfiguration { cfg_text, cfg_set, .. } => {
            assert_eq!(cfg_text, None);
            assert_eq!(cfg_set, Some(b"set x".to_vec()));
        },
        other => panic!("wrong request shape: {:?}", other),
    }
}

#[test]
fn diff_ignores_elements_after_first_match_but_not_errors() {
    let reply = reply_of(
        "<rpc-reply><configuration-information><configuration-output>d1</configuration-output></configuration-information><ok/></rpc-reply>",
    );
    let (text, _) = interpret_diff_reply(&reply).unwrap();
    assert_eq!(text, b"d1".to_vec());
    let with_fatal = reply_of(
        "<rpc-reply><configuration-information><configuration-output>d1</configuration-output></configuration-information><rpc-error><error-severity>error</error-severity><error-message>late</error-message></rpc-error></rpc-reply>",
    );
    assert!(interpret_diff_reply(&with_fatal).is_err());
}

#[test]
fn full_rpc_error_fields_decode() {
    let reply = reply_of(
        "<rpc-reply><rpc-error><error-severity>error</error-severity><error-message>m</error-message><error-path>[edit]</error-path><error-type>protocol</error-type><error-tag>bad</error-tag><error-info><bad-element>xyz</bad-element></error-info><source-daemon>mgd</source-daemon></rpc-error></rpc-reply>",
    );
    match &reply.rpc_reply[0] {
        RPCReplyCommand::RPCError(e) => {
            assert_eq!(e.error_path, Some(b"[edit]".to_vec()));
            assert_eq!(e.error_type, Some(b"protocol".to_vec()));
            assert_eq!(e.error_tag, Some(b"bad".to_vec()));
            assert_eq!(
                e.error_info,
                Some(RPCErrorInfo { bad_element: b"xyz".to_vec() })
            );
            assert_eq!(e.source_daemon, Some(b"mgd".to_vec()));
        },
        other => panic!("expected an error element, got {:?}", other),
    }
    let _ = fatal("unused shape check");
}

#[test]
fn request_decode_rejects_foreign_shapes() {
    assert!(decode_rpc(&b"<rpc><shutdown/></rpc>".to_vec()).is_err());
    assert!(decode_rpc(&b"<rpc><command>no format</command></rpc>".to_vec()).is_err());
    let ok = decode_rpc(&b"<rpc><lock-configuration/></rpc>".to_vec()).unwrap();
    assert_eq!(ok, RPC { rpc: RPCCommand::LockConfiguration {} });
}
