//! The RPC data model: one constructor per request, one variant per reply
//! element, exactly as they appear on the wire.  Each type carries a ghost
//! view over byte sequences; the codec's contracts are stated over those
//! views.
use vstd::prelude::*;
use crate::util::copy_bytes;

verus! {

/// Ghost view of an optional byte-vector field.
pub open spec fn opt_view(o: Option<Vec<u8>>) -> Option<Seq<u8>> {
    match o {
        Some(v) => Some(v@),
        None => None,
    }
}

/// View of an `rpc-error` element.
pub ghost struct ErrV {
    pub severity: Seq<u8>,
    pub message: Seq<u8>,
    pub path: Option<Seq<u8>>,
    pub typ: Option<Seq<u8>>,
    pub tag: Option<Seq<u8>>,
    pub bad_element: Option<Seq<u8>>,
    pub source_daemon: Option<Seq<u8>>,
}

/// View of one entry of `load-configuration-results`.
pub ghost enum LoadItemV {
    OkItem,
    ErrorItem(ErrV),
    ErrorCount(Seq<u8>),
}

/// View of a `load-configuration-results` element.
pub ghost struct LoadResultsV {
    pub format: Option<Seq<u8>>,
    pub action: Option<Seq<u8>>,
    pub items: Seq<LoadItemV>,
}

/// View of one reply element.
pub ghost enum ReplyElemV {
    Output(Seq<u8>),
    LoadResults(LoadResultsV),
    ConfigInfo {
        format: Option<Seq<u8>>,
        rollback: Option<Seq<u8>>,
        compare: Option<Seq<u8>>,
        output: Seq<u8>,
    },
    ConfigText(Seq<u8>),
    ErrorElem(ErrV),
    OkElem,
    CommitResultsElem,
    Other(Seq<u8>),
}

/// View of one request.
pub ghost enum ReqV {
    GetConfiguration {
        format: Seq<u8>,
        rollback: Option<Seq<u8>>,
        compare: Option<Seq<u8>>,
        source: Option<Seq<u8>>,
    },
    Command { format: Seq<u8>, command: Seq<u8> },
    LockConfiguration,
    UnlockConfiguration,
    LoadConfiguration {
        format: Seq<u8>,
        action: Seq<u8>,
        cfg_text: Option<Seq<u8>>,
        cfg_set: Option<Seq<u8>>,
    },
    CommitConfiguration,
    CommitConfirmedConfiguration { confirm_timeout: int },
}

/// View of a `hello` message.
pub ghost struct HelloV {
    pub capabilities: Seq<Seq<u8>>,
    pub session_id: Option<Seq<u8>>,
    pub namespace_junos: Option<Seq<u8>>,
    pub namespace: Option<Seq<u8>>,
}

/// The capability list of a `hello`.
#[derive(Debug, Clone, PartialEq, Eq)]
pub struct Capabilities {
    pub capability: Vec<Vec<u8>>,
}

/// The one-time capability announcement exchanged at session start.
#[derive(Debug, Clone, PartialEq, Eq)]
pub struct Hello {
    pub capabilities: Capabilities,
    pub session_id: Option<Vec<u8>>,
    pub namespace_junos: Option<Vec<u8>>,
    pub namespace: Option<Vec<u8>>,
}

/// Capability URIs as a sequence of byte sequences.
pub open spec fn caps_view(s: Seq<Vec<u8>>) -> Seq<Seq<u8>> {
    s.map_values(|v: Vec<u8>| v@)
}

impl View for Hello {
    type V = HelloV;

    open spec fn view(&self) -> HelloV {
        HelloV {
            capabilities: caps_view(self.capabilities.capability@),
            session_id: opt_view(self.session_id),
            namespace_junos: opt_view(self.namespace_junos),
            namespace: opt_view(self.namespace),
        }
    }
}

/// One request under an `<rpc>` envelope.
#[derive(Debug, Clone, PartialEq, Eq)]
pub enum RPCCommand {
    GetConfiguration {
        format: Vec<u8>,
        rollback: Option<Vec<u8>>,
        compare: Option<Vec<u8>>,
        source: Option<Vec<u8>>,
    },
    Command { format: Vec<u8>, command: Vec<u8> },
    LockConfiguration {},
    UnlockConfiguration {},
    LoadConfiguration {
        format: Vec<u8>,
        action: Vec<u8>,
        cfg_text: Option<Vec<u8>>,
        cfg_set: Option<Vec<u8>>,
    },
    CommitConfiguration {},
    CommitConfirmedConfiguration { confirmed: ConfigurationConfirmed, confirm_timeout: i32 },
}

/// The empty confirmation marker inside a confirmed commit.
#[derive(Debug, Clone, PartialEq, Eq)]
pub struct ConfigurationConfirmed {}

impl View for RPCCommand {
    type V = ReqV;

    open spec fn view(&self) -> ReqV {
        match self {
            RPCCommand::GetConfiguration { format, rollback, compare, source } => ReqV::GetConfiguration {
                format: format@,
                rollback: opt_view(*rollback),
                compare: opt_view(*compare),
                source: opt_view(*source),
            },
            RPCCommand::Command { format, command } => ReqV::Command {
                format: format@,
                command: command@,
            },
            RPCCommand::LockConfiguration {} => ReqV::LockConfiguration,
            RPCCommand::UnlockConfiguration {} => ReqV::UnlockConfiguration,
            RPCCommand::LoadConfiguration { format, action, cfg_text, cfg_set } => ReqV::LoadConfiguration {
                format: format@,
                action: action@,
                cfg_text: opt_view(*cfg_text),
                cfg_set: opt_view(*cfg_set),
            },
            RPCCommand::CommitConfiguration {} => ReqV::CommitConfiguration,
            RPCCommand::CommitConfirmedConfiguration { confirmed: _, confirm_timeout } => ReqV::CommitConfirmedConfiguration {
                confirm_timeout: *confirm_timeout as int,
            },
        }
    }
}

/// The `<rpc>` envelope around one request.
#[derive(Debug, Clone, PartialEq, Eq)]
pub struct RPC {
    pub rpc: RPCCommand,
}

impl View for RPC {
    type V = ReqV;

    open spec fn view(&self) -> ReqV {
        self.rpc@
    }
}

/// A server-reported error, with its severity as dispatch key.
#[derive(Debug, Clone, PartialEq, Eq)]
pub struct RPCError {
    pub error_severity: Vec<u8>,
    pub error_message: Vec<u8>,
    pub error_path: Option<Vec<u8>>,
    pub error_type: Option<Vec<u8>>,
    pub error_tag: Option<Vec<u8>>,
    pub error_info: Option<RPCErrorInfo>,
    pub source_daemon: Option<Vec<u8>>,
}

/// The `error-info` child of an `rpc-error`.
#[derive(Debug, Clone, PartialEq, Eq)]
pub struct RPCErrorInfo {
    pub bad_element: Vec<u8>,
}

/// Ghost view of an optional `error-info` field.
pub open spec fn info_view(o: Option<RPCErrorInfo>) -> Option<Seq<u8>> {
    match o {
        Some(v) => Some(v.bad_element@),
        None => None,
    }
}

impl View for RPCError {
    type V = ErrV;

    open spec fn view(&self) -> ErrV {
        ErrV {
            severity: self.error_severity@,
            message: self.error_message@,
            path: opt_view(self.error_path),
            typ: opt_view(self.error_type),
            tag: opt_view(self.error_tag),
            bad_element: info_view(self.error_info),
            source_daemon: opt_view(self.source_daemon),
        }
    }
}

/// The count element a load may report beside its results.
#[derive(Debug, Clone, PartialEq, Eq)]
pub struct LoadErrorCount {
    pub message: Vec<u8>,
}

/// One entry of a `load-configuration-results` element.
#[derive(Debug, Clone, PartialEq, Eq)]
pub enum LoadConfigurationResultsEnum {
    Okay,
    RPCError(RPCError),
    LoadErrorCount(LoadErrorCount),
}

impl View for LoadConfigurationResultsEnum {
    type V = LoadItemV;

    open spec fn view(&self) -> LoadItemV {
        match self {
            LoadConfigurationResultsEnum::Okay => LoadItemV::OkItem,
            LoadConfigurationResultsEnum::RPCError(e) => LoadItemV::ErrorItem(e@),
            LoadConfigurationResultsEnum::LoadErrorCount(c) => LoadItemV::ErrorCount(c.message@),
        }
    }
}

/// Load-item views as a sequence.
pub open spec fn items_view(s: Seq<LoadConfigurationResultsEnum>) -> Seq<LoadItemV> {
    s.map_values(|c: LoadConfigurationResultsEnum| c@)
}

/// The `load-configuration-results` reply element.
#[derive(Debug, Clone, PartialEq, Eq)]
pub struct LoadConfigurationResults {
    pub format: Option<Vec<u8>>,
    pub action: Option<Vec<u8>>,
    pub load_configuration_results: Vec<LoadConfigurationResultsEnum>,
}

impl View for LoadConfigurationResults {
    type V = LoadResultsV;

    open spec fn view(&self) -> LoadResultsV {
        LoadResultsV {
            format: opt_view(self.format),
            action: opt_view(self.action),
            items: items_view(self.load_configuration_results@),
        }
    }
}

/// One element of a reply sequence.
#[derive(Debug, Clone, PartialEq, Eq)]
pub enum RPCReplyCommand {
    Output { text: Vec<u8> },
    LoadConfigurationResults(LoadConfigurationResults),
    ConfigurationInformation {
        format: Option<Vec<u8>>,
        rollback: Option<Vec<u8>>,
        compare: Option<Vec<u8>>,
        configuration_output: Vec<u8>,
    },
    ConfigurationText { text: Vec<u8> },
    RPCError(RPCError),
    Okay,
    CommitResults,
    Other(Vec<u8>),
}

impl View for RPCReplyCommand {
    type V = ReplyElemV;

    open spec fn view(&self) -> ReplyElemV {
        match self {
            RPCReplyCommand::Output { text } => ReplyElemV::Output(text@),
            RPCReplyCommand::LoadConfigurationResults(r) => ReplyElemV::LoadResults(r@),
            RPCReplyCommand::ConfigurationInformation { format, rollback, compare, configuration_output } => ReplyElemV::ConfigInfo {
                format: opt_view(*format),
                rollback: opt_view(*rollback),
                compare: opt_view(*compare),
                output: configuration_output@,
            },
            RPCReplyCommand::ConfigurationText { text } => ReplyElemV::ConfigText(text@),
            RPCReplyCommand::RPCError(e) => ReplyElemV::ErrorElem(e@),
            RPCReplyCommand::Okay => ReplyElemV::OkElem,
            RPCReplyCommand::CommitResults => ReplyElemV::CommitResultsElem,
            RPCReplyCommand::Other(t) => ReplyElemV::Other(t@),
        }
    }
}

/// Reply-element views as a sequence.
pub open spec fn elems_view(s: Seq<RPCReplyCommand>) -> Seq<ReplyElemV> {
    s.map_values(|c: RPCReplyCommand| c@)
}

/// An ordered reply sequence; order is significant and every operation
/// re-scans it against its own grammar.
#[derive(Debug, Clone, PartialEq, Eq)]
pub struct RPCReply {
    pub rpc_reply: Vec<RPCReplyCommand>,
}

impl View for RPCReply {
    type V = Seq<ReplyElemV>;

    open spec fn view(&self) -> Seq<ReplyElemV> {
        elems_view(self.rpc_reply@)
    }
}

/// A copy of an optional byte vector, view for view.
pub fn dup_opt_bytes(o: &Option<Vec<u8>>) -> (r: Option<Vec<u8>>)
    ensures
        opt_view(r) == opt_view(*o),
{
    match o {
        Some(v) => Some(copy_bytes(v)),
        None => None,
    }
}

impl RPCErrorInfo {
    /// A copy with the same view.
    pub fn duplicate(&self) -> (r: RPCErrorInfo)
        ensures
            r.bad_element@ == self.bad_element@,
    {
        RPCErrorInfo { bad_element: copy_bytes(&self.bad_element) }
    }
}

impl RPCError {
    /// A copy with the same view.
    pub fn duplicate(&self) -> (r: RPCError)
        ensures
            r@ == self@,
    {
        RPCError {
            error_severity: copy_bytes(&self.error_severity),
            error_message: copy_bytes(&self.error_message),
            error_path: dup_opt_bytes(&self.error_path),
            error_type: dup_opt_bytes(&self.error_type),
            error_tag: dup_opt_bytes(&self.error_tag),
            error_info: match &self.error_info {
                Some(i) => Some(i.duplicate()),
                None => None,
            },
            source_daemon: dup_opt_bytes(&self.source_daemon),
        }
    }
}

impl LoadErrorCount {
    /// A copy with the same view.
    pub fn duplicate(&self) -> (r: LoadErrorCount)
        ensures
            r.message@ == self.message@,
    {
        LoadErrorCount { message: copy_bytes(&self.message) }
    }
}

impl LoadConfigurationResultsEnum {
    /// A copy with the same view.
    pub fn duplicate(&self) -> (r: LoadConfigurationResultsEnum)
        ensures
            r@ == self@,
    {
        match self {
            LoadConfigurationResultsEnum::Okay => LoadConfigurationResultsEnum::Okay,
            LoadConfigurationResultsEnum::RPCError(e) => LoadConfigurationResultsEnum::RPCError(
                e.duplicate(),
            ),
            LoadConfigurationResultsEnum::LoadErrorCount(c) => LoadConfigurationResultsEnum::LoadErrorCount(
                c.duplicate(),
            ),
        }
    }
}

impl LoadConfigurationResults {
    /// A copy with the same view.
    pub fn duplicate(&self) -> (r: LoadConfigurationResults)
        ensures
            r@ == self@,
    {
        let mut items: Vec<LoadConfigurationResultsEnum> = Vec::new();
        let mut i: usize = 0;
        while i < self.load_configuration_results.len()
            invariant
                i <= self.load_configuration_results@.len(),
                items@.len() == i,
                forall|k: int| 0 <= k < i ==> items@[k]@ == self.load_configuration_results@[k]@,
            decreases self.load_configuration_results@.len() - i,
        {
            items.push(self.load_configuration_results[i].duplicate());
            i += 1;
        }
        let r = LoadConfigurationResults {
            format: dup_opt_bytes(&self.format),
            action: dup_opt_bytes(&self.action),
            load_configuration_results: items,
        };
        proof {
            assert(items_view(r.load_configuration_results@) =~= items_view(
                self.load_configuration_results@,
            ));
        }
        r
    }
}

impl RPCReplyCommand {
    /// A copy with the same view.
    pub fn duplicate(&self) -> (r: RPCReplyCommand)
        ensures
            r@ == self@,
    {
        match self {
            RPCReplyCommand::Output { text } => RPCReplyCommand::Output { text: copy_bytes(text) },
            RPCReplyCommand::LoadConfigurationResults(lr) => RPCReplyCommand::LoadConfigurationResults(
                lr.duplicate(),
            ),
            RPCReplyCommand::ConfigurationInformation { format, rollback, compare, configuration_output } => RPCReplyCommand::ConfigurationInformation {
                format: dup_opt_bytes(format),
                rollback: dup_opt_bytes(rollback),
                compare: dup_opt_bytes(compare),
                configuration_output: copy_bytes(configuration_output),
            },
            RPCReplyCommand::ConfigurationText { text } => RPCReplyCommand::ConfigurationText {
                text: copy_bytes(text),
            },
            RPCReplyCommand::RPCError(e) => RPCReplyCommand::RPCError(e.duplicate()),
            RPCReplyCommand::Okay => RPCReplyCommand::Okay,
            RPCReplyCommand::CommitResults => RPCReplyCommand::CommitResults,
            RPCReplyCommand::Other(t) => RPCReplyCommand::Other(copy_bytes(t)),
        }
    }
}

} // verus!
