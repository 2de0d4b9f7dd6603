//! Byte constants for the wire element names, attribute names and fixed
//! words of the NETCONF dialect this client speaks.

use vstd::prelude::*;

verus! {

/// `rpc`
pub open spec fn n_rpc() -> Seq<u8> {
    seq![114u8, 112u8, 99u8]
}

pub fn n_rpc_v() -> (v: Vec<u8>)
    ensures
        v@ == n_rpc(),
{
    let mut v: Vec<u8> = Vec::new();
    v.push(114u8);
    v.push(112u8);
    v.push(99u8);
    proof { assert(v@ =~= n_rpc()); }
    v
}

/// `rpc-reply`
pub open spec fn n_rpc_reply() -> Seq<u8> {
    seq![114u8, 112u8, 99u8, 45u8, 114u8, 101u8, 112u8, 108u8, 121u8]
}

pub fn n_rpc_reply_v() -> (v: Vec<u8>)
    ensures
        v@ == n_rpc_reply(),
{
    let mut v: Vec<u8> = Vec::new();
    v.push(114u8);
    v.push(112u8);
    v.push(99u8);
    v.push(45u8);
    v.push(114u8);
    v.push(101u8);
    v.push(112u8);
    v.push(108u8);
    v.push(121u8);
    proof { assert(v@ =~= n_rpc_reply()); }
    v
}

/// `hello`
pub open spec fn n_hello() -> Seq<u8> {
    seq![104u8, 101u8, 108u8, 108u8, 111u8]
}

pub fn n_hello_v() -> (v: Vec<u8>)
    ensures
        v@ == n_hello(),
{
    let mut v: Vec<u8> = Vec::new();
    v.push(104u8);
    v.push(101u8);
    v.push(108u8);
    v.push(108u8);
    v.push(111u8);
    proof { assert(v@ =~= n_hello()); }
    v
}

/// `capabilities`
pub open spec fn n_capabilities() -> Seq<u8> {
    seq![99u8, 97u8, 112u8, 97u8, 98u8, 105u8, 108u8, 105u8, 116u8, 105u8, 101u8, 115u8]
}

pub fn n_capabilities_v() -> (v: Vec<u8>)
    ensures
        v@ == n_capabilities(),
{
    let mut v: Vec<u8> = Vec::new();
    v.push(99u8);
    v.push(97u8);
    v.push(112u8);
    v.push(97u8);
    v.push(98u8);
    v.push(105u8);
    v.push(108u8);
    v.push(105u8);
    v.push(116u8);
    v.push(105u8);
    v.push(101u8);
    v.push(115u8);
    proof { assert(v@ =~= n_capabilities()); }
    v
}

/// `capability`
pub open spec fn n_capability() -> Seq<u8> {
    seq![99u8, 97u8, 112u8, 97u8, 98u8, 105u8, 108u8, 105u8, 116u8, 121u8]
}

pub fn n_capability_v() -> (v: Vec<u8>)
    ensures
        v@ == n_capability(),
{
    let mut v: Vec<u8> = Vec::new();
    v.push(99u8);
    v.push(97u8);
    v.push(112u8);
    v.push(97u8);
    v.push(98u8);
    v.push(105u8);
    v.push(108u8);
    v.push(105u8);
    v.push(116u8);
    v.push(121u8);
    proof { assert(v@ =~= n_capability()); }
    v
}

/// `session-id`
pub open spec fn n_session_id() -> Seq<u8> {
    seq![115u8, 101u8, 115u8, 115u8, 105u8, 111u8, 110u8, 45u8, 105u8, 100u8]
}

pub fn n_session_id_v() -> (v: Vec<u8>)
    ensures
        v@ == n_session_id(),
{
    let mut v: Vec<u8> = Vec::new();
    v.push(115u8);
    v.push(101u8);
    v.push(115u8);
    v.push(115u8);
    v.push(105u8);
    v.push(111u8);
    v.push(110u8);
    v.push(45u8);
    v.push(105u8);
    v.push(100u8);
    proof { assert(v@ =~= n_session_id()); }
    v
}

/// `get-configuration`
pub open spec fn n_get_configuration() -> Seq<u8> {
    seq![103u8, 101u8, 116u8, 45u8, 99u8, 111u8, 110u8, 102u8, 105u8, 103u8, 117u8, 114u8, 97u8, 116u8, 105u8, 111u8, 110u8]
}

pub fn n_get_configuration_v() -> (v: Vec<u8>)
    ensures
        v@ == n_get_configuration(),
{
    let mut v: Vec<u8> = Vec::new();
    v.push(103u8);
    v.push(101u8);
    v.push(116u8);
    v.push(45u8);
    v.push(99u8);
    v.push(111u8);
    v.push(110u8);
    v.push(102u8);
    v.push(105u8);
    v.push(103u8);
    v.push(117u8);
    v.push(114u8);
    v.push(97u8);
    v.push(116u8);
    v.push(105u8);
    v.push(111u8);
    v.push(110u8);
    proof { assert(v@ =~= n_get_configuration()); }
    v
}

/// `command`
pub open spec fn n_command() -> Seq<u8> {
    seq![99u8, 111u8, 109u8, 109u8, 97u8, 110u8, 100u8]
}

pub fn n_command_v() -> (v: Vec<u8>)
    ensures
        v@ == n_command(),
{
    let mut v: Vec<u8> = Vec::new();
    v.push(99u8);
    v.push(111u8);
    v.push(109u8);
    v.push(109u8);
    v.push(97u8);
    v.push(110u8);
    v.push(100u8);
    proof { assert(v@ =~= n_command()); }
    v
}

/// `lock-configuration`
pub open spec fn n_lock_configuration() -> Seq<u8> {
    seq![108u8, 111u8, 99u8, 107u8, 45u8, 99u8, 111u8, 110u8, 102u8, 105u8, 103u8, 117u8, 114u8, 97u8, 116u8, 105u8, 111u8, 110u8]
}

pub fn n_lock_configuration_v() -> (v: Vec<u8>)
    ensures
        v@ == n_lock_configuration(),
{
    let mut v: Vec<u8> = Vec::new();
    v.push(108u8);
    v.push(111u8);
    v.push(99u8);
    v.push(107u8);
    v.push(45u8);
    v.push(99u8);
    v.push(111u8);
    v.push(110u8);
    v.push(102u8);
    v.push(105u8);
    v.push(103u8);
    v.push(117u8);
    v.push(114u8);
    v.push(97u8);
    v.push(116u8);
    v.push(105u8);
    v.push(111u8);
    v.push(110u8);
    proof { assert(v@ =~= n_lock_configuration()); }
    v
}

/// `unlock-configuration`
pub open spec fn n_unlock_configuration() -> Seq<u8> {
    seq![117u8, 110u8, 108u8, 111u8, 99u8, 107u8, 45u8, 99u8, 111u8, 110u8, 102u8, 105u8, 103u8, 117u8, 114u8, 97u8, 116u8, 105u8, 111u8, 110u8]
}

pub fn n_unlock_configuration_v() -> (v: Vec<u8>)
    ensures
        v@ == n_unlock_configuration(),
{
    let mut v: Vec<u8> = Vec::new();
    v.push(117u8);
    v.push(110u8);
    v.push(108u8);
    v.push(111u8);
    v.push(99u8);
    v.push(107u8);
    v.push(45u8);
    v.push(99u8);
    v.push(111u8);
    v.push(110u8);
    v.push(102u8);
    v.push(105u8);
    v.push(103u8);
    v.push(117u8);
    v.push(114u8);
    v.push(97u8);
    v.push(116u8);
    v.push(105u8);
    v.push(111u8);
    v.push(110u8);
    proof { assert(v@ =~= n_unlock_configuration()); }
    v
}

/// `load-configuration`
pub open spec fn n_load_configuration() -> Seq<u8> {
    seq![108u8, 111u8, 97u8, 100u8, 45u8, 99u8, 111u8, 110u8, 102u8, 105u8, 103u8, 117u8, 114u8, 97u8, 116u8, 105u8, 111u8, 110u8]
}

pub fn n_load_configuration_v() -> (v: Vec<u8>)
    ensures
        v@ == n_load_configuration(),
{
    let mut v: Vec<u8> = Vec::new();
    v.push(108u8);
    v.push(111u8);
    v.push(97u8);
    v.push(100u8);
    v.push(45u8);
    v.push(99u8);
    v.push(111u8);
    v.push(110u8);
    v.push(102u8);
    v.push(105u8);
    v.push(103u8);
    v.push(117u8);
    v.push(114u8);
    v.push(97u8);
    v.push(116u8);
    v.push(105u8);
    v.push(111u8);
    v.push(110u8);
    proof { assert(v@ =~= n_load_configuration()); }
    v
}

/// `configuration-text`
pub open spec fn n_configuration_text() -> Seq<u8> {
    seq![99u8, 111u8, 110u8, 102u8, 105u8, 103u8, 117u8, 114u8, 97u8, 116u8, 105u8, 111u8, 110u8, 45u8, 116u8, 101u8, 120u8, 116u8]
}

pub fn n_configuration_text_v() -> (v: Vec<u8>)
    ensures
        v@ == n_configuration_text(),
{
    let mut v: Vec<u8> = Vec::new();
    v.push(99u8);
    v.push(111u8);
    v.push(110u8);
    v.push(102u8);
    v.push(105u8);
    v.push(103u8);
    v.push(117u8);
    v.push(114u8);
    v.push(97u8);
    v.push(116u8);
    v.push(105u8);
    v.push(111u8);
    v.push(110u8);
    v.push(45u8);
    v.push(116u8);
    v.push(101u8);
    v.push(120u8);
    v.push(116u8);
    proof { assert(v@ =~= n_configuration_text()); }
    v
}

/// `configuration-set`
pub open spec fn n_configuration_set() -> Seq<u8> {
    seq![99u8, 111u8, 110u8, 102u8, 105u8, 103u8, 117u8, 114u8, 97u8, 116u8, 105u8, 111u8, 110u8, 45u8, 115u8, 101u8, 116u8]
}

pub fn n_configuration_set_v() -> (v: Vec<u8>)
    ensures
        v@ == n_configuration_set(),
{
    let mut v: Vec<u8> = Vec::new();
    v.push(99u8);
    v.push(111u8);
    v.push(110u8);
    v.push(102u8);
    v.push(105u8);
    v.push(103u8);
    v.push(117u8);
    v.push(114u8);
    v.push(97u8);
    v.push(116u8);
    v.push(105u8);
    v.push(111u8);
    v.push(110u8);
    v.push(45u8);
    v.push(115u8);
    v.push(101u8);
    v.push(116u8);
    proof { assert(v@ =~= n_configuration_set()); }
    v
}

/// `commit-configuration`
pub open spec fn n_commit_configuration() -> Seq<u8> {
    seq![99u8, 111u8, 109u8, 109u8, 105u8, 116u8, 45u8, 99u8, 111u8, 110u8, 102u8, 105u8, 103u8, 117u8, 114u8, 97u8, 116u8, 105u8, 111u8, 110u8]
}

pub fn n_commit_configuration_v() -> (v: Vec<u8>)
    ensures
        v@ == n_commit_configuration(),
{
    let mut v: Vec<u8> = Vec::new();
    v.push(99u8);
    v.push(111u8);
    v.push(109u8);
    v.push(109u8);
    v.push(105u8);
    v.push(116u8);
    v.push(45u8);
    v.push(99u8);
    v.push(111u8);
    v.push(110u8);
    v.push(102u8);
    v.push(105u8);
    v.push(103u8);
    v.push(117u8);
    v.push(114u8);
    v.push(97u8);
    v.push(116u8);
    v.push(105u8);
    v.push(111u8);
    v.push(110u8);
    proof { assert(v@ =~= n_commit_configuration()); }
    v
}

/// `confirmed`
pub open spec fn n_confirmed() -> Seq<u8> {
    seq![99u8, 111u8, 110u8, 102u8, 105u8, 114u8, 109u8, 101u8, 100u8]
}

pub fn n_confirmed_v() -> (v: Vec<u8>)
    ensures
        v@ == n_confirmed(),
{
    let mut v: Vec<u8> = Vec::new();
    v.push(99u8);
    v.push(111u8);
    v.push(110u8);
    v.push(102u8);
    v.push(105u8);
    v.push(114u8);
    v.push(109u8);
    v.push(101u8);
    v.push(100u8);
    proof { assert(v@ =~= n_confirmed()); }
    v
}

/// `confirm-timeout`
pub open spec fn n_confirm_timeout() -> Seq<u8> {
    seq![99u8, 111u8, 110u8, 102u8, 105u8, 114u8, 109u8, 45u8, 116u8, 105u8, 109u8, 101u8, 111u8, 117u8, 116u8]
}

pub fn n_confirm_timeout_v() -> (v: Vec<u8>)
    ensures
        v@ == n_confirm_timeout(),
{
    let mut v: Vec<u8> = Vec::new();
    v.push(99u8);
    v.push(111u8);
    v.push(110u8);
    v.push(102u8);
    v.push(105u8);
    v.push(114u8);
    v.push(109u8);
    v.push(45u8);
    v.push(116u8);
    v.push(105u8);
    v.push(109u8);
    v.push(101u8);
    v.push(111u8);
    v.push(117u8);
    v.push(116u8);
    proof { assert(v@ =~= n_confirm_timeout()); }
    v
}

/// `output`
pub open spec fn n_output() -> Seq<u8> {
    seq![111u8, 117u8, 116u8, 112u8, 117u8, 116u8]
}

pub fn n_output_v() -> (v: Vec<u8>)
    ensures
        v@ == n_output(),
{
    let mut v: Vec<u8> = Vec::new();
    v.push(111u8);
    v.push(117u8);
    v.push(116u8);
    v.push(112u8);
    v.push(117u8);
    v.push(116u8);
    proof { assert(v@ =~= n_output()); }
    v
}

/// `load-configuration-results`
pub open spec fn n_load_configuration_results() -> Seq<u8> {
    seq![108u8, 111u8, 97u8, 100u8, 45u8, 99u8, 111u8, 110u8, 102u8, 105u8, 103u8, 117u8, 114u8, 97u8, 116u8, 105u8, 111u8, 110u8, 45u8, 114u8, 101u8, 115u8, 117u8, 108u8, 116u8, 115u8]
}

pub fn n_load_configuration_results_v() -> (v: Vec<u8>)
    ensures
        v@ == n_load_configuration_results(),
{
    let mut v: Vec<u8> = Vec::new();
    v.push(108u8);
    v.push(111u8);
    v.push(97u8);
    v.push(100u8);
    v.push(45u8);
    v.push(99u8);
    v.push(111u8);
    v.push(110u8);
    v.push(102u8);
    v.push(105u8);
    v.push(103u8);
    v.push(117u8);
    v.push(114u8);
    v.push(97u8);
    v.push(116u8);
    v.push(105u8);
    v.push(111u8);
    v.push(110u8);
    v.push(45u8);
    v.push(114u8);
    v.push(101u8);
    v.push(115u8);
    v.push(117u8);
    v.push(108u8);
    v.push(116u8);
    v.push(115u8);
    proof { assert(v@ =~= n_load_configuration_results()); }
    v
}

/// `configuration-information`
pub open spec fn n_configuration_information() -> Seq<u8> {
    seq![99u8, 111u8, 110u8, 102u8, 105u8, 103u8, 117u8, 114u8, 97u8, 116u8, 105u8, 111u8, 110u8, 45u8, 105u8, 110u8, 102u8, 111u8, 114u8, 109u8, 97u8, 116u8, 105u8, 111u8, 110u8]
}

pub fn n_configuration_information_v() -> (v: Vec<u8>)
    ensures
        v@ == n_configuration_information(),
{
    let mut v: Vec<u8> = Vec::new();
    v.push(99u8);
    v.push(111u8);
    v.push(110u8);
    v.push(102u8);
    v.push(105u8);
    v.push(103u8);
    v.push(117u8);
    v.push(114u8);
    v.push(97u8);
    v.push(116u8);
    v.push(105u8);
    v.push(111u8);
    v.push(110u8);
    v.push(45u8);
    v.push(105u8);
    v.push(110u8);
    v.push(102u8);
    v.push(111u8);
    v.push(114u8);
    v.push(109u8);
    v.push(97u8);
    v.push(116u8);
    v.push(105u8);
    v.push(111u8);
    v.push(110u8);
    proof { assert(v@ =~= n_configuration_information()); }
    v
}

/// `configuration-output`
pub open spec fn n_configuration_output() -> Seq<u8> {
    seq![99u8, 111u8, 110u8, 102u8, 105u8, 103u8, 117u8, 114u8, 97u8, 116u8, 105u8, 111u8, 110u8, 45u8, 111u8, 117u8, 116u8, 112u8, 117u8, 116u8]
}

pub fn n_configuration_output_v() -> (v: Vec<u8>)
    ensures
        v@ == n_configuration_output(),
{
    let mut v: Vec<u8> = Vec::new();
    v.push(99u8);
    v.push(111u8);
    v.push(110u8);
    v.push(102u8);
    v.push(105u8);
    v.push(103u8);
    v.push(117u8);
    v.push(114u8);
    v.push(97u8);
    v.push(116u8);
    v.push(105u8);
    v.push(111u8);
    v.push(110u8);
    v.push(45u8);
    v.push(111u8);
    v.push(117u8);
    v.push(116u8);
    v.push(112u8);
    v.push(117u8);
    v.push(116u8);
    proof { assert(v@ =~= n_configuration_output()); }
    v
}

/// `rpc-error`
pub open spec fn n_rpc_error() -> Seq<u8> {
    seq![114u8, 112u8, 99u8, 45u8, 101u8, 114u8, 114u8, 111u8, 114u8]
}

pub fn n_rpc_error_v() -> (v: Vec<u8>)
    ensures
        v@ == n_rpc_error(),
{
    let mut v: Vec<u8> = Vec::new();
    v.push(114u8);
    v.push(112u8);
    v.push(99u8);
    v.push(45u8);
    v.push(101u8);
    v.push(114u8);
    v.push(114u8);
    v.push(111u8);
    v.push(114u8);
    proof { assert(v@ =~= n_rpc_error()); }
    v
}

/// `ok`
pub open spec fn n_ok() -> Seq<u8> {
    seq![111u8, 107u8]
}

pub fn n_ok_v() -> (v: Vec<u8>)
    ensures
        v@ == n_ok(),
{
    let mut v: Vec<u8> = Vec::new();
    v.push(111u8);
    v.push(107u8);
    proof { assert(v@ =~= n_ok()); }
    v
}

/// `commit-results`
pub open spec fn n_commit_results() -> Seq<u8> {
    seq![99u8, 111u8, 109u8, 109u8, 105u8, 116u8, 45u8, 114u8, 101u8, 115u8, 117u8, 108u8, 116u8, 115u8]
}

pub fn n_commit_results_v() -> (v: Vec<u8>)
    ensures
        v@ == n_commit_results(),
{
    let mut v: Vec<u8> = Vec::new();
    v.push(99u8);
    v.push(111u8);
    v.push(109u8);
    v.push(109u8);
    v.push(105u8);
    v.push(116u8);
    v.push(45u8);
    v.push(114u8);
    v.push(101u8);
    v.push(115u8);
    v.push(117u8);
    v.push(108u8);
    v.push(116u8);
    v.push(115u8);
    proof { assert(v@ =~= n_commit_results()); }
    v
}

/// `load-error-count`
pub open spec fn n_load_error_count() -> Seq<u8> {
    seq![108u8, 111u8, 97u8, 100u8, 45u8, 101u8, 114u8, 114u8, 111u8, 114u8, 45u8, 99u8, 111u8, 117u8, 110u8, 116u8]
}

pub fn n_load_error_count_v() -> (v: Vec<u8>)
    ensures
        v@ == n_load_error_count(),
{
    let mut v: Vec<u8> = Vec::new();
    v.push(108u8);
    v.push(111u8);
    v.push(97u8);
    v.push(100u8);
    v.push(45u8);
    v.push(101u8);
    v.push(114u8);
    v.push(114u8);
    v.push(111u8);
    v.push(114u8);
    v.push(45u8);
    v.push(99u8);
    v.push(111u8);
    v.push(117u8);
    v.push(110u8);
    v.push(116u8);
    proof { assert(v@ =~= n_load_error_count()); }
    v
}

/// `error-severity`
pub open spec fn n_error_severity() -> Seq<u8> {
    seq![101u8, 114u8, 114u8, 111u8, 114u8, 45u8, 115u8, 101u8, 118u8, 101u8, 114u8, 105u8, 116u8, 121u8]
}

pub fn n_error_severity_v() -> (v: Vec<u8>)
    ensures
        v@ == n_error_severity(),
{
    let mut v: Vec<u8> = Vec::new();
    v.push(101u8);
    v.push(114u8);
    v.push(114u8);
    v.push(111u8);
    v.push(114u8);
    v.push(45u8);
    v.push(115u8);
    v.push(101u8);
    v.push(118u8);
    v.push(101u8);
    v.push(114u8);
    v.push(105u8);
    v.push(116u8);
    v.push(121u8);
    proof { assert(v@ =~= n_error_severity()); }
    v
}

/// `error-message`
pub open spec fn n_error_message() -> Seq<u8> {
    seq![101u8, 114u8, 114u8, 111u8, 114u8, 45u8, 109u8, 101u8, 115u8, 115u8, 97u8, 103u8, 101u8]
}

pub fn n_error_message_v() -> (v: Vec<u8>)
    ensures
        v@ == n_error_message(),
{
    let mut v: Vec<u8> = Vec::new();
    v.push(101u8);
    v.push(114u8);
    v.push(114u8);
    v.push(111u8);
    v.push(114u8);
    v.push(45u8);
    v.push(109u8);
    v.push(101u8);
    v.push(115u8);
    v.push(115u8);
    v.push(97u8);
    v.push(103u8);
    v.push(101u8);
    proof { assert(v@ =~= n_error_message()); }
    v
}

/// `error-path`
pub open spec fn n_error_path() -> Seq<u8> {
    seq![101u8, 114u8, 114u8, 111u8, 114u8, 45u8, 112u8, 97u8, 116u8, 104u8]
}

pub fn n_error_path_v() -> (v: Vec<u8>)
    ensures
        v@ == n_error_path(),
{
    let mut v: Vec<u8> = Vec::new();
    v.push(101u8);
    v.push(114u8);
    v.push(114u8);
    v.push(111u8);
    v.push(114u8);
    v.push(45u8);
    v.push(112u8);
    v.push(97u8);
    v.push(116u8);
    v.push(104u8);
    proof { assert(v@ =~= n_error_path()); }
    v
}

/// `error-type`
pub open spec fn n_error_type() -> Seq<u8> {
    seq![101u8, 114u8, 114u8, 111u8, 114u8, 45u8, 116u8, 121u8, 112u8, 101u8]
}

pub fn n_error_type_v() -> (v: Vec<u8>)
    ensures
        v@ == n_error_type(),
{
    let mut v: Vec<u8> = Vec::new();
    v.push(101u8);
    v.push(114u8);
    v.push(114u8);
    v.push(111u8);
    v.push(114u8);
    v.push(45u8);
    v.push(116u8);
    v.push(121u8);
    v.push(112u8);
    v.push(101u8);
    proof { assert(v@ =~= n_error_type()); }
    v
}

/// `error-tag`
pub open spec fn n_error_tag() -> Seq<u8> {
    seq![101u8, 114u8, 114u8, 111u8, 114u8, 45u8, 116u8, 97u8, 103u8]
}

pub fn n_error_tag_v() -> (v: Vec<u8>)
    ensures
        v@ == n_error_tag(),
{
    let mut v: Vec<u8> = Vec::new();
    v.push(101u8);
    v.push(114u8);
    v.push(114u8);
    v.push(111u8);
    v.push(114u8);
    v.push(45u8);
    v.push(116u8);
    v.push(97u8);
    v.push(103u8);
    proof { assert(v@ =~= n_error_tag()); }
    v
}

/// `error-info`
pub open spec fn n_error_info() -> Seq<u8> {
    seq![101u8, 114u8, 114u8, 111u8, 114u8, 45u8, 105u8, 110u8, 102u8, 111u8]
}

pub fn n_error_info_v() -> (v: Vec<u8>)
    ensures
        v@ == n_error_info(),
{
    let mut v: Vec<u8> = Vec::new();
    v.push(101u8);
    v.push(114u8);
    v.push(114u8);
    v.push(111u8);
    v.push(114u8);
    v.push(45u8);
    v.push(105u8);
    v.push(110u8);
    v.push(102u8);
    v.push(111u8);
    proof { assert(v@ =~= n_error_info()); }
    v
}

/// `bad-element`
pub open spec fn n_bad_element() -> Seq<u8> {
    seq![98u8, 97u8, 100u8, 45u8, 101u8, 108u8, 101u8, 109u8, 101u8, 110u8, 116u8]
}

pub fn n_bad_element_v() -> (v: Vec<u8>)
    ensures
        v@ == n_bad_element(),
{
    let mut v: Vec<u8> = Vec::new();
    v.push(98u8);
    v.push(97u8);
    v.push(100u8);
    v.push(45u8);
    v.push(101u8);
    v.push(108u8);
    v.push(101u8);
    v.push(109u8);
    v.push(101u8);
    v.push(110u8);
    v.push(116u8);
    proof { assert(v@ =~= n_bad_element()); }
    v
}

/// `source-daemon`
pub open spec fn n_source_daemon() -> Seq<u8> {
    seq![115u8, 111u8, 117u8, 114u8, 99u8, 101u8, 45u8, 100u8, 97u8, 101u8, 109u8, 111u8, 110u8]
}

pub fn n_source_daemon_v() -> (v: Vec<u8>)
    ensures
        v@ == n_source_daemon(),
{
    let mut v: Vec<u8> = Vec::new();
    v.push(115u8);
    v.push(111u8);
    v.push(117u8);
    v.push(114u8);
    v.push(99u8);
    v.push(101u8);
    v.push(45u8);
    v.push(100u8);
    v.push(97u8);
    v.push(101u8);
    v.push(109u8);
    v.push(111u8);
    v.push(110u8);
    proof { assert(v@ =~= n_source_daemon()); }
    v
}

/// `format`
pub open spec fn a_format() -> Seq<u8> {
    seq![102u8, 111u8, 114u8, 109u8, 97u8, 116u8]
}

pub fn a_format_v() -> (v: Vec<u8>)
    ensures
        v@ == a_format(),
{
    let mut v: Vec<u8> = Vec::new();
    v.push(102u8);
    v.push(111u8);
    v.push(114u8);
    v.push(109u8);
    v.push(97u8);
    v.push(116u8);
    proof { assert(v@ =~= a_format()); }
    v
}

/// `rollback`
pub open spec fn a_rollback() -> Seq<u8> {
    seq![114u8, 111u8, 108u8, 108u8, 98u8, 97u8, 99u8, 107u8]
}

pub fn a_rollback_v() -> (v: Vec<u8>)
    ensures
        v@ == a_rollback(),
{
    let mut v: Vec<u8> = Vec::new();
    v.push(114u8);
    v.push(111u8);
    v.push(108u8);
    v.push(108u8);
    v.push(98u8);
    v.push(97u8);
    v.push(99u8);
    v.push(107u8);
    proof { assert(v@ =~= a_rollback()); }
    v
}

/// `compare`
pub open spec fn a_compare() -> Seq<u8> {
    seq![99u8, 111u8, 109u8, 112u8, 97u8, 114u8, 101u8]
}

pub fn a_compare_v() -> (v: Vec<u8>)
    ensures
        v@ == a_compare(),
{
    let mut v: Vec<u8> = Vec::new();
    v.push(99u8);
    v.push(111u8);
    v.push(109u8);
    v.push(112u8);
    v.push(97u8);
    v.push(114u8);
    v.push(101u8);
    proof { assert(v@ =~= a_compare()); }
    v
}

/// `source`
pub open spec fn a_source() -> Seq<u8> {
    seq![115u8, 111u8, 117u8, 114u8, 99u8, 101u8]
}

pub fn a_source_v() -> (v: Vec<u8>)
    ensures
        v@ == a_source(),
{
    let mut v: Vec<u8> = Vec::new();
    v.push(115u8);
    v.push(111u8);
    v.push(117u8);
    v.push(114u8);
    v.push(99u8);
    v.push(101u8);
    proof { assert(v@ =~= a_source()); }
    v
}

/// `action`
pub open spec fn a_action() -> Seq<u8> {
    seq![97u8, 99u8, 116u8, 105u8, 111u8, 110u8]
}

pub fn a_action_v() -> (v: Vec<u8>)
    ensures
        v@ == a_action(),
{
    let mut v: Vec<u8> = Vec::new();
    v.push(97u8);
    v.push(99u8);
    v.push(116u8);
    v.push(105u8);
    v.push(111u8);
    v.push(110u8);
    proof { assert(v@ =~= a_action()); }
    v
}

/// `xmlns`
pub open spec fn a_xmlns() -> Seq<u8> {
    seq![120u8, 109u8, 108u8, 110u8, 115u8]
}

pub fn a_xmlns_v() -> (v: Vec<u8>)
    ensures
        v@ == a_xmlns(),
{
    let mut v: Vec<u8> = Vec::new();
    v.push(120u8);
    v.push(109u8);
    v.push(108u8);
    v.push(110u8);
    v.push(115u8);
    proof { assert(v@ =~= a_xmlns()); }
    v
}

/// `xmlns:nc`
pub open spec fn a_xmlns_nc() -> Seq<u8> {
    seq![120u8, 109u8, 108u8, 110u8, 115u8, 58u8, 110u8, 99u8]
}

pub fn a_xmlns_nc_v() -> (v: Vec<u8>)
    ensures
        v@ == a_xmlns_nc(),
{
    let mut v: Vec<u8> = Vec::new();
    v.push(120u8);
    v.push(109u8);
    v.push(108u8);
    v.push(110u8);
    v.push(115u8);
    v.push(58u8);
    v.push(110u8);
    v.push(99u8);
    proof { assert(v@ =~= a_xmlns_nc()); }
    v
}

/// `warning`
pub open spec fn w_warning() -> Seq<u8> {
    seq![119u8, 97u8, 114u8, 110u8, 105u8, 110u8, 103u8]
}

pub fn w_warning_v() -> (v: Vec<u8>)
    ensures
        v@ == w_warning(),
{
    let mut v: Vec<u8> = Vec::new();
    v.push(119u8);
    v.push(97u8);
    v.push(114u8);
    v.push(110u8);
    v.push(105u8);
    v.push(110u8);
    v.push(103u8);
    proof { assert(v@ =~= w_warning()); }
    v
}

/// `text`
pub open spec fn w_text() -> Seq<u8> {
    seq![116u8, 101u8, 120u8, 116u8]
}

pub fn w_text_v() -> (v: Vec<u8>)
    ensures
        v@ == w_text(),
{
    let mut v: Vec<u8> = Vec::new();
    v.push(116u8);
    v.push(101u8);
    v.push(120u8);
    v.push(116u8);
    proof { assert(v@ =~= w_text()); }
    v
}

/// `json`
pub open spec fn w_json() -> Seq<u8> {
    seq![106u8, 115u8, 111u8, 110u8]
}

pub fn w_json_v() -> (v: Vec<u8>)
    ensures
        v@ == w_json(),
{
    let mut v: Vec<u8> = Vec::new();
    v.push(106u8);
    v.push(115u8);
    v.push(111u8);
    v.push(110u8);
    proof { assert(v@ =~= w_json()); }
    v
}

/// `set`
pub open spec fn w_set() -> Seq<u8> {
    seq![115u8, 101u8, 116u8]
}

pub fn w_set_v() -> (v: Vec<u8>)
    ensures
        v@ == w_set(),
{
    let mut v: Vec<u8> = Vec::new();
    v.push(115u8);
    v.push(101u8);
    v.push(116u8);
    proof { assert(v@ =~= w_set()); }
    v
}

/// `0`
pub open spec fn w_zero() -> Seq<u8> {
    seq![48u8]
}

pub fn w_zero_v() -> (v: Vec<u8>)
    ensures
        v@ == w_zero(),
{
    let mut v: Vec<u8> = Vec::new();
    v.push(48u8);
    proof { assert(v@ =~= w_zero()); }
    v
}

/// `urn:ietf:params:netconf:base:1.0`
pub open spec fn w_base_capability() -> Seq<u8> {
    seq![117u8, 114u8, 110u8, 58u8, 105u8, 101u8, 116u8, 102u8, 58u8, 112u8, 97u8, 114u8, 97u8, 109u8, 115u8, 58u8, 110u8, 101u8, 116u8, 99u8, 111u8, 110u8, 102u8, 58u8, 98u8, 97u8, 115u8, 101u8, 58u8, 49u8, 46u8, 48u8]
}

pub fn w_base_capability_v() -> (v: Vec<u8>)
    ensures
        v@ == w_base_capability(),
{
    let mut v: Vec<u8> = Vec::new();
    v.push(117u8);
    v.push(114u8);
    v.push(110u8);
    v.push(58u8);
    v.push(105u8);
    v.push(101u8);
    v.push(116u8);
    v.push(102u8);
    v.push(58u8);
    v.push(112u8);
    v.push(97u8);
    v.push(114u8);
    v.push(97u8);
    v.push(109u8);
    v.push(115u8);
    v.push(58u8);
    v.push(110u8);
    v.push(101u8);
    v.push(116u8);
    v.push(99u8);
    v.push(111u8);
    v.push(110u8);
    v.push(102u8);
    v.push(58u8);
    v.push(98u8);
    v.push(97u8);
    v.push(115u8);
    v.push(101u8);
    v.push(58u8);
    v.push(49u8);
    v.push(46u8);
    v.push(48u8);
    proof { assert(v@ =~= w_base_capability()); }
    v
}

/// `Executed Successfully!`
pub open spec fn r_executed_ok() -> Seq<u8> {
    seq![69u8, 120u8, 101u8, 99u8, 117u8, 116u8, 101u8, 100u8, 32u8, 83u8, 117u8, 99u8, 99u8, 101u8, 115u8, 115u8, 102u8, 117u8, 108u8, 108u8, 121u8, 33u8]
}

pub fn r_executed_ok_v() -> (v: Vec<u8>)
    ensures
        v@ == r_executed_ok(),
{
    let mut v: Vec<u8> = Vec::new();
    v.push(69u8);
    v.push(120u8);
    v.push(101u8);
    v.push(99u8);
    v.push(117u8);
    v.push(116u8);
    v.push(101u8);
    v.push(100u8);
    v.push(32u8);
    v.push(83u8);
    v.push(117u8);
    v.push(99u8);
    v.push(99u8);
    v.push(101u8);
    v.push(115u8);
    v.push(115u8);
    v.push(102u8);
    v.push(117u8);
    v.push(108u8);
    v.push(108u8);
    v.push(121u8);
    v.push(33u8);
    proof { assert(v@ =~= r_executed_ok()); }
    v
}

/// `Success!`
pub open spec fn r_success() -> Seq<u8> {
    seq![83u8, 117u8, 99u8, 99u8, 101u8, 115u8, 115u8, 33u8]
}

pub fn r_success_v() -> (v: Vec<u8>)
    ensures
        v@ == r_success(),
{
    let mut v: Vec<u8> = Vec::new();
    v.push(83u8);
    v.push(117u8);
    v.push(99u8);
    v.push(99u8);
    v.push(101u8);
    v.push(115u8);
    v.push(115u8);
    v.push(33u8);
    proof { assert(v@ =~= r_success()); }
    v
}

/// `: `
pub open spec fn r_colon() -> Seq<u8> {
    seq![58u8, 32u8]
}

pub fn r_colon_v() -> (v: Vec<u8>)
    ensures
        v@ == r_colon(),
{
    let mut v: Vec<u8> = Vec::new();
    v.push(58u8);
    v.push(32u8);
    proof { assert(v@ =~= r_colon()); }
    v
}

/// ` (bad element: `
pub open spec fn r_bad_element_open() -> Seq<u8> {
    seq![32u8, 40u8, 98u8, 97u8, 100u8, 32u8, 101u8, 108u8, 101u8, 109u8, 101u8, 110u8, 116u8, 58u8, 32u8]
}

pub fn r_bad_element_open_v() -> (v: Vec<u8>)
    ensures
        v@ == r_bad_element_open(),
{
    let mut v: Vec<u8> = Vec::new();
    v.push(32u8);
    v.push(40u8);
    v.push(98u8);
    v.push(97u8);
    v.push(100u8);
    v.push(32u8);
    v.push(101u8);
    v.push(108u8);
    v.push(101u8);
    v.push(109u8);
    v.push(101u8);
    v.push(110u8);
    v.push(116u8);
    v.push(58u8);
    v.push(32u8);
    proof { assert(v@ =~= r_bad_element_open()); }
    v
}

/// `)`
pub open spec fn r_close_paren() -> Seq<u8> {
    seq![41u8]
}

pub fn r_close_paren_v() -> (v: Vec<u8>)
    ensures
        v@ == r_close_paren(),
{
    let mut v: Vec<u8> = Vec::new();
    v.push(41u8);
    proof { assert(v@ =~= r_close_paren()); }
    v
}

/// ` `
pub open spec fn r_space() -> Seq<u8> {
    seq![32u8]
}

pub fn r_space_v() -> (v: Vec<u8>)
    ensures
        v@ == r_space(),
{
    let mut v: Vec<u8> = Vec::new();
    v.push(32u8);
    proof { assert(v@ =~= r_space()); }
    v
}

} // verus!
