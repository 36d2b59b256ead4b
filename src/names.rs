//! The names of channel types and requests, as the wire spells them.
use vstd::prelude::*;

verus! {

/// `session`
pub open spec fn session() -> Seq<u8> {
    seq![115u8, 101, 115, 115, 105, 111, 110]
}

pub fn session_bytes() -> (r: Vec<u8>)
    ensures
        r@ == session(),
{
    let r: Vec<u8> = vec![115u8, 101, 115, 115, 105, 111, 110];
    r
}

/// `x11`
pub open spec fn x11() -> Seq<u8> {
    seq![120u8, 49, 49]
}

pub fn x11_bytes() -> (r: Vec<u8>)
    ensures
        r@ == x11(),
{
    let r: Vec<u8> = vec![120u8, 49, 49];
    r
}

/// `direct-tcpip`
pub open spec fn direct_tcpip() -> Seq<u8> {
    seq![100u8, 105, 114, 101, 99, 116, 45, 116, 99, 112, 105, 112]
}

pub fn direct_tcpip_bytes() -> (r: Vec<u8>)
    ensures
        r@ == direct_tcpip(),
{
    let r: Vec<u8> = vec![100u8, 105, 114, 101, 99, 116, 45, 116, 99, 112, 105, 112];
    r
}

/// `pty-req`
pub open spec fn pty_req() -> Seq<u8> {
    seq![112u8, 116, 121, 45, 114, 101, 113]
}

pub fn pty_req_bytes() -> (r: Vec<u8>)
    ensures
        r@ == pty_req(),
{
    let r: Vec<u8> = vec![112u8, 116, 121, 45, 114, 101, 113];
    r
}

/// `x11-req`
pub open spec fn x11_req() -> Seq<u8> {
    seq![120u8, 49, 49, 45, 114, 101, 113]
}

pub fn x11_req_bytes() -> (r: Vec<u8>)
    ensures
        r@ == x11_req(),
{
    let r: Vec<u8> = vec![120u8, 49, 49, 45, 114, 101, 113];
    r
}

/// `env`
pub open spec fn env() -> Seq<u8> {
    seq![101u8, 110, 118]
}

pub fn env_bytes() -> (r: Vec<u8>)
    ensures
        r@ == env(),
{
    let r: Vec<u8> = vec![101u8, 110, 118];
    r
}

/// `shell`
pub open spec fn shell() -> Seq<u8> {
    seq![115u8, 104, 101, 108, 108]
}

pub fn shell_bytes() -> (r: Vec<u8>)
    ensures
        r@ == shell(),
{
    let r: Vec<u8> = vec![115u8, 104, 101, 108, 108];
    r
}

/// `exec`
pub open spec fn exec() -> Seq<u8> {
    seq![101u8, 120, 101, 99]
}

pub fn exec_bytes() -> (r: Vec<u8>)
    ensures
        r@ == exec(),
{
    let r: Vec<u8> = vec![101u8, 120, 101, 99];
    r
}

/// `subsystem`
pub open spec fn subsystem() -> Seq<u8> {
    seq![115u8, 117, 98, 115, 121, 115, 116, 101, 109]
}

pub fn subsystem_bytes() -> (r: Vec<u8>)
    ensures
        r@ == subsystem(),
{
    let r: Vec<u8> = vec![115u8, 117, 98, 115, 121, 115, 116, 101, 109];
    r
}

/// `window-change`
pub open spec fn window_change() -> Seq<u8> {
    seq![119u8, 105, 110, 100, 111, 119, 45, 99, 104, 97, 110, 103, 101]
}

pub fn window_change_bytes() -> (r: Vec<u8>)
    ensures
        r@ == window_change(),
{
    let r: Vec<u8> = vec![119u8, 105, 110, 100, 111, 119, 45, 99, 104, 97, 110, 103, 101];
    r
}

/// `signal`
pub open spec fn signal() -> Seq<u8> {
    seq![115u8, 105, 103, 110, 97, 108]
}

pub fn signal_bytes() -> (r: Vec<u8>)
    ensures
        r@ == signal(),
{
    let r: Vec<u8> = vec![115u8, 105, 103, 110, 97, 108];
    r
}

/// `tcpip-forward`
pub open spec fn tcpip_forward() -> Seq<u8> {
    seq![116u8, 99, 112, 105, 112, 45, 102, 111, 114, 119, 97, 114, 100]
}

pub fn tcpip_forward_bytes() -> (r: Vec<u8>)
    ensures
        r@ == tcpip_forward(),
{
    let r: Vec<u8> = vec![116u8, 99, 112, 105, 112, 45, 102, 111, 114, 119, 97, 114, 100];
    r
}

/// `cancel-tcpip-forward`
pub open spec fn cancel_tcpip_forward() -> Seq<u8> {
    seq![99u8, 97, 110, 99, 101, 108, 45, 116, 99, 112, 105, 112, 45, 102, 111, 114, 119, 97, 114, 100]
}

pub fn cancel_tcpip_forward_bytes() -> (r: Vec<u8>)
    ensures
        r@ == cancel_tcpip_forward(),
{
    let r: Vec<u8> = vec![99u8, 97, 110, 99, 101, 108, 45, 116, 99, 112, 105, 112, 45, 102, 111, 114, 119, 97, 114, 100];
    r
}

/// `exit-status`
pub open spec fn exit_status() -> Seq<u8> {
    seq![101u8, 120, 105, 116, 45, 115, 116, 97, 116, 117, 115]
}

pub fn exit_status_bytes() -> (r: Vec<u8>)
    ensures
        r@ == exit_status(),
{
    let r: Vec<u8> = vec![101u8, 120, 105, 116, 45, 115, 116, 97, 116, 117, 115];
    r
}

/// `exit-signal`
pub open spec fn exit_signal() -> Seq<u8> {
    seq![101u8, 120, 105, 116, 45, 115, 105, 103, 110, 97, 108]
}

pub fn exit_signal_bytes() -> (r: Vec<u8>)
    ensures
        r@ == exit_signal(),
{
    let r: Vec<u8> = vec![101u8, 120, 105, 116, 45, 115, 105, 103, 110, 97, 108];
    r
}

/// `xon-xoff`
pub open spec fn xon_xoff() -> Seq<u8> {
    seq![120u8, 111, 110, 45, 120, 111, 102, 102]
}

pub fn xon_xoff_bytes() -> (r: Vec<u8>)
    ensures
        r@ == xon_xoff(),
{
    let r: Vec<u8> = vec![120u8, 111, 110, 45, 120, 111, 102, 102];
    r
}

/// `forwarded-tcpip`
pub open spec fn forwarded_tcpip() -> Seq<u8> {
    seq![102u8, 111, 114, 119, 97, 114, 100, 101, 100, 45, 116, 99, 112, 105, 112]
}

pub fn forwarded_tcpip_bytes() -> (r: Vec<u8>)
    ensures
        r@ == forwarded_tcpip(),
{
    let r: Vec<u8> = vec![102u8, 111, 114, 119, 97, 114, 100, 101, 100, 45, 116, 99, 112, 105, 112];
    r
}

/// `Unknown channel type`
pub open spec fn unknown_channel_type() -> Seq<u8> {
    seq![85u8, 110, 107, 110, 111, 119, 110, 32, 99, 104, 97, 110, 110, 101, 108, 32, 116, 121, 112, 101]
}

pub fn unknown_channel_type_bytes() -> (r: Vec<u8>)
    ensures
        r@ == unknown_channel_type(),
{
    let r: Vec<u8> = vec![85u8, 110, 107, 110, 111, 119, 110, 32, 99, 104, 97, 110, 110, 101, 108, 32, 116, 121, 112, 101];
    r
}

/// `en`
pub open spec fn en() -> Seq<u8> {
    seq![101u8, 110]
}

pub fn en_bytes() -> (r: Vec<u8>)
    ensures
        r@ == en(),
{
    let r: Vec<u8> = vec![101u8, 110];
    r
}

} // verus!
