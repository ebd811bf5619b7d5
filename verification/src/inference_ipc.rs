//! Messages between a relay and the vault that answers for it.

use crate::json;
use crate::text;
use vstd::prelude::*;

verus! {

/// The port of the vault, unless a setting says otherwise.
pub const DEFAULT_IPC_PORT: u16 = 12745;

/// The most bytes that a message has.
pub const MAX_FRAME: usize = 16777216;

/// The port that a setting names.
pub open spec fn port_of(setting: Option<Seq<char>>) -> u16 {
    match setting {
        Some(s) => match text::parsed(s, u16::MAX as nat) {
            Some(n) => n as u16,
            None => DEFAULT_IPC_PORT,
        },
        None => DEFAULT_IPC_PORT,
    }
}

/// The port of the vault.
pub fn inference_ipc_port(setting: Option<&str>) -> (r: u16)
    ensures
        r == port_of(json::opt_str(setting)),
{
    match setting {
        Some(s) => match text::parse_up_to(s, 65535) {
            Some(n) => n as u16,
            None => DEFAULT_IPC_PORT,
        },
        None => DEFAULT_IPC_PORT,
    }
}

/// The address of the vault on the host `host`.
pub fn inference_ipc_tcp_addr(host: &str, port_setting: Option<&str>) -> (r: String)
    ensures
        r@ == host@ + ":"@ + text::dec(port_of(json::opt_str(port_setting)) as nat),
{
    let port: u16 = inference_ipc_port(port_setting);
    text::concat3(host, ":", &text::dec_u64(port as u64))
}

/// The address at which the vault waits, on the host `bind_host`.
pub fn inference_ipc_listen_tcp_addr(bind_host: &str, port_setting: Option<&str>) -> (r: String)
    ensures
        r@ == bind_host@ + ":"@ + text::dec(port_of(json::opt_str(port_setting)) as nat),
{
    inference_ipc_tcp_addr(bind_host, port_setting)
}

/// The four bytes that give the length `n`, the lowest first.
pub open spec fn length_bytes(n: nat) -> Seq<u8> {
    seq![
        (n % 256) as u8,
        (n / 256 % 256) as u8,
        (n / 65536 % 256) as u8,
        (n / 16777216 % 256) as u8,
    ]
}

/// The length that four bytes give.
pub open spec fn length_in(b: Seq<u8>) -> nat {
    (b[0] + b[1] * 256 + b[2] * 65536 + b[3] * 16777216) as nat
}

/// A message as it is sent: its length, and its bytes.
pub fn frame(payload: &Vec<u8>) -> (r: Vec<u8>)
    ensures
        r@ == length_bytes(payload@.len()) + payload@,
{
    let n: usize = payload.len();
    let mut out: Vec<u8> = Vec::new();
    out.push((n % 256) as u8);
    out.push((n / 256 % 256) as u8);
    out.push((n / 65536 % 256) as u8);
    out.push((n / 16777216 % 256) as u8);
    assert(out@ =~= length_bytes(payload@.len()));
    for i in 0..payload.len()
        invariant
            out@ == length_bytes(payload@.len()) + payload@.take(i as int),
    {
        out.push(payload[i]);
        assert(out@ =~= length_bytes(payload@.len()) + payload@.take(i as int + 1));
    }
    assert(payload@.take(payload@.len() as int) =~= payload@);
    out
}

/// How many bytes of a message follow the four that give its length. A message
/// that is too long is refused.
pub fn frame_len(head: &[u8; 4]) -> (r: Result<usize, String>)
    ensures
        match r {
            Ok(n) => n == length_in(head@) && n <= MAX_FRAME,
            Err(m) => length_in(head@) > MAX_FRAME && m@ == "IPC frame too large"@,
        },
{
    let n: u64 = head[0] as u64 + head[1] as u64 * 256 + head[2] as u64 * 65536 + head[3] as u64
        * 16777216;
    if n > MAX_FRAME as u64 {
        Err(text::copy("IPC frame too large"))
    } else {
        Ok(n as usize)
    }
}

/// The length that is sent with a message is the length of the message, so long as
/// four bytes can give it.
pub proof fn law_length_is_kept(n: nat)
    requires
        n < 0x1_0000_0000,
    ensures
        length_in(length_bytes(n)) == n,
{
}

/// Whether a relay that cannot reach the vault by its path turns to its host: only
/// where the host is another one.
pub fn falls_back_to_tcp(host: &str) -> (r: bool)
    ensures
        r == (host@ != "127.0.0.1"@),
{
    !text::str_eq(host, "127.0.0.1")
}

/// A setting that is a port names it; without one the vault is at its own port.
pub proof fn law_port_is_read(port: u16)
    ensures
        port_of(Some(text::dec(port as nat))) == port,
        port_of(None) == DEFAULT_IPC_PORT,
{
    text::law_number_is_read_back(port as nat, u16::MAX as nat);
}

} // verus!
