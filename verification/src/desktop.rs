//! The settings of the desktop program, and how it starts a peer.

use crate::client_config::settings;
use crate::json;
use crate::text;
use vstd::prelude::*;

verus! {

/// The lobby, unless a setting says otherwise.
pub const DEFAULT_LOBBY_HOST: &'static str = "api.mtrxai.net";

/// The port of the peer, unless a setting says otherwise.
pub const DEFAULT_PROXY_PORT: u16 = 11345;

/// The settings of the desktop program.
#[derive(Debug, PartialEq)]
pub struct DesktopSettings {
    pub lobby_host: String,
    pub proxy_port: u16,
}

impl Default for DesktopSettings {
    fn default() -> (r: Self)
        ensures
            r.lobby_host@ == DEFAULT_LOBBY_HOST@,
            r.proxy_port == DEFAULT_PROXY_PORT,
    {
        DesktopSettings {
            lobby_host: text::copy(DEFAULT_LOBBY_HOST),
            proxy_port: DEFAULT_PROXY_PORT,
        }
    }
}

/// `host` without `scheme` in front of it, whatever the case of its letters.
pub open spec fn without_scheme(host: Seq<char>, scheme: Seq<char>) -> Seq<char> {
    if text::starts(text::ascii_lower(host), scheme) {
        host.skip(scheme.len() as int)
    } else {
        host
    }
}

/// The host of a lobby as the user wrote it, without scheme and slashes; none
/// where nothing is left.
pub open spec fn bare_host(raw: Seq<char>) -> Option<Seq<char>> {
    let t = text::trimmed(raw);
    let bare = text::strip_trailing(
        without_scheme(without_scheme(t, "http://"@), "https://"@),
        '/',
    );
    if t.len() == 0 || bare.len() == 0 {
        None
    } else {
        Some(bare)
    }
}

/// Whether a host is one of the public lobby.
pub open spec fn is_public_host(host: Seq<char>) -> bool {
    text::ascii_lower(host) == text::ascii_lower("mtrxai.net"@) || text::ends(
        text::ascii_lower(host),
        ".mtrxai.net"@,
    )
}

/// The lobby as the user wrote it, as a host and a port; none where nothing is
/// left of it.
pub open spec fn normal_lobby(raw: Seq<char>) -> Option<Seq<char>> {
    match bare_host(raw) {
        Some(h) => if h.contains(':') {
            Some(h)
        } else if is_public_host(h) {
            Some(h + ":443"@)
        } else {
            Some(h + ":8080"@)
        },
        None => None,
    }
}

fn strip_scheme(host: String, scheme: &str) -> (r: String)
    ensures
        r@ == without_scheme(host@, scheme@),
{
    if text::starts_with(&text::to_ascii_lower(&host), scheme) {
        let n: usize = text::chars_of(scheme).len();
        text::skip(&host, n)
    } else {
        host
    }
}

/// The lobby as the user wrote it, as a host and a port.
pub fn normalize_lobby_host(raw: &str) -> (r: Result<String, String>)
    ensures
        match r {
            Ok(h) => normal_lobby(raw@) == Some(h@),
            Err(m) => normal_lobby(raw@) is None && m@ == "Lobby server address is required."@,
        },
{
    let host = text::trim(raw);
    if host.as_str().is_empty() {
        return Err(text::copy("Lobby server address is required."));
    }
    let host = strip_scheme(strip_scheme(host, "http://"), "https://");
    let host = text::trim_end_char(&host, '/');
    if host.as_str().is_empty() {
        return Err(text::copy("Lobby server address is required."));
    }
    proof {
        text::lemma_char_index(host@, ':');
    }
    if text::find_char(&host, ':').is_some() {
        return Ok(host);
    }
    if text::eq_ignore_ascii_case(&host, "mtrxai.net") || text::ends_with(
        &text::to_ascii_lower(&host),
        ".mtrxai.net",
    ) {
        Ok(text::concat2(&host, ":443"))
    } else {
        Ok(text::concat2(&host, ":8080"))
    }
}

/// The lobby of the desktop program: the one that was saved, or else the one that
/// a setting names, or else the default one.
pub fn resolve_lobby_host(saved: Option<&DesktopSettings>, setting: Option<&str>) -> (r: Result<
    String,
    String,
>)
    ensures
        ({
            let kept = match saved {
                Some(s) => settings::unless_blank(Some(s.lobby_host@)),
                None => None,
            };
            let chosen = match (kept, settings::filled(json::opt_str(setting))) {
                (Some(h), _) => h,
                (None, Some(h)) => h,
                (None, None) => DEFAULT_LOBBY_HOST@,
            };
            match r {
                Ok(h) => normal_lobby(chosen) == Some(h@),
                Err(m) => normal_lobby(chosen) is None && m@
                    == "Lobby server address is required."@,
            }
        }),
{
    if let Some(s) = saved {
        if settings::is_filled(Some(s.lobby_host.as_str())) {
            return normalize_lobby_host(&s.lobby_host);
        }
    }
    if let Some(h) = settings::env_non_empty(setting) {
        return normalize_lobby_host(&h);
    }
    normalize_lobby_host(DEFAULT_LOBBY_HOST)
}

/// The port of the peer: the one that was saved, or else the one that a setting
/// names, or else the default one. No port is 0.
pub fn resolve_proxy_port(saved: &DesktopSettings, setting: Option<&str>) -> (r: u16)
    ensures
        r == ({
            let named = match setting {
                Some(s) => match text::parsed(s@, u16::MAX as nat) {
                    Some(n) => n,
                    None => 0,
                },
                None => 0,
            };
            if saved.proxy_port != 0 {
                saved.proxy_port as nat
            } else if named != 0 {
                named
            } else {
                DEFAULT_PROXY_PORT as nat
            }
        }),
        r != 0,
{
    if saved.proxy_port != 0 {
        return saved.proxy_port;
    }
    if let Some(s) = setting {
        if let Some(n) = text::parse_up_to(s, 65535) {
            if n != 0 {
                return n as u16;
            }
        }
    }
    DEFAULT_PROXY_PORT
}

/// What the page for the settings shows first.
pub fn setup_defaults(saved: &DesktopSettings) -> (r: DesktopSettings)
    ensures
        r.lobby_host@ == if text::trimmed(saved.lobby_host@).len() == 0 {
            DEFAULT_LOBBY_HOST@
        } else {
            match normal_lobby(saved.lobby_host@) {
                Some(h) => h,
                None => saved.lobby_host@,
            }
        },
        r.proxy_port == if saved.proxy_port == 0 {
            DEFAULT_PROXY_PORT
        } else {
            saved.proxy_port
        },
{
    let lobby_host = if !settings::is_filled(Some(saved.lobby_host.as_str())) {
        text::copy(DEFAULT_LOBBY_HOST)
    } else {
        match normalize_lobby_host(&saved.lobby_host) {
            Ok(h) => h,
            Err(_) => text::copy(&saved.lobby_host),
        }
    };
    let proxy_port: u16 = if saved.proxy_port == 0 {
        DEFAULT_PROXY_PORT
    } else {
        saved.proxy_port
    };
    DesktopSettings { lobby_host, proxy_port }
}

/// Puts the lobby `lobby_host`, in its normal form, and the port into the settings
/// that are saved. Where nothing is left of the lobby, the settings stay as they are.
pub fn persist_lobby(settings: &mut DesktopSettings, lobby_host: &str, proxy_port: u16) -> (r:
    Result<(), String>)
    ensures
        match normal_lobby(lobby_host@) {
            Some(h) => r is Ok && final(settings).lobby_host@ == h && final(settings).proxy_port
                == proxy_port,
            None => *final(settings) == *old(settings) && (r matches Err(m) && m@
                == "Lobby server address is required."@),
        },
{
    match normalize_lobby_host(lobby_host) {
        Ok(h) => {
            settings.lobby_host = h;
            settings.proxy_port = proxy_port;
            Ok(())
        },
        Err(m) => Err(m),
    }
}

/// Takes what the user chose into the settings that are saved, where it can be used,
/// and gives the lobby that a peer starts with: the one that the user chose, in its
/// normal form. What is saved is brought into that form once more.
pub fn submit_lobby_setup(settings: &mut DesktopSettings, lobby_host: &str, proxy_port: u16) -> (r:
    Result<String, String>)
    ensures
        match normal_lobby(text::trimmed(lobby_host@)) {
            None => *final(settings) == *old(settings) && (r matches Err(m) && m@
                == "Lobby server address is required."@),
            Some(h) => if proxy_port == 0 {
                *final(settings) == *old(settings) && (r matches Err(m) && m@
                    == "Client port must be between 1 and 65535."@)
            } else {
                match normal_lobby(h) {
                    Some(saved) => (r matches Ok(start) && start@ == h)
                        && final(settings).lobby_host@ == saved && final(settings).proxy_port
                        == proxy_port,
                    None => *final(settings) == *old(settings) && (r matches Err(m) && m@
                        == "Lobby server address is required."@),
                }
            },
        },
{
    let chosen = match normalize_lobby_host(&text::trim(lobby_host)) {
        Ok(h) => h,
        Err(m) => {
            return Err(m);
        },
    };
    if proxy_port == 0 {
        return Err(text::copy("Client port must be between 1 and 65535."));
    }
    match persist_lobby(settings, &chosen, proxy_port) {
        Ok(_) => Ok(chosen),
        Err(m) => Err(m),
    }
}

/// Whether a lobby is the one that is in use.
pub open spec fn is_production(lobby: Seq<char>) -> bool {
    text::ascii_lower(text::split_on(lobby, ':')[0]) == text::ascii_lower("api.mtrxai.net"@)
        || text::ends(lobby, ":443"@)
}

/// Whether a lobby is the one that is in use.
pub fn is_production_lobby(lobby_host: &str) -> (r: bool)
    ensures
        r == is_production(lobby_host@),
{
    let parts = text::split(lobby_host, ':');
    assert(text::views(parts@)[0] == parts@[0]@);
    text::eq_ignore_ascii_case(&parts[0], "api.mtrxai.net") || text::ends_with(lobby_host, ":443")
}

/// Whether a peer proves its build, by the lobby: `0` where it does, `1` where it
/// does not, and nothing where a setting already says.
pub fn default_attestation_skip(lobby_host: &str, already_set: bool) -> (r: &'static str)
    ensures
        r@ == if already_set {
            ""@
        } else if is_production(lobby_host@) {
            "0"@
        } else {
            "1"@
        },
{
    if already_set {
        ""
    } else if is_production_lobby(lobby_host) {
        "0"
    } else {
        "1"
    }
}

/// The settings that a peer of the desktop program starts with.
#[derive(Debug)]
pub struct ClientEnv {
    pub lobby_host: String,
    pub proxy_port: String,
    pub attestation_skip: Option<String>,
    pub lobby_tls: bool,
}

/// The settings that a peer of the desktop program starts with.
pub fn client_env(lobby_host: &str, proxy_port: u16, skip_already_set: bool) -> (r: Result<
    ClientEnv,
    String,
>)
    ensures
        match normal_lobby(lobby_host@) {
            Some(h) => r matches Ok(e) && e.lobby_host@ == h && e.proxy_port@ == text::dec(
                proxy_port as nat,
            ) && text::opt_view(e.attestation_skip) == (if skip_already_set {
                None
            } else if is_production(h) {
                Some("0"@)
            } else {
                Some("1"@)
            }) && e.lobby_tls == text::ends(h, ":443"@),
            None => r matches Err(m) && m@ == "Lobby server address is required."@,
        },
{
    let lobby_host = match normalize_lobby_host(lobby_host) {
        Ok(h) => h,
        Err(m) => {
            return Err(m);
        },
    };
    let lobby_tls = text::ends_with(&lobby_host, ":443");
    let attestation_skip = if skip_already_set {
        None
    } else {
        Some(text::copy(default_attestation_skip(&lobby_host, false)))
    };
    Ok(
        ClientEnv {
            lobby_host,
            proxy_port: text::dec_u64(proxy_port as u64),
            attestation_skip,
            lobby_tls,
        },
    )
}

/// The address at which a lobby is asked whether it is there.
pub fn lobby_probe_url(lobby_host: &str) -> (r: Result<String, String>)
    ensures
        match normal_lobby(lobby_host@) {
            Some(h) => r matches Ok(u) && u@ == (if text::ends(h, ":443"@) {
                "https"@
            } else {
                "http"@
            }) + "://"@ + h + "/api/public/clusters"@,
            None => r matches Err(m) && m@ == "Lobby server address is required."@,
        },
{
    let h = match normalize_lobby_host(lobby_host) {
        Ok(h) => h,
        Err(m) => {
            return Err(m);
        },
    };
    let scheme = if text::ends_with(&h, ":443") {
        "https"
    } else {
        "http"
    };
    let front = text::concat3(scheme, "://", &h);
    Ok(text::concat2(&front, "/api/public/clusters"))
}

/// How long to wait before a peer is asked again whether it is well, after a wait
/// of `ms` milliseconds: twice as long, up to two seconds.
pub fn next_delay(ms: u64) -> (r: u64)
    ensures
        r == if ms >= 1000 {
            2000int
        } else {
            ms * 2
        },
{
    if ms >= 1000 {
        2000
    } else {
        ms * 2
    }
}

/// How long a peer is given to become well, in milliseconds.
pub const HEALTH_WAIT_MS: u64 = 30_000;

/// How long the first wait is, in milliseconds.
pub const FIRST_DELAY_MS: u64 = 200;

/// What is done while a peer is not known to be well.
#[derive(Debug, Clone, Copy, PartialEq, Eq, Structural)]
pub enum WaitStep {
    /// Nobody waits any longer.
    GiveUp,
    /// The peer is well.
    Done,
    /// To wait `delay_ms` milliseconds, and `next_ms` the time after.
    Wait { delay_ms: u64, next_ms: u64 },
}

/// What is done `elapsed_ms` milliseconds after a peer was started, where a look at it
/// then says that it is well or not, and the wait would be `delay_ms` milliseconds.
pub fn wait_step(elapsed_ms: u64, well: bool, delay_ms: u64) -> (r: WaitStep)
    ensures
        r == if elapsed_ms >= HEALTH_WAIT_MS {
            WaitStep::GiveUp
        } else if well {
            WaitStep::Done
        } else {
            WaitStep::Wait {
                delay_ms,
                next_ms: if delay_ms >= 1000 {
                    2000
                } else {
                    (delay_ms * 2) as u64
                },
            }
        },
{
    if elapsed_ms >= HEALTH_WAIT_MS {
        WaitStep::GiveUp
    } else if well {
        WaitStep::Done
    } else {
        WaitStep::Wait { delay_ms, next_ms: next_delay(delay_ms) }
    }
}

/// The address at which a peer is asked whether it is well.
pub open spec fn health_address(port: u16) -> Seq<char> {
    "http://127.0.0.1:"@ + text::dec(port as nat) + "/health"@
}

/// The address at which a peer is asked whether it is well.
pub fn health_url(port: u16) -> (r: String)
    ensures
        r@ == health_address(port),
{
    text::concat3("http://127.0.0.1:", &text::dec_u64(port as u64), "/health")
}

/// What is said where a peer did not become well in time.
pub fn wait_timed_out(port: u16) -> (r: String)
    ensures
        r@ == "timed out waiting for client at "@ + health_address(port),
{
    text::concat2("timed out waiting for client at ", &health_url(port))
}

/// Whether the desktop program is starting a peer.
#[derive(Debug, PartialEq)]
pub struct BootstrapState {
    pub starting: bool,
}

impl BootstrapState {
    /// No peer is being started.
    pub fn new() -> (r: Self)
        ensures
            !r.starting,
    {
        BootstrapState { starting: false }
    }

    /// Begins to start a peer, where none is being started.
    pub fn begin(&mut self) -> (r: Result<(), String>)
        ensures
            final(self).starting,
            match r {
                Ok(_) => !old(self).starting,
                Err(m) => old(self).starting && m@ == "client startup already in progress"@,
            },
    {
        if self.starting {
            return Err(text::copy("client startup already in progress"));
        }
        self.starting = true;
        Ok(())
    }

    /// The start is over.
    pub fn end(&mut self)
        ensures
            !final(self).starting,
    {
        self.starting = false;
    }
}

/// A lobby in its normal form names a port.
pub proof fn law_normal_lobby_has_port(raw: Seq<char>)
    requires
        normal_lobby(raw) is Some,
    ensures
        normal_lobby(raw)->0.contains(':'),
{
    reveal_strlit(":443");
    reveal_strlit(":8080");
    let h = bare_host(raw)->0;
    if !h.contains(':') {
        if is_public_host(h) {
            assert((h + ":443"@)[h.len() as int] == ':');
        } else {
            assert((h + ":8080"@)[h.len() as int] == ':');
        }
    }
}

/// The address of a lobby is its host, without a scheme before it, slashes behind it or
/// white space around it.
pub proof fn law_host_is_bare(a: Seq<char>, h: Seq<char>, b: Seq<char>)
    requires
        text::is_blank(a),
        text::is_blank(b),
        text::is_tight(h),
        h.last() != '/',
        !text::starts(text::ascii_lower(h), "http://"@),
        !text::starts(text::ascii_lower(h), "https://"@),
    ensures
        bare_host(a + h + b) == Some(h),
        bare_host(a + ("https://"@ + h + seq!['/']) + b) == Some(h),
        h.contains(':') ==> normal_lobby(a + h + b) == Some(h),
        !h.contains(':') && !is_public_host(h) ==> normal_lobby(a + h + b) == Some(h + ":8080"@),
        !h.contains(':') && is_public_host(h) ==> normal_lobby(a + h + b) == Some(h + ":443"@),
{
    let none = Seq::<char>::empty();
    text::law_trimming_takes_off_space(a, h, b);
    text::law_trailing_is_taken_off(h, '/', none);
    assert(h + none =~= h);
    let s = "https://"@ + h + seq!['/'];
    reveal_strlit("https://");
    reveal_strlit("http://");
    assert(s[0] == 'h');
    assert(s.last() == '/');
    text::law_trimming_takes_off_space(a, s, b);
    let low = text::ascii_lower(s);
    assert(low[4] == 's');
    assert(!text::starts(low, "http://"@)) by {
        if text::starts(low, "http://"@) {
            assert(low.subrange(0, 7)[4] == ':');
        }
    }
    assert(low.subrange(0, 8) =~= "https://"@);
    assert(s.skip(8) =~= h + seq!['/']);
    text::law_trailing_is_taken_off(h, '/', seq!['/']);
}

/// A lobby at the secure port is one that is in use.
pub proof fn law_secure_lobby_is_in_use(host: Seq<char>)
    ensures
        is_production(host + seq![':', '4', '4', '3']),
{
    reveal_strlit(":443");
    let s = host + seq![':', '4', '4', '3'];
    assert(":443"@ =~= seq![':', '4', '4', '3']);
    assert(s.subrange(s.len() - 4, s.len() as int) =~= ":443"@);
}

/// A peer is asked for its health at its own port, on this host.
pub proof fn law_health_is_asked_at_the_port(port: u16)
    ensures
        text::has(health_address(port), text::dec(port as nat)),
        text::ends(health_address(port), "/health"@),
        text::starts(health_address(port), "http://127.0.0.1:"@),
{
    let d = text::dec(port as nat);
    let a = "http://127.0.0.1:"@;
    let b = "/health"@;
    text::law_prefix_is_taken_off(d, a, b);
    text::law_prefix_is_taken_off(b, a + d, b);
    text::law_prefix_is_taken_off(a, d + b, b);
    assert(a + d + b =~= a + (d + b));
}

} // verus!
