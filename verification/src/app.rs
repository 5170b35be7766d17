//! What a `serve` run is made of: which display, capture backend, encoder and
//! helpers it uses, the name it registers under, and how it reconnects. The
//! caller opens devices and connections; this module decides which, when and
//! after what delay.

use vstd::prelude::*;

use crate::capture::{default_display, CaptureError, DisplayInfo};
use crate::encode::EncoderKind;
use crate::proto::{AgentStatus, HostOs, IceServer};

verus! {

/// Which screen capture to use on Windows.
#[derive(Debug, Clone, Copy, PartialEq, Eq, Structural)]
pub enum CaptureBackend {
    /// Windows Graphics Capture where the video driver is up to it, GDI
    /// otherwise.
    Auto,
    Wgc,
    Gdi,
}

/// Which H.264 encoder to use.
#[derive(Debug, Clone, Copy, PartialEq, Eq, Structural)]
pub enum EncoderBackend {
    /// The platform's own, the software encoder if that fails.
    Auto,
    Openh264,
    Videotoolbox,
    Mediafoundation,
}

impl EncoderBackend {
    /// The encoder that is asked for; `None` leaves the choice to the platform.
    pub open spec fn kind_spec(self) -> Option<EncoderKind> {
        match self {
            EncoderBackend::Auto => None,
            EncoderBackend::Openh264 => Some(EncoderKind::OpenH264),
            EncoderBackend::Videotoolbox => Some(EncoderKind::VideoToolbox),
            EncoderBackend::Mediafoundation => Some(EncoderKind::MediaFoundation),
        }
    }

    pub fn kind(self) -> (r: Option<EncoderKind>)
        ensures
            r == self.kind_spec(),
    {
        match self {
            EncoderBackend::Auto => None,
            EncoderBackend::Openh264 => Some(EncoderKind::OpenH264),
            EncoderBackend::Videotoolbox => Some(EncoderKind::VideoToolbox),
            EncoderBackend::Mediafoundation => Some(EncoderKind::MediaFoundation),
        }
    }
}

/// Why there is nothing to capture.
#[derive(Debug, Clone)]
pub enum SourceError {
    Capture(CaptureError),
    /// Displays were listed, and there are none.
    NoDisplay,
    /// GDI was asked for on macOS.
    GdiOnMacos,
}

impl SourceError {
    pub open spec fn spec_message(self) -> Seq<char> {
        match self {
            SourceError::Capture(err) => err.spec_message(),
            SourceError::NoDisplay => "no capturable display found"@,
            SourceError::GdiOnMacos =>
                "--capture gdi is a Windows-only fallback, not supported on macOS"@,
        }
    }

    /// The text shown to the user.
    pub fn message(&self) -> (r: String)
        ensures
            r@ == self.spec_message(),
    {
        match self {
            SourceError::Capture(err) => err.message(),
            SourceError::NoDisplay => String::from_str("no capturable display found"),
            SourceError::GdiOnMacos => String::from_str(
                "--capture gdi is a Windows-only fallback, not supported on macOS",
            ),
        }
    }
}

/// `r` is what `display` stands for: itself where one was asked for, even if it
/// does not exist; the default display among `displays` otherwise.
pub open spec fn resolves(
    display: Option<u32>,
    displays: Result<Vec<DisplayInfo>, CaptureError>,
    r: Result<u32, SourceError>,
) -> bool {
    match display {
        Some(id) => r == Ok::<u32, SourceError>(id),
        None => match displays {
            Err(err) => r == Err::<u32, SourceError>(SourceError::Capture(err)),
            Ok(list) => match r {
                Ok(id) => exists|i: int| #[trigger]
                    crate::capture::is_default(list@, i) && list@[i].id == id,
                Err(err) => list@.len() == 0 && err == SourceError::NoDisplay,
            },
        },
    }
}

/// The display to capture. `displays` is what listing them came to.
pub fn resolve_display(
    display: Option<u32>,
    displays: Result<Vec<DisplayInfo>, CaptureError>,
) -> (r: Result<u32, SourceError>)
    ensures
        resolves(display, displays, r),
{
    if let Some(id) = display {
        return Ok(id);
    }
    match displays {
        Err(err) => Err(SourceError::Capture(err)),
        Ok(list) => match default_display(list.as_slice()) {
            Some(chosen) => Ok(chosen.id),
            None => Err(SourceError::NoDisplay),
        },
    }
}

/// The screen capture to start.
#[derive(Debug, Clone, Copy, PartialEq, Eq, Structural)]
pub enum ScreenSource {
    /// ScreenCaptureKit on macOS, Windows Graphics Capture on Windows.
    Native { display: u32, fps: u32 },
    Gdi { display: u32, fps: u32 },
}

/// Whether Windows Graphics Capture is used. It fails badly on a driver that is
/// not up to it, so `Auto` goes by whether the driver is.
pub open spec fn uses_wgc(backend: CaptureBackend, wgc_supported: bool) -> bool {
    match backend {
        CaptureBackend::Wgc => true,
        CaptureBackend::Gdi => false,
        CaptureBackend::Auto => wgc_supported,
    }
}

/// `r` is the capture of a display on `os` with `backend`.
pub open spec fn is_screen_source(
    os: HostOs,
    fps: u32,
    backend: CaptureBackend,
    wgc_supported: bool,
    resolved: Result<u32, SourceError>,
    r: Result<ScreenSource, SourceError>,
) -> bool {
    if os == HostOs::Other {
        r == Err::<ScreenSource, SourceError>(SourceError::Capture(CaptureError::Unsupported))
    } else if os == HostOs::Macos && backend == CaptureBackend::Gdi {
        r == Err::<ScreenSource, SourceError>(SourceError::GdiOnMacos)
    } else {
        match resolved {
            Err(err) => r == Err::<ScreenSource, SourceError>(err),
            Ok(display) => r == Ok::<ScreenSource, SourceError>(
                if os == HostOs::Macos || uses_wgc(backend, wgc_supported) {
                    ScreenSource::Native { display, fps }
                } else {
                    ScreenSource::Gdi { display, fps }
                },
            ),
        }
    }
}

/// Decides how to capture the screen. `displays` is what listing them came to,
/// `wgc_supported` whether the video driver is up to Windows Graphics Capture.
pub fn build_screen_source(
    os: HostOs,
    display: Option<u32>,
    fps: u32,
    backend: CaptureBackend,
    displays: Result<Vec<DisplayInfo>, CaptureError>,
    wgc_supported: bool,
) -> (r: Result<ScreenSource, SourceError>)
    ensures
        exists|resolved: Result<u32, SourceError>|
            resolves(display, displays, resolved) && is_screen_source(
                os,
                fps,
                backend,
                wgc_supported,
                resolved,
                r,
            ),
{
    let ghost asked = displays;
    let resolved: Result<u32, SourceError> = resolve_display(display, displays);
    let ghost outcome = resolved;
    let r: Result<ScreenSource, SourceError> = match os {
        HostOs::Other => Err(SourceError::Capture(CaptureError::Unsupported)),
        HostOs::Macos => if backend == CaptureBackend::Gdi {
            Err(SourceError::GdiOnMacos)
        } else {
            match resolved {
                Ok(display) => Ok(ScreenSource::Native { display, fps }),
                Err(err) => Err(err),
            }
        },
        HostOs::Windows => match resolved {
            Ok(display) => {
                let use_wgc: bool = match backend {
                    CaptureBackend::Wgc => true,
                    CaptureBackend::Gdi => false,
                    CaptureBackend::Auto => wgc_supported,
                };
                if use_wgc {
                    Ok(ScreenSource::Native { display, fps })
                } else {
                    Ok(ScreenSource::Gdi { display, fps })
                }
            },
            Err(err) => Err(err),
        },
    };
    assert(resolves(display, asked, outcome) && is_screen_source(
        os,
        fps,
        backend,
        wgc_supported,
        outcome,
        r,
    ));
    r
}

/// What injects input.
#[derive(Debug, Clone, Copy, PartialEq, Eq, Structural)]
pub enum InjectorChoice {
    /// Input is dropped, and the client is told why.
    Disabled,
    /// The platform's mouse and keyboard.
    Real,
    /// The platform has neither: the host can only be watched.
    Noop,
}

/// The reason that the client is told.
pub const INPUT_DISABLED: &'static str = "disabled by --no-input";

/// What injects input on `os`.
pub fn build_real_injector(os: HostOs) -> (r: InjectorChoice)
    ensures
        r == (if os == HostOs::Other {
            InjectorChoice::Noop
        } else {
            InjectorChoice::Real
        }),
{
    if os == HostOs::Other {
        InjectorChoice::Noop
    } else {
        InjectorChoice::Real
    }
}

/// Whether the shape of the cursor can be read on `os`; it stays unknown
/// elsewhere.
pub fn build_real_cursor_source(os: HostOs) -> (r: bool)
    ensures
        r == (os != HostOs::Other),
{
    os != HostOs::Other
}

/// Whether there is a clipboard to synchronize on `os`.
pub fn build_real_clipboard_backend(os: HostOs) -> (r: bool)
    ensures
        r == (os != HostOs::Other),
{
    os != HostOs::Other
}

/// The options of `serve`.
#[derive(Debug, Clone)]
pub struct ServeOptions {
    pub server: String,
    pub name: Option<String>,
    pub synthetic: bool,
    pub display: Option<u32>,
    pub fps: u32,
    pub bitrate: u32,
    pub max_qp: Option<u8>,
    pub stun: Vec<String>,
    pub no_input: bool,
    pub no_clipboard: bool,
    pub no_adapt: bool,
    pub capture: CaptureBackend,
    pub encoder: EncoderBackend,
}

impl ServeOptions {
    /// The options that the tray agent runs with.
    pub fn agent(server: String, name: Option<String>) -> (r: Self)
        ensures
            r.server == server,
            r.name == name,
            !r.synthetic && !r.no_input && !r.no_clipboard && !r.no_adapt,
            r.display is None,
            r.fps == 30,
            r.bitrate == 6000,
            r.max_qp is None,
            r.stun@.len() == 0,
            r.capture == CaptureBackend::Auto,
            r.encoder == EncoderBackend::Auto,
    {
        ServeOptions {
            server,
            name,
            synthetic: false,
            display: None,
            fps: 30,
            bitrate: 6000,
            max_qp: None,
            stun: Vec::new(),
            no_input: false,
            no_clipboard: false,
            no_adapt: false,
            capture: CaptureBackend::Auto,
            encoder: EncoderBackend::Auto,
        }
    }
}

/// What a WebRTC session is opened with.
#[derive(Debug, Clone)]
pub struct SessionConfig {
    pub ice_servers: Vec<IceServer>,
    pub udp_addrs: Vec<String>,
    pub fps: u32,
}

/// Everything that stays the same for all sessions of a run.
#[derive(Debug, Clone)]
pub struct HostContext {
    pub session: SessionConfig,
    pub bitrate_kbps: u32,
    /// Whether bitrate and frame rate follow the network.
    pub adapt: bool,
    pub max_qp: Option<u8>,
    pub encoder: Option<EncoderKind>,
    /// Capture test pictures instead of the screen.
    pub synthetic: bool,
    pub capture: CaptureBackend,
    pub display: Option<u32>,
    pub injector: InjectorChoice,
    pub cursor: bool,
    pub clipboard: bool,
}

/// A server without credentials, reached by one URL.
pub open spec fn is_plain_server(server: IceServer, url: Seq<char>) -> bool {
    &&& server.urls@.len() == 1
    &&& server.urls@[0]@ == url
    &&& server.username is None
    &&& server.credential is None
}

/// One plain server for each URL, in order.
pub open spec fn are_plain_servers(servers: Seq<IceServer>, urls: Seq<String>) -> bool {
    &&& servers.len() == urls.len()
    &&& forall|i: int|
        #![trigger servers[i]]
        0 <= i < servers.len() ==> is_plain_server(servers[i], urls[i]@)
}

fn plain_servers(urls: &[String]) -> (r: Vec<IceServer>)
    ensures
        are_plain_servers(r@, urls@),
{
    let mut servers: Vec<IceServer> = Vec::new();
    let mut i: usize = 0;
    while i < urls.len()
        invariant
            i <= urls@.len(),
            are_plain_servers(servers@, urls@.take(i as int)),
        decreases urls@.len() - i,
    {
        let mut list: Vec<String> = Vec::new();
        list.push(urls[i].as_str().to_owned());
        servers.push(IceServer { urls: list, username: None, credential: None });
        i = i + 1;
    }
    assert(urls@.take(i as int) =~= urls@);
    servers
}

/// `ctx` is what `opts` ask for on `os`.
pub open spec fn is_context_for(ctx: HostContext, os: HostOs, opts: ServeOptions) -> bool {
    &&& are_plain_servers(ctx.session.ice_servers@, opts.stun@)
    &&& ctx.session.udp_addrs@.len() == 1
    &&& ctx.session.udp_addrs@[0]@ == "0.0.0.0:0"@
    &&& ctx.session.fps == opts.fps
    &&& ctx.bitrate_kbps == opts.bitrate
    &&& ctx.adapt == !opts.no_adapt
    &&& ctx.max_qp == opts.max_qp
    &&& ctx.encoder == opts.encoder.kind_spec()
    &&& ctx.synthetic == opts.synthetic
    &&& ctx.capture == opts.capture
    &&& ctx.display == opts.display
    &&& ctx.injector == (if opts.no_input {
        InjectorChoice::Disabled
    } else if os == HostOs::Other {
        InjectorChoice::Noop
    } else {
        InjectorChoice::Real
    })
    &&& ctx.cursor == (os != HostOs::Other)
    &&& ctx.clipboard == (os != HostOs::Other && !opts.no_clipboard)
}

/// Turns the options into what every session is built from. The servers that the
/// signaling server names come on top, with each registration anew.
pub fn build_host_context(os: HostOs, opts: &ServeOptions) -> (r: HostContext)
    ensures
        is_context_for(r, os, *opts),
{
    let mut udp_addrs: Vec<String> = Vec::new();
    udp_addrs.push(String::from_str("0.0.0.0:0"));
    HostContext {
        session: SessionConfig {
            ice_servers: plain_servers(opts.stun.as_slice()),
            udp_addrs,
            fps: opts.fps,
        },
        bitrate_kbps: opts.bitrate,
        adapt: !opts.no_adapt,
        max_qp: opts.max_qp,
        encoder: opts.encoder.kind(),
        synthetic: opts.synthetic,
        capture: opts.capture,
        display: opts.display,
        injector: if opts.no_input {
            InjectorChoice::Disabled
        } else {
            build_real_injector(os)
        },
        cursor: build_real_cursor_source(os),
        clipboard: !opts.no_clipboard && build_real_clipboard_backend(os),
    }
}

/// The name to register under.
pub open spec fn host_name(
    explicit: Option<Seq<char>>,
    computer_name: Option<Seq<char>>,
    hostname: Option<Seq<char>>,
) -> Seq<char> {
    match (explicit, computer_name, hostname) {
        (Some(name), _, _) => name,
        (None, Some(name), _) => name,
        (None, None, Some(name)) => if name.len() > 0 {
            name
        } else {
            "rcdesk-host"@
        },
        (None, None, None) => "rcdesk-host"@,
    }
}

/// The name to register under: the first that there is of the one asked for, the
/// computer's own, a `$HOSTNAME` that is not empty, and a fixed one.
pub fn resolve_host_name(
    explicit: Option<&str>,
    computer_name: Option<String>,
    hostname: Option<String>,
) -> (r: String)
    ensures
        r@ == host_name(
            match explicit {
                Some(name) => Some(name@),
                None => None,
            },
            crate::text::chars_if_any(computer_name),
            crate::text::chars_if_any(hostname),
        ),
{
    if let Some(name) = explicit {
        return name.to_owned();
    }
    if let Some(name) = computer_name {
        return name;
    }
    if let Some(name) = hostname {
        if !crate::text::is_empty(name.as_str()) {
            return name;
        }
    }
    String::from_str("rcdesk-host")
}

/// How long to wait before the next attempt to connect, in nanoseconds.
#[derive(Debug, Clone, Copy, PartialEq, Eq, Structural)]
pub struct ReconnectPolicy {
    pub initial: u64,
    pub max: u64,
}

impl Default for ReconnectPolicy {
    /// From one second to thirty.
    fn default() -> (r: Self)
        ensures
            r.initial == 1_000_000_000,
            r.max == 30_000_000_000,
    {
        ReconnectPolicy { initial: 1_000_000_000, max: 30_000_000_000 }
    }
}

/// The delay, which doubles with each attempt that fails, up to a limit, and
/// starts over with a registration.
#[derive(Debug, Clone, Copy, PartialEq, Eq, Structural)]
pub struct Backoff {
    pub policy: ReconnectPolicy,
    pub current: u64,
}

impl Backoff {
    pub fn new(policy: ReconnectPolicy) -> (r: Self)
        ensures
            r == (Backoff { policy, current: policy.initial }),
    {
        Backoff { policy, current: policy.initial }
    }

    pub fn current(&self) -> (r: u64)
        ensures
            r == self.current,
    {
        self.current
    }

    /// Twice the delay, or the limit.
    pub open spec fn advanced(self) -> Backoff {
        Backoff {
            current: crate::arith::min(self.current * 2, self.policy.max as int) as u64,
            ..self
        }
    }

    pub fn advance(&mut self)
        ensures
            *final(self) == old(self).advanced(),
    {
        if self.current <= self.policy.max / 2 {
            self.current = self.current * 2;
        } else {
            self.current = self.policy.max;
        }
    }

    pub fn reset(&mut self)
        ensures
            *final(self) == (Backoff {
                policy: old(self).policy,
                current: old(self).policy.initial,
            }),
    {
        self.current = self.policy.initial;
    }
}

/// What the agent's work came to.
#[derive(Debug, Clone)]
pub enum AgentEvent {
    /// It registered, and has this PIN.
    Connected { pin: String },
    ConnectFailed { error: String },
    /// It had registered, and the connection broke.
    Lost { error: String },
    /// It had registered, and the connection came to an end.
    Ended,
    /// It has waited.
    Slept,
}

/// What the agent does next.
#[derive(Debug, Clone, Copy, PartialEq, Eq, Structural)]
pub enum AgentWork {
    Connect,
    /// Serve sessions until the connection is gone.
    Serve,
    /// Wait this many nanoseconds.
    Sleep(u64),
}

/// The status to announce, if it changes, and what to do next.
#[derive(Debug, Clone)]
pub struct AgentStep {
    pub status: Option<AgentStatus>,
    pub work: AgentWork,
}

/// The delay after an event.
pub open spec fn next_backoff(b: Backoff, event: AgentEvent) -> Backoff {
    match event {
        AgentEvent::Connected { .. } => Backoff { policy: b.policy, current: b.policy.initial },
        AgentEvent::Slept => b.advanced(),
        _ => b,
    }
}

/// What an event leads to.
pub open spec fn is_step(step: AgentStep, b: Backoff, event: AgentEvent) -> bool {
    match event {
        AgentEvent::Connected { pin } => {
            &&& step.status matches Some(AgentStatus::Registered { pin: p }) && p@ == pin@
            &&& step.work == AgentWork::Serve
        },
        AgentEvent::ConnectFailed { error } => {
            &&& step.status matches Some(AgentStatus::Reconnecting { error: e, retry_in })
                && e@ == error@ && retry_in == b.current
            &&& step.work == AgentWork::Sleep(b.current)
        },
        AgentEvent::Lost { error } => {
            &&& step.status matches Some(AgentStatus::Reconnecting { error: e, retry_in })
                && e@ == error@ && retry_in == b.current
            &&& step.work == AgentWork::Sleep(b.current)
        },
        AgentEvent::Ended => step.status is None && step.work == AgentWork::Sleep(b.current),
        AgentEvent::Slept => {
            &&& step.status matches Some(AgentStatus::Connecting)
            &&& step.work == AgentWork::Connect
        },
    }
}

/// The life of an agent: connect, register, serve; and after any failure wait
/// and start over, for ever.
pub struct AgentLoop {
    pub backoff: Backoff,
}

impl AgentLoop {
    /// An agent about to connect.
    pub fn start(policy: ReconnectPolicy) -> (r: (AgentLoop, AgentStep))
        ensures
            r.0.backoff == (Backoff { policy, current: policy.initial }),
            r.1.status matches Some(AgentStatus::Connecting),
            r.1.work == AgentWork::Connect,
    {
        (
            AgentLoop { backoff: Backoff::new(policy) },
            AgentStep { status: Some(AgentStatus::Connecting), work: AgentWork::Connect },
        )
    }

    /// Takes what the last work came to.
    pub fn step(&mut self, event: AgentEvent) -> (r: AgentStep)
        ensures
            is_step(r, old(self).backoff, event),
            final(self).backoff == next_backoff(old(self).backoff, event),
    {
        match event {
            AgentEvent::Connected { pin } => {
                self.backoff.reset();
                AgentStep {
                    status: Some(AgentStatus::Registered { pin }),
                    work: AgentWork::Serve,
                }
            },
            AgentEvent::ConnectFailed { error } => {
                let retry_in: u64 = self.backoff.current();
                AgentStep {
                    status: Some(AgentStatus::Reconnecting { error, retry_in }),
                    work: AgentWork::Sleep(retry_in),
                }
            },
            AgentEvent::Lost { error } => {
                let retry_in: u64 = self.backoff.current();
                AgentStep {
                    status: Some(AgentStatus::Reconnecting { error, retry_in }),
                    work: AgentWork::Sleep(retry_in),
                }
            },
            AgentEvent::Ended => AgentStep {
                status: None,
                work: AgentWork::Sleep(self.backoff.current()),
            },
            AgentEvent::Slept => {
                self.backoff.advance();
                AgentStep { status: Some(AgentStatus::Connecting), work: AgentWork::Connect }
            },
        }
    }
}

/// The delay after `n` attempts in a row that failed.
pub open spec fn after_failures(policy: ReconnectPolicy, n: nat) -> Backoff
    decreases n,
{
    if n == 0 {
        Backoff { policy, current: policy.initial }
    } else {
        after_failures(policy, (n - 1) as nat).advanced()
    }
}

/// The delay doubles from the initial one and stops at the limit: after `n`
/// failures it is `initial * 2^n`, or the limit if that is less.
pub proof fn law_delay_doubles_up_to_the_limit(policy: ReconnectPolicy, n: nat)
    requires
        n > 0,
    ensures
        after_failures(policy, n).current == crate::arith::min(
            policy.initial * vstd::arithmetic::power2::pow2(n),
            policy.max as int,
        ),
        after_failures(policy, n).policy == policy,
    decreases n,
{
    let initial = policy.initial as int;
    vstd::arithmetic::power2::lemma2_to64();
    reveal_with_fuel(after_failures, 2);
    if n > 1 {
        let m = (n - 1) as nat;
        law_delay_doubles_up_to_the_limit(policy, m);
        vstd::arithmetic::power2::lemma_pow2_unfold(n);
        let p = vstd::arithmetic::power2::pow2(m) as int;
        vstd::arithmetic::power2::lemma_pow2_pos(m);
        assert(initial * (2 * p) == 2 * (initial * p)) by (nonlinear_arith);
        assert(initial * p >= 0) by (nonlinear_arith)
            requires
                initial >= 0,
                p > 0,
        ;
    }
}

/// Once at the limit the delay stays there.
pub proof fn law_delay_stays_at_the_limit(b: Backoff)
    requires
        b.current == b.policy.max,
    ensures
        b.advanced() == b,
{
}

/// A registration wipes out what came before: the delay after it is the one that
/// a new agent starts with.
pub proof fn law_registration_starts_over(b: Backoff, pin: String)
    ensures
        next_backoff(b, AgentEvent::Connected { pin }) == after_failures(b.policy, 0),
{
}

/// An agent that lost its connection says so before it waits, and waits exactly
/// as long as it says.
pub proof fn law_announced_delay_is_kept(step: AgentStep, b: Backoff, event: AgentEvent)
    requires
        is_step(step, b, event),
    ensures
        step.status matches Some(AgentStatus::Reconnecting { retry_in, .. }) ==> step.work
            == AgentWork::Sleep(retry_in),
        event is Lost || event is ConnectFailed ==> (step.status matches Some(
            AgentStatus::Reconnecting { .. },
        )),
{
}

/// A display that was asked for is taken as it is. Otherwise it is the first
/// primary one of the list, or the first where none is primary; an empty list is
/// an error, and so is one that could not be had.
pub proof fn law_the_right_display_is_captured(
    display: Option<u32>,
    displays: Result<Vec<DisplayInfo>, CaptureError>,
    r: Result<u32, SourceError>,
    i: int,
)
    requires
        resolves(display, displays, r),
    ensures
        display matches Some(id) ==> r == Ok::<u32, SourceError>(id),
        display is None ==> (displays matches Err(err) ==> r == Err::<u32, SourceError>(
            SourceError::Capture(err),
        )),
        display is None && displays is Ok ==> {
            let list = displays->Ok_0@;
            &&& list.len() == 0 ==> r == Err::<u32, SourceError>(SourceError::NoDisplay)
            &&& 0 <= i < list.len() && list[i].primary && (forall|j: int|
                0 <= j < i ==> !(#[trigger] list[j]).primary) ==> r == Ok::<u32, SourceError>(
                list[i].id,
            )
            &&& list.len() > 0 && (forall|j: int|
                0 <= j < list.len() ==> !(#[trigger] list[j]).primary) ==> r == Ok::<
                u32,
                SourceError,
            >(list[0].id)
        },
{
    if display is None && displays is Ok {
        let list = displays->Ok_0@;
        if r is Ok {
            let k = choose|k: int| #[trigger]
                crate::capture::is_default(list, k) && list[k].id == r->Ok_0;
            if 0 <= i < list.len() && list[i].primary && (forall|j: int|
                0 <= j < i ==> !(#[trigger] list[j]).primary) {
                assert(!(k < i && list[k].primary));
                assert(k == i);
            }
        }
    }
}

/// The screen is captured on macOS and Windows only, and never by GDI on macOS.
/// On Windows the backend that was asked for is used; left to itself it goes by
/// what the driver supports. The display and the frame rate are those asked for.
pub proof fn law_the_right_capture_is_started(
    os: HostOs,
    fps: u32,
    backend: CaptureBackend,
    wgc_supported: bool,
    resolved: Result<u32, SourceError>,
    r: Result<ScreenSource, SourceError>,
)
    requires
        is_screen_source(os, fps, backend, wgc_supported, resolved, r),
    ensures
        os == HostOs::Other ==> r is Err,
        os == HostOs::Macos && backend == CaptureBackend::Gdi ==> r is Err,
        resolved is Err ==> r is Err,
        resolved matches Ok(display) ==> {
            &&& os == HostOs::Macos && backend != CaptureBackend::Gdi ==> r == Ok::<
                ScreenSource,
                SourceError,
            >(ScreenSource::Native { display, fps })
            &&& os == HostOs::Windows && (backend == CaptureBackend::Wgc || (backend
                == CaptureBackend::Auto && wgc_supported)) ==> r == Ok::<
                ScreenSource,
                SourceError,
            >(ScreenSource::Native { display, fps })
            &&& os == HostOs::Windows && (backend == CaptureBackend::Gdi || (backend
                == CaptureBackend::Auto && !wgc_supported)) ==> r == Ok::<
                ScreenSource,
                SourceError,
            >(ScreenSource::Gdi { display, fps })
        },
{
}

/// Every option of a run is honoured: what was switched off is off, what was left
/// on is on wherever the platform has it, and numbers and choices arrive as they
/// were given.
pub proof fn law_options_are_honoured(ctx: HostContext, os: HostOs, opts: ServeOptions, i: int)
    requires
        is_context_for(ctx, os, opts),
    ensures
        opts.no_input ==> ctx.injector == InjectorChoice::Disabled,
        !opts.no_input && os == HostOs::Other ==> ctx.injector == InjectorChoice::Noop,
        !opts.no_input && os != HostOs::Other ==> ctx.injector == InjectorChoice::Real,
        opts.no_clipboard || os == HostOs::Other ==> !ctx.clipboard,
        !opts.no_clipboard && os != HostOs::Other ==> ctx.clipboard,
        ctx.cursor <==> os == HostOs::Macos || os == HostOs::Windows,
        ctx.adapt <==> !opts.no_adapt,
        ctx.session.udp_addrs@.len() == 1 && ctx.session.udp_addrs@[0]@ == "0.0.0.0:0"@,
        ctx.session.fps == opts.fps && ctx.bitrate_kbps == opts.bitrate && ctx.max_qp
            == opts.max_qp && ctx.display == opts.display && ctx.synthetic == opts.synthetic
            && ctx.capture == opts.capture,
        opts.encoder == EncoderBackend::Auto ==> ctx.encoder is None,
        opts.encoder == EncoderBackend::Openh264 ==> ctx.encoder == Some(EncoderKind::OpenH264),
        opts.encoder == EncoderBackend::Videotoolbox ==> ctx.encoder == Some(
            EncoderKind::VideoToolbox,
        ),
        opts.encoder == EncoderBackend::Mediafoundation ==> ctx.encoder == Some(
            EncoderKind::MediaFoundation,
        ),
        ctx.session.ice_servers@.len() == opts.stun@.len(),
        0 <= i < opts.stun@.len() ==> ctx.session.ice_servers@[i].urls@.len() == 1
            && ctx.session.ice_servers@[i].urls@[0]@ == opts.stun@[i]@
            && ctx.session.ice_servers@[i].username is None
            && ctx.session.ice_servers@[i].credential is None,
{
    if 0 <= i < opts.stun@.len() {
        assert(is_plain_server(ctx.session.ice_servers@[i], opts.stun@[i]@));
    }
}

/// A host is registered under the name that was asked for; failing that under
/// the computer's own, under `$HOSTNAME`, and at last under a fixed one, so it
/// never goes without a name of its own making.
pub proof fn law_the_first_name_wins(
    explicit: Option<Seq<char>>,
    computer_name: Option<Seq<char>>,
    hostname: Option<Seq<char>>,
)
    ensures
        ({
            let name = host_name(explicit, computer_name, hostname);
            &&& explicit is Some ==> name == explicit->0
            &&& explicit is None && computer_name is Some ==> name == computer_name->0
            &&& explicit is None && computer_name is None ==> name.len() > 0
            &&& explicit is None && computer_name is None && hostname is Some
                && hostname->0.len() > 0 ==> name == hostname->0
            &&& explicit is None && computer_name is None && (hostname is None
                || hostname->0.len() == 0) ==> name == "rcdesk-host"@
        }),
{
    reveal_strlit("rcdesk-host");
}

/// An agent never stops: it serves while it is registered, waits after whatever
/// ended that, and connects again when it has waited. Only waiting lengthens the
/// next wait, to twice as long at most the limit, and only a registration
/// shortens it.
pub proof fn law_the_agent_goes_on(step: AgentStep, b: Backoff, event: AgentEvent)
    requires
        is_step(step, b, event),
        b.current <= b.policy.max,
    ensures
        event is Connected ==> step.work == AgentWork::Serve,
        event is Slept ==> step.work == AgentWork::Connect,
        event is Lost || event is Ended || event is ConnectFailed ==> step.work
            == AgentWork::Sleep(b.current),
        ({
            let next = next_backoff(b, event);
            &&& next.policy == b.policy
            &&& event is Connected ==> next.current == b.policy.initial
            &&& event is Slept ==> b.current <= next.current <= b.policy.max && next.current
                <= b.current * 2 && (next.current == b.policy.max || next.current == b.current * 2)
            &&& event is Lost || event is Ended || event is ConnectFailed ==> next == b
        }),
        event matches AgentEvent::Connected { pin } ==> (step.status matches Some(
            AgentStatus::Registered { pin: shown },
        ) && shown@ == pin@),
        event matches AgentEvent::Lost { error } ==> (step.status matches Some(
            AgentStatus::Reconnecting { error: shown, .. },
        ) && shown@ == error@),
        event matches AgentEvent::ConnectFailed { error } ==> (step.status matches Some(
            AgentStatus::Reconnecting { error: shown, .. },
        ) && shown@ == error@),
{
}

} // verus!
