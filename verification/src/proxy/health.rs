//! The active health checks: rounds of probes that find out which upstream servers are alive.
use crate::proxy::config::{ProxyConfig, ProxyConfigView};
use crate::proxy::upstream::{within, DeadUpstreams};
use vstd::prelude::*;
use vstd::utf8::encode_utf8;

verus! {

/// An HTTP request in plain values.
pub struct HttpRequest {
    pub method: String,
    pub uri: String,
    /// Names and values of the headers, in order.
    pub headers: Vec<(String, Vec<u8>)>,
    pub body: Vec<u8>,
}

/// Any error of the crate `http`.
#[verifier::external_type_specification]
#[verifier::external_body]
pub struct ExHttpError(http::Error);

/// The text of the URI that the crate `http` makes of `text`, or `None` if it takes `text` for no
/// URI.
pub uninterp spec fn parsed_uri(text: Seq<char>) -> Option<Seq<char>>;

/// Whether the crate `http` takes `bytes` for the value of a header: tabs are allowed, other
/// control characters are not.
pub open spec fn header_value_ok(bytes: Seq<u8>) -> bool {
    forall|i: int|
        0 <= i < bytes.len() ==> (#[trigger] bytes[i]) == 9 || (bytes[i] >= 32 && bytes[i] != 127)
}

/// Whether `c` is a letter, a digit or one of `/`, `-`, `.` and `_`.
pub open spec fn is_plain(c: char) -> bool {
    'a' <= c <= 'z' || 'A' <= c <= 'Z' || '0' <= c <= '9' || c == '/' || c == '-' || c == '.' || c
        == '_'
}

/// Whether `path` is an absolute path of plain characters, and not overly long.
pub open spec fn plain_path(path: Seq<char>) -> bool {
    &&& 0 < path.len() <= 65534
    &&& path[0] == '/'
    &&& forall|i: int| 0 <= i < path.len() ==> is_plain(#[trigger] path[i])
}

/// Whether `name` is 1 to 64 characters from `first` to `last`.
pub open spec fn token(name: Seq<char>, first: char, last: char) -> bool {
    &&& 0 < name.len() <= 64
    &&& forall|i: int| 0 <= i < name.len() ==> first <= #[trigger] name[i] <= last
}

/// `http::Request::builder` with a method, a URI, one header and a body, the request taken apart
/// into plain values. Claimed of it, for a method in upper case and a header name in lower case:
/// it succeeds exactly when `uri` is a URI to the crate (which [`parsed_uri`] names) and `value`
/// can be the value of a header; the request then has that URI, and method, header and body as
/// given. An absolute path of plain characters is a URI and stays as it is.
#[verifier::external_body]
fn build_request(method: &str, uri: &str, name: &str, value: &str, body: Vec<u8>) -> (built: Result<
    HttpRequest,
    http::Error,
>)
    requires
        token(method@, 'A', 'Z'),
        token(name@, 'a', 'z'),
    ensures
        match built {
            Ok(request) => {
                &&& request.method@ == method@
                &&& Some(request.uri@) == parsed_uri(uri@)
                &&& request.headers@.len() == 1
                &&& request.headers@[0].0@ == name@
                &&& request.headers@[0].1@ == encode_utf8(value@)
                &&& request.body@ == body@
                &&& header_value_ok(encode_utf8(value@))
                &&& plain_path(uri@) ==> request.uri@ == uri@
            },
            Err(_) => {
                ||| parsed_uri(uri@) is None && !plain_path(uri@)
                ||| !header_value_ok(encode_utf8(value@))
            },
        },
{
    let built = http::Request::builder().method(method).uri(uri).header(name, value).body(body)?;
    let (parts, body) = built.into_parts();
    Ok(
        HttpRequest {
            method: parts.method.to_string(),
            uri: parts.uri.to_string(),
            headers: parts.headers.iter().map(|h| (h.0.to_string(), h.1.as_bytes().to_vec())).collect(),
            body,
        },
    )
}

/// Whether `request` asks the server at `upstream_ip` for `path`.
pub open spec fn is_probe(request: HttpRequest, upstream_ip: Seq<char>, path: Seq<char>) -> bool {
    &&& request.method@ == "GET"@
    &&& Some(request.uri@) == parsed_uri(path)
    &&& request.headers@.len() == 1
    &&& request.headers@[0].0@ == "host"@
    &&& request.headers@[0].1@ == encode_utf8(upstream_ip)
    &&& request.body@.len() == 0
}

/// What came of a step of probing one server.
#[derive(Clone, Copy)]
pub enum ProbeEvent {
    /// A connection was made (`true`) or not.
    Connected(bool),
    /// The request was sent (`true`) or not.
    Sent(bool),
    /// The response came with this status; `None` if no response could be read.
    Received(Option<u16>),
}

/// What to do next in probing one server.
pub enum ProbeAction {
    /// Send this request, and report `Sent`.
    Send(HttpRequest),
    /// Read the response to a request with this method, and report `Received`.
    Receive { method: String },
    /// The probe is over: the server is healthy or not.
    Verdict(bool),
    /// The request cannot be made; the settings are at fault.
    Refused(http::Error),
}

/// What an event settles about the health of a server; `None` if the probe goes on.
pub open spec fn verdict_of(event: ProbeEvent) -> Option<bool> {
    match event {
        ProbeEvent::Connected(ok) | ProbeEvent::Sent(ok) => if ok {
            None
        } else {
            Some(false)
        },
        ProbeEvent::Received(status) => Some(status == Some(200u16)),
    }
}

/// Answers an event in probing the server at `upstream_ip`: what to do next.
pub fn check_upstream_health(upstream_ip: &str, path: &str, event: ProbeEvent) -> (next: ProbeAction)
    ensures
        match verdict_of(event) {
            Some(healthy) => next == ProbeAction::Verdict(healthy),
            None => match next {
                ProbeAction::Send(request) => {
                    &&& event is Connected
                    &&& is_probe(request, upstream_ip@, path@)
                    &&& header_value_ok(encode_utf8(upstream_ip@))
                    &&& plain_path(path@) ==> request.uri@ == path@
                },
                ProbeAction::Refused(_) => {
                    &&& event is Connected
                    &&& {
                        ||| parsed_uri(path@) is None && !plain_path(path@)
                        ||| !header_value_ok(encode_utf8(upstream_ip@))
                    }
                },
                ProbeAction::Receive { method } => event is Sent && method@ == "GET"@,
                ProbeAction::Verdict(_) => false,
            },
        },
        event matches ProbeEvent::Received(status) ==> next == ProbeAction::Verdict(
            status == Some(200u16),
        ),
        event == ProbeEvent::Connected(false) || event == ProbeEvent::Sent(false) ==> next
            == ProbeAction::Verdict(false),
        event == ProbeEvent::Sent(true) ==> (next matches ProbeAction::Receive { method } && method@
            == "GET"@),
        event == ProbeEvent::Connected(true) ==> match next {
            ProbeAction::Send(request) => {
                &&& request.method@ == "GET"@
                &&& Some(request.uri@) == parsed_uri(path@)
                &&& request.headers@.len() == 1
                &&& request.headers@[0].0@ == "host"@
                &&& request.headers@[0].1@ == encode_utf8(upstream_ip@)
                &&& request.body@.len() == 0
            },
            ProbeAction::Refused(_) => {
                ||| parsed_uri(path@) is None
                ||| !header_value_ok(encode_utf8(upstream_ip@))
            },
            _ => false,
        },
{
    match event {
        ProbeEvent::Connected(true) => {
            proof {
                reveal_strlit("GET");
                reveal_strlit("host");
            }
            match build_request("GET", path, "host", upstream_ip, Vec::new()) {
                Ok(request) => ProbeAction::Send(request),
                Err(error) => ProbeAction::Refused(error),
            }
        },
        ProbeEvent::Sent(true) => ProbeAction::Receive { method: "GET".to_owned() },
        ProbeEvent::Connected(false) | ProbeEvent::Sent(false) => ProbeAction::Verdict(false),
        ProbeEvent::Received(Some(status)) => ProbeAction::Verdict(status == 200),
        ProbeEvent::Received(None) => ProbeAction::Verdict(false),
    }
}

/// The first verdict that a run of events settles, if one does.
pub open spec fn first_verdict(events: Seq<ProbeEvent>) -> Option<bool>
    decreases events.len(),
{
    if events.len() == 0 {
        None
    } else if verdict_of(events[0]) is Some {
        verdict_of(events[0])
    } else {
        first_verdict(events.drop_first())
    }
}

/// A server is healthy exactly when it can be connected to, takes the request, and answers it with
/// status 200.
pub proof fn law_healthy_means_an_ok_response(connected: bool, sent: bool, status: Option<u16>)
    ensures
        first_verdict(
            seq![
                ProbeEvent::Connected(connected),
                ProbeEvent::Sent(sent),
                ProbeEvent::Received(status),
            ],
        ) == Some(connected && sent && status == Some(200u16)),
{
    reveal_with_fuel(first_verdict, 4);
    let events = seq![
        ProbeEvent::Connected(connected),
        ProbeEvent::Sent(sent),
        ProbeEvent::Received(status),
    ];
    assert(events.drop_first() =~= seq![ProbeEvent::Sent(sent), ProbeEvent::Received(status)]);
    assert(events.drop_first().drop_first() =~= seq![ProbeEvent::Received(status)]);
}

/// What the health checks are waiting for.
#[derive(Clone, Copy)]
pub enum MonitorPhase {
    /// To be started.
    Starting,
    /// The next round.
    Sleeping,
    /// The verdict on this server.
    Probing(usize),
}

/// What the health checks are told.
#[derive(Clone, Copy)]
pub enum HealthEvent {
    /// The proxy has started.
    Started,
    /// The time between two rounds is over.
    Woke,
    /// The server that was probed is healthy or not.
    Checked(bool),
}

/// What the health checks ask for.
pub enum HealthAction {
    /// Wait this many seconds, and report `Woke`.
    Sleep(u64),
    /// Probe this server, and report `Checked`.
    Probe { index: usize, address: String, path: String },
}

/// The value of a [`HealthAction`].
pub enum HealthActionView {
    Sleep(u64),
    Probe { index: usize, address: Seq<char>, path: Seq<char> },
}

impl View for HealthAction {
    type V = HealthActionView;

    open spec fn view(&self) -> HealthActionView {
        match self {
            HealthAction::Sleep(seconds) => HealthActionView::Sleep(*seconds),
            HealthAction::Probe { index, address, path } => HealthActionView::Probe {
                index: *index,
                address: address@,
                path: path@,
            },
        }
    }
}

/// The health checks of a proxy, round after round.
pub struct HealthMonitor {
    phase: MonitorPhase,
}

impl View for HealthMonitor {
    type V = MonitorPhase;

    closed spec fn view(&self) -> MonitorPhase {
        self.phase
    }
}

impl MonitorPhase {
    /// The server that is being probed, if there is one, is one of the `count` servers.
    pub open spec fn wf(self, count: nat) -> bool {
        self matches MonitorPhase::Probing(index) ==> index < count
    }

    /// Whether `event` is news of the kind that is waited for.
    pub open spec fn expects(self, event: HealthEvent) -> bool {
        match self {
            MonitorPhase::Starting => event is Started,
            MonitorPhase::Sleeping => event is Woke,
            MonitorPhase::Probing(_) => event is Checked,
        }
    }

    /// What is waited for once every server below `index` has been probed.
    pub open spec fn from_index(index: nat, count: nat) -> MonitorPhase {
        if index < count {
            MonitorPhase::Probing(index as usize)
        } else {
            MonitorPhase::Sleeping
        }
    }

    /// What is waited for after an event that is expected, where there are `count` servers.
    pub open spec fn after(self, event: HealthEvent, count: nat) -> MonitorPhase {
        match (self, event) {
            (MonitorPhase::Sleeping, HealthEvent::Woke) => Self::from_index(0, count),
            (MonitorPhase::Probing(index), HealthEvent::Checked(_)) => Self::from_index(
                (index + 1) as nat,
                count,
            ),
            _ => MonitorPhase::Sleeping,
        }
    }

    /// The action whose outcome is waited for.
    pub open spec fn action(self, config: ProxyConfigView) -> HealthActionView {
        match self {
            MonitorPhase::Probing(index) => HealthActionView::Probe {
                index,
                address: config.upstream_addresses[index as int],
                path: config.active_health_check_path,
            },
            _ => HealthActionView::Sleep(config.active_health_check_interval as u64),
        }
    }

    /// The dead servers after an event that is expected: the verdict on a server replaces what was
    /// held of it.
    pub open spec fn dead_after(self, event: HealthEvent, dead: Set<usize>) -> Set<usize> {
        match (self, event) {
            (MonitorPhase::Probing(index), HealthEvent::Checked(healthy)) => if healthy {
                dead.remove(index)
            } else {
                dead.insert(index)
            },
            _ => dead,
        }
    }
}

impl HealthMonitor {
    /// Health checks that have yet to be started.
    pub fn new() -> (monitor: HealthMonitor)
        ensures
            monitor@ == MonitorPhase::Starting,
    {
        HealthMonitor { phase: MonitorPhase::Starting }
    }

    /// Whether `event` is what is waited for.
    pub fn expects(&self, event: HealthEvent) -> (expected: bool)
        ensures
            expected == self@.expects(event),
    {
        match (self.phase, event) {
            (MonitorPhase::Starting, HealthEvent::Started) => true,
            (MonitorPhase::Sleeping, HealthEvent::Woke) => true,
            (MonitorPhase::Probing(_), HealthEvent::Checked(_)) => true,
            _ => false,
        }
    }

    /// Goes on to the server at `index`, or to sleep if there is none.
    fn go_on(&mut self, config: &ProxyConfig, index: usize) -> (next: HealthAction)
        ensures
            final(self)@ == MonitorPhase::from_index(
                index as nat,
                config@.upstream_addresses.len(),
            ),
            next@ == final(self)@.action(config@),
            index < config@.upstream_addresses.len() ==> (next@ matches HealthActionView::Probe {
                index: probed,
                address,
                path,
            } && probed == index && address == config@.upstream_addresses[index as int] && path
                == config@.active_health_check_path),
            index >= config@.upstream_addresses.len() ==> next@ == HealthActionView::Sleep(
                config@.active_health_check_interval as u64,
            ),
    {
        if index < config.upstream_count() {
            self.phase = MonitorPhase::Probing(index);
            HealthAction::Probe {
                index,
                address: config.upstream_address(index).to_owned(),
                path: config.active_health_check_path().to_owned(),
            }
        } else {
            self.phase = MonitorPhase::Sleeping;
            HealthAction::Sleep(config.active_health_check_interval() as u64)
        }
    }

    /// Answers an event of the health checks: notes the verdict on a server, and says what to do
    /// next.
    pub fn active_health_check(
        &mut self,
        config: &ProxyConfig,
        dead: &mut DeadUpstreams,
        event: HealthEvent,
    ) -> (next: HealthAction)
        requires
            old(self)@.expects(event),
            old(self)@.wf(config@.upstream_addresses.len()),
        ensures
            final(self)@ == old(self)@.after(event, config@.upstream_addresses.len()),
            final(self)@.wf(config@.upstream_addresses.len()),
            next@ == final(self)@.action(config@),
            final(dead)@ == old(self)@.dead_after(event, old(dead)@),
            next@ matches HealthActionView::Probe { index, address, path } ==> {
                &&& final(self)@ == MonitorPhase::Probing(index)
                &&& index < config@.upstream_addresses.len()
                &&& address == config@.upstream_addresses[index as int]
                &&& path == config@.active_health_check_path
            },
            next@ matches HealthActionView::Sleep(seconds) ==> final(self)@ is Sleeping && seconds
                == config@.active_health_check_interval,
            (old(self)@, event) matches (MonitorPhase::Probing(index), HealthEvent::Checked(healthy))
                ==> final(dead)@ == (if healthy {
                old(dead)@.remove(index)
            } else {
                old(dead)@.insert(index)
            }),
            !(event is Checked) ==> final(dead)@ == old(dead)@,
    {
        match (self.phase, event) {
            (MonitorPhase::Sleeping, HealthEvent::Woke) => self.go_on(config, 0),
            (MonitorPhase::Probing(index), HealthEvent::Checked(healthy)) => {
                if healthy {
                    dead.remove(index);
                } else {
                    dead.insert(index);
                }
                let count: usize = config.upstream_count();
                assert(index < count);
                self.go_on(config, index + 1)
            },
            _ => {
                self.phase = MonitorPhase::Sleeping;
                HealthAction::Sleep(config.active_health_check_interval() as u64)
            },
        }
    }
}

/// What is waited for after a run of events, where there are `count` servers.
pub open spec fn phase_after(phase: MonitorPhase, events: Seq<HealthEvent>, count: nat) -> MonitorPhase
    decreases events.len(),
{
    if events.len() == 0 {
        phase
    } else {
        phase_after(phase, events.drop_last(), count).after(events.last(), count)
    }
}

/// The dead servers after a run of events, where there are `count` servers and nobody else changes
/// which ones are dead.
pub open spec fn dead_after_all(
    phase: MonitorPhase,
    dead: Set<usize>,
    events: Seq<HealthEvent>,
    count: nat,
) -> Set<usize>
    decreases events.len(),
{
    if events.len() == 0 {
        dead
    } else {
        phase_after(phase, events.drop_last(), count).dead_after(
            events.last(),
            dead_after_all(phase, dead, events.drop_last(), count),
        )
    }
}

/// The events of a round: waking up, then these verdicts.
pub open spec fn round(verdicts: Seq<bool>) -> Seq<HealthEvent> {
    seq![HealthEvent::Woke] + verdicts.map_values(|healthy: bool| HealthEvent::Checked(healthy))
}

/// A round probes every server once, in order, and only then goes back to sleep: after `k` verdicts
/// the server with index `k` is being probed. Each verdict is noted at once.
pub proof fn law_a_round_probes_every_server(dead: Set<usize>, verdicts: Seq<bool>, count: nat)
    requires
        count <= usize::MAX,
        verdicts.len() <= count,
    ensures
        phase_after(MonitorPhase::Sleeping, round(verdicts), count) == (if verdicts.len() < count {
            MonitorPhase::Probing(verdicts.len() as usize)
        } else {
            MonitorPhase::Sleeping
        }),
        forall|i: usize| #[trigger]
            dead_after_all(MonitorPhase::Sleeping, dead, round(verdicts), count).contains(i) <==> {
                if i < verdicts.len() {
                    !verdicts[i as int]
                } else {
                    dead.contains(i)
                }
            },
    decreases verdicts.len(),
{
    let events = round(verdicts);
    if verdicts.len() == 0 {
        assert(events =~= seq![HealthEvent::Woke]);
        assert(events.drop_last() =~= Seq::empty());
        reveal_with_fuel(phase_after, 2);
        reveal_with_fuel(dead_after_all, 2);
    } else {
        let before = verdicts.drop_last();
        law_a_round_probes_every_server(dead, before, count);
        assert(events.drop_last() =~= round(before));
        assert(events.last() == HealthEvent::Checked(verdicts.last()));
        assert forall|i: usize| #[trigger]
            dead_after_all(MonitorPhase::Sleeping, dead, events, count).contains(i) <==> {
                if i < verdicts.len() {
                    !verdicts[i as int]
                } else {
                    dead.contains(i)
                }
            } by {
            let old_dead = dead_after_all(MonitorPhase::Sleeping, dead, round(before), count);
            assert(old_dead.contains(i) <==> if i < before.len() {
                !before[i as int]
            } else {
                dead.contains(i)
            });
        }
    }
}

/// After a full round exactly the servers that failed their probe are dead: one that has recovered
/// is back in use, whatever took it out of use before.
pub proof fn law_after_a_round_the_unhealthy_are_dead(
    dead: Set<usize>,
    verdicts: Seq<bool>,
    count: nat,
)
    requires
        count <= usize::MAX,
        verdicts.len() == count,
        within(dead, count),
    ensures
        dead_after_all(MonitorPhase::Sleeping, dead, round(verdicts), count) == Set::new(
            |i: usize| i < count && !verdicts[i as int],
        ),
        phase_after(MonitorPhase::Sleeping, round(verdicts), count) == MonitorPhase::Sleeping,
{
    law_a_round_probes_every_server(dead, verdicts, count);
    assert(dead_after_all(MonitorPhase::Sleeping, dead, round(verdicts), count) =~= Set::new(
        |i: usize| i < count && !verdicts[i as int],
    ));
}

/// What is asked for fits the settings, however many servers there are: a server is probed at the
/// address that the settings give for its index, with the path that the settings give; and the rest
/// between two rounds is as long as the settings say.
pub proof fn law_a_probe_goes_to_the_address_of_its_server(
    phase: MonitorPhase,
    config: ProxyConfigView,
)
    requires
        phase.wf(config.upstream_addresses.len()),
    ensures
        phase.action(config) matches HealthActionView::Probe { index, address, path } ==> {
            &&& phase == MonitorPhase::Probing(index)
            &&& index < config.upstream_addresses.len()
            &&& address == config.upstream_addresses[index as int]
            &&& path == config.active_health_check_path
        },
        phase.action(config) matches HealthActionView::Sleep(seconds) ==> {
            &&& !(phase is Probing)
            &&& seconds == config.active_health_check_interval as u64
        },
        phase is Probing <==> phase.action(config) is Probe,
{
}

/// The actions that a round asks for after each of its events: after waking up, and after each
/// verdict.
pub open spec fn round_actions(verdicts: Seq<bool>, config: ProxyConfigView) -> Seq<
    HealthActionView,
> {
    Seq::new(
        verdicts.len() + 1,
        |k: int|
            phase_after(
                MonitorPhase::Sleeping,
                round(verdicts.take(k)),
                config.upstream_addresses.len(),
            ).action(config),
    )
}

/// Over a round the addresses that are probed are those of the settings, all of them and in order,
/// and each with its own index and the same path. Then it is time to sleep.
pub proof fn law_a_round_probes_the_addresses_in_order(
    verdicts: Seq<bool>,
    config: ProxyConfigView,
    k: int,
)
    requires
        config.upstream_addresses.len() <= usize::MAX,
        verdicts.len() == config.upstream_addresses.len(),
        0 <= k <= verdicts.len(),
    ensures
        round_actions(verdicts, config).len() == config.upstream_addresses.len() + 1,
        k < verdicts.len() ==> round_actions(verdicts, config)[k] == (HealthActionView::Probe {
            index: k as usize,
            address: config.upstream_addresses[k],
            path: config.active_health_check_path,
        }),
        k == verdicts.len() ==> round_actions(verdicts, config)[k] == HealthActionView::Sleep(
            config.active_health_check_interval as u64,
        ),
{
    law_a_round_probes_every_server(
        Set::empty(),
        verdicts.take(k),
        config.upstream_addresses.len(),
    );
}

/// Health checks that are started rest first; and each phase waits for news of its own kind.
pub proof fn law_the_first_round_comes_after_a_rest(
    phase: MonitorPhase,
    event: HealthEvent,
    config: ProxyConfigView,
)
    ensures
        phase.expects(event) <==> match event {
            HealthEvent::Started => phase is Starting,
            HealthEvent::Woke => phase is Sleeping,
            HealthEvent::Checked(_) => phase is Probing,
        },
        phase.expects(event) && event is Started ==> phase.after(
            event,
            config.upstream_addresses.len(),
        ) == MonitorPhase::Sleeping,
        MonitorPhase::Sleeping.action(config) == HealthActionView::Sleep(
            config.active_health_check_interval as u64,
        ),
{
}

/// A verdict is about the server that was probed, and about no other: it alone is dead or alive
/// afterwards as the verdict says.
pub proof fn law_a_verdict_is_about_the_server_probed(
    index: usize,
    healthy: bool,
    dead: Set<usize>,
    other: usize,
)
    ensures
        ({
            let now = MonitorPhase::Probing(index).dead_after(HealthEvent::Checked(healthy), dead);
            &&& now.contains(index) <==> !healthy
            &&& other != index ==> (now.contains(other) <==> dead.contains(other))
        }),
{
}

/// The value of an action holds all that it says.
pub proof fn law_the_value_of_an_action_holds_everything(action: HealthAction)
    ensures
        match action {
            HealthAction::Sleep(seconds) => action@ == HealthActionView::Sleep(seconds),
            HealthAction::Probe { index, address, path } => action@ == (HealthActionView::Probe {
                index,
                address: address@,
                path: path@,
            }),
        },
{
}

/// Only servers that exist are ever taken for dead: the health checks keep it so.
pub proof fn law_the_dead_are_servers(
    phase: MonitorPhase,
    event: HealthEvent,
    dead: Set<usize>,
    count: nat,
)
    requires
        phase.expects(event),
        phase.wf(count),
        within(dead, count),
    ensures
        within(phase.dead_after(event, dead), count),
{
}

} // verus!
