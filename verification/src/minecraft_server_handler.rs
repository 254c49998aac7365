//! Watching a Minecraft server: the status line the bot shows, and when it alerts the
//! guilds that the server went down or came back.
use crate::text::{decimal, i64_to_decimal, signed_decimal, u64_to_decimal};
use std::sync::atomic::AtomicBool;
use std::time::Duration;
use vstd::prelude::*;

verus! {

/// Pings a Minecraft server and reports its status.
#[derive(Debug)]
pub struct MinecraftServerHandler {
    is_loop_running: AtomicBool,
    server_address: String,
    ping_timeout: Duration,
    ping_interval: Duration,
    failed_pings_before_alert: u32,
}

impl MinecraftServerHandler {
    /// A handler whose ping loop has not started.
    pub fn new(
        server_address: String,
        ping_timeout: Duration,
        ping_interval: Duration,
        failed_pings_before_alert: u32,
    ) -> (r: Self)
        ensures
            r.server_address() == server_address@,
            r.ping_timeout() == ping_timeout,
            r.ping_interval() == ping_interval,
            r.failed_pings_before_alert() == failed_pings_before_alert,
    {
        MinecraftServerHandler {
            server_address,
            ping_timeout,
            ping_interval,
            failed_pings_before_alert,
            is_loop_running: AtomicBool::new(false),
        }
    }

    pub closed spec fn server_address(&self) -> Seq<char> {
        self.server_address@
    }

    pub closed spec fn ping_timeout(&self) -> Duration {
        self.ping_timeout
    }

    pub closed spec fn ping_interval(&self) -> Duration {
        self.ping_interval
    }

    pub closed spec fn failed_pings_before_alert(&self) -> u32 {
        self.failed_pings_before_alert
    }

    /// The flag that keeps a second ping loop from starting.
    pub closed spec fn loop_flag(&self) -> AtomicBool {
        self.is_loop_running
    }

    /// The flag that keeps a second ping loop from starting.
    pub fn is_loop_running(&self) -> (r: &AtomicBool)
        ensures
            *r == self.loop_flag(),
    {
        &self.is_loop_running
    }

    /// The address of the server.
    pub fn get_server_address(&self) -> (r: &str)
        ensures
            r@ == self.server_address(),
    {
        self.server_address.as_str()
    }

    /// How long a ping may take.
    pub fn get_ping_timeout(&self) -> (r: Duration)
        ensures
            r == self.ping_timeout(),
    {
        self.ping_timeout
    }

    /// How long to wait between pings.
    pub fn get_ping_interval(&self) -> (r: Duration)
        ensures
            r == self.ping_interval(),
    {
        self.ping_interval
    }

    /// A fresh alert state for this handler's loop.
    pub fn monitor(&self) -> (r: PingMonitor)
        ensures
            r.consecutive_failed_pings == 0,
            !r.alert_fired,
            r.failed_pings_before_alert == self.failed_pings_before_alert(),
    {
        PingMonitor::new(self.failed_pings_before_alert)
    }
}

/// An alert sent to every guild with a Minecraft channel.
#[derive(Debug, Clone, Copy, PartialEq, Eq, Structural)]
pub enum Alert {
    /// The server stopped answering.
    Down,
    /// The server answers again.
    BackUp,
}

impl Alert {
    /// The message the alert sends.
    pub fn message(&self) -> (r: &'static str)
        ensures
            r@ == alert_message(*self),
    {
        match self {
            Alert::Down => "[ALERT] Minecraft server is down!",
            Alert::BackUp => "[ALERT] Minecraft server is back up!",
        }
    }
}

/// The text of each alert.
pub open spec fn alert_message(a: Alert) -> Seq<char> {
    match a {
        Alert::Down => "[ALERT] Minecraft server is down!"@,
        Alert::BackUp => "[ALERT] Minecraft server is back up!"@,
    }
}

/// What happens to the ping loop.
#[derive(Debug, Clone, Copy, PartialEq, Eq, Structural)]
pub enum MonitorEvent {
    /// A ping got an answer.
    PingSucceeded,
    /// A ping failed.
    PingFailed,
    /// An alert reached the guilds.
    AlertDelivered(Alert),
    /// Sending an alert failed.
    AlertFailed(Alert),
}

/// The ping loop's memory: how many pings in a row failed, and whether the guilds were
/// told that the server is down.
#[derive(Debug, Clone, Copy, PartialEq, Eq, Structural)]
pub struct PingMonitor {
    pub consecutive_failed_pings: u32,
    pub alert_fired: bool,
    pub failed_pings_before_alert: u32,
}

/// The state after `event`, and the alert to send, if any.
pub open spec fn monitor_step(m: PingMonitor, event: MonitorEvent) -> (PingMonitor, Option<Alert>) {
    match event {
        MonitorEvent::PingSucceeded => (
            PingMonitor { consecutive_failed_pings: 0, ..m },
            if m.alert_fired {
                Some(Alert::BackUp)
            } else {
                None
            },
        ),
        MonitorEvent::PingFailed => {
            let failed: u32 = if m.consecutive_failed_pings == u32::MAX {
                u32::MAX
            } else {
                (m.consecutive_failed_pings + 1) as u32
            };
            (
                PingMonitor { consecutive_failed_pings: failed, ..m },
                if failed >= m.failed_pings_before_alert && !m.alert_fired {
                    Some(Alert::Down)
                } else {
                    None
                },
            )
        },
        MonitorEvent::AlertDelivered(Alert::Down) => (PingMonitor { alert_fired: true, ..m }, None),
        MonitorEvent::AlertDelivered(Alert::BackUp) => (PingMonitor { alert_fired: false, ..m }, None),
        MonitorEvent::AlertFailed(_) => (m, None),
    }
}

impl PingMonitor {
    /// Nothing failed yet and no alert stands.
    pub fn new(failed_pings_before_alert: u32) -> (r: Self)
        ensures
            r == (PingMonitor { consecutive_failed_pings: 0, alert_fired: false, failed_pings_before_alert }),
    {
        PingMonitor { consecutive_failed_pings: 0, alert_fired: false, failed_pings_before_alert }
    }

    /// Takes in what happened and says which alert, if any, to send now.
    pub fn handle(&mut self, event: MonitorEvent) -> (r: Option<Alert>)
        ensures
            (*final(self), r) == monitor_step(*old(self), event),
    {
        match event {
            MonitorEvent::PingSucceeded => {
                self.consecutive_failed_pings = 0;
                if self.alert_fired {
                    Some(Alert::BackUp)
                } else {
                    None
                }
            },
            MonitorEvent::PingFailed => {
                self.consecutive_failed_pings = self.consecutive_failed_pings.saturating_add(1);
                if self.consecutive_failed_pings >= self.failed_pings_before_alert && !self.alert_fired {
                    Some(Alert::Down)
                } else {
                    None
                }
            },
            MonitorEvent::AlertDelivered(Alert::Down) => {
                self.alert_fired = true;
                None
            },
            MonitorEvent::AlertDelivered(Alert::BackUp) => {
                self.alert_fired = false;
                None
            },
            MonitorEvent::AlertFailed(_) => None,
        }
    }
}

/// The state after a run of events.
pub open spec fn monitor_run(m: PingMonitor, events: Seq<MonitorEvent>) -> PingMonitor
    decreases events.len(),
{
    if events.len() == 0 {
        m
    } else {
        monitor_step(monitor_run(m, events.drop_last()), events.last()).0
    }
}

/// A down alert is asked for only when at least the configured number of pings in a row
/// failed and no down alert stands; a back-up alert only when one does and a ping succeeds.
pub proof fn lemma_alert_conditions(m: PingMonitor, event: MonitorEvent)
    ensures
        monitor_step(m, event).1 == Some(Alert::Down) ==> event == MonitorEvent::PingFailed
            && !m.alert_fired && monitor_step(m, event).0.consecutive_failed_pings
            >= m.failed_pings_before_alert,
        monitor_step(m, event).1 == Some(Alert::BackUp) ==> event == MonitorEvent::PingSucceeded
            && m.alert_fired,
{
}

/// Once a down alert reached the guilds, no further down alert is asked for until a
/// back-up alert has reached them.
pub proof fn lemma_down_alert_not_repeated(m: PingMonitor, events: Seq<MonitorEvent>, next: MonitorEvent)
    requires
        m.alert_fired,
        forall|i: int| 0 <= i < events.len() ==> events[i] != MonitorEvent::AlertDelivered(Alert::BackUp),
    ensures
        monitor_run(m, events).alert_fired,
        monitor_step(monitor_run(m, events), next).1 != Some(Alert::Down),
    decreases events.len(),
{
    if events.len() > 0 {
        lemma_down_alert_not_repeated(m, events.drop_last(), events.last());
        assert(events.last() == events[events.len() - 1]);
    }
}

/// The monitor once a requested alert reached the guilds.
pub open spec fn delivered(m: PingMonitor, alert: Option<Alert>) -> PingMonitor {
    match alert {
        Some(a) => monitor_step(m, MonitorEvent::AlertDelivered(a)).0,
        None => m,
    }
}

/// One ping (`true` if it got an answer), and the delivery of the alert it asks for.
pub open spec fn ping_step(m: PingMonitor, answered: bool) -> (PingMonitor, Option<Alert>) {
    let (next, alert) = monitor_step(
        m,
        if answered {
            MonitorEvent::PingSucceeded
        } else {
            MonitorEvent::PingFailed
        },
    );
    (delivered(next, alert), alert)
}

/// A run of pings whose alerts are all delivered: the state after it, and the alert each
/// ping asked for.
pub open spec fn ping_run(m: PingMonitor, pings: Seq<bool>) -> (PingMonitor, Seq<Option<Alert>>)
    decreases pings.len(),
{
    if pings.len() == 0 {
        (m, Seq::empty())
    } else {
        let (before, alerts) = ping_run(m, pings.drop_last());
        let (after, alert) = ping_step(before, pings.last());
        (after, alerts.push(alert))
    }
}

/// How many pings at the end of the run failed in a row.
pub open spec fn trailing_failures(pings: Seq<bool>) -> nat
    decreases pings.len(),
{
    if pings.len() == 0 || pings.last() {
        0
    } else {
        trailing_failures(pings.drop_last()) + 1
    }
}

/// The latest alert sent in a run, if any.
pub open spec fn last_alert(alerts: Seq<Option<Alert>>) -> Option<Alert>
    decreases alerts.len(),
{
    if alerts.len() == 0 {
        None
    } else if alerts.last() is Some {
        alerts.last()
    } else {
        last_alert(alerts.drop_last())
    }
}

/// Over a run of pings from a fresh monitor whose alerts all reach the guilds: the count
/// is the number of failures in a row at the end (stopping at `u32::MAX`); a down alert
/// stands exactly when the latest alert was a down alert; the last ping asks for a down
/// alert exactly when it failed, at least the configured number of pings failed in a row
/// and no down alert stands, and for a back-up alert exactly when it got an answer while a
/// down alert stands. So alerts alternate: down, back up, down, ... (As every prefix of a
/// run is a run, this holds of every ping in it.)
pub proof fn lemma_ping_run(threshold: u32, pings: Seq<bool>)
    ensures
        ({
            let fresh = PingMonitor { consecutive_failed_pings: 0, alert_fired: false, failed_pings_before_alert: threshold };
            let (m, alerts) = ping_run(fresh, pings);
            &&& alerts.len() == pings.len()
            &&& m.failed_pings_before_alert == threshold
            &&& m.consecutive_failed_pings == if trailing_failures(pings) < u32::MAX {
                trailing_failures(pings)
            } else {
                u32::MAX as nat
            }
            &&& m.alert_fired <==> last_alert(alerts) == Some(Alert::Down)
            &&& pings.len() > 0 ==> {
                let earlier = ping_run(fresh, pings.drop_last()).1;
                &&& alerts.last() == Some(Alert::Down) <==> !pings.last()
                    && m.consecutive_failed_pings >= threshold && last_alert(earlier) != Some(Alert::Down)
                &&& alerts.last() == Some(Alert::BackUp) <==> pings.last()
                    && last_alert(earlier) == Some(Alert::Down)
            }
        }),
    decreases pings.len(),
{
    if pings.len() > 0 {
        lemma_ping_run(threshold, pings.drop_last());
        let fresh = PingMonitor { consecutive_failed_pings: 0, alert_fired: false, failed_pings_before_alert: threshold };
        let (before, earlier) = ping_run(fresh, pings.drop_last());
        let (m, alerts) = ping_run(fresh, pings);
        assert(alerts == earlier.push(ping_step(before, pings.last()).1));
        assert(alerts.drop_last() =~= earlier);
    }
}

/// Failed pings are counted in a row: a success starts the count again, a failure adds one
/// (stopping at `u32::MAX`).
pub proof fn lemma_failure_count(m: PingMonitor)
    ensures
        monitor_step(m, MonitorEvent::PingSucceeded).0.consecutive_failed_pings == 0,
        m.consecutive_failed_pings < u32::MAX ==> monitor_step(m, MonitorEvent::PingFailed).0.consecutive_failed_pings
            == m.consecutive_failed_pings + 1,
{
}

/// What a status query of the server reported.
pub struct ServerStatus {
    pub players_online: i64,
    pub players_max: i64,
    pub version_name: String,
    /// The plain text of the server's description.
    pub description: String,
    /// Names of some players online, if the server lists any.
    pub player_sample: Option<Vec<String>>,
}

/// `text` cut to at most `max_length` characters, the cut marked by `...`.
pub open spec fn truncated(text: Seq<char>, max_length: nat) -> Seq<char> {
    if text.len() <= max_length {
        text
    } else if max_length <= 3 {
        "..."@.subrange(0, max_length as int)
    } else {
        text.subrange(0, max_length - 3) + "..."@
    }
}

/// Shortens `text` to at most `max_length` characters, ending it with `...` when cut.
pub fn truncate_with_ellipsis(text: &str, max_length: usize) -> (r: String)
    ensures
        r@ == truncated(text@, max_length as nat),
        r@.len() <= max_length || r@ == text@,
{
    proof {
        reveal_strlit("...");
    }
    if text.unicode_len() <= max_length {
        String::from_str(text)
    } else if max_length <= 3 {
        String::from_str("...".substring_char(0, max_length))
    } else {
        String::from_str(text.substring_char(0, max_length - 3)).concat("...")
    }
}

/// The names joined by `, `.
pub open spec fn joined(names: Seq<Seq<char>>) -> Seq<char>
    decreases names.len(),
{
    if names.len() == 0 {
        Seq::empty()
    } else if names.len() == 1 {
        names[0]
    } else {
        joined(names.drop_last()) + ", "@ + names.last()
    }
}

/// Joining two nonempty lists of names gives each list joined, with one `, ` between
/// them: every pair of neighbouring names is separated by exactly `, `, however many names
/// there are.
pub proof fn lemma_joined_concat(a: Seq<Seq<char>>, b: Seq<Seq<char>>)
    requires
        a.len() >= 1,
        b.len() >= 1,
    ensures
        joined(a + b) == joined(a) + ", "@ + joined(b),
    decreases b.len(),
{
    if b.len() == 1 {
        assert((a + b).drop_last() =~= a);
        assert((a + b).last() == b[0]);
    } else {
        let b0 = b.drop_last();
        lemma_joined_concat(a, b0);
        assert((a + b).drop_last() =~= a + b0);
        assert((a + b).last() == b.last());
        assert(joined(a + b) =~= joined(a) + ", "@ + joined(b));
    }
}

/// The names joined by `, `: one name stands alone, and a name put in front of others is
/// followed by `, ` and the others joined; so the length is the names' lengths plus two for
/// each separator.
pub proof fn lemma_joined_names(x: Seq<char>, names: Seq<Seq<char>>)
    ensures
        joined(seq![x]) == x,
        names.len() >= 1 ==> joined(seq![x] + names) == x + ", "@ + joined(names),
        joined(Seq::<Seq<char>>::empty()) == Seq::<char>::empty(),
{
    if names.len() >= 1 {
        lemma_joined_concat(seq![x], names);
    }
}

/// The status line: players online and allowed, address, version, latency, the
/// description cut to 20 characters, then the listed players, if any.
pub open spec fn status_line(server_address: Seq<char>, latency: u64, status: ServerStatus) -> Seq<char> {
    let sep = " \u{2022} "@;
    let base = "\u{26cf}\u{fe0f} "@ + signed_decimal(status.players_online as int) + "/"@
        + signed_decimal(status.players_max as int) + sep + server_address + sep
        + status.version_name@ + sep + decimal(latency as nat) + "ms"@ + sep + truncated(
        status.description@,
        20,
    );
    match status.player_sample {
        Some(players) => base + " \u{2022} Online: "@ + joined(players@.map_values(|p: String| p@)),
        None => base,
    }
}

/// The bot's status line for a server that answered a ping in `latency` milliseconds.
pub fn format_minecraft_server_status(server_address: &str, latency: u64, status: &ServerStatus) -> (r: String)
    ensures
        r@ == status_line(server_address@, latency, *status),
{
    let sep = " \u{2022} ";
    let description_text = truncate_with_ellipsis(status.description.as_str(), 20);
    let mut line = String::from_str("\u{26cf}\u{fe0f} ");
    line.append(i64_to_decimal(status.players_online).as_str());
    line.append("/");
    line.append(i64_to_decimal(status.players_max).as_str());
    line.append(sep);
    line.append(server_address);
    line.append(sep);
    line.append(status.version_name.as_str());
    line.append(sep);
    line.append(u64_to_decimal(latency).as_str());
    line.append("ms");
    line.append(sep);
    line.append(description_text.as_str());
    if let Some(players) = &status.player_sample {
        line.append(" \u{2022} Online: ");
        let names = join_names(players);
        line.append(names.as_str());
    }
    line
}

fn join_names(players: &Vec<String>) -> (r: String)
    ensures
        r@ == joined(players@.map_values(|p: String| p@)),
{
    let ghost names = players@.map_values(|p: String| p@);
    let mut out = String::new();
    let mut i: usize = 0;
    while i < players.len()
        invariant
            i <= players.len(),
            names == players@.map_values(|p: String| p@),
            out@ == joined(names.take(i as int)),
        decreases players.len() - i,
    {
        if i > 0 {
            out.append(", ");
        }
        out.append(players[i].as_str());
        proof {
            assert(names.take(i + 1).drop_last() =~= names.take(i as int));
            if i == 0 {
                assert(joined(names.take(0)) =~= Seq::<char>::empty());
                assert(out@ =~= names.take(1)[0]);
            }
        }
        i = i + 1;
    }
    assert(names.take(players.len() as int) =~= names);
    out
}

} // verus!
