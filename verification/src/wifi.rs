//! Wireless station: connecting, and connecting again after a drop.

use vstd::prelude::*;
use vstd::utf8::encode_utf8;

use crate::format::{byte_len, joined, texts, write_pieces};

verus! {

/// Pause before the next try, in milliseconds.
pub const RETRY_MS: u64 = 2_000;

/// Pause after the credentials were rejected, in milliseconds.
pub const REJECTED_MS: u64 = 60_000;

/// Pause between looks for an address, in milliseconds.
pub const LINK_POLL_MS: u64 = 250;

/// The most bytes that a network name may have.
pub const SSID_MAX: usize = 32;

/// The most bytes that a password may have.
pub const PASSWORD_MAX: usize = 64;

/// Where the connection task is.
#[derive(Debug, Clone, Copy, PartialEq, Eq, Structural)]
pub enum Connection {
    /// Looking whether the station is connected.
    Look,
    /// Connected, until it drops.
    AwaitDrop,
    Dropped,
    /// Looking whether the radio is started.
    Started,
    /// Handing over the credentials.
    Configure,
    Rejected,
    Start,
    StartFailed,
    Connect,
    ConnectFailed,
}

/// What the connection task is to do.
#[derive(Debug, Clone, Copy, PartialEq, Eq, Structural)]
pub enum ConnectionAction {
    /// Is the station connected?
    AskConnected,
    AwaitDrop,
    /// Is the radio started?
    AskStarted,
    /// Check the credentials and set them.
    Configure,
    Start,
    Connect,
    Wait { ms: u64 },
}

/// What came of it.
#[derive(Debug, Clone, Copy, PartialEq, Eq, Structural)]
pub enum ConnectionEvent {
    /// The answer to a question.
    Answer { yes: bool },
    Dropped,
    /// The credentials do not fit.
    Rejected,
    Configured { ok: bool },
    RadioStarted { ok: bool },
    Connected { ok: bool },
    Waited,
}

impl Connection {
    pub fn new() -> (task: Self)
        ensures
            task == Connection::Look,
    {
        Connection::Look
    }

    pub open spec fn to_do(self) -> ConnectionAction {
        match self {
            Connection::Look => ConnectionAction::AskConnected,
            Connection::AwaitDrop => ConnectionAction::AwaitDrop,
            Connection::Dropped => ConnectionAction::Wait { ms: RETRY_MS },
            Connection::Started => ConnectionAction::AskStarted,
            Connection::Configure => ConnectionAction::Configure,
            Connection::Rejected => ConnectionAction::Wait { ms: REJECTED_MS },
            Connection::Start => ConnectionAction::Start,
            Connection::StartFailed => ConnectionAction::Wait { ms: RETRY_MS },
            Connection::Connect => ConnectionAction::Connect,
            Connection::ConnectFailed => ConnectionAction::Wait { ms: RETRY_MS },
        }
    }

    /// Where the task is after `event`. An event that does not belong to its
    /// action changes nothing.
    pub open spec fn next(self, event: ConnectionEvent) -> Connection {
        match (self, event) {
            (Connection::Look, ConnectionEvent::Answer { yes }) => if yes {
                Connection::AwaitDrop
            } else {
                Connection::Started
            },
            (Connection::AwaitDrop, ConnectionEvent::Dropped) => Connection::Dropped,
            (Connection::Dropped, ConnectionEvent::Waited) => Connection::Started,
            (Connection::Started, ConnectionEvent::Answer { yes }) => if yes {
                Connection::Connect
            } else {
                Connection::Configure
            },
            (Connection::Configure, ConnectionEvent::Rejected) => Connection::Rejected,
            (Connection::Configure, ConnectionEvent::Configured { ok }) => if ok {
                Connection::Start
            } else {
                Connection::Look
            },
            (Connection::Rejected, ConnectionEvent::Waited) => Connection::Look,
            (Connection::Start, ConnectionEvent::RadioStarted { ok }) => if ok {
                Connection::Connect
            } else {
                Connection::StartFailed
            },
            (Connection::StartFailed, ConnectionEvent::Waited) => Connection::Look,
            (Connection::Connect, ConnectionEvent::Connected { ok }) => if ok {
                Connection::Look
            } else {
                Connection::ConnectFailed
            },
            (Connection::ConnectFailed, ConnectionEvent::Waited) => Connection::Look,
            _ => self,
        }
    }

    /// What to do now.
    pub fn action(&self) -> (action: ConnectionAction)
        ensures
            action == self.to_do(),
    {
        match *self {
            Connection::Look => ConnectionAction::AskConnected,
            Connection::AwaitDrop => ConnectionAction::AwaitDrop,
            Connection::Dropped => ConnectionAction::Wait { ms: RETRY_MS },
            Connection::Started => ConnectionAction::AskStarted,
            Connection::Configure => ConnectionAction::Configure,
            Connection::Rejected => ConnectionAction::Wait { ms: REJECTED_MS },
            Connection::Start => ConnectionAction::Start,
            Connection::StartFailed => ConnectionAction::Wait { ms: RETRY_MS },
            Connection::Connect => ConnectionAction::Connect,
            Connection::ConnectFailed => ConnectionAction::Wait { ms: RETRY_MS },
        }
    }

    /// Take in what came of the action.
    pub fn advance(&mut self, event: ConnectionEvent)
        ensures
            *final(self) == old(self).next(event),
    {
        let next = match (*self, event) {
            (Connection::Look, ConnectionEvent::Answer { yes: true }) => Connection::AwaitDrop,
            (Connection::Look, ConnectionEvent::Answer { yes: false }) => Connection::Started,
            (Connection::AwaitDrop, ConnectionEvent::Dropped) => Connection::Dropped,
            (Connection::Dropped, ConnectionEvent::Waited) => Connection::Started,
            (Connection::Started, ConnectionEvent::Answer { yes: true }) => Connection::Connect,
            (Connection::Started, ConnectionEvent::Answer { yes: false }) => Connection::Configure,
            (Connection::Configure, ConnectionEvent::Rejected) => Connection::Rejected,
            (Connection::Configure, ConnectionEvent::Configured { ok: true }) => Connection::Start,
            (Connection::Configure, ConnectionEvent::Configured { ok: false }) => Connection::Look,
            (Connection::Rejected, ConnectionEvent::Waited) => Connection::Look,
            (Connection::Start, ConnectionEvent::RadioStarted { ok: true }) => Connection::Connect,
            (
                Connection::Start,
                ConnectionEvent::RadioStarted { ok: false },
            ) => Connection::StartFailed,
            (Connection::StartFailed, ConnectionEvent::Waited) => Connection::Look,
            (Connection::Connect, ConnectionEvent::Connected { ok: true }) => Connection::Look,
            (
                Connection::Connect,
                ConnectionEvent::Connected { ok: false },
            ) => Connection::ConnectFailed,
            (Connection::ConnectFailed, ConnectionEvent::Waited) => Connection::Look,
            (same, _) => same,
        };
        *self = next;
    }
}

/// What there is to say of a pair of credentials.
#[derive(Debug, Clone, Copy, PartialEq, Eq, Structural)]
pub enum Credentials {
    Fit,
    SsidTooLong,
    PasswordTooLong,
}

fn fits<const N: usize>(text: &str) -> (fit: bool)
    ensures
        fit == (byte_len(text@) <= N),
{
    let parts: [&str; 1] = [text];
    let ghost pieces = texts(parts@);
    proof {
        reveal_with_fuel(joined, 2);
        assert(pieces.last() == text@);
        assert(joined(pieces) =~= text@);
    }
    write_pieces::<N>(parts.as_slice()).complete
}

/// What there is to say of a name and a password.
pub open spec fn credentials_of(ssid: Seq<char>, password: Seq<char>) -> Credentials {
    if byte_len(ssid) > SSID_MAX {
        Credentials::SsidTooLong
    } else if byte_len(password) > PASSWORD_MAX {
        Credentials::PasswordTooLong
    } else {
        Credentials::Fit
    }
}

/// Check the credentials against what the radio takes.
pub fn check_credentials(ssid: &str, password: &str) -> (credentials: Credentials)
    ensures
        credentials == (if byte_len(ssid@) > SSID_MAX {
            Credentials::SsidTooLong
        } else if byte_len(password@) > PASSWORD_MAX {
            Credentials::PasswordTooLong
        } else {
            Credentials::Fit
        }),
        credentials == credentials_of(ssid@, password@),
{
    if !fits::<32>(ssid) {
        Credentials::SsidTooLong
    } else if !fits::<64>(password) {
        Credentials::PasswordTooLong
    } else {
        Credentials::Fit
    }
}

/// The 64-bit number with these two halves.
pub open spec fn seed_of(high: u32, low: u32) -> u64 {
    (0x1_0000_0000 * high + low) as u64
}

/// The seed of the network stack, from two random numbers.
pub fn stack_seed(high: u32, low: u32) -> (seed: u64)
    ensures
        seed == 0x1_0000_0000 * high + low,
        seed == seed_of(high, low),
{
    0x1_0000_0000 * (high as u64) + low as u64
}

/// The pause before the next look for an address, none once there is one.
pub open spec fn link_pause(address_known: bool) -> Option<u64> {
    if address_known {
        None
    } else {
        Some(LINK_POLL_MS)
    }
}

/// How long to wait before looking for an address again; `None` once there is
/// one.
pub fn wait_for_link(address_known: bool) -> (pause_ms: Option<u64>)
    ensures
        pause_ms == (if address_known {
            None
        } else {
            Some(LINK_POLL_MS)
        }),
        pause_ms == link_pause(address_known),
{
    if address_known {
        None
    } else {
        Some(LINK_POLL_MS)
    }
}

/// After a drop the station pauses and connects again, without asking for the
/// connection first.
pub proof fn law_drop_leads_to_reconnect()
    ensures
        ({
            let dropped = Connection::AwaitDrop.next(ConnectionEvent::Dropped);
            &&& dropped.to_do() == (ConnectionAction::Wait { ms: RETRY_MS })
            &&& dropped.next(ConnectionEvent::Waited).next(ConnectionEvent::Answer { yes: true })
                == Connection::Connect
        }),
{
}

/// The radio is started only with credentials that were set.
pub proof fn law_start_needs_credentials(task: Connection, event: ConnectionEvent)
    requires
        task != Connection::Start,
        task.next(event) == Connection::Start,
    ensures
        task == Connection::Configure,
        event == (ConnectionEvent::Configured { ok: true }),
{
}

/// Credentials fit exactly if the name has 32 bytes at most and the password 64;
/// otherwise the name is named first.
pub proof fn law_credentials_fit_the_radio(ssid: Seq<char>, password: Seq<char>)
    ensures
        credentials_of(ssid, password) == Credentials::Fit <==> encode_utf8(ssid).len() <= 32
            && encode_utf8(password).len() <= 64,
        credentials_of(ssid, password) == Credentials::SsidTooLong <==> encode_utf8(ssid).len()
            > 32,
        credentials_of(ssid, password) == Credentials::PasswordTooLong <==> encode_utf8(ssid).len()
            <= 32 && encode_utf8(password).len() > 64,
{
}

/// The seed keeps all of both random numbers.
pub proof fn law_seed_keeps_both_halves(high: u32, low: u32)
    ensures
        seed_of(high, low) / 0x1_0000_0000 == high,
        seed_of(high, low) % 0x1_0000_0000 == low,
{
}

/// An address is looked for four times a second until there is one.
pub proof fn law_link_is_polled()
    ensures
        link_pause(false) == Some(250u64),
        link_pause(true) is None,
{
}

/// A station that is not connected is configured and started where the radio is
/// not yet, and then connects; one that is connected waits for a drop. Whatever
/// fails is tried again after two seconds, credentials that do not fit after a
/// minute.
pub proof fn law_station_connects()
    ensures
        Connection::Look.to_do() == ConnectionAction::AskConnected,
        Connection::Look.next(ConnectionEvent::Answer { yes: true }).to_do()
            == ConnectionAction::AwaitDrop,
        Connection::Look.next(ConnectionEvent::Answer { yes: false }).to_do()
            == ConnectionAction::AskStarted,
        Connection::Started.next(ConnectionEvent::Answer { yes: true }).to_do()
            == ConnectionAction::Connect,
        Connection::Started.next(ConnectionEvent::Answer { yes: false }).to_do()
            == ConnectionAction::Configure,
        Connection::Configure.next(ConnectionEvent::Configured { ok: true }).to_do()
            == ConnectionAction::Start,
        Connection::Configure.next(ConnectionEvent::Configured { ok: false }) == Connection::Look,
        Connection::Configure.next(ConnectionEvent::Rejected).to_do() == (ConnectionAction::Wait {
            ms: 60_000,
        }),
        Connection::Configure.next(ConnectionEvent::Rejected).next(ConnectionEvent::Waited)
            == Connection::Look,
        Connection::Start.next(ConnectionEvent::RadioStarted { ok: true }).to_do()
            == ConnectionAction::Connect,
        Connection::Start.next(ConnectionEvent::RadioStarted { ok: false }).to_do() == (
        ConnectionAction::Wait { ms: 2_000 }),
        Connection::Start.next(ConnectionEvent::RadioStarted { ok: false }).next(
            ConnectionEvent::Waited,
        ) == Connection::Look,
        Connection::Connect.next(ConnectionEvent::Connected { ok: true }) == Connection::Look,
        Connection::Connect.next(ConnectionEvent::Connected { ok: false }).to_do() == (
        ConnectionAction::Wait { ms: 2_000 }),
        Connection::Connect.next(ConnectionEvent::Connected { ok: false }).next(
            ConnectionEvent::Waited,
        ) == Connection::Look,
        Connection::AwaitDrop.next(ConnectionEvent::Dropped).to_do() == (ConnectionAction::Wait {
            ms: 2_000,
        }),
        Connection::AwaitDrop.next(ConnectionEvent::Dropped).next(ConnectionEvent::Waited).to_do()
            == ConnectionAction::AskStarted,
{
}

/// An event that answers something else changes nothing.
pub proof fn law_stray_events_change_nothing(task: Connection, event: ConnectionEvent)
    requires
        match event {
            ConnectionEvent::Answer { .. } => task != Connection::Look && task
                != Connection::Started,
            ConnectionEvent::Dropped => task != Connection::AwaitDrop,
            ConnectionEvent::Rejected => task != Connection::Configure,
            ConnectionEvent::Configured { .. } => task != Connection::Configure,
            ConnectionEvent::RadioStarted { .. } => task != Connection::Start,
            ConnectionEvent::Connected { .. } => task != Connection::Connect,
            ConnectionEvent::Waited => task != Connection::Dropped && task != Connection::Rejected
                && task != Connection::StartFailed && task != Connection::ConnectFailed,
        },
    ensures
        task.next(event) == task,
{
}

} // verus!
