//! What an engine tells the shell that started it, and what the shell asks of it.
//!
//! An engine writes one event per line. Run by hand it writes text for people instead.
use vstd::prelude::*;

use crate::text::push_decimal;

verus! {

/// A client that the host lets in.
#[derive(Clone, Debug, PartialEq, Eq)]
pub struct PairedPeer {
    /// The fingerprint as text, with the name of the hash.
    pub fingerprint: String,
    pub label: String,
    pub paired_at_unix: u64,
}

/// What an engine reports.
#[derive(Clone, Debug, PartialEq, Eq)]
pub enum EngineEvent {
    /// The host waits for clients.
    Listening { addr: String, fingerprint: String },
    /// The host took a client in.
    PeerConnected { peer: String },
    /// The host's session ended.
    PeerDisconnected { reason: String },
    /// The client dials.
    Connecting { host: String },
    /// The client is connected, and streams this profile.
    Connected { host: String, profile: String },
    /// The client's session ended.
    Disconnected { reason: String },
    /// The engine is about to give up.
    Error { message: String },
    /// The host shows a PIN for a while.
    PairingPin { pin: String, expires_in_secs: u64 },
    /// A device was paired.
    Paired { peer: String, label: String },
    /// A device that is not paired was turned away.
    PairingRequired { peer: String },
    /// All paired devices.
    PeerList { peers: Vec<PairedPeer> },
}

/// What a shell asks of an engine.
#[derive(Clone, Debug, PartialEq, Eq)]
pub enum ShellCommand {
    /// End the session and exit.
    Stop,
    /// Show a PIN and pair with one device, under this label.
    StartPairing { label: String },
    /// Forget a device.
    RevokePeer { fingerprint: String },
    /// Report all paired devices.
    ListPeers,
}

/// How an engine reports.
#[derive(Clone, Copy, Debug, PartialEq, Eq, Structural)]
pub enum Reporter {
    /// Text for people.
    Human,
    /// One event per line, for the shell.
    Json,
}

impl Reporter {
    /// The shell starts engines with `--ipc`.
    pub fn from_ipc_flag(ipc: bool) -> (r: Self)
        ensures
            r == (if ipc {
                Reporter::Json
            } else {
                Reporter::Human
            }),
    {
        if ipc {
            Reporter::Json
        } else {
            Reporter::Human
        }
    }

    /// Whether the shell reads along.
    pub fn is_json(self) -> (r: bool)
        ensures
            r == (self == Reporter::Json),
    {
        match self {
            Reporter::Json => true,
            Reporter::Human => false,
        }
    }

    /// The lines to write for an event. `json` is the event as one line for the shell; if there is
    /// none, nothing is written to it.
    pub fn emit(self, event: &EngineEvent, json: Option<String>) -> (r: Vec<String>)
        ensures
            texts(r@) == (match self {
                Reporter::Json => match json {
                    Some(line) => seq![line@],
                    None => Seq::empty(),
                },
                Reporter::Human => event.lines(),
            }),
    {
        match self {
            Reporter::Json => match json {
                Some(line) => {
                    let r: Vec<String> = vec![line];
                    assert(texts(r@) == seq![line@]);
                    r
                },
                None => {
                    let r: Vec<String> = Vec::new();
                    assert(texts(r@) == Seq::<Seq<char>>::empty());
                    r
                },
            },
            Reporter::Human => event.human_lines(),
        }
    }
}

/// Strings as text.
pub open spec fn texts(lines: Seq<String>) -> Seq<Seq<char>> {
    lines.map_values(|s: String| s@)
}

/// The line of a device.
pub open spec fn peer_line(p: PairedPeer) -> Seq<char> {
    "  "@ + p.label@ + " ("@ + p.fingerprint@ + ")"@
}

impl EngineEvent {
    /// The event as text for people.
    pub open spec fn lines(&self) -> Seq<Seq<char>> {
        match self {
            EngineEvent::Listening { addr, fingerprint } => seq![
                "tether-host listening on "@ + addr@,
                "cert fingerprint: "@ + fingerprint@,
                "client cmd:      tether-client "@ + addr@ + " "@ + fingerprint@,
            ],
            EngineEvent::PeerConnected { peer } => seq!["client connected: "@ + peer@],
            EngineEvent::PeerDisconnected { reason } => seq!["client disconnected: "@ + reason@],
            EngineEvent::Connecting { host } => seq!["connecting to "@ + host@ + "…"@],
            EngineEvent::Connected { host, profile } => seq![
                "connected to "@ + host@ + " ("@ + profile@ + ")"@,
            ],
            EngineEvent::Disconnected { reason } => seq!["disconnected: "@ + reason@],
            EngineEvent::Error { message } => seq!["error: "@ + message@],
            EngineEvent::PairingPin { pin, expires_in_secs } => seq![
                "pairing PIN: "@ + pin@ + " (expires in "@ + crate::text::decimal(
                    *expires_in_secs as nat,
                ) + "s)"@,
            ],
            EngineEvent::Paired { peer, label } => seq![
                "paired with "@ + label@ + " ("@ + peer@ + ")"@,
            ],
            EngineEvent::PairingRequired { peer } => seq![
                "unpaired client "@ + peer@ + " refused; start pairing to allow it"@,
            ],
            EngineEvent::PeerList { peers } => seq![
                "paired devices ("@ + crate::text::decimal(peers@.len()) + "):"@,
            ] + peers@.map_values(|p: PairedPeer| peer_line(p)),
        }
    }

    /// The event as text for people.
    pub fn human_lines(&self) -> (r: Vec<String>)
        ensures
            texts(r@) == self.lines(),
    {
        proof {
            reveal_strlit("");
        }
        let mut out: Vec<String> = Vec::new();
        match self {
            EngineEvent::Listening { addr, fingerprint } => {
                let mut last: String = joined("client cmd:      tether-client ", addr, " ");
                last.append(fingerprint.as_str());
                out.push(joined("tether-host listening on ", addr, ""));
                out.push(joined("cert fingerprint: ", fingerprint, ""));
                out.push(last);
                assert(texts(out@) == self.lines());
            },
            EngineEvent::PeerConnected { peer } => {
                out.push(joined("client connected: ", peer, ""));
                assert(texts(out@) == self.lines());
            },
            EngineEvent::PeerDisconnected { reason } => {
                out.push(joined("client disconnected: ", reason, ""));
                assert(texts(out@) == self.lines());
            },
            EngineEvent::Connecting { host } => {
                out.push(joined("connecting to ", host, "…"));
                assert(texts(out@) == self.lines());
            },
            EngineEvent::Connected { host, profile } => {
                let mut line: String = joined("connected to ", host, " (");
                line.append(profile.as_str());
                line.append(")");
                out.push(line);
                assert(texts(out@) == self.lines());
            },
            EngineEvent::Disconnected { reason } => {
                out.push(joined("disconnected: ", reason, ""));
                assert(texts(out@) == self.lines());
            },
            EngineEvent::Error { message } => {
                out.push(joined("error: ", message, ""));
                assert(texts(out@) == self.lines());
            },
            EngineEvent::PairingPin { pin, expires_in_secs } => {
                let mut line: String = joined("pairing PIN: ", pin, " (expires in ");
                push_decimal(&mut line, *expires_in_secs);
                line.append("s)");
                out.push(line);
                assert(texts(out@) == self.lines());
            },
            EngineEvent::Paired { peer, label } => {
                let mut line: String = joined("paired with ", label, " (");
                line.append(peer.as_str());
                line.append(")");
                out.push(line);
                assert(texts(out@) == self.lines());
            },
            EngineEvent::PairingRequired { peer } => {
                out.push(
                    joined("unpaired client ", peer, " refused; start pairing to allow it"),
                );
                assert(texts(out@) == self.lines());
            },
            EngineEvent::PeerList { peers } => {
                let mut head: String = "paired devices (".to_owned();
                push_decimal(&mut head, peers.len() as u64);
                head.append("):");
                out.push(head);
                let ghost first = texts(out@);
                assert(first == seq![head@]);
                let mut i: usize = 0;
                while i < peers.len()
                    invariant
                        i <= peers.len(),
                        texts(out@) == first + peers@.take(i as int).map_values(
                            |p: PairedPeer| peer_line(p),
                        ),
                    decreases peers.len() - i,
                {
                    let mut line: String = joined("  ", &peers[i].label, " (");
                    line.append(peers[i].fingerprint.as_str());
                    line.append(")");
                    assert(line@ == peer_line(peers@[i as int]));
                    let ghost before = out@;
                    out.push(line);
                    assert(texts(out@) == texts(before).push(line@));
                    assert(peers@.take(i + 1) == peers@.take(i as int).push(peers@[i as int]));
                    assert(peers@.take(i + 1).map_values(|p: PairedPeer| peer_line(p))
                        == peers@.take(i as int).map_values(|p: PairedPeer| peer_line(p)).push(
                        peer_line(peers@[i as int]),
                    ));
                    i = i + 1;
                }
                assert(peers@.take(i as int) == peers@);
                assert(texts(out@) == self.lines());
            },
        }
        out
    }
}

/// A text between two others.
fn joined(before: &str, text: &String, behind: &str) -> (r: String)
    ensures
        r@ == before@ + text@ + behind@,
        behind@.len() == 0 ==> r@ == before@ + text@,
{
    let mut s: String = before.to_owned();
    s.append(text.as_str());
    s.append(behind);
    assert(behind@.len() == 0 ==> s@ =~= before@ + text@);
    s
}

/// The text is part of the line.
#[verifier::opaque]
pub open spec fn mentions(line: Seq<char>, text: Seq<char>) -> bool {
    exists|i: int|
        0 <= i <= line.len() - text.len() && #[trigger] line.subrange(i, i + text.len()) == text
}

proof fn lemma_mentions(before: Seq<char>, text: Seq<char>, behind: Seq<char>)
    ensures
        mentions(before + text + behind, text),
        mentions(before + text, text),
{
    reveal(mentions);
    let n = before.len() as int;
    assert((before + text + behind).subrange(n, n + text.len()) == text);
    assert((before + text).subrange(n, n + text.len()) == text);
}

/// Whatever an event reports is there to read: the address and the fingerprint of a host that
/// listens, each by itself and in the command that a client is started with, who came and went and
/// why, the PIN and how long it is good for. An event other than these two is one line.
#[verifier::spinoff_prover]
pub proof fn events_show_what_they_report(event: EngineEvent)
    ensures
        event.lines().len() >= 1,
        match event {
            EngineEvent::Listening { addr, fingerprint } => {
                &&& event.lines().len() == 3
                &&& mentions(event.lines()[0], addr@)
                &&& mentions(event.lines()[1], fingerprint@)
                &&& mentions(event.lines()[2], addr@ + " "@ + fingerprint@)
            },
            EngineEvent::PeerConnected { peer } => mentions(event.lines()[0], peer@),
            EngineEvent::PeerDisconnected { reason } => mentions(event.lines()[0], reason@),
            EngineEvent::Connecting { host } => mentions(event.lines()[0], host@),
            EngineEvent::Connected { host, profile } => mentions(event.lines()[0], host@)
                && mentions(event.lines()[0], profile@),
            EngineEvent::Disconnected { reason } => mentions(event.lines()[0], reason@),
            EngineEvent::Error { message } => mentions(event.lines()[0], message@),
            EngineEvent::PairingPin { pin, expires_in_secs } => mentions(event.lines()[0], pin@)
                && mentions(event.lines()[0], crate::text::decimal(expires_in_secs as nat)),
            EngineEvent::Paired { peer, label } => mentions(event.lines()[0], peer@) && mentions(
                event.lines()[0],
                label@,
            ),
            EngineEvent::PairingRequired { peer } => mentions(event.lines()[0], peer@),
            EngineEvent::PeerList { peers } => {
                &&& event.lines().len() == 1 + peers@.len()
                &&& mentions(event.lines()[0], crate::text::decimal(peers@.len()))
            },
        },
        !(event is Listening) && !(event is PeerList) ==> event.lines().len() == 1,
{
    match event {
        EngineEvent::Listening { addr, fingerprint } => {
            let start = "client cmd:      tether-client "@;
            lemma_mentions("tether-host listening on "@, addr@, Seq::empty());
            lemma_mentions("cert fingerprint: "@, fingerprint@, Seq::empty());
            lemma_mentions(start, addr@ + " "@ + fingerprint@, Seq::empty());
            assert(start + (addr@ + " "@ + fingerprint@) == start + addr@ + " "@ + fingerprint@);
        },
        EngineEvent::PeerConnected { peer } => {
            lemma_mentions("client connected: "@, peer@, Seq::empty());
        },
        EngineEvent::PeerDisconnected { reason } => {
            lemma_mentions("client disconnected: "@, reason@, Seq::empty());
        },
        EngineEvent::Connecting { host } => {
            lemma_mentions("connecting to "@, host@, "…"@);
        },
        EngineEvent::Connected { host, profile } => {
            let start = "connected to "@ + host@ + " ("@;
            lemma_mentions("connected to "@, host@, " ("@ + profile@ + ")"@);
            assert("connected to "@ + host@ + (" ("@ + profile@ + ")"@) == start + profile@ + ")"@);
            lemma_mentions(start, profile@, ")"@);
        },
        EngineEvent::Disconnected { reason } => {
            lemma_mentions("disconnected: "@, reason@, Seq::empty());
        },
        EngineEvent::Error { message } => {
            lemma_mentions("error: "@, message@, Seq::empty());
        },
        EngineEvent::PairingPin { pin, expires_in_secs } => {
            let secs = crate::text::decimal(expires_in_secs as nat);
            let start = "pairing PIN: "@ + pin@ + " (expires in "@;
            lemma_mentions("pairing PIN: "@, pin@, " (expires in "@ + secs + "s)"@);
            assert("pairing PIN: "@ + pin@ + (" (expires in "@ + secs + "s)"@) == start + secs
                + "s)"@);
            lemma_mentions(start, secs, "s)"@);
        },
        EngineEvent::Paired { peer, label } => {
            let start = "paired with "@ + label@ + " ("@;
            lemma_mentions("paired with "@, label@, " ("@ + peer@ + ")"@);
            assert("paired with "@ + label@ + (" ("@ + peer@ + ")"@) == start + peer@ + ")"@);
            lemma_mentions(start, peer@, ")"@);
        },
        EngineEvent::PairingRequired { peer } => {
            lemma_mentions("unpaired client "@, peer@, " refused; start pairing to allow it"@);
        },
        EngineEvent::PeerList { peers } => {
            lemma_mentions("paired devices ("@, crate::text::decimal(peers@.len()), "):"@);
        },
    }
}

/// The list of paired devices has a line for each, in order, with its label and fingerprint.
pub proof fn every_paired_device_is_listed(peers: Vec<PairedPeer>, i: int)
    requires
        0 <= i < peers@.len(),
    ensures
        ({
            let line = (EngineEvent::PeerList { peers }).lines()[1 + i];
            mentions(line, peers@[i].label@) && mentions(line, peers@[i].fingerprint@)
        }),
{
    let p = peers@[i];
    let start = "  "@ + p.label@ + " ("@;
    lemma_mentions("  "@, p.label@, " ("@ + p.fingerprint@ + ")"@);
    assert("  "@ + p.label@ + (" ("@ + p.fingerprint@ + ")"@) == start + p.fingerprint@ + ")"@);
    lemma_mentions(start, p.fingerprint@, ")"@);
    assert((EngineEvent::PeerList { peers }).lines()[1 + i] == peer_line(p));
}

} // verus!
