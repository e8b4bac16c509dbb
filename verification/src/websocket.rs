//! The bookkeeping of the WebSocket fan-out server: the peers that are
//! connected, the groups they subscribed to, what an inbound frame leads
//! to, and which peers an outbound event goes to.

use vstd::prelude::*;
use vstd::string::StringExecFns;
use vstd::utf8::encode_utf8;
use crate::host::{Backend, ConfigError, EnvView, Environment, FromEnv};
use crate::json::Json;
use crate::vecs::reversed;
use crate::wire::copy_bytes;

verus! {

/// `futures_channel::mpsc::Sender`, the sending end of a peer's outbound
/// channel.
#[verifier::external_type_specification]
#[verifier::external_body]
#[verifier::reject_recursive_types(T)]
pub struct ExMpscSender<T>(futures_channel::mpsc::Sender<T>);

/// The greatest number of peers that can be connected at a time.
pub const MAX_CONNECTIONS: usize = 1024;

/// The number of messages that the outbound channel of a peer can hold.
pub const PEER_CHANNEL_CAPACITY: usize = 256;

/// The number of events that the broadcast bus can hold.
pub const BROADCAST_CAPACITY: usize = 256;

/// Calls `futures_channel::mpsc::Sender::try_send`, which never blocks. The
/// payload is enqueued exactly when `true` comes back; whether it is depends
/// on the channel, so the contract says nothing of the result.
#[verifier::external_body]
fn try_send(sender: &mut futures_channel::mpsc::Sender<Vec<u8>>, payload: Vec<u8>) -> (sent: bool) {
    sender.try_send(payload).is_ok()
}

/// Calls `futures_channel::mpsc::Sender::is_closed`. The answer depends on
/// the channel, so the contract says nothing of it.
#[verifier::external_body]
fn is_closed(sender: &futures_channel::mpsc::Sender<Vec<u8>>) -> (closed: bool) {
    sender.is_closed()
}

/// An event that flows between peers and guests.
pub trait Event {
    /// The group that the event belongs to, if any. An implementation that
    /// does not say leaves it open.
    open spec fn group_view(&self) -> Option<Seq<char>> {
        arbitrary()
    }

    /// The payload of the event. An implementation that does not say
    /// leaves it open.
    open spec fn data_view(&self) -> Seq<u8> {
        arbitrary()
    }

    /// The group that the event was received on, if any.
    fn group(&self) -> (r: Option<String>)
        ensures
            crate::wire::text_view(r) == self.group_view(),
    ;

    /// The payload of the event.
    fn data(&self) -> (r: Vec<u8>)
        ensures
            r@ == self.data_view(),
    ;
}

/// An event held in memory. Once made it does not change.
#[derive(Debug, Clone, Default, PartialEq, Eq)]
pub struct InMemEvent {
    data: Vec<u8>,
    group: Option<String>,
}

impl InMemEvent {
    /// An event with `data` as its payload and the given group.
    pub fn new(data: Vec<u8>, group: Option<String>) -> (r: InMemEvent)
        ensures
            r.data_view() == data@,
            r.group_view() == crate::wire::text_view(group),
    {
        InMemEvent { data, group }
    }
}

impl Event for InMemEvent {
    closed spec fn group_view(&self) -> Option<Seq<char>> {
        crate::wire::text_view(self.group)
    }

    closed spec fn data_view(&self) -> Seq<u8> {
        self.data@
    }

    fn group(&self) -> (r: Option<String>) {
        match &self.group {
            Some(g) => Some(g.clone()),
            None => None,
        }
    }

    fn data(&self) -> (r: Vec<u8>) {
        copy_bytes(&self.data)
    }
}

/// A handle on an event that a guest was given.
#[derive(Debug, Clone, PartialEq, Eq)]
pub struct EventProxy(pub InMemEvent);

impl Event for EventProxy {
    open spec fn group_view(&self) -> Option<Seq<char>> {
        self.0.group_view()
    }

    open spec fn data_view(&self) -> Seq<u8> {
        self.0.data_view()
    }

    fn group(&self) -> (r: Option<String>) {
        self.0.group()
    }

    fn data(&self) -> (r: Vec<u8>) {
        self.0.data()
    }
}

/// The host-side service of the WebSocket capability.
#[derive(Debug, Clone, Copy, PartialEq, Eq, Structural)]
pub struct WasiWebSocket;

impl WasiWebSocket {
    /// A new event without a group, as a guest asks for one.
    pub fn new_event(&self, data: Vec<u8>) -> (r: EventProxy)
        ensures
            r.data_view() == data@,
            r.group_view() is None,
    {
        EventProxy(InMemEvent::new(data, None))
    }
}

/// Whether `name` is among the first `n` of `names`.
pub open spec fn listed(names: Seq<Seq<char>>, n: nat, name: Seq<char>) -> bool {
    exists|i: int| 0 <= i < n && i < names.len() && names[i] == name
}

/// The group names among the first `n` items of a JSON array: the texts of
/// its string items in their order, each once; other items are passed over.
pub open spec fn group_names(items: Seq<Json>, n: nat) -> Seq<Seq<char>>
    decreases n,
{
    if n == 0 || n > items.len() {
        Seq::<Seq<char>>::empty()
    } else {
        let before = group_names(items, (n - 1) as nat);
        match items[n - 1].text() {
            Some(name) => if listed(before, before.len(), name) {
                before
            } else {
                before.push(name)
            },
            None => before,
        }
    }
}

/// The groups that a document subscribes to: those of its member `groups`,
/// where that is an array and its member `type` is the text `subscribe`.
/// Any other document is no subscription.
pub open spec fn subscription(doc: Json) -> Option<Seq<Seq<char>>> {
    match (doc.member("type"@), doc.member("groups"@)) {
        (Some(kind), Some(groups)) => if kind.text() == Some("subscribe"@) {
            match groups.items() {
                Some(items) => Some(group_names(items, items.len())),
                None => None,
            }
        } else {
            None
        },
        _ => None,
    }
}

/// The groups that a text frame subscribes to; `None` where the text is
/// not JSON or is JSON of another shape.
pub open spec fn subscription_of_text(text: Seq<char>) -> Option<Seq<Seq<char>>> {
    match crate::json::json_of_text(text) {
        Some(doc) => subscription(doc),
        None => None,
    }
}

/// The views of a list of names, item by item.
pub open spec fn groups_view(groups: Seq<String>) -> Seq<Seq<char>> {
    Seq::new(groups.len(), |i: int| groups[i]@)
}

/// The view of an optional list of names.
pub open spec fn wanted_view(groups: Option<&Vec<String>>) -> Option<Seq<Seq<char>>> {
    match groups {
        Some(g) => Some(groups_view(g@)),
        None => None,
    }
}

/// A copy of a list of names.
pub fn copy_names(names: &Vec<String>) -> (r: Vec<String>)
    ensures
        groups_view(r@) == groups_view(names@),
{
    let mut out: Vec<String> = Vec::new();
    let mut k: usize = 0;
    while k < names.len()
        invariant
            k <= names.len(),
            out@.len() == k,
            forall|j: int| 0 <= j < k ==> (#[trigger] out@[j])@ == names@[j]@,
        decreases names.len() - k,
    {
        out.push(names[k].clone());
        k = k + 1;
    }
    proof {
        assert(groups_view(out@) =~= groups_view(names@));
    }
    out
}

/// Whether `name` is one of `names`.
pub fn contains_name(names: &Vec<String>, name: &str) -> (r: bool)
    ensures
        r == listed(groups_view(names@), names@.len(), name@),
{
    let wanted = String::from_str(name);
    let mut i: usize = 0;
    while i < names.len()
        invariant
            i <= names.len(),
            wanted@ == name@,
            !listed(groups_view(names@), i as nat, name@),
        decreases names.len() - i,
    {
        if names[i] == wanted {
            proof {
                assert(groups_view(names@)[i as int] == name@);
            }
            return true;
        }
        i = i + 1;
    }
    false
}

/// The groups that a JSON document subscribes to.
pub fn subscription_groups(doc: &Json) -> (r: Option<Vec<String>>)
    ensures
        match r {
            Some(groups) => subscription(*doc) == Some(groups_view(groups@)),
            None => subscription(*doc) is None,
        },
{
    let kind = match doc.get("type") {
        Some(kind) => kind,
        None => {
            return None;
        },
    };
    let groups = match doc.get("groups") {
        Some(groups) => groups,
        None => {
            return None;
        },
    };
    let is_subscribe = match kind.as_str() {
        Some(word) => String::from_str(word) == String::from_str("subscribe"),
        None => false,
    };
    if !is_subscribe {
        return None;
    }
    let items = match groups.as_array() {
        Some(items) => items,
        None => {
            return None;
        },
    };
    let mut names: Vec<String> = Vec::new();
    let mut i: usize = 0;
    while i < items.len()
        invariant
            i <= items.len(),
            groups_view(names@) == group_names(items@, i as nat),
        decreases items.len() - i,
    {
        let ghost before = names@;
        match items[i].as_str() {
            Some(name) => {
                if !contains_name(&names, name) {
                    names.push(String::from_str(name));
                    proof {
                        assert(groups_view(names@) =~= groups_view(before).push(name@));
                    }
                }
            },
            None => {},
        }
        i = i + 1;
    }
    Some(names)
}

/// The groups that a text frame subscribes to.
pub fn parse_subscription(text: &str) -> (r: Option<Vec<String>>)
    ensures
        match r {
            Some(groups) => subscription_of_text(text@) == Some(groups_view(groups@)),
            None => subscription_of_text(text@) is None,
        },
{
    match Json::parse(text) {
        Some(doc) => subscription_groups(&doc),
        None => None,
    }
}

/// A frame that a peer sent.
#[derive(Debug, Clone, PartialEq, Eq)]
pub enum Frame {
    Text(String),
    Binary(Vec<u8>),
    Close,
    /// A ping, a pong or a raw frame.
    Other,
}

/// What an inbound frame leads to.
#[derive(Debug, Clone, PartialEq, Eq)]
pub enum FrameAction {
    /// The peer's groups are replaced by these.
    Subscribe(Vec<String>),
    /// The payload is published on the broadcast bus.
    Publish(Vec<u8>),
    /// The peer is closing.
    Disconnect,
    /// Nothing happens.
    Ignore,
}

/// Calls `str::as_bytes` and copies what it gives: the UTF-8 bytes of a text.
fn text_bytes(text: &str) -> (r: Vec<u8>)
    ensures
        r@ == encode_utf8(text@),
{
    let bytes = text.as_bytes();
    let mut out: Vec<u8> = Vec::new();
    let mut i: usize = 0;
    while i < bytes.len()
        invariant
            i <= bytes.len(),
            bytes@ == encode_utf8(text@),
            out@ == bytes@.take(i as int),
        decreases bytes.len() - i,
    {
        out.push(bytes[i]);
        i = i + 1;
        assert(out@ =~= bytes@.take(i as int));
    }
    assert(bytes@.take(bytes@.len() as int) =~= bytes@);
    out
}

/// What a frame asks for, as mathematical values.
pub enum FrameOutcome {
    Subscribe(Seq<Seq<char>>),
    Publish(Seq<u8>),
    Disconnect,
    Ignore,
}

impl View for FrameAction {
    type V = FrameOutcome;

    open spec fn view(&self) -> FrameOutcome {
        match *self {
            FrameAction::Subscribe(groups) => FrameOutcome::Subscribe(groups_view(groups@)),
            FrameAction::Publish(data) => FrameOutcome::Publish(data@),
            FrameAction::Disconnect => FrameOutcome::Disconnect,
            FrameAction::Ignore => FrameOutcome::Ignore,
        }
    }
}

/// What a frame leads to: a text frame that is a subscription replaces
/// the groups; any other text is published as its UTF-8 bytes and a binary
/// frame as it is; a close frame disconnects; any other frame is ignored.
pub open spec fn frame_outcome(frame: Frame) -> FrameOutcome {
    match frame {
        Frame::Text(text) => match subscription_of_text(text@) {
            Some(groups) => FrameOutcome::Subscribe(groups),
            None => FrameOutcome::Publish(encode_utf8(text@)),
        },
        Frame::Binary(data) => FrameOutcome::Publish(data@),
        Frame::Close => FrameOutcome::Disconnect,
        Frame::Other => FrameOutcome::Ignore,
    }
}

/// Decides what an inbound frame leads to.
pub fn on_frame(frame: Frame) -> (r: FrameAction)
    ensures
        r@ == frame_outcome(frame),
{
    match frame {
        Frame::Text(text) => match parse_subscription(text.as_str()) {
            Some(groups) => FrameAction::Subscribe(groups),
            None => FrameAction::Publish(text_bytes(text.as_str())),
        },
        Frame::Binary(data) => FrameAction::Publish(data),
        Frame::Close => FrameAction::Disconnect,
        Frame::Other => FrameAction::Ignore,
    }
}

/// Where a peer stands in its life.
#[derive(Debug, Clone, Copy, PartialEq, Eq, Structural)]
pub enum PeerState {
    Accepted,
    Open,
    Closing,
    Closed,
}

/// What can happen to a peer.
#[derive(Debug, Clone, Copy, PartialEq, Eq, Structural)]
pub enum PeerEvent {
    HandshakeOk,
    HandshakeFailed,
    /// A text frame that is a subscription.
    Subscribed,
    /// A text or binary frame with a payload.
    Payload,
    CloseFrame,
    ChannelError,
    Cleanup,
}

/// The state after an event. An accepted peer opens or closes with its
/// handshake; an open peer stays open over subscriptions and payloads and
/// starts closing on a close frame or a channel error; a closing peer is
/// closed by its cleanup. Any other event leaves the state as it is.
pub open spec fn next_state(state: PeerState, event: PeerEvent) -> PeerState {
    match (state, event) {
        (PeerState::Accepted, PeerEvent::HandshakeOk) => PeerState::Open,
        (PeerState::Accepted, PeerEvent::HandshakeFailed) => PeerState::Closed,
        (PeerState::Open, PeerEvent::CloseFrame) => PeerState::Closing,
        (PeerState::Open, PeerEvent::ChannelError) => PeerState::Closing,
        (PeerState::Closing, PeerEvent::Cleanup) => PeerState::Closed,
        (s, _) => s,
    }
}

impl PeerState {
    /// The state after `event`.
    pub fn step(self, event: PeerEvent) -> (r: PeerState)
        ensures
            r == next_state(self, event),
    {
        match (self, event) {
            (PeerState::Accepted, PeerEvent::HandshakeOk) => PeerState::Open,
            (PeerState::Accepted, PeerEvent::HandshakeFailed) => PeerState::Closed,
            (PeerState::Open, PeerEvent::CloseFrame) => PeerState::Closing,
            (PeerState::Open, PeerEvent::ChannelError) => PeerState::Closing,
            (PeerState::Closing, PeerEvent::Cleanup) => PeerState::Closed,
            (s, _) => s,
        }
    }
}

/// Why a peer could not be added.
#[derive(Debug, Clone, Copy, PartialEq, Eq, Structural)]
pub enum AcceptError {
    /// As many peers as can be are connected.
    MaxConnections,
}

/// Why an event did not reach every peer it was meant for.
#[derive(Debug, Clone, Copy, PartialEq, Eq, Structural)]
pub enum SendError {
    /// The channel of this many peers was full or closed; for them the
    /// event is dropped.
    ChannelFull { failures: usize },
}

/// What became of an event that was sent: the number of peers it was
/// meant for, and the number of those whose channel did not take it.
#[derive(Debug, Clone, Copy, PartialEq, Eq, Structural)]
pub struct SendReport {
    pub targeted: usize,
    pub failures: usize,
}

/// What a send comes to, once every target was tried: a send to all peers
/// that failed for some of them is an error with their number; a send to
/// groups drops the event for the peers that did not take it and reports
/// their number; a send without failures reports none.
pub open spec fn send_result(
    targeted: usize,
    failures: usize,
    filtered: bool,
) -> Result<SendReport, SendError> {
    if failures > 0 && !filtered {
        Err(SendError::ChannelFull { failures })
    } else {
        Ok(SendReport { targeted, failures })
    }
}

/// Decides what a send comes to, once every target was tried.
pub fn send_outcome(targeted: usize, failures: usize, filtered: bool) -> (r: Result<
    SendReport,
    SendError,
>)
    ensures
        r == send_result(targeted, failures, filtered),
{
    if failures > 0 && !filtered {
        Err(SendError::ChannelFull { failures })
    } else {
        Ok(SendReport { targeted, failures })
    }
}

impl SendError {
    /// The number of peers that the event did not reach.
    pub open spec fn failed(self) -> nat {
        match self {
            SendError::ChannelFull { failures } => failures as nat,
        }
    }

    /// The error in words.
    pub fn to_string(&self) -> (r: String)
        ensures
            r@ == "failed to enqueue websocket payload for "@ + crate::text::decimal(
                self.failed(),
            ) + " connection(s)"@,
    {
        match self {
            SendError::ChannelFull { failures } => {
                let mut text = String::from_str("failed to enqueue websocket payload for ");
                crate::text::push_decimal(&mut text, *failures);
                text.append(" connection(s)");
                text
            },
        }
    }
}

/// A connected peer: its number, the groups it subscribed to, and the
/// sending end of its outbound channel.
pub struct Connection {
    peer: u64,
    groups: Vec<String>,
    sender: futures_channel::mpsc::Sender<Vec<u8>>,
}

/// A connected peer as a mathematical value: its number, its groups, and
/// the sending end of its outbound channel.
pub struct PeerModel {
    pub peer: u64,
    pub groups: Seq<Seq<char>>,
    pub sender: futures_channel::mpsc::Sender<Vec<u8>>,
}

impl View for Connection {
    type V = PeerModel;

    closed spec fn view(&self) -> PeerModel {
        PeerModel { peer: self.peer, groups: groups_view(self.groups@), sender: self.sender }
    }
}

/// Whether two lists of groups share a group.
pub open spec fn shares_group(have: Seq<Seq<char>>, wanted: Seq<Seq<char>>) -> bool {
    exists|i: int| 0 <= i < have.len() && listed(wanted, wanted.len(), #[trigger] have[i])
}

/// Whether an event for the groups `wanted` goes to a peer with the groups
/// `have`: to every peer where no groups are asked for, else to the peers
/// that subscribed to one of them.
pub open spec fn is_target(have: Seq<Seq<char>>, wanted: Option<Seq<Seq<char>>>) -> bool {
    match wanted {
        None => true,
        Some(w) => shares_group(have, w),
    }
}

/// The peers among the first `n` of `peers` that an event for `wanted` goes
/// to, in their order.
pub open spec fn target_peers(
    peers: Seq<PeerModel>,
    n: nat,
    wanted: Option<Seq<Seq<char>>>,
) -> Seq<u64>
    decreases n,
{
    if n == 0 || n > peers.len() {
        Seq::<u64>::empty()
    } else if is_target(peers[n - 1].groups, wanted) {
        target_peers(peers, (n - 1) as nat, wanted).push(peers[n - 1].peer)
    } else {
        target_peers(peers, (n - 1) as nat, wanted)
    }
}

/// Whether no two of the peers share a number.
pub open spec fn peers_distinct(peers: Seq<PeerModel>) -> bool {
    forall|i: int, j: int| 0 <= i < j < peers.len() ==> peers[i].peer != peers[j].peer
}

/// Whether one of the first `n` of `peers` has the number `peer`.
pub open spec fn has_peer(peers: Seq<PeerModel>, n: int, peer: u64) -> bool {
    exists|i: int| 0 <= i < n && i < peers.len() && (#[trigger] peers[i]).peer == peer
}

/// Whether a peer is none of those with the numbers `dropped`.
pub open spec fn not_among(dropped: Seq<u64>) -> spec_fn(PeerModel) -> bool {
    |p: PeerModel| !dropped.contains(p.peer)
}

/// Whether each of `now` was among `before`, with the same groups.
pub open spec fn kept_from(now: Seq<PeerModel>, before: Seq<PeerModel>) -> bool {
    forall|i: int| 0 <= i < now.len() ==> before.contains(#[trigger] now[i])
}

/// Whether no name occurs twice in a list.
pub open spec fn no_repeat(names: Seq<Seq<char>>) -> bool {
    forall|i: int, j: int| 0 <= i < j < names.len() ==> names[i] != names[j]
}

/// Whether no peer has a group twice.
pub open spec fn groups_distinct(peers: Seq<PeerModel>) -> bool {
    forall|i: int| 0 <= i < peers.len() ==> no_repeat((#[trigger] peers[i]).groups)
}

/// The first `n` of `names` in their order, each once: a name that came
/// before is passed over.
pub open spec fn unique_names(names: Seq<Seq<char>>, n: nat) -> Seq<Seq<char>>
    decreases n,
{
    if n == 0 || n > names.len() {
        Seq::<Seq<char>>::empty()
    } else {
        let before = unique_names(names, (n - 1) as nat);
        if listed(before, before.len(), names[n - 1]) {
            before
        } else {
            before.push(names[n - 1])
        }
    }
}

/// Whether `now` holds the peers of `before` in their order, each with the
/// groups it had.
pub open spec fn same_peers(now: Seq<PeerModel>, before: Seq<PeerModel>) -> bool {
    now.len() == before.len() && forall|i: int|
        0 <= i < now.len() ==> (#[trigger] now[i]).peer == before[i].peer && now[i].groups
            == before[i].groups
}

/// How a map stands after an event for `wanted` was offered to its
/// targets: the peers and their groups are those of `before`, and a peer
/// that is no target is as it was, its channel untouched.
pub open spec fn offered(
    now: Seq<PeerModel>,
    before: Seq<PeerModel>,
    wanted: Option<Seq<Seq<char>>>,
) -> bool {
    same_peers(now, before) && forall|i: int|
        0 <= i < now.len() && !is_target(before[i].groups, wanted) ==> (#[trigger] now[i])
            == before[i]
}

/// The numbers of those of the first `n` peers whose answer is `true`, in
/// the order of the map. A peer without an answer is not named.
pub open spec fn flagged(peers: Seq<PeerModel>, answers: Seq<bool>, n: nat) -> Seq<u64>
    decreases n,
{
    if n == 0 {
        Seq::<u64>::empty()
    } else if n <= peers.len() && n <= answers.len() && answers[n - 1] {
        flagged(peers, answers, (n - 1) as nat).push(peers[n - 1].peer)
    } else {
        flagged(peers, answers, (n - 1) as nat)
    }
}

/// The test for an answer that says that a payload was not taken.
pub open spec fn declined() -> spec_fn(bool) -> bool {
    |sent: bool| !sent
}

/// How many of the answers say that a payload was not taken.
pub open spec fn refusals(sent: Seq<bool>) -> nat {
    sent.filter(declined()).len()
}

/// Counts the answers that say that a payload was not taken.
pub fn failures_among(sent: &Vec<bool>) -> (n: usize)
    ensures
        n == refusals(sent@),
        n <= sent@.len(),
{
    let mut n: usize = 0;
    let mut i: usize = 0;
    proof {
        assert(sent@.take(0) =~= Seq::<bool>::empty());
        assert(Seq::<bool>::empty().filter(declined()) =~= Seq::<bool>::empty()) by {
            reveal(Seq::filter);
        }
    }
    while i < sent.len()
        invariant
            i <= sent.len(),
            n <= i,
            n == refusals(sent@.take(i as int)),
        decreases sent.len() - i,
    {
        proof {
            assert(sent@.take(i + 1) =~= sent@.take(i as int).push(sent@[i as int]));
            sent@.take(i as int).lemma_filter_push(sent@[i as int], declined());
        }
        if !sent[i] {
            n = n + 1;
        }
        i = i + 1;
    }
    proof {
        assert(sent@.take(sent@.len() as int) =~= sent@);
    }
    n
}

/// The names of a list in their order, each once.
pub fn unique(names: &Vec<String>) -> (r: Vec<String>)
    ensures
        groups_view(r@) == unique_names(groups_view(names@), names@.len() as nat),
{
    let mut out: Vec<String> = Vec::new();
    let mut i: usize = 0;
    while i < names.len()
        invariant
            i <= names.len(),
            groups_view(out@) == unique_names(groups_view(names@), i as nat),
        decreases names.len() - i,
    {
        let ghost before = out@;
        proof {
            assert(groups_view(names@)[i as int] == names@[i as int]@);
        }
        if !contains_name(&out, names[i].as_str()) {
            out.push(names[i].clone());
            proof {
                assert(groups_view(out@) =~= groups_view(before).push(names@[i as int]@));
            }
        }
        i = i + 1;
    }
    out
}

/// Whether `number` is one of `numbers`.
pub fn has_number(numbers: &Vec<u64>, number: u64) -> (r: bool)
    ensures
        r == numbers@.contains(number),
{
    let mut i: usize = 0;
    while i < numbers.len()
        invariant
            i <= numbers.len(),
            forall|k: int| 0 <= k < i ==> numbers@[k] != number,
        decreases numbers.len() - i,
    {
        if numbers[i] == number {
            return true;
        }
        i = i + 1;
    }
    false
}

/// Whether two lists of groups share a group.
pub fn intersects(have: &Vec<String>, wanted: &Vec<String>) -> (r: bool)
    ensures
        r == shares_group(groups_view(have@), groups_view(wanted@)),
{
    let mut i: usize = 0;
    while i < have.len()
        invariant
            i <= have.len(),
            forall|k: int|
                0 <= k < i ==> !listed(
                    groups_view(wanted@),
                    wanted@.len(),
                    #[trigger] groups_view(have@)[k],
                ),
        decreases have.len() - i,
    {
        if contains_name(wanted, have[i].as_str()) {
            proof {
                assert(groups_view(have@)[i as int] == have@[i as int]@);
            }
            return true;
        }
        i = i + 1;
    }
    false
}

/// The peers that are connected. There are never more than
/// [`MAX_CONNECTIONS`] of them, no two share a number, and none has a group
/// twice.
pub struct ConnectionMap {
    conns: Vec<Connection>,
}

/// The views of a list of connections, item by item.
pub open spec fn connections_view(conns: Seq<Connection>) -> Seq<PeerModel> {
    Seq::new(conns.len(), |i: int| conns[i]@)
}

impl View for ConnectionMap {
    type V = Seq<PeerModel>;

    closed spec fn view(&self) -> Seq<PeerModel> {
        connections_view(self.conns@)
    }
}

impl ConnectionMap {
    #[verifier::type_invariant]
    closed spec fn inv(&self) -> bool {
        self.conns@.len() <= MAX_CONNECTIONS && peers_distinct(connections_view(self.conns@))
            && groups_distinct(connections_view(self.conns@))
    }

    /// A map without peers.
    pub fn new() -> (r: ConnectionMap)
        ensures
            r@ == Seq::<PeerModel>::empty(),
    {
        let r = ConnectionMap { conns: Vec::new() };
        proof {
            assert(connections_view(r.conns@) =~= Seq::<PeerModel>::empty());
        }
        r
    }

    /// The number of connected peers. It never exceeds
    /// [`MAX_CONNECTIONS`], no two peers share a number, and no peer has a
    /// group twice.
    pub fn len(&self) -> (n: usize)
        ensures
            n == self@.len(),
            n <= MAX_CONNECTIONS,
            peers_distinct(self@),
            groups_distinct(self@),
    {
        proof {
            use_type_invariant(self);
        }
        self.conns.len()
    }

    /// Where `peer` stands in the map, if it is connected.
    fn position(&self, peer: u64) -> (r: Option<usize>)
        ensures
            match r {
                Some(i) => i < self@.len() && self@[i as int].peer == peer,
                None => forall|k: int| 0 <= k < self@.len() ==> self@[k].peer != peer,
            },
    {
        let mut i: usize = 0;
        while i < self.conns.len()
            invariant
                i <= self.conns.len(),
                forall|k: int| 0 <= k < i ==> connections_view(self.conns@)[k].peer != peer,
            decreases self.conns.len() - i,
        {
            if self.conns[i].peer == peer {
                return Some(i);
            }
            i = i + 1;
        }
        None
    }

    /// The groups of `peer`, if it is connected; none of them twice.
    pub fn groups_of(&self, peer: u64) -> (r: Option<Vec<String>>)
        ensures
            match r {
                Some(groups) => no_repeat(groups_view(groups@)) && exists|i: int|
                    0 <= i < self@.len() && self@[i].peer == peer && self@[i].groups
                        == groups_view(groups@),
                None => forall|k: int| 0 <= k < self@.len() ==> self@[k].peer != peer,
            },
    {
        proof {
            use_type_invariant(self);
        }
        match self.position(peer) {
            Some(i) => {
                let out = copy_names(&self.conns[i].groups);
                proof {
                    assert(self@[i as int].groups == groups_view(out@));
                    assert(no_repeat(self@[i as int].groups));
                }
                Some(out)
            },
            None => None,
        }
    }

    /// Adds a peer with no groups and with `sender` as the sending end of
    /// its outbound channel. A peer that is connected already is replaced.
    ///
    /// Fails with `MaxConnections`, and leaves the map as it is, exactly
    /// when [`MAX_CONNECTIONS`] peers are connected.
    #[verifier::rlimit(40)]
    pub fn save_socket(
        &mut self,
        peer: u64,
        sender: futures_channel::mpsc::Sender<Vec<u8>>,
    ) -> (r: Result<(), AcceptError>)
        ensures
            old(self)@.len() >= MAX_CONNECTIONS ==> r == Err::<(), AcceptError>(
                AcceptError::MaxConnections,
            ) && final(self)@ == old(self)@,
            old(self)@.len() < MAX_CONNECTIONS ==> r is Ok && final(self)@ == old(self)@.filter(
                |p: PeerModel| p.peer != peer,
            ).push(PeerModel { peer, groups: Seq::<Seq<char>>::empty(), sender }),
    {
        proof {
            use_type_invariant(&*self);
        }
        if self.conns.len() >= MAX_CONNECTIONS {
            return Err(AcceptError::MaxConnections);
        }
        let ghost before = self@;
        let mut conns = Vec::new();
        std::mem::swap(&mut conns, &mut self.conns);
        let mut kept = Self::without(conns, peer);
        kept.push(Connection { peer, groups: Vec::new(), sender });
        proof {
            let rest = before.filter(|p: PeerModel| p.peer != peer);
            let added = PeerModel { peer, groups: Seq::<Seq<char>>::empty(), sender };
            assert(groups_view(Seq::<String>::empty()) =~= Seq::<Seq<char>>::empty());
            assert(connections_view(kept@) =~= rest.push(added));
            before.lemma_filter_len(|p: PeerModel| p.peer != peer);
            lemma_filter_distinct(before, peer);
            lemma_filter_keeps_groups(before, |p: PeerModel| p.peer != peer);
            assert(groups_distinct(rest.push(added))) by {
                assert forall|i: int| 0 <= i < rest.push(added).len() implies no_repeat(
                    (#[trigger] rest.push(added)[i]).groups,
                ) by {
                    if i < rest.len() {
                        assert(rest.push(added)[i] == rest[i]);
                    }
                }
            }
            assert(peers_distinct(rest.push(added))) by {
                assert forall|i: int, j: int| 0 <= i < j < rest.push(added).len() implies rest.push(
                    added,
                )[i].peer != rest.push(added)[j].peer by {
                    if j == rest.len() {
                        assert(rest.contains(rest[i]));
                        before.lemma_filter_pred(|p: PeerModel| p.peer != peer, i);
                    }
                }
            }
        }
        self.conns = kept;
        Ok(())
    }

    /// The connections of `conns` but that of `peer`.
    #[verifier::rlimit(40)]
    fn without(conns: Vec<Connection>, peer: u64) -> (r: Vec<Connection>)
        ensures
            connections_view(r@) == connections_view(conns@).filter(|p: PeerModel| p.peer != peer),
    {
        let ghost all = connections_view(conns@);
        let ghost keep = |p: PeerModel| p.peer != peer;
        let mut rest = reversed(conns);
        let mut kept: Vec<Connection> = Vec::new();
        let ghost mut done: int = 0;
        proof {
            assert(all.take(0).filter(keep) =~= Seq::<PeerModel>::empty()) by {
                assert(all.take(0) =~= Seq::<PeerModel>::empty());
            }
            assert(connections_view(kept@) =~= Seq::<PeerModel>::empty());
        }
        while rest.len() > 0
            invariant
                0 <= done <= all.len(),
                rest@.len() + done == all.len(),
                keep == |p: PeerModel| p.peer != peer,
                forall|i: int|
                    0 <= i < rest@.len() ==> (#[trigger] rest@[i])@ == all[all.len() - 1 - i],
                connections_view(kept@) == all.take(done).filter(keep),
            decreases rest@.len(),
        {
            let ghost kept_before = connections_view(kept@);
            let next = rest.pop().unwrap();
            proof {
                assert(next@ == all[done]);
                assert(all.take(done + 1) =~= all.take(done).push(all[done]));
                all.take(done).lemma_filter_push(all[done], keep);
            }
            if next.peer != peer {
                kept.push(next);
                proof {
                    assert(connections_view(kept@) =~= kept_before.push(all[done]));
                }
            }
            proof {
                done = done + 1;
            }
        }
        proof {
            assert(all.take(all.len() as int) =~= all);
        }
        kept
    }

    /// Removes `peer`, as its cleanup does. A peer that is not connected
    /// leaves the map as it is.
    pub fn remove(&mut self, peer: u64)
        ensures
            final(self)@ == old(self)@.filter(|p: PeerModel| p.peer != peer),
    {
        proof {
            use_type_invariant(&*self);
        }
        let ghost before = self@;
        let mut conns = Vec::new();
        std::mem::swap(&mut conns, &mut self.conns);
        let kept = Self::without(conns, peer);
        proof {
            before.lemma_filter_len(|p: PeerModel| p.peer != peer);
            lemma_filter_distinct(before, peer);
            lemma_filter_keeps_groups(before, |p: PeerModel| p.peer != peer);
        }
        self.conns = kept;
    }

    /// Replaces the groups of `peer` by `groups`, which hold no name twice.
    #[verifier::rlimit(40)]
    fn replace_groups(&mut self, peer: u64, groups: Vec<String>) -> (found: bool)
        requires
            no_repeat(groups_view(groups@)),
        ensures
            found == exists|i: int| 0 <= i < old(self)@.len() && old(self)@[i].peer == peer,
            final(self)@.len() == old(self)@.len(),
            forall|i: int|
                0 <= i < old(self)@.len() ==> (#[trigger] final(self)@[i]) == if old(self)@[i].peer
                    == peer {
                    PeerModel { peer, groups: groups_view(groups@), sender: old(self)@[i].sender }
                } else {
                    old(self)@[i]
                },
    {
        proof {
            use_type_invariant(&*self);
        }
        let ghost before = self@;
        match self.position(peer) {
            Some(i) => {
                let mut conns = Vec::new();
                std::mem::swap(&mut conns, &mut self.conns);
                let mut changed = conns.remove(i);
                changed.groups = groups;
                conns.insert(i, changed);
                proof {
                    let now = connections_view(conns@);
                    assert(now.len() == before.len());
                    assert forall|k: int| 0 <= k < before.len() implies (#[trigger] now[k]) == if before[k].peer
                        == peer {
                        PeerModel { peer, groups: groups_view(groups@), sender: before[k].sender }
                    } else {
                        before[k]
                    } by {
                        if k != i {
                            assert(before[k].peer != before[i as int].peer);
                        }
                    }
                    assert(peers_distinct(now)) by {
                        assert forall|a: int, b: int| 0 <= a < b < now.len() implies now[a].peer
                            != now[b].peer by {
                            assert(now[a].peer == before[a].peer);
                            assert(now[b].peer == before[b].peer);
                        }
                    }
                    assert(groups_distinct(now)) by {
                        assert forall|k: int| 0 <= k < now.len() implies no_repeat(
                            (#[trigger] now[k]).groups,
                        ) by {
                            if before[k].peer != peer {
                                assert(now[k] == before[k]);
                            }
                        }
                    }
                }
                self.conns = conns;
                true
            },
            None => false,
        }
    }

    /// Replaces the groups of `peer` by the names of `groups`, each once
    /// and in their order, as its subscription asks. The peer keeps its
    /// channel. A peer that is not connected leaves the map as it is, and
    /// `false` comes back.
    pub fn set_groups(&mut self, peer: u64, groups: Vec<String>) -> (found: bool)
        ensures
            found == exists|i: int| 0 <= i < old(self)@.len() && old(self)@[i].peer == peer,
            final(self)@.len() == old(self)@.len(),
            forall|i: int|
                0 <= i < old(self)@.len() ==> (#[trigger] final(self)@[i]) == if old(self)@[i].peer
                    == peer {
                    PeerModel {
                        peer,
                        groups: unique_names(groups_view(groups@), groups@.len() as nat),
                        sender: old(self)@[i].sender,
                    }
                } else {
                    old(self)@[i]
                },
    {
        let names = unique(&groups);
        proof {
            lemma_unique_no_repeat(groups_view(groups@), groups@.len() as nat);
        }
        self.replace_groups(peer, names)
    }

    /// The peers that an event for `groups` goes to, in the order of the map.
    pub fn targets(&self, groups: Option<&Vec<String>>) -> (r: Vec<u64>)
        ensures
            r@ == target_peers(self@, self@.len(), wanted_view(groups)),
    {
        let ghost wanted = wanted_view(groups);
        let mut out: Vec<u64> = Vec::new();
        let mut i: usize = 0;
        while i < self.conns.len()
            invariant
                i <= self.conns.len(),
                wanted == wanted_view(groups),
                out@ == target_peers(self@, i as nat, wanted),
            decreases self.conns.len() - i,
        {
            proof {
                assert(self@[i as int] == self.conns@[i as int]@);
            }
            let hit = match groups {
                Some(g) => intersects(&self.conns[i].groups, g),
                None => true,
            };
            if hit {
                out.push(self.conns[i].peer);
            }
            i = i + 1;
        }
        out
    }

    /// The peers whose answer in `answers` is `true`, in the order of the
    /// map: the `i`-th answer is that of the `i`-th peer.
    pub fn closed_among(&self, answers: &Vec<bool>) -> (closed: Vec<u64>)
        ensures
            closed@ == flagged(self@, answers@, self@.len()),
    {
        let mut closed: Vec<u64> = Vec::new();
        let mut i: usize = 0;
        while i < self.conns.len()
            invariant
                i <= self.conns.len(),
                closed@ == flagged(self@, answers@, i as nat),
            decreases self.conns.len() - i,
        {
            proof {
                assert(self@[i as int].peer == self.conns@[i as int].peer);
            }
            if i < answers.len() && answers[i] {
                closed.push(self.conns[i].peer);
            }
            i = i + 1;
        }
        closed
    }

    /// The peers whose outbound channel reports closed, in the order of
    /// the map. Each channel is asked once, and the peers that are named
    /// are those of [`closed_among`](Self::closed_among) for the answers.
    /// What a channel answers is for the channel to say.
    pub fn closed_peers(&self) -> (closed: Vec<u64>)
        ensures
            exists|answers: Seq<bool>|
                answers.len() == self@.len() && closed@ == #[trigger] flagged(
                    self@,
                    answers,
                    self@.len(),
                ),
    {
        let mut answers: Vec<bool> = Vec::new();
        let mut i: usize = 0;
        while i < self.conns.len()
            invariant
                i <= self.conns.len(),
                answers@.len() == i,
            decreases self.conns.len() - i,
        {
            answers.push(is_closed(&self.conns[i].sender));
            i = i + 1;
        }
        self.closed_among(&answers)
    }

    /// Drops the peers with the numbers `closed`. The peers that stay are
    /// all the others, as they were and in their order.
    #[verifier::rlimit(40)]
    pub fn drop_peers(&mut self, closed: &Vec<u64>)
        ensures
            final(self)@ == old(self)@.filter(not_among(closed@)),
    {
        proof {
            use_type_invariant(&*self);
        }
        let ghost before = self@;
        let ghost keep = not_among(closed@);
        let mut conns = Vec::new();
        std::mem::swap(&mut conns, &mut self.conns);
        let mut rest = reversed(conns);
        let mut kept: Vec<Connection> = Vec::new();
        let ghost mut done: int = 0;
        proof {
            assert(before.take(0) =~= Seq::<PeerModel>::empty());
            assert(before.take(0).filter(keep) =~= Seq::<PeerModel>::empty()) by {
                reveal(Seq::filter);
            }
            assert(connections_view(kept@) =~= Seq::<PeerModel>::empty());
        }
        while rest.len() > 0
            invariant
                0 <= done <= before.len(),
                done + rest@.len() == before.len(),
                keep == not_among(closed@),
                forall|i: int|
                    0 <= i < rest@.len() ==> (#[trigger] rest@[i])@ == before[before.len() - 1
                        - i],
                connections_view(kept@) == before.take(done).filter(keep),
            decreases rest@.len(),
        {
            let ghost kept_before = connections_view(kept@);
            let next = rest.pop().unwrap();
            proof {
                assert(next@ == before[done]);
                assert(before.take(done + 1) =~= before.take(done).push(before[done]));
                before.take(done).lemma_filter_push(before[done], keep);
            }
            if !has_number(closed, next.peer) {
                kept.push(next);
                proof {
                    assert(connections_view(kept@) =~= kept_before.push(before[done]));
                }
            }
            proof {
                done = done + 1;
            }
        }
        proof {
            assert(before.take(before.len() as int) =~= before);
            before.lemma_filter_len(keep);
            lemma_filter_keeps_distinct(before, keep);
            lemma_filter_keeps_groups(before, keep);
        }
        self.conns = kept;
    }

    /// Drops the peers whose outbound channel reports closed, and hands
    /// back their numbers: [`closed_peers`](Self::closed_peers), then
    /// [`drop_peers`](Self::drop_peers) on what it named.
    pub fn prune(&mut self) -> (dropped: Vec<u64>)
        ensures
            exists|answers: Seq<bool>|
                answers.len() == old(self)@.len() && dropped@ == #[trigger] flagged(
                    old(self)@,
                    answers,
                    old(self)@.len(),
                ),
            final(self)@ == old(self)@.filter(not_among(dropped@)),
            forall|k: int|
                0 <= k < dropped@.len() ==> has_peer(
                    old(self)@,
                    old(self)@.len() as int,
                    #[trigger] dropped@[k],
                ),
            kept_from(final(self)@, old(self)@),
            final(self)@.len() <= old(self)@.len(),
    {
        let dropped = self.closed_peers();
        let ghost before = self@;
        self.drop_peers(&dropped);
        proof {
            lemma_filter_kept(before, not_among(dropped@));
            let answers = choose|answers: Seq<bool>|
                answers.len() == before.len() && dropped@ == #[trigger] flagged(
                    before,
                    answers,
                    before.len(),
                );
            lemma_flagged_are_peers(before, answers, before.len());
        }
        dropped
    }

    /// Offers `data` to the channel of each peer that subscribed to one of
    /// `groups`, or of every peer where no groups are given, without
    /// waiting.
    ///
    /// No peer leaves the map and no groups change: a channel that does not
    /// take the payload is counted, the payload is dropped for that peer,
    /// and the peer stays connected. A peer that is no target is not
    /// touched. Whether a channel takes the payload is for the channel to
    /// say: each target's channel answers once, and the result is what
    /// [`send_result`] makes of the number of targets and of the number of
    /// answers that say that the payload was not taken.
    #[verifier::rlimit(40)]
    pub fn deliver(&mut self, data: &Vec<u8>, groups: Option<&Vec<String>>) -> (r: Result<
        SendReport,
        SendError,
    >)
        ensures
            offered(final(self)@, old(self)@, wanted_view(groups)),
            exists|sent: Seq<bool>|
                sent.len() == target_peers(old(self)@, old(self)@.len(), wanted_view(groups)).len()
                    && r == send_result(
                    sent.len() as usize,
                    #[trigger] refusals(sent) as usize,
                    groups is Some,
                ),
    {
        proof {
            use_type_invariant(&*self);
        }
        let ghost now = self@;
        let ghost wanted = wanted_view(groups);
        let mut conns = Vec::new();
        std::mem::swap(&mut conns, &mut self.conns);
        let mut targeted: usize = 0;
        let mut answers: Vec<bool> = Vec::new();
        let mut i: usize = 0;
        while i < conns.len()
            invariant
                i <= conns.len(),
                conns@.len() == now.len(),
                now.len() <= MAX_CONNECTIONS,
                wanted == wanted_view(groups),
                forall|k: int|
                    0 <= k < now.len() ==> (#[trigger] conns@[k])@.peer == now[k].peer
                        && conns@[k]@.groups == now[k].groups,
                forall|k: int|
                    0 <= k < now.len() && (k >= i || !is_target(now[k].groups, wanted))
                        ==> (#[trigger] conns@[k])@ == now[k],
                targeted == target_peers(now, i as nat, wanted).len(),
                answers@.len() == targeted,
                targeted <= i,
            decreases conns.len() - i,
        {
            proof {
                assert(conns@[i as int]@ == now[i as int]);
            }
            let hit = match groups {
                Some(g) => intersects(&conns[i].groups, g),
                None => true,
            };
            if hit {
                targeted = targeted + 1;
                let ghost conns_before = conns@;
                let mut conn = conns.remove(i);
                let sent = try_send(&mut conn.sender, copy_bytes(data));
                conns.insert(i, conn);
                proof {
                    assert forall|k: int| 0 <= k < now.len() implies (#[trigger] conns@[k])@.peer
                        == now[k].peer && conns@[k]@.groups == now[k].groups by {
                        if k != i {
                            assert(conns@[k] == conns_before[k]);
                        }
                    }
                    assert forall|k: int|
                        0 <= k < now.len() && (k >= i + 1 || !is_target(
                            now[k].groups,
                            wanted,
                        )) implies (#[trigger] conns@[k])@ == now[k] by {
                        assert(conns@[k] == conns_before[k]);
                    }
                }
                answers.push(sent);
            }
            i = i + 1;
        }
        let failures = failures_among(&answers);
        proof {
            let after = connections_view(conns@);
            assert(offered(after, now, wanted)) by {
                assert forall|k: int| 0 <= k < after.len() implies (#[trigger] after[k]).peer
                    == now[k].peer && after[k].groups == now[k].groups by {
                    assert(after[k] == conns@[k]@);
                }
                assert forall|k: int|
                    0 <= k < after.len() && !is_target(now[k].groups, wanted) implies (
                #[trigger] after[k]) == now[k] by {
                    assert(after[k] == conns@[k]@);
                }
            }
            assert(peers_distinct(after)) by {
                assert forall|a: int, b: int| 0 <= a < b < after.len() implies after[a].peer
                    != after[b].peer by {
                    assert(after[a].peer == now[a].peer);
                    assert(after[b].peer == now[b].peer);
                }
            }
            assert(groups_distinct(after)) by {
                assert forall|k: int| 0 <= k < after.len() implies no_repeat(
                    (#[trigger] after[k]).groups,
                ) by {
                    assert(after[k].groups == now[k].groups);
                }
            }
        }
        self.conns = conns;
        let r = send_outcome(targeted, failures, groups.is_some());
        proof {
            let targets = target_peers(now, now.len(), wanted);
            assert(targeted == targets.len());
            assert(r == send_result(
                answers@.len() as usize,
                refusals(answers@) as usize,
                groups is Some,
            ));
        }
        r
    }

    /// Sends `data` to the peers that subscribed to one of `groups`, or to
    /// every peer where no groups are given.
    ///
    /// Each channel is asked once whether it is closed, and the peers whose
    /// channel said so are dropped first, by [`prune`](Self::prune), so that
    /// none of them is a target. Then the payload is offered to the targets
    /// among the peers that stay, by [`deliver`](Self::deliver): no further
    /// peer leaves, whatever its channel answers.
    pub fn send(&mut self, data: &Vec<u8>, groups: Option<&Vec<String>>) -> (r: Result<
        SendReport,
        SendError,
    >)
        ensures
            exists|answers: Seq<bool>|
                answers.len() == old(self)@.len() && offered(
                    final(self)@,
                    old(self)@.filter(
                        not_among(#[trigger] flagged(old(self)@, answers, old(self)@.len())),
                    ),
                    wanted_view(groups),
                ),
            final(self)@.len() <= old(self)@.len(),
            exists|sent: Seq<bool>|
                sent.len() == target_peers(
                    final(self)@,
                    final(self)@.len(),
                    wanted_view(groups),
                ).len() && r == send_result(
                    sent.len() as usize,
                    #[trigger] refusals(sent) as usize,
                    groups is Some,
                ),
    {
        let gone = self.prune();
        let ghost kept = self@;
        let r = self.deliver(data, groups);
        proof {
            assert(kept == old(self)@.filter(not_among(gone@)));
            lemma_same_targets(self@, kept, kept.len(), wanted_view(groups));
            let answers = choose|answers: Seq<bool>|
                answers.len() == old(self)@.len() && gone@ == #[trigger] flagged(
                    old(self)@,
                    answers,
                    old(self)@.len(),
                );
            assert(kept == old(self)@.filter(
                not_among(flagged(old(self)@, answers, old(self)@.len())),
            ));
        }
        r
    }

    /// Applies an inbound frame of `peer`: a subscription replaces the
    /// peer's groups. What the frame leads to comes back, for the caller to
    /// publish or to disconnect.
    pub fn handle_frame(&mut self, peer: u64, frame: Frame) -> (r: FrameAction)
        ensures
            r@ == frame_outcome(frame),
            final(self)@.len() == old(self)@.len(),
            forall|i: int|
                0 <= i < old(self)@.len() ==> (#[trigger] final(self)@[i]) == match frame_outcome(
                    frame,
                ) {
                    FrameOutcome::Subscribe(groups) if old(self)@[i].peer == peer => PeerModel {
                        peer,
                        groups,
                        sender: old(self)@[i].sender,
                    },
                    _ => old(self)@[i],
                },
    {
        let action = on_frame(frame);
        match &action {
            FrameAction::Subscribe(groups) => {
                let copy = copy_names(groups);
                proof {
                    lemma_subscription_no_repeat(frame);
                }
                self.replace_groups(peer, copy);
            },
            _ => {},
        }
        action
    }
}

/// How the WebSocket server is reached.
#[derive(Debug, Clone, PartialEq, Eq)]
pub struct ConnectOptions {
    /// The address that the server listens on.
    pub addr: String,
}

impl FromEnv for ConnectOptions {
    /// The address is `WEBSOCKET_ADDR`, or `0.0.0.0:80` without it.
    open spec fn loaded(env: EnvView, r: Result<ConnectOptions, ConfigError>) -> bool {
        r is Ok && r->Ok_0.addr@ == crate::host::setting_or(env, "WEBSOCKET_ADDR"@, "0.0.0.0:80"@)
    }

    fn from_env(env: &Environment) -> (r: Result<ConnectOptions, ConfigError>) {
        Ok(ConnectOptions { addr: env.get_or("WEBSOCKET_ADDR", "0.0.0.0:80") })
    }
}

/// The default backend of the WebSocket capability: the address it listens
/// on and the peers that are connected.
pub struct WebSocketDefault {
    pub addr: String,
    pub connections: ConnectionMap,
}

impl Backend for WebSocketDefault {
    type ConnectOptions = ConnectOptions;

    /// A backend that was just connected listens on the address of its
    /// options and has no peers.
    open spec fn connected(options: ConnectOptions, r: Result<WebSocketDefault, ConfigError>) -> bool {
        r is Ok && r->Ok_0.addr@ == options.addr@ && r->Ok_0.connections@.len() == 0
    }

    fn connect_with(options: ConnectOptions) -> (r: Result<WebSocketDefault, ConfigError>) {
        Ok(WebSocketDefault { addr: options.addr, connections: ConnectionMap::new() })
    }
}

/// Two tests that agree on every item of a sequence pick the same items.
pub proof fn lemma_filter_agree<A>(s: Seq<A>, p: spec_fn(A) -> bool, q: spec_fn(A) -> bool)
    requires
        forall|i: int| 0 <= i < s.len() ==> p(#[trigger] s[i]) == q(s[i]),
    ensures
        s.filter(p) == s.filter(q),
    decreases s.len(),
{
    if s.len() == 0 {
        assert(s.filter(p) =~= s.filter(q)) by {
            reveal(Seq::filter);
        }
    } else {
        let front = s.drop_last();
        assert forall|i: int| 0 <= i < front.len() implies p(#[trigger] front[i]) == q(
            front[i],
        ) by {
            assert(front[i] == s[i]);
        }
        lemma_filter_agree(front, p, q);
        assert(s =~= front.push(s.last()));
        front.lemma_filter_push(s.last(), p);
        front.lemma_filter_push(s.last(), q);
        assert(p(s[s.len() - 1]) == q(s[s.len() - 1]));
    }
}

/// Peers with distinct numbers stay distinct when some are left out.
pub proof fn lemma_filter_keeps_distinct(peers: Seq<PeerModel>, keep: spec_fn(PeerModel) -> bool)
    requires
        peers_distinct(peers),
    ensures
        peers_distinct(peers.filter(keep)),
    decreases peers.len(),
{
    if peers.len() > 0 {
        let front = peers.drop_last();
        let last = peers.last();
        assert(peers_distinct(front)) by {
            assert forall|i: int, j: int| 0 <= i < j < front.len() implies front[i].peer
                != front[j].peer by {
                assert(front[i] == peers[i] && front[j] == peers[j]);
            }
        }
        lemma_filter_keeps_distinct(front, keep);
        assert(peers =~= front.push(last));
        front.lemma_filter_push(last, keep);
        let kept = front.filter(keep);
        if keep(last) {
            assert forall|i: int, j: int| 0 <= i < j < kept.push(last).len() implies kept.push(
                last,
            )[i].peer != kept.push(last)[j].peer by {
                if j == kept.len() {
                    assert(kept.contains(kept[i]));
                    front.lemma_filter_contains_rev(keep, kept[i]);
                    let k = choose|k: int| 0 <= k < front.len() && front[k] == kept[i];
                    assert(peers[k] == kept[i]);
                    assert(peers[peers.len() - 1] == last);
                }
            }
        }
    } else {
        assert(peers.filter(keep) =~= Seq::<PeerModel>::empty()) by {
            reveal(Seq::filter);
        }
    }
}

/// Peers with distinct numbers stay distinct when one number is left out.
pub proof fn lemma_filter_distinct(peers: Seq<PeerModel>, peer: u64)
    requires
        peers_distinct(peers),
    ensures
        peers_distinct(peers.filter(|p: PeerModel| p.peer != peer)),
{
    lemma_filter_keeps_distinct(peers, |p: PeerModel| p.peer != peer);
}

/// Leaving some peers out leaves no peer with a group twice.
pub proof fn lemma_filter_keeps_groups(peers: Seq<PeerModel>, keep: spec_fn(PeerModel) -> bool)
    requires
        groups_distinct(peers),
    ensures
        groups_distinct(peers.filter(keep)),
{
    let now = peers.filter(keep);
    assert forall|i: int| 0 <= i < now.len() implies no_repeat((#[trigger] now[i]).groups) by {
        assert(now.contains(now[i]));
        peers.lemma_filter_contains_rev(keep, now[i]);
        let k = choose|k: int| 0 <= k < peers.len() && peers[k] == now[i];
        assert(no_repeat(peers[k].groups));
    }
}

/// What is left after some peers are left out was there before, and is no
/// longer than what was there.
pub proof fn lemma_filter_kept(peers: Seq<PeerModel>, keep: spec_fn(PeerModel) -> bool)
    ensures
        kept_from(peers.filter(keep), peers),
        peers.filter(keep).len() <= peers.len(),
{
    let now = peers.filter(keep);
    peers.lemma_filter_len(keep);
    assert forall|i: int| 0 <= i < now.len() implies peers.contains(#[trigger] now[i]) by {
        assert(now.contains(now[i]));
        peers.lemma_filter_contains_rev(keep, now[i]);
    }
}

/// Maps that hold the same peers with the same groups have the same
/// targets.
pub proof fn lemma_same_targets(
    now: Seq<PeerModel>,
    before: Seq<PeerModel>,
    n: nat,
    wanted: Option<Seq<Seq<char>>>,
)
    requires
        same_peers(now, before),
    ensures
        target_peers(now, n, wanted) == target_peers(before, n, wanted),
    decreases n,
{
    if n > 0 && n <= now.len() {
        lemma_same_targets(now, before, (n - 1) as nat, wanted);
        assert(now[n - 1].peer == before[n - 1].peer);
    }
}

/// A list without repeats stays so when a name that it does not hold is
/// put at its end.
pub proof fn lemma_push_no_repeat(names: Seq<Seq<char>>, name: Seq<char>)
    requires
        no_repeat(names),
        !listed(names, names.len(), name),
    ensures
        no_repeat(names.push(name)),
{
    let longer = names.push(name);
    assert forall|i: int, j: int| 0 <= i < j < longer.len() implies longer[i] != longer[j] by {
        if j == names.len() {
            assert(longer[i] == names[i]);
        }
    }
}

/// [`unique_names`] holds no name twice.
pub proof fn lemma_unique_no_repeat(names: Seq<Seq<char>>, n: nat)
    ensures
        no_repeat(unique_names(names, n)),
    decreases n,
{
    if n > 0 && n <= names.len() {
        let before = unique_names(names, (n - 1) as nat);
        lemma_unique_no_repeat(names, (n - 1) as nat);
        if !listed(before, before.len(), names[n - 1]) {
            lemma_push_no_repeat(before, names[n - 1]);
        }
    }
}

/// [`group_names`] holds no name twice.
pub proof fn lemma_group_names_no_repeat(items: Seq<Json>, n: nat)
    ensures
        no_repeat(group_names(items, n)),
    decreases n,
{
    if n > 0 && n <= items.len() {
        let before = group_names(items, (n - 1) as nat);
        lemma_group_names_no_repeat(items, (n - 1) as nat);
        match items[n - 1].text() {
            Some(name) => {
                if !listed(before, before.len(), name) {
                    lemma_push_no_repeat(before, name);
                }
            },
            None => {},
        }
    }
}

/// The groups that a frame subscribes to hold no name twice.
pub proof fn lemma_subscription_no_repeat(frame: Frame)
    ensures
        frame_outcome(frame) matches FrameOutcome::Subscribe(groups) ==> no_repeat(groups),
{
    match frame {
        Frame::Text(text) => {
            match crate::json::json_of_text(text@) {
                Some(doc) => match doc.member("groups"@) {
                    Some(groups) => match groups.items() {
                        Some(items) => {
                            lemma_group_names_no_repeat(items, items.len());
                        },
                        None => {},
                    },
                    None => {},
                },
                None => {},
            }
        },
        _ => {},
    }
}

/// Each target of an event is one of the peers.
pub proof fn lemma_targets_are_peers(
    peers: Seq<PeerModel>,
    n: nat,
    wanted: Option<Seq<Seq<char>>>,
)
    ensures
        forall|k: int|
            0 <= k < target_peers(peers, n, wanted).len() ==> has_peer(
                peers,
                n as int,
                #[trigger] target_peers(peers, n, wanted)[k],
            ),
    decreases n,
{
    if n > 0 && n <= peers.len() {
        let before = target_peers(peers, (n - 1) as nat, wanted);
        let now = target_peers(peers, n, wanted);
        lemma_targets_are_peers(peers, (n - 1) as nat, wanted);
        assert forall|k: int| 0 <= k < now.len() implies has_peer(
            peers,
            n as int,
            #[trigger] now[k],
        ) by {
            if k < before.len() {
                assert(now[k] == before[k]);
                assert(has_peer(peers, n - 1, before[k]));
                let i = choose|i: int|
                    0 <= i < n - 1 && i < peers.len() && (#[trigger] peers[i]).peer == before[k];
                assert(peers[i].peer == now[k]);
            } else {
                assert(peers[n - 1].peer == now[k]);
            }
        }
    }
}

/// Once the peers `closed` are dropped, none of them is a target of an
/// event.
pub proof fn lemma_dropped_are_no_targets(
    peers: Seq<PeerModel>,
    closed: Seq<u64>,
    wanted: Option<Seq<Seq<char>>>,
)
    ensures
        forall|k: int|
            0 <= k < target_peers(
                peers.filter(not_among(closed)),
                peers.filter(not_among(closed)).len(),
                wanted,
            ).len() ==> !closed.contains(
                #[trigger] target_peers(
                    peers.filter(not_among(closed)),
                    peers.filter(not_among(closed)).len(),
                    wanted,
                )[k],
            ),
{
    let kept = peers.filter(not_among(closed));
    let targets = target_peers(kept, kept.len(), wanted);
    lemma_targets_are_peers(kept, kept.len(), wanted);
    assert forall|k: int| 0 <= k < targets.len() implies !closed.contains(
        #[trigger] targets[k],
    ) by {
        assert(has_peer(kept, kept.len() as int, targets[k]));
        let i = choose|i: int|
            0 <= i < kept.len() && i < kept.len() && (#[trigger] kept[i]).peer == targets[k];
        peers.lemma_filter_pred(not_among(closed), i);
    }
}

/// Each peer that the answers name is one of the peers.
pub proof fn lemma_flagged_are_peers(peers: Seq<PeerModel>, answers: Seq<bool>, n: nat)
    ensures
        forall|k: int|
            0 <= k < flagged(peers, answers, n).len() ==> has_peer(
                peers,
                peers.len() as int,
                #[trigger] flagged(peers, answers, n)[k],
            ),
    decreases n,
{
    if n > 0 {
        let before = flagged(peers, answers, (n - 1) as nat);
        let now = flagged(peers, answers, n);
        lemma_flagged_are_peers(peers, answers, (n - 1) as nat);
        assert forall|k: int| 0 <= k < now.len() implies has_peer(
            peers,
            peers.len() as int,
            #[trigger] now[k],
        ) by {
            if k < before.len() {
                assert(now[k] == before[k]);
            } else {
                assert(peers[n - 1].peer == now[k]);
            }
        }
    }
}

/// A peer is named by the answers exactly when its own answer is `true`:
/// where no two peers share a number, the `i`-th peer is among those that
/// the answers name if and only if the `i`-th answer is `true`.
pub proof fn lemma_flagged_by_answer(peers: Seq<PeerModel>, answers: Seq<bool>, i: int)
    requires
        peers_distinct(peers),
        answers.len() == peers.len(),
        0 <= i < peers.len(),
    ensures
        flagged(peers, answers, peers.len()).contains(peers[i].peer) == answers[i],
{
    lemma_flagged_prefix(peers, answers, peers.len(), i);
}

/// Among the first `n` peers, the `i`-th is named exactly when it is one
/// of them and its answer is `true`.
pub proof fn lemma_flagged_prefix(peers: Seq<PeerModel>, answers: Seq<bool>, n: nat, i: int)
    requires
        peers_distinct(peers),
        answers.len() == peers.len(),
        0 <= i < peers.len(),
        n <= peers.len(),
    ensures
        flagged(peers, answers, n).contains(peers[i].peer) == (i < n && answers[i]),
    decreases n,
{
    if n > 0 {
        let before = flagged(peers, answers, (n - 1) as nat);
        let now = flagged(peers, answers, n);
        lemma_flagged_prefix(peers, answers, (n - 1) as nat, i);
        if answers[n - 1] {
            assert(now == before.push(peers[n - 1].peer));
            if i == n - 1 {
                assert(now[now.len() - 1] == peers[i].peer);
            } else {
                assert(peers[n - 1].peer != peers[i].peer);
                if before.contains(peers[i].peer) {
                    let k = choose|k: int| 0 <= k < before.len() && before[k] == peers[i].peer;
                    assert(now[k] == peers[i].peer);
                }
                if now.contains(peers[i].peer) {
                    let k = choose|k: int| 0 <= k < now.len() && now[k] == peers[i].peer;
                    assert(k < before.len());
                    assert(before[k] == peers[i].peer);
                }
            }
        }
    }
}

/// Once the peers that the answers name are dropped, a peer whose answer
/// was `true` is gone and a peer whose answer was `false` is there as it
/// was.
pub proof fn lemma_closed_leave_open_stay(peers: Seq<PeerModel>, answers: Seq<bool>, i: int)
    requires
        peers_distinct(peers),
        answers.len() == peers.len(),
        0 <= i < peers.len(),
    ensures
        answers[i] ==> !has_peer(
            peers.filter(not_among(flagged(peers, answers, peers.len()))),
            peers.len() as int,
            peers[i].peer,
        ),
        !answers[i] ==> peers.filter(not_among(flagged(peers, answers, peers.len()))).contains(
            peers[i],
        ),
{
    let closed = flagged(peers, answers, peers.len());
    let kept = peers.filter(not_among(closed));
    lemma_flagged_by_answer(peers, answers, i);
    if answers[i] {
        if has_peer(kept, peers.len() as int, peers[i].peer) {
            let k = choose|k: int|
                0 <= k < peers.len() && k < kept.len() && (#[trigger] kept[k]).peer
                    == peers[i].peer;
            peers.lemma_filter_pred(not_among(closed), k);
        }
    } else {
        peers.lemma_filter_contains(not_among(closed), i);
    }
}

} // verus!
