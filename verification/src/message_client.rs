//! The client that chat sources use to publish messages to, and consume
//! them from, a topic exchange of a message broker.
//!
//! The broker's connection and channel are handles that the caller holds;
//! here they appear as the numbers that the caller gives them. Opening a
//! client is a protocol of broker requests: `Client::open_client` is told
//! what the last request gave and answers with the next request to make.
//! The broker's callbacks (a connection or channel closed, blocked,
//! throttled) act on every registered client that uses that connection or
//! channel.
use vstd::prelude::*;

use crate::text::{parse_port, parse_u16};

verus! {

broadcast use vstd::string::group_string_axioms;

/// A client of the message broker.
pub struct Client {
    pub host: String,
    pub port: String,
    pub username: String,
    pub password: String,
    pub exchange_name: String,
    pub routing_key: String,
    pub(crate) queue_name: String,
    pub(crate) connection: Option<u64>,
    pub(crate) channel: Option<u64>,
    pub(crate) open: bool,
    pub(crate) blocked: bool,
    pub(crate) flow_blocked: bool,
}

/// The abstract state of a client.
pub ghost struct ClientView {
    pub host: Seq<char>,
    pub port: Seq<char>,
    pub username: Seq<char>,
    pub password: Seq<char>,
    pub exchange_name: Seq<char>,
    pub routing_key: Seq<char>,
    pub queue_name: Seq<char>,
    pub connection: Option<u64>,
    pub channel: Option<u64>,
    pub open: bool,
    pub blocked: bool,
    pub flow_blocked: bool,
}

impl View for Client {
    type V = ClientView;

    closed spec fn view(&self) -> ClientView {
        ClientView {
            host: self.host@,
            port: self.port@,
            username: self.username@,
            password: self.password@,
            exchange_name: self.exchange_name@,
            routing_key: self.routing_key@,
            queue_name: self.queue_name@,
            connection: self.connection,
            channel: self.channel,
            open: self.open,
            blocked: self.blocked,
            flow_blocked: self.flow_blocked,
        }
    }
}

impl ClientView {
    /// An open client has a connection and a channel.
    pub open spec fn wf(self) -> bool {
        self.open ==> self.connection is Some && self.channel is Some
    }

    /// The client may publish and consume: it is open, and neither the
    /// connection nor the channel is held back.
    pub open spec fn is_good(self) -> bool {
        self.open && !self.blocked && !self.flow_blocked
    }

    /// The client after it has been closed.
    pub open spec fn closed(self) -> ClientView {
        ClientView { connection: None, channel: None, open: false, ..self }
    }
}

/// A request to the broker to close a client's channel and then its
/// connection.
pub struct CloseRequest {
    pub channel: u64,
    pub connection: u64,
}

/// A request to the broker to publish `content` on `channel` to the
/// exchange, under the routing key.
pub struct PublishRequest {
    pub channel: u64,
    pub exchange: String,
    pub routing_key: String,
    pub content: String,
}

/// A request to the broker to deliver the messages of `queue` to a
/// consumer named `consumer_tag`.
pub struct ConsumeRequest {
    pub channel: u64,
    pub queue: String,
    pub consumer_tag: String,
}

/// What the last broker request of the opening protocol gave.
pub enum OpenEvent {
    /// Nothing yet: the protocol begins.
    Begin,
    ConnectionOpened(u64),
    ConnectionCallbackRegistered,
    ChannelOpened(u64),
    ChannelCallbackRegistered,
    ExchangeDeclared,
    /// The broker named the declared queue.
    QueueDeclared(String),
    QueueBound,
}

/// The abstract value of an event.
pub ghost enum OpenEventView {
    Begin,
    ConnectionOpened(u64),
    ConnectionCallbackRegistered,
    ChannelOpened(u64),
    ChannelCallbackRegistered,
    ExchangeDeclared,
    QueueDeclared(Seq<char>),
    QueueBound,
}

impl View for OpenEvent {
    type V = OpenEventView;

    open spec fn view(&self) -> OpenEventView {
        match self {
            OpenEvent::Begin => OpenEventView::Begin,
            OpenEvent::ConnectionOpened(c) => OpenEventView::ConnectionOpened(*c),
            OpenEvent::ConnectionCallbackRegistered => OpenEventView::ConnectionCallbackRegistered,
            OpenEvent::ChannelOpened(c) => OpenEventView::ChannelOpened(*c),
            OpenEvent::ChannelCallbackRegistered => OpenEventView::ChannelCallbackRegistered,
            OpenEvent::ExchangeDeclared => OpenEventView::ExchangeDeclared,
            OpenEvent::QueueDeclared(q) => OpenEventView::QueueDeclared(q@),
            OpenEvent::QueueBound => OpenEventView::QueueBound,
        }
    }
}

/// The next broker request of the opening protocol.
pub enum OpenAction {
    OpenConnection { host: String, port: u16, username: String, password: String },
    RegisterConnectionCallback { connection: u64 },
    OpenChannel { connection: u64 },
    RegisterChannelCallback { channel: u64 },
    /// Declare the exchange, of the given kind, surviving broker restarts
    /// where `durable`.
    DeclareExchange { channel: u64, exchange: String, kind: String, durable: bool },
    /// Declare a queue with a name that the broker chooses.
    DeclareQueue { channel: u64 },
    BindQueue { channel: u64, queue: String, exchange: String, routing_key: String },
    /// The client is open.
    Finished,
    /// The port is no number that a connection can use.
    InvalidPort,
    /// The event came where the client has no connection or channel to go
    /// on with.
    Aborted,
}

/// The abstract value of an action.
pub ghost enum OpenActionView {
    OpenConnection(Seq<char>, u16, Seq<char>, Seq<char>),
    RegisterConnectionCallback(u64),
    OpenChannel(u64),
    RegisterChannelCallback(u64),
    DeclareExchange(u64, Seq<char>, Seq<char>, bool),
    DeclareQueue(u64),
    BindQueue(u64, Seq<char>, Seq<char>, Seq<char>),
    Finished,
    InvalidPort,
    Aborted,
}

impl View for OpenAction {
    type V = OpenActionView;

    open spec fn view(&self) -> OpenActionView {
        match self {
            OpenAction::OpenConnection { host, port, username, password } => OpenActionView::OpenConnection(
                host@,
                *port,
                username@,
                password@,
            ),
            OpenAction::RegisterConnectionCallback { connection } => OpenActionView::RegisterConnectionCallback(*connection),
            OpenAction::OpenChannel { connection } => OpenActionView::OpenChannel(*connection),
            OpenAction::RegisterChannelCallback { channel } => OpenActionView::RegisterChannelCallback(*channel),
            OpenAction::DeclareExchange { channel, exchange, kind, durable } => OpenActionView::DeclareExchange(
                *channel,
                exchange@,
                kind@,
                *durable,
            ),
            OpenAction::DeclareQueue { channel } => OpenActionView::DeclareQueue(*channel),
            OpenAction::BindQueue { channel, queue, exchange, routing_key } => OpenActionView::BindQueue(
                *channel,
                queue@,
                exchange@,
                routing_key@,
            ),
            OpenAction::Finished => OpenActionView::Finished,
            OpenAction::InvalidPort => OpenActionView::InvalidPort,
            OpenAction::Aborted => OpenActionView::Aborted,
        }
    }
}

/// One step of the opening protocol: the client's state after `e`, and
/// the next request. The connection is opened with the client's host,
/// port, user name and password; the exchange is a durable topic exchange;
/// the broker-named queue is bound to it under the routing key; the client
/// is open once the queue is bound.
pub open spec fn open_transition(c: ClientView, e: OpenEventView) -> (ClientView, OpenActionView) {
    match e {
        OpenEventView::Begin => match parse_u16(c.port) {
            Some(p) => (c, OpenActionView::OpenConnection(c.host, p, c.username, c.password)),
            None => (c, OpenActionView::InvalidPort),
        },
        OpenEventView::ConnectionOpened(id) => (
            ClientView { connection: Some(id), ..c },
            OpenActionView::RegisterConnectionCallback(id),
        ),
        OpenEventView::ConnectionCallbackRegistered => match c.connection {
            Some(id) => (c, OpenActionView::OpenChannel(id)),
            None => (c, OpenActionView::Aborted),
        },
        OpenEventView::ChannelOpened(id) => (
            ClientView { channel: Some(id), ..c },
            OpenActionView::RegisterChannelCallback(id),
        ),
        OpenEventView::ChannelCallbackRegistered => match c.channel {
            Some(id) => (c, OpenActionView::DeclareExchange(id, c.exchange_name, "topic"@, true)),
            None => (c, OpenActionView::Aborted),
        },
        OpenEventView::ExchangeDeclared => match c.channel {
            Some(id) => (c, OpenActionView::DeclareQueue(id)),
            None => (c, OpenActionView::Aborted),
        },
        OpenEventView::QueueDeclared(q) => match c.channel {
            Some(id) => (
                ClientView { queue_name: q, ..c },
                OpenActionView::BindQueue(id, q, c.exchange_name, c.routing_key),
            ),
            None => (c, OpenActionView::Aborted),
        },
        OpenEventView::QueueBound => if c.connection is Some && c.channel is Some {
            (ClientView { open: true, ..c }, OpenActionView::Finished)
        } else {
            (c, OpenActionView::Aborted)
        },
    }
}

fn copy_string(s: &String) -> (res: String)
    ensures
        res@ == s@,
{
    s.clone()
}

impl Client {
    /// A closed client for the given broker, exchange and routing key.
    pub fn new(
        host: String,
        port: String,
        username: String,
        password: String,
        exchange_name: String,
        routing_key: String,
    ) -> (res: Client)
        ensures
            res@ == (ClientView {
                host: host@,
                port: port@,
                username: username@,
                password: password@,
                exchange_name: exchange_name@,
                routing_key: routing_key@,
                queue_name: Seq::empty(),
                connection: None,
                channel: None,
                open: false,
                blocked: false,
                flow_blocked: false,
            }),
            res@.wf(),
    {
        Client {
            host,
            port,
            username,
            password,
            exchange_name,
            routing_key,
            queue_name: String::new(),
            connection: None,
            channel: None,
            open: false,
            blocked: false,
            flow_blocked: false,
        }
    }

    /// The client may publish and consume.
    pub fn is_connection_good(&self) -> (res: bool)
        ensures
            res == self@.is_good(),
    {
        if !self.open || self.blocked || self.flow_blocked {
            return false;
        }
        return true;
    }

    /// The client is open.
    pub fn is_open(&self) -> (res: bool)
        ensures
            res == self@.open,
    {
        self.open
    }

    /// The broker has held the client's connection back.
    pub fn is_blocked(&self) -> (res: bool)
        ensures
            res == self@.blocked,
    {
        self.blocked
    }

    /// The broker has held the client's channel back.
    pub fn is_flow_blocked(&self) -> (res: bool)
        ensures
            res == self@.flow_blocked,
    {
        self.flow_blocked
    }

    /// The client's connection, if it has one.
    pub fn connection_id(&self) -> (res: Option<u64>)
        ensures
            res == self@.connection,
    {
        self.connection
    }

    /// The client's channel, if it has one.
    pub fn channel_id(&self) -> (res: Option<u64>)
        ensures
            res == self@.channel,
    {
        self.channel
    }

    /// The queue that the broker named for the client.
    pub fn queue_name(&self) -> (res: String)
        ensures
            res@ == self@.queue_name,
    {
        copy_string(&self.queue_name)
    }

    /// Takes the client one step through the opening protocol: records
    /// what `event` reports and answers with the next request.
    pub fn open_client(&mut self, event: OpenEvent) -> (action: OpenAction)
        requires
            old(self)@.wf(),
        ensures
            (final(self)@, action@) == open_transition(old(self)@, event@),
            final(self)@.wf(),
            !(event@ is QueueBound) ==> final(self)@.open == old(self)@.open,
            event@ is QueueBound ==> (final(self)@.open <==> (old(self)@.open || (old(
                self,
            )@.connection is Some && old(self)@.channel is Some))),
            action@ is Finished ==> event@ is QueueBound,
    {
        match event {
            OpenEvent::Begin => match parse_port(self.port.as_str()) {
                Some(p) => OpenAction::OpenConnection {
                    host: copy_string(&self.host),
                    port: p,
                    username: copy_string(&self.username),
                    password: copy_string(&self.password),
                },
                None => OpenAction::InvalidPort,
            },
            OpenEvent::ConnectionOpened(id) => {
                self.connection = Some(id);
                OpenAction::RegisterConnectionCallback { connection: id }
            },
            OpenEvent::ConnectionCallbackRegistered => match self.connection {
                Some(id) => OpenAction::OpenChannel { connection: id },
                None => OpenAction::Aborted,
            },
            OpenEvent::ChannelOpened(id) => {
                self.channel = Some(id);
                OpenAction::RegisterChannelCallback { channel: id }
            },
            OpenEvent::ChannelCallbackRegistered => match self.channel {
                Some(id) => OpenAction::DeclareExchange {
                    channel: id,
                    exchange: copy_string(&self.exchange_name),
                    kind: "topic".to_string(),
                    durable: true,
                },
                None => OpenAction::Aborted,
            },
            OpenEvent::ExchangeDeclared => match self.channel {
                Some(id) => OpenAction::DeclareQueue { channel: id },
                None => OpenAction::Aborted,
            },
            OpenEvent::QueueDeclared(q) => match self.channel {
                Some(id) => {
                    self.queue_name = copy_string(&q);
                    OpenAction::BindQueue {
                        channel: id,
                        queue: q,
                        exchange: copy_string(&self.exchange_name),
                        routing_key: copy_string(&self.routing_key),
                    }
                },
                None => OpenAction::Aborted,
            },
            OpenEvent::QueueBound => {
                if self.connection.is_some() && self.channel.is_some() {
                    self.open = true;
                    OpenAction::Finished
                } else {
                    OpenAction::Aborted
                }
            },
        }
    }

    /// Closes an open client: `None` where it is not open; otherwise the
    /// client gives up its channel and connection, which the caller closes.
    pub fn close_client(&mut self) -> (res: Option<CloseRequest>)
        requires
            old(self)@.wf(),
        ensures
            !old(self)@.open ==> res is None && final(self)@ == old(self)@,
            old(self)@.open ==> (res matches Some(r) && Some(r.channel) == old(self)@.channel && Some(
                r.connection,
            ) == old(self)@.connection && final(self)@ == old(self)@.closed()),
            final(self)@.wf(),
    {
        if !self.open {
            return None;
        }
        let channel = self.channel.unwrap();
        let connection = self.connection.unwrap();
        self.channel = None;
        self.connection = None;
        self.open = false;
        Some(CloseRequest { channel, connection })
    }

    /// Publishes a message to the exchange under the client's routing key:
    /// `None` where the client may not publish.
    pub fn publish_message(&self, message: String) -> (res: Option<PublishRequest>)
        requires
            self@.wf(),
        ensures
            res is None <==> !self@.is_good(),
            res matches Some(r) ==> Some(r.channel) == self@.channel && r.exchange@
                == self@.exchange_name && r.routing_key@ == self@.routing_key && r.content@
                == message@,
    {
        if !self.is_connection_good() {
            return None;
        }
        let channel = self.channel.unwrap();
        Some(
            PublishRequest {
                channel,
                exchange: copy_string(&self.exchange_name),
                routing_key: copy_string(&self.routing_key),
                content: message,
            },
        )
    }

    /// Attaches a consumer named `name` to the client's queue: `None` where
    /// the client may not consume.
    pub fn attach_consumer(&self, name: String) -> (res: Option<ConsumeRequest>)
        requires
            self@.wf(),
        ensures
            res is None <==> !self@.is_good(),
            res matches Some(r) ==> Some(r.channel) == self@.channel && r.queue@ == self@.queue_name
                && r.consumer_tag@ == name@,
    {
        if !self.is_connection_good() {
            return None;
        }
        let channel = self.channel.unwrap();
        Some(ConsumeRequest { channel, queue: copy_string(&self.queue_name), consumer_tag: name })
    }
}

/// A closed client cannot publish: closing makes every later publication
/// fail.
pub proof fn law_no_publish_after_close(c: ClientView)
    requires
        c.wf(),
    ensures
        c.closed().wf(),
        !c.closed().is_good(),
        !c.closed().open,
{
}

/// Closing a closed client does nothing: the second of two closes finds
/// the client not open.
pub proof fn law_close_idempotent(c: ClientView)
    ensures
        !c.closed().open,
        c.closed().closed() == c.closed(),
{
}

/// The opening protocol, run from a closed client whose port is a number,
/// with the broker answering every request, leaves the client open and
/// good, with the connection, channel and queue that the broker gave.
pub proof fn law_open_protocol_opens(
    c: ClientView,
    connection: u64,
    channel: u64,
    queue: Seq<char>,
)
    requires
        parse_u16(c.port) is Some,
        !c.blocked,
        !c.flow_blocked,
    ensures
        ({
            let (c1, a1) = open_transition(c, OpenEventView::Begin);
            let (c2, a2) = open_transition(c1, OpenEventView::ConnectionOpened(connection));
            let (c3, a3) = open_transition(c2, OpenEventView::ConnectionCallbackRegistered);
            let (c4, a4) = open_transition(c3, OpenEventView::ChannelOpened(channel));
            let (c5, a5) = open_transition(c4, OpenEventView::ChannelCallbackRegistered);
            let (c6, a6) = open_transition(c5, OpenEventView::ExchangeDeclared);
            let (c7, a7) = open_transition(c6, OpenEventView::QueueDeclared(queue));
            let (c8, a8) = open_transition(c7, OpenEventView::QueueBound);
            &&& a1 == OpenActionView::OpenConnection(
                c.host,
                parse_u16(c.port).unwrap(),
                c.username,
                c.password,
            )
            &&& a2 == OpenActionView::RegisterConnectionCallback(connection)
            &&& a3 == OpenActionView::OpenChannel(connection)
            &&& a4 == OpenActionView::RegisterChannelCallback(channel)
            &&& a5 == OpenActionView::DeclareExchange(channel, c.exchange_name, "topic"@, true)
            &&& a6 == OpenActionView::DeclareQueue(channel)
            &&& a7 == OpenActionView::BindQueue(channel, queue, c.exchange_name, c.routing_key)
            &&& a8 == OpenActionView::Finished
            &&& !c.open ==> !c1.open && !c2.open && !c3.open && !c4.open && !c5.open && !c6.open
                && !c7.open
            &&& c8.is_good()
            &&& c8.wf()
            &&& c8.connection == Some(connection)
            &&& c8.channel == Some(channel)
            &&& c8.queue_name == queue
        }),
{
}

/// The client uses connection `connection` (the connection callbacks act
/// on it).
pub open spec fn uses_connection(c: ClientView, connection: u64) -> bool {
    c.open && c.connection == Some(connection)
}

/// The client uses channel `channel` (the channel callbacks act on it).
pub open spec fn uses_channel(c: ClientView, channel: u64) -> bool {
    c.open && c.connection is Some && c.channel == Some(channel)
}

/// What a broker callback is about: a connection or a channel.
#[derive(Clone, Copy, Debug, PartialEq, Eq, Structural)]
pub enum Target {
    Connection(u64),
    Channel(u64),
}

/// The callback about `t` acts on client `c`.
pub open spec fn targets(c: ClientView, t: Target) -> bool {
    match t {
        Target::Connection(id) => uses_connection(c, id),
        Target::Channel(id) => uses_channel(c, id),
    }
}

/// The clients after those that `t` targets have been closed.
pub open spec fn close_where(s: Seq<ClientView>, t: Target) -> Seq<ClientView> {
    Seq::new(s.len(), |i: int| if targets(s[i], t) { s[i].closed() } else { s[i] })
}

/// The (channel, connection) pairs to close, in registration order, of
/// the clients that `t` targets.
pub open spec fn close_requests(s: Seq<ClientView>, t: Target) -> Seq<(u64, u64)>
    decreases s.len(),
{
    if s.len() == 0 {
        Seq::empty()
    } else {
        let prev = close_requests(s.drop_last(), t);
        if targets(s.last(), t) {
            prev.push((s.last().channel.unwrap(), s.last().connection.unwrap()))
        } else {
            prev
        }
    }
}

/// The clients after those that `t` targets have had their connection
/// marked held back (or not).
pub open spec fn set_blocked_where(s: Seq<ClientView>, t: Target, blocked: bool) -> Seq<
    ClientView,
> {
    Seq::new(s.len(), |i: int| if targets(s[i], t) { ClientView { blocked, ..s[i] } } else { s[i] })
}

/// The clients after those that `t` targets have had their channel marked
/// held back (or not).
pub open spec fn set_flow_blocked_where(s: Seq<ClientView>, t: Target, flow_blocked: bool) -> Seq<
    ClientView,
> {
    Seq::new(
        s.len(),
        |i: int| if targets(s[i], t) { ClientView { flow_blocked, ..s[i] } } else { s[i] },
    )
}

/// The clients that the broker callbacks act on, in registration order.
pub struct ClientRegistry {
    clients: Vec<Client>,
}

impl View for ClientRegistry {
    type V = Seq<ClientView>;

    closed spec fn view(&self) -> Seq<ClientView> {
        views(self.clients@)
    }
}

/// The abstract states of a list of clients.
pub open spec fn views(s: Seq<Client>) -> Seq<ClientView> {
    s.map_values(|c: Client| c@)
}

/// Every client of the list is well formed.
pub open spec fn all_wf(s: Seq<ClientView>) -> bool {
    forall|i: int| 0 <= i < s.len() ==> #[trigger] s[i].wf()
}

impl ClientRegistry {
    #[verifier::type_invariant]
    closed spec fn inv(self) -> bool {
        all_wf(views(self.clients@))
    }

    /// No clients.
    pub fn new() -> (res: ClientRegistry)
        ensures
            res@ == Seq::<ClientView>::empty(),
    {
        let res = ClientRegistry { clients: Vec::new() };
        assert(res@ =~= Seq::<ClientView>::empty());
        res
    }

    /// The number of registered clients.
    pub fn len(&self) -> (res: usize)
        ensures
            res == self@.len(),
    {
        self.clients.len()
    }

    /// Registers a client; its index is the number of clients before.
    pub fn register(&mut self, client: Client) -> (res: usize)
        requires
            client@.wf(),
        ensures
            res == old(self)@.len(),
            final(self)@ == old(self)@.push(client@),
    {
        proof {
            use_type_invariant(&*self);
        }
        let ghost c = client@;
        let mut clients: Vec<Client> = Vec::new();
        std::mem::swap(&mut clients, &mut self.clients);
        let res = clients.len();
        let ghost before = clients@;
        clients.push(client);
        assert(views(clients@) =~= views(before).push(c));
        self.clients = clients;
        res
    }

    /// Creates a closed client for the given broker, exchange and routing
    /// key, and registers it; its index is the number of clients before.
    pub fn add_client(
        &mut self,
        host: String,
        port: String,
        username: String,
        password: String,
        exchange_name: String,
        routing_key: String,
    ) -> (i: usize)
        ensures
            i == old(self)@.len(),
            final(self)@ == old(self)@.push(
                ClientView {
                    host: host@,
                    port: port@,
                    username: username@,
                    password: password@,
                    exchange_name: exchange_name@,
                    routing_key: routing_key@,
                    queue_name: Seq::empty(),
                    connection: None,
                    channel: None,
                    open: false,
                    blocked: false,
                    flow_blocked: false,
                },
            ),
    {
        let client = Client::new(host, port, username, password, exchange_name, routing_key);
        self.register(client)
    }

    /// The client at `index`.
    pub fn client(&self, index: usize) -> (res: &Client)
        requires
            index < self@.len(),
        ensures
            res@ == self@[index as int],
            res@.wf(),
    {
        proof {
            use_type_invariant(self);
        }
        &self.clients[index]
    }

    /// Takes the client at `index` one step through the opening protocol
    /// (`Client::open_client`).
    pub fn open_client(&mut self, index: usize, event: OpenEvent) -> (action: OpenAction)
        requires
            index < old(self)@.len(),
        ensures
            final(self)@ == old(self)@.update(
                index as int,
                open_transition(old(self)@[index as int], event@).0,
            ),
            action@ == open_transition(old(self)@[index as int], event@).1,
    {
        proof {
            use_type_invariant(&*self);
        }
        let mut clients: Vec<Client> = Vec::new();
        std::mem::swap(&mut clients, &mut self.clients);
        let ghost before = clients@;
        let mut c = clients.remove(index);
        assert(c@ == views(before)[index as int]);
        let action = c.open_client(event);
        clients.insert(index, c);
        assert(views(clients@) =~= views(before).update(
            index as int,
            c@,
        ));
        self.clients = clients;
        action
    }

    /// Closes the client at `index` (`Client::close_client`).
    pub fn close_client(&mut self, index: usize) -> (res: Option<CloseRequest>)
        requires
            index < old(self)@.len(),
        ensures
            !old(self)@[index as int].open ==> res is None && final(self)@ == old(self)@,
            old(self)@[index as int].open ==> (res matches Some(r) && Some(r.channel) == old(
                self,
            )@[index as int].channel && Some(r.connection) == old(self)@[index as int].connection
                && final(self)@ == old(self)@.update(index as int, old(self)@[index as int].closed())),
    {
        proof {
            use_type_invariant(&*self);
        }
        let mut clients: Vec<Client> = Vec::new();
        std::mem::swap(&mut clients, &mut self.clients);
        let ghost before = clients@;
        let mut c = clients.remove(index);
        assert(c@ == views(before)[index as int]);
        let res = c.close_client();
        clients.insert(index, c);
        assert(views(clients@) =~= views(before).update(
            index as int,
            c@,
        ));
        self.clients = clients;
        res
    }
}

impl Client {
    fn is_target(&self, t: Target) -> (res: bool)
        ensures
            res == targets(self@, t),
    {
        match t {
            Target::Connection(id) => self.open && self.connection == Some(id),
            Target::Channel(id) => self.open && self.connection.is_some() && self.channel == Some(id),
        }
    }
}

impl ClientRegistry {
    fn close_targets(&mut self, t: Target) -> (res: Vec<CloseRequest>)
        ensures
            final(self)@ == close_where(old(self)@, t),
            res@.map_values(|r: CloseRequest| (r.channel, r.connection)) == close_requests(
                old(self)@,
                t,
            ),
    {
        proof {
            use_type_invariant(&*self);
        }
        let mut clients: Vec<Client> = Vec::new();
        std::mem::swap(&mut clients, &mut self.clients);
        let ghost old_s = views(clients@);
        let mut res: Vec<CloseRequest> = Vec::new();
        let n = clients.len();
        let mut i: usize = 0;
        while i < n
            invariant
                n == clients@.len(),
                n == old_s.len(),
                i <= n,
                all_wf(old_s),
                views(clients@) =~= Seq::new(
                    n as nat,
                    |j: int| if j < i && targets(old_s[j], t) { old_s[j].closed() } else { old_s[j] },
                ),
                res@.map_values(|r: CloseRequest| (r.channel, r.connection)) == close_requests(
                    old_s.take(i as int),
                    t,
                ),
            decreases n - i,
        {
            assert(old_s.take(i + 1).drop_last() =~= old_s.take(i as int));
            assert(old_s.take(i + 1).last() == old_s[i as int]);
            assert(views(clients@)[i as int] == old_s[i as int]);
            let ghost before = views(clients@);
            let ghost rbefore = res@;
            if clients[i].is_target(t) {
                assert(old_s[i as int].wf());
                let ghost before_vec = clients@;
                let r = clients[i].close_client();
                assert(views(clients@) =~= views(before_vec).update(i as int, old_s[i as int].closed()));
                let r = r.unwrap();
                res.push(r);
                assert(res@.map_values(|r: CloseRequest| (r.channel, r.connection)) =~= rbefore.map_values(
                    |r: CloseRequest| (r.channel, r.connection),
                ).push((r.channel, r.connection)));
            }
            assert(views(clients@) =~= Seq::new(
                n as nat,
                |j: int| if j < i + 1 && targets(old_s[j], t) { old_s[j].closed() } else { old_s[j] },
            ));
            i = i + 1;
        }
        assert(old_s.take(n as int) =~= old_s);
        let ghost new_s = views(clients@);
        assert forall|j: int| 0 <= j < n implies #[trigger] new_s[j].wf() by {
            assert(old_s[j].wf());
        }
        self.clients = clients;
        assert(self@ =~= close_where(old_s, t));
        res
    }

    /// Marks the connection (or, where `flow`, the channel) of every client
    /// that `t` targets as held back or not.
    fn set_held_back_targets(&mut self, t: Target, flow: bool, value: bool)
        ensures
            final(self)@ == if flow {
                set_flow_blocked_where(old(self)@, t, value)
            } else {
                set_blocked_where(old(self)@, t, value)
            },
    {
        proof {
            use_type_invariant(&*self);
        }
        let mut clients: Vec<Client> = Vec::new();
        std::mem::swap(&mut clients, &mut self.clients);
        let ghost old_s = views(clients@);
        let ghost target = if flow {
            set_flow_blocked_where(old_s, t, value)
        } else {
            set_blocked_where(old_s, t, value)
        };
        let n = clients.len();
        let mut i: usize = 0;
        while i < n
            invariant
                n == clients@.len(),
                n == old_s.len(),
                i <= n,
                all_wf(old_s),
                target == (if flow {
                    set_flow_blocked_where(old_s, t, value)
                } else {
                    set_blocked_where(old_s, t, value)
                }),
                views(clients@) =~= Seq::new(
                    n as nat,
                    |j: int| if j < i { target[j] } else { old_s[j] },
                ),
            decreases n - i,
        {
            assert(views(clients@)[i as int] == old_s[i as int]);
            if clients[i].is_target(t) {
                let ghost before_vec = clients@;
                if flow {
                    clients[i].flow_blocked = value;
                } else {
                    clients[i].blocked = value;
                }
                assert(clients@[i as int]@ == target[i as int]);
                assert(views(clients@) =~= views(before_vec).update(i as int, target[i as int]));
            }
            assert(views(clients@) =~= Seq::new(
                n as nat,
                |j: int| if j < i + 1 { target[j] } else { old_s[j] },
            ));
            i = i + 1;
        }
        let ghost new_s = views(clients@);
        assert forall|j: int| 0 <= j < n implies #[trigger] new_s[j].wf() by {
            assert(old_s[j].wf());
        }
        self.clients = clients;
        assert(self@ =~= target);
    }
}

/// The broker's callbacks about connections.
pub struct BasicConnectionCallback;

impl BasicConnectionCallback {
    /// The broker closed `connection`: every open client on it is closed;
    /// the caller closes the channels and connections returned, in order.
    pub fn close(&mut self, clients: &mut ClientRegistry, connection: u64) -> (res: Vec<
        CloseRequest,
    >)
        ensures
            final(clients)@ == close_where(old(clients)@, Target::Connection(connection)),
            res@.map_values(|r: CloseRequest| (r.channel, r.connection)) == close_requests(
                old(clients)@,
                Target::Connection(connection),
            ),
    {
        clients.close_targets(Target::Connection(connection))
    }

    /// The broker holds `connection` back: its open clients may not publish.
    pub fn blocked(&mut self, clients: &mut ClientRegistry, connection: u64)
        ensures
            final(clients)@ == set_blocked_where(old(clients)@, Target::Connection(connection), true),
    {
        clients.set_held_back_targets(Target::Connection(connection), false, true)
    }

    /// The broker no longer holds `connection` back.
    pub fn unblocked(&mut self, clients: &mut ClientRegistry, connection: u64)
        ensures
            final(clients)@ == set_blocked_where(old(clients)@, Target::Connection(connection), false),
    {
        clients.set_held_back_targets(Target::Connection(connection), false, false)
    }
}

/// The broker's callbacks about channels.
pub struct BasicChannelCallback;

impl BasicChannelCallback {
    /// The broker closed `channel`: every open client on it is closed; the
    /// caller closes the channels and connections returned, in order.
    pub fn close(&mut self, clients: &mut ClientRegistry, channel: u64) -> (res: Vec<CloseRequest>)
        ensures
            final(clients)@ == close_where(old(clients)@, Target::Channel(channel)),
            res@.map_values(|r: CloseRequest| (r.channel, r.connection)) == close_requests(
                old(clients)@,
                Target::Channel(channel),
            ),
    {
        clients.close_targets(Target::Channel(channel))
    }

    /// The broker cancelled the consumer of `channel`: every open client on
    /// it is closed, as for `close`.
    pub fn cancel(&mut self, clients: &mut ClientRegistry, channel: u64) -> (res: Vec<
        CloseRequest,
    >)
        ensures
            final(clients)@ == close_where(old(clients)@, Target::Channel(channel)),
            res@.map_values(|r: CloseRequest| (r.channel, r.connection)) == close_requests(
                old(clients)@,
                Target::Channel(channel),
            ),
    {
        clients.close_targets(Target::Channel(channel))
    }

    /// The broker asks to pause (`active`) or resume the flow on `channel`:
    /// the open clients on it record `active` as their channel being held
    /// back. The answer to the broker is `active`.
    pub fn flow(&mut self, clients: &mut ClientRegistry, channel: u64, active: bool) -> (res: bool)
        ensures
            final(clients)@ == set_flow_blocked_where(old(clients)@, Target::Channel(channel), active),
            res == active,
    {
        clients.set_held_back_targets(Target::Channel(channel), true, active);
        active
    }
}

/// A callback acts only on the clients it is about: every other client is
/// left as it was, by a close, a block or unblock, and a flow change.
pub proof fn law_callbacks_spare_other_clients(s: Seq<ClientView>, t: Target, b: bool, i: int)
    requires
        0 <= i < s.len(),
        !targets(s[i], t),
    ensures
        close_where(s, t)[i] == s[i],
        set_blocked_where(s, t, b)[i] == s[i],
        set_flow_blocked_where(s, t, b)[i] == s[i],
{
}

/// A closed connection or channel leaves none of its clients open, and
/// none of them can publish.
pub proof fn law_closed_clients_cannot_publish(s: Seq<ClientView>, t: Target, i: int)
    requires
        0 <= i < s.len(),
        targets(s[i], t),
    ensures
        !close_where(s, t)[i].open,
        !close_where(s, t)[i].is_good(),
{
}

/// While the broker holds a connection back, none of its clients can
/// publish.
pub proof fn law_blocked_clients_cannot_publish(s: Seq<ClientView>, connection: u64, i: int)
    requires
        0 <= i < s.len(),
        targets(s[i], Target::Connection(connection)),
    ensures
        !set_blocked_where(s, Target::Connection(connection), true)[i].is_good(),
{
}

/// Unblocking undoes blocking: blocking a connection and then unblocking it
/// leaves the clients as unblocking alone does, and as they were where
/// none of the connection's clients was blocked before.
pub proof fn law_unblock_undoes_block(s: Seq<ClientView>, connection: u64)
    ensures
        set_blocked_where(
            set_blocked_where(s, Target::Connection(connection), true),
            Target::Connection(connection),
            false,
        ) == set_blocked_where(s, Target::Connection(connection), false),
        (forall|i: int|
            0 <= i < s.len() && targets(s[i], Target::Connection(connection)) ==> !s[i].blocked)
            ==> set_blocked_where(
            set_blocked_where(s, Target::Connection(connection), true),
            Target::Connection(connection),
            false,
        ) == s,
{
    let t = Target::Connection(connection);
    assert(set_blocked_where(set_blocked_where(s, t, true), t, false) =~= set_blocked_where(
        s,
        t,
        false,
    ));
    if forall|i: int| 0 <= i < s.len() && targets(s[i], t) ==> !s[i].blocked {
        assert(set_blocked_where(s, t, false) =~= s);
    }
}

/// Every callback keeps every client well formed.
pub proof fn law_callbacks_keep_clients_well_formed(s: Seq<ClientView>, t: Target, b: bool)
    requires
        all_wf(s),
    ensures
        all_wf(close_where(s, t)),
        all_wf(set_blocked_where(s, t, b)),
        all_wf(set_flow_blocked_where(s, t, b)),
{
}

/// Only the last step of the opening protocol opens a client: every other
/// event leaves the client's open flag as it was, and the queue's binding
/// opens it exactly when it has a connection and a channel. Only the
/// binding finishes the protocol.
pub proof fn law_only_queue_binding_opens(c: ClientView, e: OpenEventView)
    ensures
        !(e is QueueBound) ==> open_transition(c, e).0.open == c.open,
        !(e is QueueBound) ==> !(open_transition(c, e).1 is Finished),
        e is QueueBound ==> (open_transition(c, e).0.open <==> (c.open || (c.connection is Some
            && c.channel is Some))),
        !c.open && !(e is QueueBound) ==> !open_transition(c, e).0.is_good(),
{
}

} // verus!
