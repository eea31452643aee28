use vstd::prelude::*;
use crate::ipc::IpcResponse;
use crate::text::{chars_eq, chars_of, string_from_chars};

verus! {

/// The topics a client subscribed to. A client without subscriptions receives
/// every event; `*` subscribes to everything.
pub struct Subscriptions {
    topics: Vec<String>,
}

/// The characters of each string.
pub open spec fn topic_views(v: Seq<String>) -> Seq<Seq<char>> {
    v.map_values(|s: String| s@)
}

/// Whether a client subscribed to `subs` receives an event of `topic`.
pub open spec fn receives(subs: Set<Seq<char>>, topic: Seq<char>) -> bool {
    subs.is_empty() || subs.contains(topic) || subs.contains("*"@)
}

/// Appending an element adds it to the set of elements.
proof fn lemma_push_to_set(s: Seq<Seq<char>>, x: Seq<char>)
    ensures
        s.push(x).to_set() == s.to_set().insert(x),
{
    assert forall|y: Seq<char>| #[trigger] s.push(x).contains(y) == (s.contains(y) || y == x) by {
        if s.push(x).contains(y) {
            let j = choose|j: int| 0 <= j < s.push(x).len() && s.push(x)[j] == y;
            if j < s.len() {
                assert(s[j] == y);
            }
        }
        if s.contains(y) {
            let j = choose|j: int| 0 <= j < s.len() && s[j] == y;
            assert(s.push(x)[j] == y);
        }
        if y == x {
            assert(s.push(x)[s.len() as int] == y);
        }
    }
    assert(s.push(x).to_set() =~= s.to_set().insert(x));
}

impl View for Subscriptions {
    type V = Set<Seq<char>>;

    closed spec fn view(&self) -> Set<Seq<char>> {
        topic_views(self.topics@).to_set()
    }
}

impl Subscriptions {
    #[verifier::type_invariant]
    spec fn unique(self) -> bool {
        topic_views(self.topics@).no_duplicates()
    }

    proof fn lemma_view(&self)
        ensures
            self@ == topic_views(self.topics@).to_set(),
            self@.is_empty() <==> self.topics@.len() == 0,
            self@.finite(),
    {
        let v = topic_views(self.topics@);
        if v.len() > 0 {
            assert(v.to_set().contains(v[0]));
        } else {
            assert(v.to_set() =~= Set::empty());
        }
        vstd::seq_lib::seq_to_set_is_finite(v);
    }

    /// No subscriptions: every event is received.
    pub fn new() -> (s: Subscriptions)
        ensures
            s@ == Set::<Seq<char>>::empty(),
    {
        let s = Subscriptions { topics: Vec::new() };
        assert(topic_views(s.topics@).to_set() =~= Set::<Seq<char>>::empty());
        s
    }

    /// Where `topic` stands in the list, if it is there.
    fn position(&self, topic: &str) -> (r: Option<usize>)
        ensures
            match r {
                Some(i) => i < self.topics@.len() && self.topics@[i as int]@ == topic@,
                None => !self@.contains(topic@),
            },
    {
        proof {
            self.lemma_view();
        }
        let t = chars_of(topic);
        let n = self.topics.len();
        for i in 0..n
            invariant
                n == self.topics@.len(),
                t@ == topic@,
                self@ == topic_views(self.topics@).to_set(),
                forall|j: int| 0 <= j < i ==> self.topics@[j]@ != topic@,
        {
            if chars_eq(&chars_of(self.topics[i].as_str()), &t) {
                return Some(i);
            }
        }
        proof {
            let v = topic_views(self.topics@);
            if v.to_set().contains(topic@) {
                let j = choose|j: int| 0 <= j < v.len() && v[j] == topic@;
                assert(self.topics@[j]@ == topic@);
            }
        }
        None
    }

    /// Subscribe to a topic.
    pub fn subscribe(&mut self, topic: String)
        ensures
            final(self)@ == old(self)@.insert(topic@),
    {
        proof {
            use_type_invariant(&*self);
            self.lemma_view();
        }
        match self.position(topic.as_str()) {
            Some(i) => {
                assert(topic_views(self.topics@)[i as int] == topic@);
                assert(old(self)@.contains(topic@));
                assert(old(self)@.insert(topic@) =~= old(self)@);
            },
            None => {
                let ghost before = topic_views(self.topics@);
                let ghost t = topic@;
                let mut topics: Vec<String> = Vec::new();
                std::mem::swap(&mut topics, &mut self.topics);
                topics.push(topic);
                assert(topic_views(topics@) =~= before.push(t));
                proof {
                    assert(!before.contains(t));
                    assert forall|i: int, j: int| 0 <= i < j < before.push(t).len() implies before.push(t)[i] != before.push(t)[j] by {
                        if j == before.len() {
                            assert(before.push(t)[i] == before[i]);
                        }
                    }
                    lemma_push_to_set(before, t);
                }
                self.topics = topics;
            },
        }
    }

    /// Subscribe to each of the topics.
    pub fn subscribe_all(&mut self, topics: Vec<String>)
        ensures
            final(self)@ == old(self)@.union(topic_views(topics@).to_set()),
    {
        let n = topics.len();
        let ghost tv = topic_views(topics@);
        let mut topics = topics;
        let ghost start = self@;
        let mut i: usize = 0;
        while i < n
            invariant
                n == tv.len(),
                topics@.len() == n - i,
                forall|j: int| 0 <= j < topics@.len() ==> #[trigger] topics@[j]@ == tv[j + i],
                i <= n,
                self@ == start.union(tv.take(i as int).to_set()),
            decreases n - i,
        {
            let t = topics.remove(0);
            assert(t@ == tv[i as int]);
            self.subscribe(t);
            assert(tv.take(i + 1) =~= tv.take(i as int).push(tv[i as int]));
            proof {
                lemma_push_to_set(tv.take(i as int), tv[i as int]);
            }
            assert(self@ =~= start.union(tv.take(i + 1).to_set()));
            i = i + 1;
        }
        assert(tv.take(n as int) =~= tv);
    }

    /// Unsubscribe from a topic.
    pub fn unsubscribe(&mut self, topic: &str)
        ensures
            final(self)@ == old(self)@.remove(topic@),
    {
        proof {
            use_type_invariant(&*self);
            self.lemma_view();
        }
        match self.position(topic) {
            Some(i) => {
                let ghost before = topic_views(self.topics@);
                let mut topics: Vec<String> = Vec::new();
                std::mem::swap(&mut topics, &mut self.topics);
                topics.remove(i);
                let ghost after = topic_views(topics@);
                proof {
                    assert(after =~= before.remove(i as int));
                    assert(before[i as int] == topic@);
                    assert forall|x: Seq<char>| after.to_set().contains(x) == before.to_set().remove(topic@).contains(x) by {
                        if after.to_set().contains(x) {
                            let j = choose|j: int| 0 <= j < after.len() && after[j] == x;
                            if j < i {
                                assert(before[j] == x);
                                assert(before[j] != before[i as int]);
                            } else {
                                assert(before[j + 1] == x);
                                assert(before[j + 1] != before[i as int]);
                            }
                            assert(before.to_set().contains(x));
                        }
                        if before.to_set().remove(topic@).contains(x) {
                            let j = choose|j: int| 0 <= j < before.len() && before[j] == x;
                            assert(j != i);
                            if j < i {
                                assert(after[j] == x);
                            } else {
                                assert(after[j - 1] == x);
                            }
                        }
                    }
                    assert(after.to_set() =~= before.to_set().remove(topic@));
                    assert forall|a: int, b: int| 0 <= a < b < after.len() implies after[a] != after[b] by {
                        let a2 = if a < i { a } else { a + 1 };
                        let b2 = if b < i { b } else { b + 1 };
                        assert(after[a] == before[a2] && after[b] == before[b2]);
                    }
                }
                self.topics = topics;
            },
            None => {
                assert(old(self)@.remove(topic@) =~= old(self)@);
            },
        }
    }

    /// Unsubscribe from each of the topics.
    pub fn unsubscribe_all(&mut self, topics: &Vec<String>)
        ensures
            final(self)@ == old(self)@.difference(topic_views(topics@).to_set()),
    {
        let n = topics.len();
        let ghost tv = topic_views(topics@);
        let ghost start = self@;
        for i in 0..n
            invariant
                n == tv.len(),
                tv == topic_views(topics@),
                self@ == start.difference(tv.take(i as int).to_set()),
        {
            self.unsubscribe(topics[i].as_str());
            assert(tv.take(i + 1) =~= tv.take(i as int).push(tv[i as int]));
            proof {
                lemma_push_to_set(tv.take(i as int), tv[i as int]);
            }
            assert(self@ =~= start.difference(tv.take(i + 1).to_set()));
        }
        assert(tv.take(n as int) =~= tv);
    }

    /// Whether an event of `topic` goes to this client.
    pub fn delivers(&self, topic: &str) -> (r: bool)
        ensures
            r == receives(self@, topic@),
    {
        proof {
            use_type_invariant(self);
            self.lemma_view();
        }
        if self.topics.len() == 0 {
            return true;
        }
        let a = self.position(topic).is_some();
        let b = self.position("*").is_some();
        proof {
            let v = topic_views(self.topics@);
            if a {
                let i = choose|i: int| 0 <= i < self.topics@.len() && #[trigger] self.topics@[i]@ == topic@;
                assert(v[i] == topic@);
                assert(v.contains(topic@));
            }
            if b {
                let i = choose|i: int| 0 <= i < self.topics@.len() && #[trigger] self.topics@[i]@ == "*"@;
                assert(v[i] == "*"@);
                assert(v.contains("*"@));
            }
        }
        a || b
    }
}

/// Subscribing to a topic makes a client receive its events; unsubscribing
/// from the only topic it follows makes it receive everything again.
pub proof fn lemma_subscription_delivery(subs: Set<Seq<char>>, topic: Seq<char>)
    ensures
        receives(subs.insert(topic), topic),
        receives(Set::<Seq<char>>::empty(), topic),
        receives(subs.insert("*"@), topic),
        receives(Set::<Seq<char>>::empty().insert(topic).remove(topic), topic),
{
    assert(Set::<Seq<char>>::empty().insert(topic).remove(topic) =~= Set::<Seq<char>>::empty());
}

/// A connected client of the internal IPC server: the number the server gave
/// its connection object, and its subscriptions.
pub struct ClientEntry {
    pub id: u64,
    pub subscriptions: Subscriptions,
}

/// The clients as (id, subscribed topics), in the order they connected.
pub open spec fn clients_view(v: Seq<ClientEntry>) -> Seq<(u64, Set<Seq<char>>)> {
    v.map_values(|c: ClientEntry| (c.id, c.subscriptions@))
}

/// Where the first client with this id stands, if any.
pub open spec fn first_client(s: Seq<(u64, Set<Seq<char>>)>, id: u64) -> Option<int> {
    if exists|i: int| 0 <= i < s.len() && s[i].0 == id {
        Some(choose|i: int| 0 <= i < s.len() && s[i].0 == id && forall|j: int| 0 <= j < i ==> s[j].0 != id)
    } else {
        None
    }
}

/// The ids of the clients that receive an event of `topic`, in order.
pub open spec fn recipients_of(s: Seq<(u64, Set<Seq<char>>)>, topic: Seq<char>) -> Seq<u64>
    decreases s.len(),
{
    if s.len() == 0 {
        Seq::empty()
    } else {
        recipients_of(s.drop_last(), topic) + if receives(s.last().1, topic) {
            seq![s.last().0]
        } else {
            Seq::empty()
        }
    }
}

/// What `first_client` finds: the least position holding the id, or nothing when
/// no client has it.
proof fn lemma_first_client_found(s: Seq<(u64, Set<Seq<char>>)>, id: u64)
    ensures
        match first_client(s, id) {
            Some(i) => 0 <= i < s.len() && s[i].0 == id && forall|j: int| 0 <= j < i ==> s[j].0 != id,
            None => forall|j: int| 0 <= j < s.len() ==> s[j].0 != id,
        },
{
    if exists|i: int| 0 <= i < s.len() && s[i].0 == id {
        let w = choose|i: int| 0 <= i < s.len() && s[i].0 == id;
        lemma_least_witness(s, id, w);
    }
}

/// Below any position holding the id lies a least such position.
proof fn lemma_least_witness(s: Seq<(u64, Set<Seq<char>>)>, id: u64, w: int)
    requires
        0 <= w < s.len(),
        s[w].0 == id,
    ensures
        exists|i: int| 0 <= i < s.len() && s[i].0 == id && forall|j: int| 0 <= j < i ==> s[j].0 != id,
    decreases w,
{
    if exists|j: int| 0 <= j < w && s[j].0 == id {
        let j = choose|j: int| 0 <= j < w && s[j].0 == id;
        lemma_least_witness(s, id, j);
    } else {
        assert(forall|j: int| 0 <= j < w ==> s[j].0 != id);
    }
}

/// A sequence's first index holding an id is the least one.
proof fn lemma_first_client(s: Seq<(u64, Set<Seq<char>>)>, id: u64, i: int)
    requires
        0 <= i < s.len(),
        s[i].0 == id,
        forall|j: int| 0 <= j < i ==> s[j].0 != id,
    ensures
        first_client(s, id) == Some(i),
{
    let k = choose|k: int| 0 <= k < s.len() && s[k].0 == id && forall|j: int| 0 <= j < k ==> s[j].0 != id;
    assert(0 <= k < s.len() && s[k].0 == id && forall|j: int| 0 <= j < k ==> s[j].0 != id);
    if k < i {
        assert(s[k].0 != id);
    }
    if i < k {
        assert(s[i].0 != id);
    }
}

/// Replacing one client replaces its (id, topics) pair.
proof fn lemma_update_view(before: Seq<ClientEntry>, i: int, changed: ClientEntry)
    requires
        0 <= i < before.len(),
    ensures
        clients_view(before.update(i, changed)) == clients_view(before).update(i, (changed.id, changed.subscriptions@)),
{
    assert(clients_view(before.update(i, changed)) =~= clients_view(before).update(i, (changed.id, changed.subscriptions@)));
}

/// Find the first client with this id (the connection objects compare equal).
pub fn find_client(clients: &[ClientEntry], id: u64) -> (r: Option<usize>)
    ensures
        match r {
            Some(i) => i < clients@.len() && clients@[i as int].id == id
                && first_client(clients_view(clients@), id) == Some(i as int),
            None => first_client(clients_view(clients@), id) is None,
        },
{
    let n = clients.len();
    let ghost s = clients_view(clients@);
    for i in 0..n
        invariant
            n == clients@.len(),
            s == clients_view(clients@),
            forall|j: int| 0 <= j < i ==> s[j].0 != id,
    {
        if clients[i].id == id {
            proof {
                lemma_first_client(s, id, i as int);
            }
            return Some(i);
        }
    }
    proof {
        lemma_first_client_found(s, id);
    }
    None
}

/// The clients of the internal IPC server.
pub struct ClientTable {
    clients: Vec<ClientEntry>,
}

impl View for ClientTable {
    type V = Seq<(u64, Set<Seq<char>>)>;

    closed spec fn view(&self) -> Seq<(u64, Set<Seq<char>>)> {
        clients_view(self.clients@)
    }
}

impl ClientTable {
    /// No clients.
    pub fn new() -> (t: ClientTable)
        ensures
            t@ == Seq::<(u64, Set<Seq<char>>)>::empty(),
    {
        let t = ClientTable { clients: Vec::new() };
        assert(t@ =~= Seq::<(u64, Set<Seq<char>>)>::empty());
        t
    }

    /// A client connected: it starts with no subscriptions.
    pub fn bind(&mut self, id: u64)
        ensures
            final(self)@ == old(self)@.push((id, Set::<Seq<char>>::empty())),
    {
        let ghost before = self.clients@;
        let subscriptions = Subscriptions::new();
        self.clients.push(ClientEntry { id, subscriptions });
        assert(clients_view(self.clients@) =~= clients_view(before).push((id, Set::<Seq<char>>::empty())));
    }

    /// The client subscribes to a topic; unknown clients are ignored.
    #[verifier::spinoff_prover]
    #[verifier::rlimit(40)]
    pub fn subscribe(&mut self, id: u64, topic: String)
        ensures
            final(self)@ == match first_client(old(self)@, id) {
                Some(i) => old(self)@.update(i, (id, old(self)@[i].1.insert(topic@))),
                None => old(self)@,
            },
    {
        match find_client(self.clients.as_slice(), id) {
            Some(i) => {
                let ghost before = self.clients@;
                let ghost t = topic@;
                let mut entry = self.clients.remove(i);
                assert(entry == before[i as int]);
                entry.subscriptions.subscribe(topic);
                let ghost changed = entry;
                assert(changed.id == id);
                assert(changed.subscriptions@ == clients_view(before)[i as int].1.insert(t));
                self.clients.insert(i, entry);
                proof {
                    assert(self.clients@ =~= before.update(i as int, changed));
                    lemma_update_view(before, i as int, changed);
                }
            },
            None => {},
        }
    }

    /// The client unsubscribes from a topic; unknown clients are ignored.
    #[verifier::spinoff_prover]
    #[verifier::rlimit(40)]
    pub fn unsubscribe(&mut self, id: u64, topic: &str)
        ensures
            final(self)@ == match first_client(old(self)@, id) {
                Some(i) => old(self)@.update(i, (id, old(self)@[i].1.remove(topic@))),
                None => old(self)@,
            },
    {
        match find_client(self.clients.as_slice(), id) {
            Some(i) => {
                let ghost before = self.clients@;
                let mut entry = self.clients.remove(i);
                entry.subscriptions.unsubscribe(topic);
                let ghost changed = entry;
                self.clients.insert(i, entry);
                proof {
                    assert(self.clients@ =~= before.update(i as int, changed));
                    lemma_update_view(before, i as int, changed);
                }
            },
            None => {},
        }
    }

    /// The clients an event of `topic` is sent to, in order.
    pub fn recipients(&self, topic: &str) -> (r: Vec<u64>)
        ensures
            r@ == recipients_of(self@, topic@),
    {
        let n = self.clients.len();
        let ghost s = clients_view(self.clients@);
        let mut r: Vec<u64> = Vec::new();
        for i in 0..n
            invariant
                n == self.clients@.len(),
                s == clients_view(self.clients@),
                s == self@,
                r@ == recipients_of(s.take(i as int), topic@),
        {
            assert(s.take(i + 1).drop_last() =~= s.take(i as int));
            if self.clients[i].subscriptions.delivers(topic) {
                r.push(self.clients[i].id);
            }
            assert(r@ =~= recipients_of(s.take(i + 1), topic@));
        }
        assert(s.take(n as int) =~= s);
        r
    }
}

/// Once a connected client subscribes to a topic, events of that topic reach it.
pub proof fn lemma_subscribed_client_receives(s: Seq<(u64, Set<Seq<char>>)>, id: u64, topic: Seq<char>)
    requires
        first_client(s, id) is Some,
    ensures
        recipients_of(s.update(first_client(s, id)->0, (id, s[first_client(s, id)->0].1.insert(topic))), topic).contains(id),
{
    lemma_first_client_found(s, id);
    let i = first_client(s, id)->0;
    let t = s.update(i, (id, s[i].1.insert(topic)));
    assert(receives(t[i].1, topic));
    lemma_recipients_include(t, topic, i);
}

/// A client at position `i` that receives the topic is among the recipients.
proof fn lemma_recipients_include(s: Seq<(u64, Set<Seq<char>>)>, topic: Seq<char>, i: int)
    requires
        0 <= i < s.len(),
        receives(s[i].1, topic),
    ensures
        recipients_of(s, topic).contains(s[i].0),
    decreases s.len(),
{
    let prev = recipients_of(s.drop_last(), topic);
    if i == s.len() - 1 {
        assert(recipients_of(s, topic)[prev.len() as int] == s[i].0);
    } else {
        lemma_recipients_include(s.drop_last(), topic, i);
        let k = choose|k: int| 0 <= k < prev.len() && prev[k] == s[i].0;
        assert(recipients_of(s, topic)[k] == s[i].0);
    }
}

/// The commands the Unix API server acts on; every other command is `Unsupported`.
#[derive(Debug, Clone, Copy, PartialEq, Eq)]
pub enum ServerCommand {
    ClipboardList { limit: Option<usize> },
    ShowLauncher,
    HideLauncher,
    Unsupported,
}

/// How the Unix API server answers a command.
#[derive(Debug, Clone, PartialEq, Eq)]
pub enum ServerReply {
    /// A plain success.
    Done,
    /// Success carrying the requested limit (`{"limit": ..}`).
    Limit(Option<usize>),
    /// An error response with this message.
    Failed(String),
}

/// What the server does for a command: the service name announced on the bus
/// (as a `ServiceStarted` lifecycle event), if any, and the reply.
pub struct DispatchPlan {
    pub announce: Option<String>,
    pub reply: ServerReply,
}

/// The server's handling of a command: clipboard listing and launcher show/hide
/// are announced and acknowledged; every other command is refused with
/// `command not implemented in MVP`.
pub open spec fn dispatch_spec(cmd: ServerCommand) -> (Option<Seq<char>>, Option<Option<usize>>, Option<Seq<char>>) {
    match cmd {
        ServerCommand::ClipboardList { limit } => (Some("clipboard-list"@), Some(limit), None),
        ServerCommand::ShowLauncher => (Some("show-launcher"@), None, None),
        ServerCommand::HideLauncher => (Some("hide-launcher"@), None, None),
        ServerCommand::Unsupported => (None, None, Some("command not implemented in MVP"@)),
    }
}

/// The plan as (announcement, limit reply, error message).
pub open spec fn plan_view(p: DispatchPlan) -> (Option<Seq<char>>, Option<Option<usize>>, Option<Seq<char>>) {
    (
        match p.announce { Some(a) => Some(a@), None => None },
        match p.reply { ServerReply::Limit(l) => Some(l), _ => None },
        match p.reply { ServerReply::Failed(m) => Some(m@), _ => None },
    )
}

/// Decide how the Unix API server handles a command.
pub fn dispatch_command(cmd: ServerCommand) -> (p: DispatchPlan)
    ensures
        plan_view(p) == dispatch_spec(cmd),
        (p.reply is Done) == (cmd is ShowLauncher || cmd is HideLauncher),
{
    match cmd {
        ServerCommand::ClipboardList { limit } => DispatchPlan {
            announce: Some("clipboard-list".to_owned()),
            reply: ServerReply::Limit(limit),
        },
        ServerCommand::ShowLauncher => DispatchPlan {
            announce: Some("show-launcher".to_owned()),
            reply: ServerReply::Done,
        },
        ServerCommand::HideLauncher => DispatchPlan {
            announce: Some("hide-launcher".to_owned()),
            reply: ServerReply::Done,
        },
        ServerCommand::Unsupported => DispatchPlan {
            announce: None,
            reply: ServerReply::Failed("command not implemented in MVP".to_owned()),
        },
    }
}

/// The error response for a command payload that is not a command.
pub fn invalid_command() -> (r: IpcResponse)
    ensures
        r matches IpcResponse::Error { code, message } && code == 1 && message@ == "invalid command"@,
{
    IpcResponse::error("invalid command".to_owned())
}

/// The sink a D-Bus audio call addresses: `default` when the caller gave none.
pub fn sink_or_default(sink: String) -> (r: String)
    ensures
        r@ == if sink@.len() == 0 { "default"@ } else { sink@ },
{
    if sink.as_str().is_empty() {
        "default".to_owned()
    } else {
        sink
    }
}

/// The output a D-Bus wallpaper call addresses: none when the caller gave an
/// empty name.
pub fn output_or_none(output: String) -> (r: Option<String>)
    ensures
        match r {
            Some(o) => output@.len() > 0 && o@ == output@,
            None => output@.len() == 0,
        },
{
    if output.as_str().is_empty() {
        None
    } else {
        Some(output)
    }
}

/// The service name announced for a workspace switch: `switch-workspace:<name>`.
pub fn workspace_switch_name(workspace: &str) -> (r: String)
    ensures
        r@ == "switch-workspace:"@ + workspace@,
{
    let mut v = chars_of("switch-workspace:");
    let w = chars_of(workspace);
    let ghost start = v@;
    let n = w.len();
    for i in 0..n
        invariant
            n == w@.len(),
            v@ == start + w@.take(i as int),
    {
        v.push(w[i]);
        assert(v@ =~= start + w@.take(i + 1));
    }
    assert(w@.take(n as int) =~= w@);
    string_from_chars(&v)
}

} // verus!
