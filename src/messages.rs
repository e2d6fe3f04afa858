use vstd::prelude::*;

verus! {

/// Character view of a list of strings.
pub open spec fn strings_view(v: Seq<String>) -> Seq<Seq<char>> {
    v.map_values(|s: String| s@)
}

/// Character view of a topology: one node name and its neighbor names per entry.
pub open spec fn topology_view(v: Seq<(String, Vec<String>)>) -> Seq<(Seq<char>, Seq<Seq<char>>)> {
    v.map_values(|e: (String, Vec<String>)| (e.0@, strings_view(e.1@)))
}

/// A wire message: who sent it, who it is for, and what it says.
#[derive(Debug, PartialEq, Eq)]
pub struct Message {
    pub src: String,
    pub dest: String,
    pub body: Body,
}

/// The closed set of message kinds, each carrying its own fields.
#[derive(Debug, PartialEq, Eq)]
pub enum Body {
    Init(Init),
    InitOk(InitOk),
    Echo(Echo),
    EchoOk(EchoOk),
    Generate(Generate),
    GenerateOk(GenerateOk),
    Topology(Topology),
    TopologyOk(TopologyOk),
    Broadcast(Broadcast),
    BroadcastOk(BroadcastOk),
    Read(Read),
    ReadOk(ReadOk),
}

/// The discriminant of a [`Body`]: what a router dispatches on.
#[derive(Debug, Clone, Copy, PartialEq, Eq, Structural)]
pub enum BodyKind {
    Init,
    InitOk,
    Echo,
    EchoOk,
    Generate,
    GenerateOk,
    Topology,
    TopologyOk,
    Broadcast,
    BroadcastOk,
    Read,
    ReadOk,
}

#[derive(Debug, PartialEq, Eq)]
pub struct Init {
    pub msg_id: u64,
    pub node_id: String,
    pub node_ids: Vec<String>,
}

#[derive(Debug, PartialEq, Eq)]
pub struct InitOk {
    pub in_reply_to: u64,
}

#[derive(Debug, PartialEq, Eq)]
pub struct Echo {
    pub msg_id: u64,
    pub echo: String,
}

#[derive(Debug, PartialEq, Eq)]
pub struct EchoOk {
    pub msg_id: Option<u64>,
    pub in_reply_to: u64,
    pub echo: String,
}

#[derive(Debug, PartialEq, Eq)]
pub struct Generate {
    pub msg_id: u64,
}

#[derive(Debug, PartialEq, Eq)]
pub struct GenerateOk {
    pub in_reply_to: u64,
    pub msg_id: Option<u64>,
    pub id: String,
}

/// A broadcast value travels as its compact JSON text; two values are the
/// same value when their texts are equal.
#[derive(Debug, PartialEq, Eq)]
pub struct Broadcast {
    pub message: String,
    pub msg_id: u64,
}

#[derive(Debug, PartialEq, Eq)]
pub struct BroadcastOk {
    pub in_reply_to: u64,
    pub msg_id: Option<u64>,
}

#[derive(Debug, PartialEq, Eq)]
pub struct Read {
    pub msg_id: u64,
}

#[derive(Debug, PartialEq, Eq)]
pub struct ReadOk {
    pub in_reply_to: u64,
    pub msg_id: Option<u64>,
    pub messages: Vec<String>,
}

/// The neighbor lists of a cluster, one entry per node name.
#[derive(Debug, PartialEq, Eq)]
pub struct Topology {
    pub msg_id: u64,
    pub topology: Vec<(String, Vec<String>)>,
}

#[derive(Debug, PartialEq, Eq)]
pub struct TopologyOk {
    pub in_reply_to: u64,
    pub msg_id: Option<u64>,
}

/// The mathematical content of a [`Body`].
pub enum BodyView {
    Init { msg_id: u64, node_id: Seq<char>, node_ids: Seq<Seq<char>> },
    InitOk { in_reply_to: u64 },
    Echo { msg_id: u64, echo: Seq<char> },
    EchoOk { msg_id: Option<u64>, in_reply_to: u64, echo: Seq<char> },
    Generate { msg_id: u64 },
    GenerateOk { in_reply_to: u64, msg_id: Option<u64>, id: Seq<char> },
    Topology { msg_id: u64, topology: Seq<(Seq<char>, Seq<Seq<char>>)> },
    TopologyOk { in_reply_to: u64, msg_id: Option<u64> },
    Broadcast { message: Seq<char>, msg_id: u64 },
    BroadcastOk { in_reply_to: u64, msg_id: Option<u64> },
    Read { msg_id: u64 },
    ReadOk { in_reply_to: u64, msg_id: Option<u64>, messages: Seq<Seq<char>> },
}

/// The mathematical content of a [`Message`].
pub struct MessageView {
    pub src: Seq<char>,
    pub dest: Seq<char>,
    pub body: BodyView,
}

impl BodyView {
    pub open spec fn kind(self) -> BodyKind {
        match self {
            BodyView::Init { .. } => BodyKind::Init,
            BodyView::InitOk { .. } => BodyKind::InitOk,
            BodyView::Echo { .. } => BodyKind::Echo,
            BodyView::EchoOk { .. } => BodyKind::EchoOk,
            BodyView::Generate { .. } => BodyKind::Generate,
            BodyView::GenerateOk { .. } => BodyKind::GenerateOk,
            BodyView::Topology { .. } => BodyKind::Topology,
            BodyView::TopologyOk { .. } => BodyKind::TopologyOk,
            BodyView::Broadcast { .. } => BodyKind::Broadcast,
            BodyView::BroadcastOk { .. } => BodyKind::BroadcastOk,
            BodyView::Read { .. } => BodyKind::Read,
            BodyView::ReadOk { .. } => BodyKind::ReadOk,
        }
    }
}

impl View for Body {
    type V = BodyView;

    open spec fn view(&self) -> BodyView {
        match self {
            Body::Init(b) => BodyView::Init {
                msg_id: b.msg_id,
                node_id: b.node_id@,
                node_ids: strings_view(b.node_ids@),
            },
            Body::InitOk(b) => BodyView::InitOk { in_reply_to: b.in_reply_to },
            Body::Echo(b) => BodyView::Echo { msg_id: b.msg_id, echo: b.echo@ },
            Body::EchoOk(b) => BodyView::EchoOk {
                msg_id: b.msg_id,
                in_reply_to: b.in_reply_to,
                echo: b.echo@,
            },
            Body::Generate(b) => BodyView::Generate { msg_id: b.msg_id },
            Body::GenerateOk(b) => BodyView::GenerateOk {
                in_reply_to: b.in_reply_to,
                msg_id: b.msg_id,
                id: b.id@,
            },
            Body::Topology(b) => BodyView::Topology {
                msg_id: b.msg_id,
                topology: topology_view(b.topology@),
            },
            Body::TopologyOk(b) => BodyView::TopologyOk {
                in_reply_to: b.in_reply_to,
                msg_id: b.msg_id,
            },
            Body::Broadcast(b) => BodyView::Broadcast { message: b.message@, msg_id: b.msg_id },
            Body::BroadcastOk(b) => BodyView::BroadcastOk {
                in_reply_to: b.in_reply_to,
                msg_id: b.msg_id,
            },
            Body::Read(b) => BodyView::Read { msg_id: b.msg_id },
            Body::ReadOk(b) => BodyView::ReadOk {
                in_reply_to: b.in_reply_to,
                msg_id: b.msg_id,
                messages: strings_view(b.messages@),
            },
        }
    }
}

impl View for Message {
    type V = MessageView;

    open spec fn view(&self) -> MessageView {
        MessageView { src: self.src@, dest: self.dest@, body: self.body@ }
    }
}

/// Character view of a list of messages.
pub open spec fn messages_view(v: Seq<Message>) -> Seq<MessageView> {
    v.map_values(|m: Message| m@)
}

/// Copies a list of strings.
pub fn copy_strings(v: &Vec<String>) -> (r: Vec<String>)
    ensures
        r@ == v@,
{
    let mut r: Vec<String> = Vec::new();
    let mut i: usize = 0;
    while i < v.len()
        invariant
            i <= v@.len(),
            r@ == v@.subrange(0, i as int),
        decreases v@.len() - i,
    {
        r.push(v[i].clone());
        i = i + 1;
    }
    assert(r@ =~= v@);
    r
}

/// Copies a topology, entry by entry.
fn copy_topology(v: &Vec<(String, Vec<String>)>) -> (r: Vec<(String, Vec<String>)>)
    ensures
        topology_view(r@) == topology_view(v@),
{
    let mut r: Vec<(String, Vec<String>)> = Vec::new();
    let mut i: usize = 0;
    while i < v.len()
        invariant
            i <= v@.len(),
            r@.len() == i,
            forall|j: int| 0 <= j < i ==> #[trigger] r@[j].0 == v@[j].0 && r@[j].1@ == v@[j].1@,
        decreases v@.len() - i,
    {
        let name = v[i].0.clone();
        let neighbors = copy_strings(&v[i].1);
        r.push((name, neighbors));
        i = i + 1;
    }
    assert(topology_view(r@) =~= topology_view(v@));
    r
}

impl Body {
    /// The kind of this body.
    pub fn kind(&self) -> (k: BodyKind)
        ensures
            k == self@.kind(),
    {
        match self {
            Body::Init(_) => BodyKind::Init,
            Body::InitOk(_) => BodyKind::InitOk,
            Body::Echo(_) => BodyKind::Echo,
            Body::EchoOk(_) => BodyKind::EchoOk,
            Body::Generate(_) => BodyKind::Generate,
            Body::GenerateOk(_) => BodyKind::GenerateOk,
            Body::Topology(_) => BodyKind::Topology,
            Body::TopologyOk(_) => BodyKind::TopologyOk,
            Body::Broadcast(_) => BodyKind::Broadcast,
            Body::BroadcastOk(_) => BodyKind::BroadcastOk,
            Body::Read(_) => BodyKind::Read,
            Body::ReadOk(_) => BodyKind::ReadOk,
        }
    }
}

impl Clone for Body {
    fn clone(&self) -> (r: Body)
        ensures
            r@ == self@,
    {
        match self {
            Body::Init(b) => Body::Init(
                Init {
                    msg_id: b.msg_id,
                    node_id: b.node_id.clone(),
                    node_ids: copy_strings(&b.node_ids),
                },
            ),
            Body::InitOk(b) => Body::InitOk(InitOk { in_reply_to: b.in_reply_to }),
            Body::Echo(b) => Body::Echo(Echo { msg_id: b.msg_id, echo: b.echo.clone() }),
            Body::EchoOk(b) => Body::EchoOk(
                EchoOk { msg_id: b.msg_id, in_reply_to: b.in_reply_to, echo: b.echo.clone() },
            ),
            Body::Generate(b) => Body::Generate(Generate { msg_id: b.msg_id }),
            Body::GenerateOk(b) => Body::GenerateOk(
                GenerateOk { in_reply_to: b.in_reply_to, msg_id: b.msg_id, id: b.id.clone() },
            ),
            Body::Topology(b) => Body::Topology(
                Topology { msg_id: b.msg_id, topology: copy_topology(&b.topology) },
            ),
            Body::TopologyOk(b) => Body::TopologyOk(
                TopologyOk { in_reply_to: b.in_reply_to, msg_id: b.msg_id },
            ),
            Body::Broadcast(b) => Body::Broadcast(
                Broadcast { message: b.message.clone(), msg_id: b.msg_id },
            ),
            Body::BroadcastOk(b) => Body::BroadcastOk(
                BroadcastOk { in_reply_to: b.in_reply_to, msg_id: b.msg_id },
            ),
            Body::Read(b) => Body::Read(Read { msg_id: b.msg_id }),
            Body::ReadOk(b) => Body::ReadOk(
                ReadOk {
                    in_reply_to: b.in_reply_to,
                    msg_id: b.msg_id,
                    messages: copy_strings(&b.messages),
                },
            ),
        }
    }
}

impl Clone for Message {
    fn clone(&self) -> (r: Message)
        ensures
            r@ == self@,
    {
        Message { src: self.src.clone(), dest: self.dest.clone(), body: self.body.clone() }
    }
}

impl Message {
    /// The reply to this message: sender and receiver swapped, carrying `body`.
    pub fn create_response(&self, body: Body) -> (r: Message)
        ensures
            r.src == self.dest,
            r.dest == self.src,
            r.body == body,
    {
        Message { src: self.dest.clone(), dest: self.src.clone(), body }
    }
}

} // verus!
