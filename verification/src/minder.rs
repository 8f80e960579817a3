//! A subscriber's book of plants: every node it has heard of, found by EUI
//! or by address, with the window of its latest readings; and the view
//! that a user steps through.

use crate::addr::Ipv6Addr;
use crate::node::{NodeSensorReading, NodeState, NodeStatus, Registration};
use crate::Eui;
use vstd::prelude::*;

verus! {

/// Most readings that the book keeps of one node.
pub const MAX_WINDOW: usize = 50;

/// Number of views.
pub const NUM_TABS: usize = 5;

/// How many of the oldest readings leave a full window at once.
pub const WINDOW_STEP: usize = 5;

/// What a user asks for.
#[derive(Clone, Copy, Debug, PartialEq, Eq, Structural)]
pub enum AppCmd {
    Quit,
    Invalid,
    Error,
    Next,
    Back,
    Up,
    Down,
}

/// What the book holds of one node.
#[derive(Debug)]
pub struct Node {
    pub addr: Ipv6Addr,
    pub eui: Eui,
    pub name: String,
    pub history: Vec<NodeSensorReading>,
    pub state: NodeState,
}

impl Default for Node {
    fn default() -> (node: Node)
        ensures
            node.addr.bits == 0,
            node.eui@ == seq![0u8, 0, 0, 0, 0, 0],
            node.name@.len() == 0,
            node.history@.len() == 0,
            node.state == NodeState::Unknown,
    {
        let eui: Eui = [0, 0, 0, 0, 0, 0];
        assert(eui@ =~= seq![0u8, 0, 0, 0, 0, 0]);
        Node {
            addr: Ipv6Addr::from_bits(0),
            eui,
            name: String::new(),
            history: Vec::new(),
            state: NodeState::Unknown,
        }
    }
}

/// No two of `nodes` have the same EUI, and no two the same address.
pub open spec fn distinct_nodes(nodes: Seq<Node>) -> bool {
    forall|i: int, j: int|
        0 <= i < j < nodes.len() ==> nodes[i].eui@ != nodes[j].eui@ && nodes[i].addr != nodes[j].addr
}

/// `i` is where `nodes` holds the node with EUI `eui`, or `nodes.len()`
/// when there is none.
pub open spec fn is_eui_index(nodes: Seq<Node>, eui: Seq<u8>, i: int) -> bool {
    &&& 0 <= i <= nodes.len()
    &&& i < nodes.len() ==> nodes[i].eui@ == eui
    &&& forall|k: int| 0 <= k < i ==> (#[trigger] nodes[k]).eui@ != eui
}

/// Where `nodes` holds the node with EUI `eui`, or `nodes.len()`.
pub open spec fn eui_index(nodes: Seq<Node>, eui: Seq<u8>) -> int {
    choose|i: int| is_eui_index(nodes, eui, i)
}

/// `i` is where `nodes` holds the node at address `addr`, or `nodes.len()`
/// when there is none.
pub open spec fn is_addr_index(nodes: Seq<Node>, addr: Ipv6Addr, i: int) -> bool {
    &&& 0 <= i <= nodes.len()
    &&& i < nodes.len() ==> nodes[i].addr == addr
    &&& forall|k: int| 0 <= k < i ==> (#[trigger] nodes[k]).addr != addr
}

/// Where `nodes` holds the node at address `addr`, or `nodes.len()`.
pub open spec fn addr_index(nodes: Seq<Node>, addr: Ipv6Addr) -> int {
    choose|i: int| is_addr_index(nodes, addr, i)
}

/// There is one place for an EUI.
pub proof fn lemma_eui_index(nodes: Seq<Node>, eui: Seq<u8>, i: int)
    requires
        is_eui_index(nodes, eui, i),
    ensures
        eui_index(nodes, eui) == i,
{
    let j = eui_index(nodes, eui);
    assert(is_eui_index(nodes, eui, j));
    if j < i {
        assert(nodes[j].eui@ != eui);
    } else if i < j {
        assert(nodes[i].eui@ != eui);
    }
}

/// There is one place for an address.
pub proof fn lemma_addr_index(nodes: Seq<Node>, addr: Ipv6Addr, i: int)
    requires
        is_addr_index(nodes, addr, i),
    ensures
        addr_index(nodes, addr) == i,
{
    let j = addr_index(nodes, addr);
    assert(is_addr_index(nodes, addr, j));
    if j < i {
        assert(nodes[j].addr != addr);
    } else if i < j {
        assert(nodes[i].addr != addr);
    }
}

/// `nodes` without the node at place `i`, where there is one.
pub open spec fn without(nodes: Seq<Node>, i: int) -> Seq<Node> {
    if 0 <= i < nodes.len() {
        nodes.remove(i)
    } else {
        nodes
    }
}

/// The readings kept of the node with EUI `eui`; none where the node is
/// not known.
pub open spec fn history_of(nodes: Seq<Node>, eui: Seq<u8>) -> Seq<NodeSensorReading> {
    let i = eui_index(nodes, eui);
    if 0 <= i < nodes.len() {
        nodes[i].history@
    } else {
        Seq::empty()
    }
}

/// The nodes that stay when a node registers with `eui` at `addr`: all but
/// the one that had the EUI and the one that stood at the address.
pub open spec fn survivors(nodes: Seq<Node>, eui: Seq<u8>, addr: Ipv6Addr) -> Seq<Node> {
    let rest = without(nodes, eui_index(nodes, eui));
    without(rest, addr_index(rest, addr))
}

/// The window of a node after `data` arrived: the readings held and the
/// new ones behind them; where that would fill the window, the oldest
/// `WINDOW_STEP` of those held leave first.
pub open spec fn appended(history: Seq<NodeSensorReading>, data: Seq<NodeSensorReading>) -> Seq<
    NodeSensorReading,
> {
    if history.len() + data.len() >= MAX_WINDOW {
        let cut = if history.len() < WINDOW_STEP {
            history.len() as int
        } else {
            WINDOW_STEP as int
        };
        history.subrange(cut, history.len() as int) + data
    } else {
        history + data
    }
}

/// The readings of `buffer` that came from `addr`, in order.
pub open spec fn readings_from(buffer: Seq<NodeSensorReading>, addr: Ipv6Addr) -> Seq<
    NodeSensorReading,
> {
    buffer.filter(|r: NodeSensorReading| r.addr.ip == addr)
}

/// The view after `cmd`: the next, the one before, or the same; behind the
/// last view comes the first, and before the first the last.
pub open spec fn tab_after(tab: usize, cmd: AppCmd) -> usize {
    match cmd {
        AppCmd::Next => if tab >= NUM_TABS - 1 {
            0
        } else {
            (tab + 1) as usize
        },
        AppCmd::Back => if tab == 0 {
            (NUM_TABS - 1) as usize
        } else {
            (tab - 1) as usize
        },
        _ => tab,
    }
}

/// The row after `cmd`, with `count` nodes known: one down, or one up and
/// from the top round to the last.
pub open spec fn row_after(row: usize, count: usize, cmd: AppCmd) -> usize {
    match cmd {
        AppCmd::Down => if row < usize::MAX {
            (row + 1) as usize
        } else {
            row
        },
        AppCmd::Up => if row == 0 {
            if count > 0 {
                (count - 1) as usize
            } else {
                0
            }
        } else {
            (row - 1) as usize
        },
        _ => row,
    }
}

/// The book of plants and the place of the user in it.
pub struct PlantMinder {
    running: bool,
    nodes: Vec<Node>,
    tab: usize,
    row: usize,
}

impl PlantMinder {
    /// The nodes in the order in which they were last registered.
    pub closed spec fn view(&self) -> Seq<Node> {
        self.nodes@
    }

    /// Whether the user's session goes on.
    pub closed spec fn spec_running(&self) -> bool {
        self.running
    }

    /// The view that the user is on.
    pub closed spec fn spec_tab(&self) -> usize {
        self.tab
    }

    /// The row that the user is on.
    pub closed spec fn spec_row(&self) -> usize {
        self.row
    }

    /// Whether the user's session goes on.
    pub fn running(&self) -> (r: bool)
        ensures
            r == self.spec_running(),
    {
        self.running
    }

    /// The view that the user is on.
    pub fn tab(&self) -> (t: usize)
        ensures
            t == self.spec_tab(),
    {
        self.tab
    }

    /// The row that the user is on.
    pub fn row(&self) -> (r: usize)
        ensures
            r == self.spec_row(),
    {
        self.row
    }

    /// The nodes of the book.
    pub fn nodes(&self) -> (nodes: &Vec<Node>)
        ensures
            nodes@ == self@,
    {
        &self.nodes
    }

    /// Every EUI and every address occurs once.
    pub open spec fn wf(&self) -> bool {
        distinct_nodes(self@)
    }

    /// An empty book, on the first view and the first row.
    pub fn new() -> (app: Self)
        ensures
            app.wf(),
            app@.len() == 0,
            app.spec_running(),
            app.spec_tab() == 0,
            app.spec_row() == 0,
    {
        PlantMinder { running: true, nodes: Vec::new(), tab: 0, row: 0 }
    }

    /// Ends the session of the user.
    pub fn quit(&mut self)
        ensures
            !final(self).spec_running(),
            final(self)@ == old(self)@,
            final(self).spec_tab() == old(self).spec_tab(),
            final(self).spec_row() == old(self).spec_row(),
    {
        self.running = false;
    }

    /// How many nodes the book holds.
    pub fn node_count(&self) -> (n: usize)
        ensures
            n == self@.len(),
    {
        self.nodes.len()
    }

    fn find_eui(&self, eui: &Eui) -> (i: usize)
        ensures
            is_eui_index(self@, eui@, i as int),
            i as int == eui_index(self@, eui@),
    {
        let mut i: usize = 0;
        while i < self.nodes.len() && !same_eui(&self.nodes[i].eui, eui)
            invariant
                i <= self.nodes@.len(),
                forall|k: int| 0 <= k < i ==> (#[trigger] self.nodes@[k]).eui@ != eui@,
            decreases self.nodes@.len() - i,
        {
            i = i + 1;
        }
        proof {
            lemma_eui_index(self@, eui@, i as int);
        }
        i
    }

    fn find_addr(&self, addr: Ipv6Addr) -> (i: usize)
        ensures
            is_addr_index(self@, addr, i as int),
            i as int == addr_index(self@, addr),
    {
        let mut i: usize = 0;
        while i < self.nodes.len() && self.nodes[i].addr != addr
            invariant
                i <= self.nodes@.len(),
                forall|k: int| 0 <= k < i ==> (#[trigger] self.nodes@[k]).addr != addr,
            decreases self.nodes@.len() - i,
        {
            i = i + 1;
        }
        proof {
            lemma_addr_index(self@, addr, i as int);
        }
        i
    }

    /// The address at which the node with EUI `eui` was last registered.
    pub fn addr_of(&self, eui: &Eui) -> (res: Option<Ipv6Addr>)
        ensures
            res is Some <==> eui_index(self@, eui@) < self@.len(),
            res matches Some(a) ==> a == self@[eui_index(self@, eui@)].addr,
    {
        let i = self.find_eui(eui);
        if i < self.nodes.len() {
            Some(self.nodes[i].addr)
        } else {
            None
        }
    }

    /// The node at address `addr`.
    pub fn node_at(&self, addr: Ipv6Addr) -> (res: Option<&Node>)
        ensures
            res is Some <==> addr_index(self@, addr) < self@.len(),
            res matches Some(n) ==> *n == self@[addr_index(self@, addr)],
    {
        let i = self.find_addr(addr);
        if i < self.nodes.len() {
            Some(&self.nodes[i])
        } else {
            None
        }
    }

    /// Enters a registration. The node takes the place of whatever the
    /// book held under its EUI or at its address, keeps the readings that
    /// were held under its EUI, and counts as online.
    pub fn node_registration(&mut self, reg: Registration)
        requires
            old(self).wf(),
        ensures
            final(self).wf(),
            final(self).spec_running() == old(self).spec_running(),
            final(self).spec_tab() == old(self).spec_tab(),
            final(self).spec_row() == old(self).spec_row(),
            final(self)@.len() > 0,
            final(self)@.drop_last() == survivors(old(self)@, reg.0@, reg.1),
            final(self)@.last().eui@ == reg.0@,
            final(self)@.last().addr == reg.1,
            final(self)@.last().name == reg.2,
            final(self)@.last().history@ == history_of(old(self)@, reg.0@),
            final(self)@.last().state == NodeState::Online,
            eui_index(final(self)@, reg.0@) == final(self)@.len() - 1,
            addr_index(final(self)@, reg.1) == final(self)@.len() - 1,
    {
        let ghost all = self.nodes@;
        let i = self.find_eui(&reg.0);
        let history: Vec<NodeSensorReading> = if i < self.nodes.len() {
            let prior = self.nodes.remove(i);
            prior.history
        } else {
            Vec::new()
        };
        let ghost rest = self.nodes@;
        proof {
            lemma_without_keeps_distinct(all, i as int);
            assert forall|k: int| 0 <= k < rest.len() implies (#[trigger] rest[k]).eui@ != reg.0@ by {
                let k0 = if i < all.len() && k >= i {
                    k + 1
                } else {
                    k
                };
                assert(rest[k] == all[k0]);
                if i < all.len() {
                    if k0 < i {
                        assert(all[k0].eui@ != all[i as int].eui@);
                    } else {
                        assert(all[i as int].eui@ != all[k0].eui@);
                    }
                }
            }
        }
        let j = self.find_addr(reg.1);
        if j < self.nodes.len() {
            self.nodes.remove(j);
        }
        let ghost kept = self.nodes@;
        proof {
            lemma_without_keeps_distinct(rest, j as int);
            assert forall|k: int| 0 <= k < kept.len() implies (#[trigger] kept[k]).eui@ != reg.0@
                && kept[k].addr != reg.1 by {
                let k0 = if j < rest.len() && k >= j {
                    k + 1
                } else {
                    k
                };
                assert(kept[k] == rest[k0]);
                if j < rest.len() {
                    if k0 < j {
                        assert(rest[k0].addr != rest[j as int].addr);
                    } else {
                        assert(rest[j as int].addr != rest[k0].addr);
                    }
                }
            }
        }
        let node = Node { addr: reg.1, eui: reg.0, name: reg.2, history, state: NodeState::Online };
        self.nodes.push(node);
        proof {
            let now = self.nodes@;
            assert(now.drop_last() =~= kept);
            assert forall|a: int, b: int| 0 <= a < b < now.len() implies now[a].eui@ != now[b].eui@
                && now[a].addr != now[b].addr by {
                if b < kept.len() {
                    assert(kept[a].eui@ != kept[b].eui@ && kept[a].addr != kept[b].addr);
                } else {
                    assert(kept[a].eui@ != reg.0@ && kept[a].addr != reg.1);
                }
            }
            assert(is_eui_index(now, reg.0@, now.len() - 1)) by {
                assert forall|k: int| 0 <= k < now.len() - 1 implies (#[trigger] now[k]).eui@
                    != reg.0@ by {
                    assert(now[k] == kept[k]);
                }
            }
            assert(is_addr_index(now, reg.1, now.len() - 1)) by {
                assert forall|k: int| 0 <= k < now.len() - 1 implies (#[trigger] now[k]).addr
                    != reg.1 by {
                    assert(now[k] == kept[k]);
                }
            }
            lemma_eui_index(now, reg.0@, now.len() - 1);
            lemma_addr_index(now, reg.1, now.len() - 1);
        }
    }

    /// Adds `data` to the window of the node at address `key`. A node that
    /// the book does not hold gets nothing.
    pub fn new_data(&mut self, key: Ipv6Addr, data: &Vec<NodeSensorReading>)
        requires
            old(self).wf(),
        ensures
            final(self).wf(),
            final(self).spec_running() == old(self).spec_running(),
            final(self).spec_tab() == old(self).spec_tab(),
            final(self).spec_row() == old(self).spec_row(),
            final(self)@.len() == old(self)@.len(),
            forall|k: int|
                0 <= k < old(self)@.len() ==> {
                    &&& (#[trigger] final(self)@[k]).addr == old(self)@[k].addr
                    &&& final(self)@[k].eui == old(self)@[k].eui
                    &&& final(self)@[k].name == old(self)@[k].name
                    &&& final(self)@[k].state == old(self)@[k].state
                    &&& final(self)@[k].history@ == if old(self)@[k].addr == key {
                        appended(old(self)@[k].history@, data@)
                    } else {
                        old(self)@[k].history@
                    }
                },
    {
        let i = self.find_addr(key);
        if i >= self.nodes.len() {
            return;
        }
        let ghost all = self.nodes@;
        let node = self.nodes.remove(i);
        let Node { addr, eui, name, history, state } = node;
        let history = extend_window(history, data);
        self.nodes.insert(i, Node { addr, eui, name, history, state });
        proof {
            let now = self.nodes@;
            assert(now.len() == all.len());
            assert forall|k: int| 0 <= k < all.len() implies {
                &&& (#[trigger] now[k]).addr == all[k].addr
                &&& now[k].eui == all[k].eui
                &&& now[k].name == all[k].name
                &&& now[k].state == all[k].state
                &&& now[k].history@ == if all[k].addr == key {
                    appended(all[k].history@, data@)
                } else {
                    all[k].history@
                }
            } by {
                if k != i {
                    assert(now[k] == all[k]);
                    if k < i {
                        assert(all[k].addr != key);
                    } else {
                        assert(all[i as int].addr != all[k].addr);
                    }
                }
            }
            assert forall|a: int, b: int| 0 <= a < b < now.len() implies now[a].eui@ != now[b].eui@
                && now[a].addr != now[b].addr by {
                assert(all[a].eui@ != all[b].eui@ && all[a].addr != all[b].addr);
                assert(now[a].eui == all[a].eui && now[b].eui == all[b].eui);
            }
        }
    }

    /// Sorts the readings of `buffer` into the windows of the nodes they
    /// came from. Readings from addresses that the book does not hold are
    /// passed over.
    pub fn recv_many(&mut self, buffer: &Vec<NodeSensorReading>)
        requires
            old(self).wf(),
        ensures
            final(self).wf(),
            final(self).spec_running() == old(self).spec_running(),
            final(self).spec_tab() == old(self).spec_tab(),
            final(self).spec_row() == old(self).spec_row(),
            final(self)@.len() == old(self)@.len(),
            forall|k: int|
                0 <= k < old(self)@.len() ==> {
                    &&& (#[trigger] final(self)@[k]).addr == old(self)@[k].addr
                    &&& final(self)@[k].eui == old(self)@[k].eui
                    &&& final(self)@[k].name == old(self)@[k].name
                    &&& final(self)@[k].state == old(self)@[k].state
                    &&& final(self)@[k].history@ == if readings_from(
                        buffer@,
                        old(self)@[k].addr,
                    ).len() > 0 {
                        appended(
                            old(self)@[k].history@,
                            readings_from(buffer@, old(self)@[k].addr),
                        )
                    } else {
                        old(self)@[k].history@
                    }
                },
    {
        let n = self.nodes.len();
        let mut i: usize = 0;
        while i < n
            invariant
                i <= n,
                n == self.nodes@.len(),
                n == old(self)@.len(),
                self.wf(),
                self.running == old(self).running,
                self.tab == old(self).tab,
                self.row == old(self).row,
                forall|k: int|
                    0 <= k < n ==> {
                        &&& (#[trigger] self.nodes@[k]).addr == old(self)@[k].addr
                        &&& self.nodes@[k].eui == old(self)@[k].eui
                        &&& self.nodes@[k].name == old(self)@[k].name
                        &&& self.nodes@[k].state == old(self)@[k].state
                    },
                forall|k: int|
                    i <= k < n ==> (#[trigger] self.nodes@[k]).history@ == old(self)@[k].history@,
                forall|k: int|
                    0 <= k < i ==> (#[trigger] self.nodes@[k]).history@ == if readings_from(
                        buffer@,
                        old(self)@[k].addr,
                    ).len() > 0 {
                        appended(
                            old(self)@[k].history@,
                            readings_from(buffer@, old(self)@[k].addr),
                        )
                    } else {
                        old(self)@[k].history@
                    },
            decreases n - i,
        {
            let key = self.nodes[i].addr;
            let data = select_from(buffer, key);
            let ghost before = self.nodes@;
            if data.len() > 0 {
                self.new_data(key, &data);
                proof {
                    assert forall|k: int| 0 <= k < n && k != i implies (#[trigger] self.nodes@[k]).history@
                        == before[k].history@ by {
                        if k < i {
                            assert(before[k].addr != before[i as int].addr);
                        } else {
                            assert(before[i as int].addr != before[k].addr);
                        }
                    }
                }
            }
            i = i + 1;
        }
    }
}

/// Takes a status from the broker: a registration is entered into the
/// book; a termination leaves the book as it is.
pub fn handle_node_state_change(event: NodeStatus, app: &mut PlantMinder)
    requires
        old(app).wf(),
    ensures
        final(app).wf(),
        final(app).spec_running() == old(app).spec_running(),
        final(app).spec_tab() == old(app).spec_tab(),
        final(app).spec_row() == old(app).spec_row(),
        event is Termination ==> final(app)@ == old(app)@,
        event matches NodeStatus::Registration(reg) ==> {
            &&& final(app)@.len() > 0
            &&& final(app)@.drop_last() == survivors(old(app)@, reg.0@, reg.1)
            &&& final(app)@.last().eui@ == reg.0@
            &&& final(app)@.last().addr == reg.1
            &&& final(app)@.last().name == reg.2
            &&& final(app)@.last().history@ == history_of(old(app)@, reg.0@)
            &&& final(app)@.last().state == NodeState::Online
        },
{
    match event {
        NodeStatus::Registration(reg) => app.node_registration(reg),
        NodeStatus::Termination(_) => {},
    }
}

/// Does what the user asks: ends the session, or moves through views and
/// rows.
pub fn handle_app_cmd(cmd: AppCmd, app: &mut PlantMinder)
    ensures
        final(app)@ == old(app)@,
        final(app).spec_running() == (old(app).spec_running() && cmd != AppCmd::Quit),
        final(app).spec_tab() == tab_after(old(app).spec_tab(), cmd),
        final(app).spec_row() == row_after(old(app).spec_row(), old(app)@.len() as usize, cmd),
{
    match cmd {
        AppCmd::Quit => app.quit(),
        AppCmd::Next => {
            if app.tab >= NUM_TABS - 1 {
                app.tab = 0;
            } else {
                app.tab = app.tab + 1;
            }
        },
        AppCmd::Back => {
            if app.tab == 0 {
                app.tab = NUM_TABS - 1;
            } else {
                app.tab = app.tab - 1;
            }
        },
        AppCmd::Down => {
            if app.row < usize::MAX {
                app.row = app.row + 1;
            }
        },
        AppCmd::Up => {
            if app.row == 0 {
                if app.nodes.len() > 0 {
                    app.row = app.nodes.len() - 1;
                }
            } else {
                app.row = app.row - 1;
            }
        },
        AppCmd::Invalid => {},
        AppCmd::Error => {},
    }
}

/// Whether two EUIs are the same.
pub fn same_eui(a: &Eui, b: &Eui) -> (r: bool)
    ensures
        r == (a@ == b@),
{
    let r = a[0] == b[0] && a[1] == b[1] && a[2] == b[2] && a[3] == b[3] && a[4] == b[4] && a[5]
        == b[5];
    proof {
        if r {
            assert(a@ =~= b@);
        }
    }
    r
}

/// The readings of `buffer` that came from `addr`, in order.
pub fn select_from(buffer: &Vec<NodeSensorReading>, addr: Ipv6Addr) -> (out: Vec<NodeSensorReading>)
    ensures
        out@ == readings_from(buffer@, addr),
{
    let ghost pred = |r: NodeSensorReading| r.addr.ip == addr;
    let mut out: Vec<NodeSensorReading> = Vec::new();
    let mut i: usize = 0;
    proof {
        reveal(Seq::filter);
        assert(buffer@.subrange(0, 0).len() == 0);
    }
    while i < buffer.len()
        invariant
            i <= buffer@.len(),
            pred == (|r: NodeSensorReading| r.addr.ip == addr),
            out@ == buffer@.subrange(0, i as int).filter(pred),
        decreases buffer@.len() - i,
    {
        let r = buffer[i];
        proof {
            assert(buffer@.subrange(0, i + 1) =~= buffer@.subrange(0, i as int).push(r));
            buffer@.subrange(0, i as int).lemma_filter_push(r, pred);
        }
        if r.addr.ip == addr {
            out.push(r);
        }
        i = i + 1;
    }
    assert(buffer@.subrange(0, buffer@.len() as int) =~= buffer@);
    out
}

/// The window `history` once `data` arrived.
pub fn extend_window(history: Vec<NodeSensorReading>, data: &Vec<NodeSensorReading>) -> (out: Vec<
    NodeSensorReading,
>)
    ensures
        out@ == appended(history@, data@),
{
    let full = data.len() >= MAX_WINDOW || history.len() >= MAX_WINDOW - data.len();
    let cut: usize = if !full {
        0
    } else if history.len() < WINDOW_STEP {
        history.len()
    } else {
        WINDOW_STEP
    };
    let mut out: Vec<NodeSensorReading> = Vec::new();
    let mut i: usize = cut;
    while i < history.len()
        invariant
            cut <= i <= history@.len(),
            out@ == history@.subrange(cut as int, i as int),
        decreases history@.len() - i,
    {
        out.push(history[i]);
        assert(out@ =~= history@.subrange(cut as int, i + 1));
        i = i + 1;
    }
    let ghost kept = out@;
    i = 0;
    while i < data.len()
        invariant
            i <= data@.len(),
            out@ == kept + data@.subrange(0, i as int),
        decreases data@.len() - i,
    {
        out.push(data[i]);
        assert(out@ =~= kept + data@.subrange(0, i + 1));
        i = i + 1;
    }
    proof {
        assert(data@.subrange(0, data@.len() as int) =~= data@);
        if !full {
            assert(history@.subrange(0, history@.len() as int) =~= history@);
        }
    }
    out
}

/// Taking one node out leaves the others distinct.
pub proof fn lemma_without_keeps_distinct(nodes: Seq<Node>, i: int)
    requires
        distinct_nodes(nodes),
    ensures
        distinct_nodes(without(nodes, i)),
{
    let rest = without(nodes, i);
    assert forall|a: int, b: int| 0 <= a < b < rest.len() implies rest[a].eui@ != rest[b].eui@
        && rest[a].addr != rest[b].addr by {
        let a0 = if 0 <= i < nodes.len() && a >= i {
            a + 1
        } else {
            a
        };
        let b0 = if 0 <= i < nodes.len() && b >= i {
            b + 1
        } else {
            b
        };
        assert(nodes[a0].eui@ != nodes[b0].eui@ && nodes[a0].addr != nodes[b0].addr);
    }
}

/// Rebinding. Once a node has registered again at another address, the
/// book finds it under its EUI at the new address, and holds no node at
/// the old one.
pub proof fn lemma_rebinding_moves_the_node(
    before: Seq<Node>,
    after: Seq<Node>,
    eui: Seq<u8>,
    addr: Ipv6Addr,
)
    requires
        distinct_nodes(before),
        after.len() > 0,
        after.drop_last() == survivors(before, eui, addr),
        after.last().eui@ == eui,
        after.last().addr == addr,
        eui_index(before, eui) < before.len(),
        before[eui_index(before, eui)].addr != addr,
    ensures
        is_eui_index(after, eui, after.len() - 1),
        after[eui_index(after, eui)].addr == addr,
        forall|k: int|
            0 <= k < after.len() ==> (#[trigger] after[k]).addr != before[eui_index(
                before,
                eui,
            )].addr,
{
    lemma_eui_index_exists(before, eui);
    let i = eui_index(before, eui);
    assert(is_eui_index(before, eui, i));
    let old_addr = before[i].addr;
    let rest = without(before, i);
    lemma_without_keeps_distinct(before, i);
    lemma_addr_index_exists(rest, addr);
    let j = addr_index(rest, addr);
    assert(is_addr_index(rest, addr, j));
    let kept = without(rest, j);
    assert(kept == after.drop_last());
    assert forall|k: int| 0 <= k < rest.len() implies (#[trigger] rest[k]).eui@ != eui
        && rest[k].addr != old_addr by {
        let k0 = if k >= i {
            k + 1
        } else {
            k
        };
        assert(rest[k] == before[k0]);
        if k0 < i {
            assert(before[k0].eui@ != before[i].eui@ && before[k0].addr != before[i].addr);
        } else {
            assert(before[i].eui@ != before[k0].eui@ && before[i].addr != before[k0].addr);
        }
    }
    assert forall|k: int| 0 <= k < kept.len() implies (#[trigger] kept[k]).eui@ != eui
        && kept[k].addr != old_addr by {
        let k0 = if 0 <= j < rest.len() && k >= j {
            k + 1
        } else {
            k
        };
        assert(kept[k] == rest[k0]);
    }
    assert forall|k: int| 0 <= k < after.len() implies (#[trigger] after[k]).addr != old_addr by {
        if k < after.len() - 1 {
            assert(after[k] == kept[k]);
        }
    }
    assert(is_eui_index(after, eui, after.len() - 1)) by {
        assert forall|k: int| 0 <= k < after.len() - 1 implies (#[trigger] after[k]).eui@ != eui by {
            assert(after[k] == kept[k]);
        }
    }
    lemma_eui_index(after, eui, after.len() - 1);
}

/// Every list has a place for an EUI.
pub proof fn lemma_eui_index_exists(nodes: Seq<Node>, eui: Seq<u8>)
    ensures
        exists|j: int| is_eui_index(nodes, eui, j),
    decreases nodes.len(),
{
    if nodes.len() == 0 {
        assert(is_eui_index(nodes, eui, 0));
    } else {
        let front = nodes.drop_last();
        lemma_eui_index_exists(front, eui);
        let j = choose|j: int| is_eui_index(front, eui, j);
        assert forall|k: int| 0 <= k < j implies (#[trigger] nodes[k]).eui@ != eui by {
            assert(front[k] == nodes[k]);
        }
        if j < front.len() {
            assert(front[j] == nodes[j]);
            assert(is_eui_index(nodes, eui, j));
        } else if nodes.last().eui@ == eui {
            assert(is_eui_index(nodes, eui, j));
        } else {
            assert(is_eui_index(nodes, eui, nodes.len() as int));
        }
    }
}

/// Every list has a place for an address.
pub proof fn lemma_addr_index_exists(nodes: Seq<Node>, addr: Ipv6Addr)
    ensures
        exists|j: int| is_addr_index(nodes, addr, j),
    decreases nodes.len(),
{
    if nodes.len() == 0 {
        assert(is_addr_index(nodes, addr, 0));
    } else {
        let front = nodes.drop_last();
        lemma_addr_index_exists(front, addr);
        let j = choose|j: int| is_addr_index(front, addr, j);
        assert forall|k: int| 0 <= k < j implies (#[trigger] nodes[k]).addr != addr by {
            assert(front[k] == nodes[k]);
        }
        if j < front.len() {
            assert(front[j] == nodes[j]);
            assert(is_addr_index(nodes, addr, j));
        } else if nodes.last().addr == addr {
            assert(is_addr_index(nodes, addr, j));
        } else {
            assert(is_addr_index(nodes, addr, nodes.len() as int));
        }
    }
}

} // verus!
