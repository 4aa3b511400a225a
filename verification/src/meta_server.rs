use vstd::prelude::*;

use crate::error::{RTStoreError, RTStoreErrorV};
use crate::schema::{RtStoreSchemaDesc, SchemaDescV};

verus! {

/// The kind of node registering with the meta service.
#[derive(Clone, Copy, Debug, PartialEq, Eq, Structural)]
pub enum RtStoreNodeType {
    KMetaNode,
    KMemoryNode,
    KComputeNode,
}

/// The node kind a raw wire code stands for, if any.
pub open spec fn node_type_of(code: i32) -> Option<RtStoreNodeType> {
    if code == 0 {
        Some(RtStoreNodeType::KMetaNode)
    } else if code == 1 {
        Some(RtStoreNodeType::KMemoryNode)
    } else if code == 2 {
        Some(RtStoreNodeType::KComputeNode)
    } else {
        None
    }
}

impl RtStoreNodeType {
    /// The wire code of this node kind.
    pub fn to_i32(self) -> (code: i32)
        ensures
            node_type_of(code) == Some(self),
    {
        match self {
            RtStoreNodeType::KMetaNode => 0,
            RtStoreNodeType::KMemoryNode => 1,
            RtStoreNodeType::KComputeNode => 2,
        }
    }
}

/// Mathematical value of an [`RtStoreTableDesc`].
#[verifier::ext_equal]
pub struct TableDescV {
    pub names: Seq<Seq<char>>,
    pub schema: Option<SchemaDescV>,
}

/// A table descriptor as received from the table-definition path: the name
/// parts the table id is derived from, and the logical schema.
pub struct RtStoreTableDesc {
    pub names: Vec<String>,
    pub schema: Option<RtStoreSchemaDesc>,
}

impl View for RtStoreTableDesc {
    type V = TableDescV;

    open spec fn view(&self) -> TableDescV {
        TableDescV {
            names: self.names@.map_values(|n: String| n@),
            schema: match &self.schema {
                Some(s) => Some(s@),
                None => None,
            },
        }
    }
}

impl RtStoreTableDesc {
    /// An equal copy of the descriptor.
    pub fn duplicate(&self) -> (d: RtStoreTableDesc)
        ensures
            d@ == self@,
    {
        let mut names: Vec<String> = Vec::new();
        let n = self.names.len();
        let mut i: usize = 0;
        while i < n
            invariant
                n == self.names.len(),
                i <= n,
                names@.len() == i,
                forall|j: int| 0 <= j < i ==> names@[j]@ == self@.names[j],
            decreases n - i,
        {
            names.push(self.names[i].clone());
            i += 1;
        }
        let schema = match &self.schema {
            Some(s) => Some(s.duplicate()),
            None => None,
        };
        let d = RtStoreTableDesc { names, schema };
        proof {
            assert(d@.names =~= self@.names);
        }
        d
    }
}

/// The table id a descriptor's name parts derive: the parts joined with a
/// dot.
pub open spec fn join_dot(names: Seq<Seq<char>>) -> Seq<char>
    decreases names.len(),
{
    if names.len() == 0 {
        Seq::empty()
    } else {
        names.first() + rest_dot(names.drop_first())
    }
}

/// The tail of a dot-joined name list: a dot before each remaining part.
pub open spec fn rest_dot(names: Seq<Seq<char>>) -> Seq<char>
    decreases names.len(),
{
    if names.len() == 0 {
        Seq::empty()
    } else {
        "."@ + names.first() + rest_dot(names.drop_first())
    }
}

/// Mathematical value of a [`Table`].
#[verifier::ext_equal]
pub struct TableV {
    pub id: Seq<char>,
    pub desc: TableDescV,
}

/// A table the meta service tracks: its derived id and its descriptor.
pub struct Table {
    pub id: String,
    pub desc: RtStoreTableDesc,
}

impl View for Table {
    type V = TableV;

    open spec fn view(&self) -> TableV {
        TableV { id: self.id@, desc: self.desc@ }
    }
}

impl Table {
    /// Derives a table's id by joining the descriptor's name parts with
    /// dots; a descriptor without name parts is rejected.
    pub fn gen_id(table_desc: &RtStoreTableDesc) -> (r: Result<String, RTStoreError>)
        ensures
            table_desc@.names.len() == 0 ==> (r matches Err(e) && e@
                == RTStoreErrorV::TableInvalidNamesError),
            table_desc@.names.len() > 0 ==> (r matches Ok(id) && id@ == join_dot(
                table_desc@.names,
            )),
    {
        let n = table_desc.names.len();
        if n == 0 {
            return Err(RTStoreError::TableInvalidNamesError);
        }
        let ghost namesv = table_desc@.names;
        let mut id = table_desc.names[0].clone();
        proof {
            assert(namesv.skip(1) =~= namesv.drop_first());
            assert(id@ + rest_dot(namesv.skip(1)) =~= join_dot(namesv));
        }
        let mut i: usize = 1;
        while i < n
            invariant
                1 <= i <= n,
                join_dot(namesv) == id@ + rest_dot(namesv.skip(i as int)),
            decreases n - i,
        {
            let ghost tail = namesv.skip(i as int);
            proof {
                assert(tail.first() == namesv[i as int]);
                assert(tail.drop_first() =~= namesv.skip(i as int + 1));
            }
            id.append(".");
            id.append(self_name(table_desc, i).as_str());
            proof {
                assert(id@ + rest_dot(namesv.skip(i as int + 1)) =~= join_dot(namesv));
            }
            i += 1;
        }
        proof {
            assert(namesv.skip(n as int) =~= Seq::<Seq<char>>::empty());
            assert(id@ + rest_dot(namesv.skip(n as int)) =~= id@);
        }
        Ok(id)
    }

    /// Builds a table from its descriptor, deriving its id; a descriptor
    /// without name parts is rejected.
    pub fn new(table_desc: &RtStoreTableDesc) -> (r: Result<Table, RTStoreError>)
        ensures
            table_desc@.names.len() == 0 ==> (r matches Err(e) && e@
                == RTStoreErrorV::TableInvalidNamesError),
            table_desc@.names.len() > 0 ==> (r matches Ok(t) && t@ == (TableV {
                id: join_dot(table_desc@.names),
                desc: table_desc@,
            })),
    {
        let id = match Table::gen_id(table_desc) {
            Ok(id) => id,
            Err(e) => {
                return Err(e);
            },
        };
        Ok(Table { id, desc: table_desc.duplicate() })
    }
}

/// The name part at a position of a descriptor.
fn self_name(table_desc: &RtStoreTableDesc, i: usize) -> (r: &String)
    requires
        i < table_desc@.names.len(),
    ensures
        r@ == table_desc@.names[i as int],
{
    &table_desc.names[i]
}

/// A memory node the meta service tracks, reached at an endpoint.
pub struct MemoryNode {
    pub endpoint: String,
}

impl MemoryNode {
    /// A handle on the node behind an endpoint.
    pub fn new(endpoint: String) -> (n: MemoryNode)
        ensures
            n.endpoint@ == endpoint@,
    {
        MemoryNode { endpoint }
    }

    /// An equal copy of the handle.
    pub fn duplicate(&self) -> (n: MemoryNode)
        ensures
            n.endpoint@ == self.endpoint@,
    {
        MemoryNode { endpoint: self.endpoint.clone() }
    }
}

/// The in-memory state of the meta service: the tables and memory nodes of
/// the cluster, and which nodes serve which table.
pub struct MetaServiceState {
    tables: Vec<(String, Table)>,
    memory_nodes: Vec<(String, MemoryNode)>,
    table_to_nodes: Vec<(String, Vec<(i32, String)>)>,
}

impl MetaServiceState {
    /// The tracked tables, keyed by table id, in registration order.
    pub closed spec fn tables_view(&self) -> Seq<(Seq<char>, TableV)> {
        self.tables@.map_values(|p: (String, Table)| (p.0@, p.1@))
    }

    /// The tracked memory nodes' endpoints, in registration order.
    pub closed spec fn nodes_view(&self) -> Seq<Seq<char>> {
        self.memory_nodes@.map_values(|p: (String, MemoryNode)| p.0@)
    }

    /// A table under this id is tracked.
    pub open spec fn has_table_id(&self, id: Seq<char>) -> bool {
        exists|i: int| 0 <= i < self.tables_view().len() && (#[trigger] self.tables_view()[i]).0 == id
    }

    /// A node under this endpoint is tracked.
    pub open spec fn has_node(&self, endpoint: Seq<char>) -> bool {
        exists|i: int| 0 <= i < self.nodes_view().len() && #[trigger] self.nodes_view()[i] == endpoint
    }

    /// Fresh state: no tables, no nodes.
    pub fn new() -> (s: Self)
        ensures
            s.tables_view() == Seq::<(Seq<char>, TableV)>::empty(),
            s.nodes_view() == Seq::<Seq<char>>::empty(),
    {
        let s = Self { tables: Vec::new(), memory_nodes: Vec::new(), table_to_nodes: Vec::new() };
        proof {
            assert(s.tables_view() =~= Seq::<(Seq<char>, TableV)>::empty());
            assert(s.nodes_view() =~= Seq::<Seq<char>>::empty());
        }
        s
    }

    /// Registers a table under the id its descriptor derives. Fails on a
    /// descriptor without name parts, and when a table of the same id
    /// already exists; only on success is the state changed, by appending
    /// the new table.
    pub fn create_table(&mut self, table_desc: &RtStoreTableDesc) -> (r: Result<(), RTStoreError>)
        ensures
            final(self).nodes_view() == old(self).nodes_view(),
            table_desc@.names.len() == 0 ==> (r matches Err(e) && e@
                == RTStoreErrorV::TableInvalidNamesError && final(self).tables_view() == old(
                self,
            ).tables_view()),
            table_desc@.names.len() > 0 && old(self).has_table_id(join_dot(table_desc@.names))
                ==> (r matches Err(e) && e@ == (RTStoreErrorV::TableNamesExistError {
                name: join_dot(table_desc@.names),
            }) && final(self).tables_view() == old(self).tables_view()),
            table_desc@.names.len() > 0 && !old(self).has_table_id(join_dot(table_desc@.names))
                ==> (r is Ok && final(self).tables_view() == old(self).tables_view().push(
                (join_dot(table_desc@.names), TableV { id: join_dot(table_desc@.names), desc: table_desc@ }),
            )),
    {
        let id = match Table::gen_id(table_desc) {
            Ok(id) => id,
            Err(e) => {
                return Err(e);
            },
        };
        let n = self.tables.len();
        let mut i: usize = 0;
        while i < n
            invariant
                i <= n,
                n == self.tables_view().len(),
                forall|j: int| 0 <= j < i ==> (#[trigger] self.tables_view()[j]).0 != id@,
            decreases n - i,
        {
            let key = &self.tables[i].0;
            if key.eq(&id) {
                proof {
                    assert(self.tables_view()[i as int].0 == id@);
                }
                return Err(RTStoreError::TableNamesExistError { name: id });
            }
            proof {
                assert(self.tables_view()[i as int].0 == self.tables@[i as int].0@);
            }
            i += 1;
        }
        let table = match Table::new(table_desc) {
            Ok(t) => t,
            Err(e) => {
                return Err(e);
            },
        };
        let ghost oldt = self.tables_view();
        self.tables.push((id, table));
        proof {
            assert(self.tables_view() =~= oldt.push(
                (join_dot(table_desc@.names), TableV {
                    id: join_dot(table_desc@.names),
                    desc: table_desc@,
                }),
            ));
            assert(self.nodes_view() =~= old(self).nodes_view());
        }
        Ok(())
    }

    /// Registers a memory node under its endpoint. Fails when a node with
    /// the same endpoint is already registered; only on success is the state
    /// changed, by appending the new node.
    pub fn add_memory_node(&mut self, endpoint: &str, node: &MemoryNode) -> (r: Result<
        (),
        RTStoreError,
    >)
        ensures
            final(self).tables_view() == old(self).tables_view(),
            old(self).has_node(endpoint@) ==> (r matches Err(e) && e@
                == RTStoreErrorV::MemoryNodeExistError(endpoint@) && final(self).nodes_view()
                == old(self).nodes_view()),
            !old(self).has_node(endpoint@) ==> (r is Ok && final(self).nodes_view() == old(self).nodes_view().push(endpoint@)),
    {
        let ep = String::from_str(endpoint);
        let n = self.memory_nodes.len();
        let mut i: usize = 0;
        while i < n
            invariant
                i <= n,
                n == self.nodes_view().len(),
                forall|j: int| 0 <= j < i ==> #[trigger] self.nodes_view()[j] != endpoint@,
            decreases n - i,
        {
            let key = &self.memory_nodes[i].0;
            if key.eq(&ep) {
                proof {
                    assert(self.nodes_view()[i as int] == endpoint@);
                }
                return Err(RTStoreError::MemoryNodeExistError(ep));
            }
            proof {
                assert(self.nodes_view()[i as int] == self.memory_nodes@[i as int].0@);
            }
            i += 1;
        }
        let ghost oldn = self.nodes_view();
        self.memory_nodes.push((ep, node.duplicate()));
        proof {
            assert(self.nodes_view() =~= oldn.push(endpoint@));
            assert(self.tables_view() =~= old(self).tables_view());
        }
        Ok(())
    }
}

impl Default for MetaServiceState {
    fn default() -> (s: Self)
        ensures
            s.tables_view() == Seq::<(Seq<char>, TableV)>::empty(),
            s.nodes_view() == Seq::<Seq<char>>::empty(),
    {
        Self::new()
    }
}

/// The meta service: the request-level decisions over [`MetaServiceState`].
/// Transport, request framing and the connection to a registering node are
/// the caller's concern; the service receives plain values and the outcome
/// of the connection attempt.
pub struct MetaServiceImpl {
    state: MetaServiceState,
}

impl MetaServiceImpl {
    /// The tracked tables, keyed by table id, in registration order.
    pub closed spec fn tables_view(&self) -> Seq<(Seq<char>, TableV)> {
        self.state.tables_view()
    }

    /// The tracked memory nodes' endpoints, in registration order.
    pub closed spec fn nodes_view(&self) -> Seq<Seq<char>> {
        self.state.nodes_view()
    }

    /// A table under this id is tracked.
    pub open spec fn has_table_id(&self, id: Seq<char>) -> bool {
        exists|i: int| 0 <= i < self.tables_view().len() && (#[trigger] self.tables_view()[i]).0 == id
    }

    /// A node under this endpoint is tracked.
    pub open spec fn has_node(&self, endpoint: Seq<char>) -> bool {
        exists|i: int| 0 <= i < self.nodes_view().len() && #[trigger] self.nodes_view()[i] == endpoint
    }

    /// A service over fresh state.
    pub fn new() -> (s: Self)
        ensures
            s.tables_view() == Seq::<(Seq<char>, TableV)>::empty(),
            s.nodes_view() == Seq::<Seq<char>>::empty(),
    {
        Self { state: MetaServiceState::new() }
    }

    /// Handles a create-table request: a request without a descriptor is
    /// rejected; otherwise the table is registered as
    /// [`MetaServiceState::create_table`] says.
    pub fn create_table(&mut self, table_desc: &Option<RtStoreTableDesc>) -> (r: Result<
        (),
        RTStoreError,
    >)
        ensures
            final(self).nodes_view() == old(self).nodes_view(),
            table_desc is None ==> (r matches Err(e) && e@
                == (RTStoreErrorV::MetaRpcCreateTableError {
                err: "input is invalid for empty table description"@,
            }) && final(self).tables_view() == old(self).tables_view()),
            table_desc matches Some(desc) ==> {
                &&& desc@.names.len() == 0 ==> (r matches Err(e) && e@
                    == RTStoreErrorV::TableInvalidNamesError && final(self).tables_view() == old(self).tables_view())
                &&& desc@.names.len() > 0 && old(self).has_table_id(join_dot(desc@.names))
                    ==> (r matches Err(e) && e@ == (RTStoreErrorV::TableNamesExistError {
                    name: join_dot(desc@.names),
                }) && final(self).tables_view() == old(self).tables_view())
                &&& desc@.names.len() > 0 && !old(self).has_table_id(join_dot(desc@.names))
                    ==> (r is Ok && final(self).tables_view() == old(self).tables_view().push(
                    (join_dot(desc@.names), TableV { id: join_dot(desc@.names), desc: desc@ }),
                ))
            },
    {
        match table_desc {
            Some(desc) => self.state.create_table(desc),
            None => Err(
                RTStoreError::MetaRpcCreateTableError {
                    err: String::from_str("input is invalid for empty table description"),
                },
            ),
        }
    }

    /// Handles a liveness probe. Always succeeds.
    pub fn ping(&self) -> (r: Result<(), RTStoreError>)
        ensures
            r is Ok,
    {
        Ok(())
    }

    /// Handles a register-node request. Only memory nodes may register; the
    /// caller attempts the connection and hands in its outcome, `None`
    /// meaning the node could not be reached. A reachable memory node is
    /// registered as [`MetaServiceState::add_memory_node`] says.
    pub fn register_node(
        &mut self,
        node_type: i32,
        endpoint: &str,
        connected: Option<MemoryNode>,
    ) -> (r: Result<(), RTStoreError>)
        ensures
            final(self).tables_view() == old(self).tables_view(),
            node_type_of(node_type) != Some(RtStoreNodeType::KMemoryNode) ==> (r matches Err(e)
                && e@ == RTStoreErrorV::InvalidArgumentError("memory node is required"@) && final(self).nodes_view() == old(self).nodes_view()),
            node_type_of(node_type) == Some(RtStoreNodeType::KMemoryNode) && connected is None ==> (
            r matches Err(e) && e@ == RTStoreErrorV::NodeRPCError(endpoint@) && final(self).nodes_view() == old(self).nodes_view()),
            node_type_of(node_type) == Some(RtStoreNodeType::KMemoryNode) && connected is Some
                ==> {
                &&& old(self).has_node(endpoint@) ==> (r matches Err(e) && e@
                    == RTStoreErrorV::MemoryNodeExistError(endpoint@) && final(self).nodes_view()
                    == old(self).nodes_view())
                &&& !old(self).has_node(endpoint@) ==> (r is Ok && final(self).nodes_view()
                    == old(self).nodes_view().push(endpoint@))
            },
    {
        if node_type != RtStoreNodeType::KMemoryNode.to_i32() {
            return Err(RTStoreError::InvalidArgumentError(String::from_str(
                "memory node is required",
            )));
        }
        match connected {
            Some(node) => self.state.add_memory_node(endpoint, &node),
            None => Err(RTStoreError::NodeRPCError(String::from_str(endpoint))),
        }
    }
}

impl Default for MetaServiceImpl {
    fn default() -> (s: Self)
        ensures
            s.tables_view() == Seq::<(Seq<char>, TableV)>::empty(),
            s.nodes_view() == Seq::<Seq<char>>::empty(),
    {
        Self::new()
    }
}

} // verus!
