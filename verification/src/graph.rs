//! The weighted undirected graph: nodes identified by string keys,
//! connections built once from tabular configuration data, and
//! adjacency queries over the result.

use vstd::prelude::*;
use vstd::string::StringExecFns;

verus! {

/// Coordinate metadata carried by a node. It is decorative: it plays no
/// part in node identity and no part in traversal.
#[derive(Clone, Copy, Debug, PartialEq, Eq, Structural)]
pub struct Location(pub i64, pub i64);

/// A graph node: a stable string key plus coordinate metadata.
/// Two nodes with the same key are the same node, whatever their metadata.
#[derive(Debug)]
pub struct StringNode(pub String, pub Location);

impl StringNode {
    /// The identity of a node: the characters of its key.
    pub open spec fn key(self) -> Seq<char> {
        self.0@
    }

    /// Makes a node from a bare key, with placeholder metadata.
    pub fn from(string: String) -> (node: StringNode)
        ensures
            node.key() == string@,
            node.1 == (Location(0, 0)),
    {
        StringNode(string, Location(0, 0))
    }
}

impl Clone for StringNode {
    fn clone(&self) -> (res: Self)
        ensures
            res == *self,
    {
        StringNode(self.0.clone(), self.1)
    }
}

impl PartialEq for StringNode {
    fn eq(&self, other: &Self) -> bool {
        self.0 == other.0
    }
}

impl vstd::std_specs::cmp::PartialEqSpecImpl for StringNode {
    open spec fn obeys_eq_spec() -> bool {
        true
    }

    open spec fn eq_spec(&self, other: &Self) -> bool {
        self.key() == other.key()
    }
}

/// One end of a connection as seen from the other end: the neighbouring
/// node together with the weight of the connection that leads to it.
#[derive(Debug)]
pub struct To<T>(pub T, pub i64);

/// An undirected connection: an unordered pair of nodes and a
/// non-negative weight. A single stored connection is traversable in
/// both directions.
#[derive(Debug)]
pub struct Connection(pub StringNode, pub StringNode, pub i64);

/// A defect in the configuration tables, found while building a graph.
#[derive(Debug)]
pub enum ConfigError {
    /// The distance table references this key, but the node table does
    /// not define it.
    MissingKey(String),
    /// The distance table carries a negative weight for the connection
    /// between these two keys.
    NegativeWeight(String, String, i64),
}

/// A connection reduced to what identifies it: the two endpoint keys
/// and the weight.
pub type EdgeModel = (Seq<char>, Seq<char>, int);

/// The keys of a node table, in table order.
pub open spec fn table_keys(table: Seq<(String, Location)>) -> Seq<Seq<char>> {
    table.map_values(|entry: (String, Location)| entry.0@)
}

/// The connections denoted by one distance-table entry, in entry order.
pub open spec fn entry_edges(entry: (String, Vec<(String, i64)>)) -> Seq<EdgeModel> {
    entry.1@.map_values(|child: (String, i64)| (entry.0@, child.0@, child.1 as int))
}

/// Every connection denoted by a distance table, in table order.
pub open spec fn table_edges(dist: Seq<(String, Vec<(String, i64)>)>) -> Seq<EdgeModel>
    decreases dist.len(),
{
    if dist.len() == 0 {
        Seq::empty()
    } else {
        table_edges(dist.drop_last()) + entry_edges(dist.last())
    }
}

/// Both endpoints of every edge are among the given keys.
pub open spec fn edge_endpoints_known(keys: Seq<Seq<char>>, edges: Seq<EdgeModel>) -> bool {
    forall|i: int|
        0 <= i < edges.len() ==> keys.contains((#[trigger] edges[i]).0) && keys.contains(
            edges[i].1,
        )
}

/// Every edge weight is non-negative.
pub open spec fn edge_weights_ok(edges: Seq<EdgeModel>) -> bool {
    forall|i: int| 0 <= i < edges.len() ==> 0 <= (#[trigger] edges[i]).2
}

/// Some edge mentions the given key as one of its endpoints.
pub open spec fn edge_mentions(edges: Seq<EdgeModel>, key: Seq<char>) -> bool {
    exists|i: int|
        0 <= i < edges.len() && ((#[trigger] edges[i]).0 == key || edges[i].1 == key)
}

/// A pair of configuration tables from which a graph can be built:
/// every key the distance table references is defined by the node
/// table, and every weight is non-negative.
pub open spec fn tables_ok(
    table: Seq<(String, Location)>,
    dist: Seq<(String, Vec<(String, i64)>)>,
) -> bool {
    edge_endpoints_known(table_keys(table), table_edges(dist)) && edge_weights_ok(
        table_edges(dist),
    )
}

/// The connections incident to the node with key `k`, each as the key
/// of the other endpoint and the weight, in stored order.
pub open spec fn spec_neighbors(edges: Seq<EdgeModel>, k: Seq<char>) -> Seq<(Seq<char>, int)>
    decreases edges.len(),
{
    if edges.len() == 0 {
        Seq::empty()
    } else {
        spec_neighbors(edges.drop_last(), k) + (if edges.last().0 == k {
            seq![(edges.last().1, edges.last().2)]
        } else if edges.last().1 == k {
            seq![(edges.last().0, edges.last().2)]
        } else {
            Seq::empty()
        })
    }
}

/// A sequence of adjacency answers reduced to keys and weights.
pub open spec fn tos_view(tos: Seq<To<StringNode>>) -> Seq<(Seq<char>, int)> {
    tos.map_values(|t: To<StringNode>| (t.0.key(), t.1 as int))
}

/// The weight of the first adjacency answer that leads to `to`; zero
/// when none does.
pub open spec fn neighbor_weight(neighbors: Seq<(Seq<char>, int)>, to: Seq<char>) -> int
    decreases neighbors.len(),
{
    if neighbors.len() == 0 {
        0
    } else if neighbors.first().0 == to {
        neighbors.first().1
    } else {
        neighbor_weight(neighbors.drop_first(), to)
    }
}

/// When every stored weight is non-negative, so is every weight an
/// adjacency query answers.
pub proof fn lemma_neighbor_weights_ok(edges: Seq<EdgeModel>, k: Seq<char>)
    requires
        edge_weights_ok(edges),
    ensures
        forall|j: int|
            0 <= j < spec_neighbors(edges, k).len() ==> 0 <= (#[trigger] spec_neighbors(
                edges,
                k,
            )[j]).1,
    decreases edges.len(),
{
    if edges.len() > 0 {
        assert(forall|i: int|
            0 <= i < edges.drop_last().len() ==> #[trigger] edges.drop_last()[i] == edges[i]);
        lemma_neighbor_weights_ok(edges.drop_last(), k);
        assert(0 <= edges[edges.len() - 1].2);
        let prefix = spec_neighbors(edges.drop_last(), k);
        assert forall|j: int|
            0 <= j < spec_neighbors(edges, k).len() implies 0 <= (#[trigger] spec_neighbors(
            edges,
            k,
        )[j]).1 by {
            if j < prefix.len() {
                assert(spec_neighbors(edges, k)[j] == prefix[j]);
            } else {
                assert(spec_neighbors(edges, k)[j].1 == edges.last().2);
            }
        }
    }
}

/// Read-only adjacency queries over a fixed set of nodes and weighted
/// undirected connections.
pub trait UndirectedGraph: Sized {
    /// Every stored connection, as the keys of its two endpoints and
    /// its weight, in stored order.
    spec fn edges(&self) -> Seq<EdgeModel>;

    /// The keys of all nodes, in construction order.
    spec fn node_keys(&self) -> Seq<Seq<char>>;

    /// Every connection incident to `from`, in either stored direction,
    /// as the other endpoint and the weight. The order is fixed by the
    /// stored connection order, so repeated queries answer alike.
    fn get_connections(&self, from: &StringNode) -> (res: Vec<To<StringNode>>)
        ensures
            tos_view(res@) == spec_neighbors(self.edges(), from.key()),
    ;

    /// All nodes, including isolated ones, in construction order.
    fn list_nodes(&self) -> (res: &[StringNode])
        ensures
            res@.map_values(|n: StringNode| n.key()) == self.node_keys(),
    ;
}

/// An immutable graph: once built, no connection and no node can be
/// added or removed.
#[derive(Debug)]
pub struct UndirectedGraphImpl {
    connections: Vec<Connection>,
    nodes: Vec<StringNode>,
}

/// A sequence of stored connections reduced to their models.
pub open spec fn connections_view(cs: Seq<Connection>) -> Seq<EdgeModel> {
    cs.map_values(|c: Connection| (c.0.key(), c.1.key(), c.2 as int))
}

impl UndirectedGraphImpl {
    /// The stored nodes, in construction order.
    pub closed spec fn spec_nodes(&self) -> Seq<StringNode> {
        self.nodes@
    }

    /// Every endpoint key is a stored node's key, and every weight is
    /// non-negative.
    pub open spec fn wf(&self) -> bool {
        edge_endpoints_known(self.node_keys(), self.edges()) && edge_weights_ok(self.edges())
    }
}

/// Looks a key up in a node table; answers the first index that
/// defines it.
fn find_key(table: &Vec<(String, Location)>, key: &String) -> (res: Option<usize>)
    ensures
        match res {
            Some(i) => i < table@.len() && table@[i as int].0@ == key@,
            None => !table_keys(table@).contains(key@),
        },
{
    let mut i: usize = 0;
    while i < table.len()
        invariant
            i <= table@.len(),
            forall|j: int| 0 <= j < i ==> table_keys(table@)[j] != key@,
        decreases table@.len() - i,
    {
        if table[i].0 == *key {
            return Some(i);
        }
        i += 1;
    }
    None
}

impl UndirectedGraphImpl {
    /// Builds a graph from a node table (key and metadata, one node per
    /// entry) and a distance table (one undirected connection per inner
    /// entry). Succeeds exactly when every referenced key is defined
    /// and every weight is non-negative; no partially built graph is
    /// ever returned.
    pub fn new(nodes: Vec<(String, Location)>, distances: Vec<(String, Vec<(String, i64)>)>) -> (res:
        Result<UndirectedGraphImpl, ConfigError>)
        ensures
            res is Ok <==> tables_ok(nodes@, distances@),
            match res {
                Ok(g) => {
                    &&& g.wf()
                    &&& g.node_keys() == table_keys(nodes@)
                    &&& g.spec_nodes().len() == nodes@.len()
                    &&& forall|i: int|
                        0 <= i < nodes@.len() ==> (#[trigger] g.spec_nodes()[i]).key()
                            == nodes@[i].0@ && g.spec_nodes()[i].1 == nodes@[i].1
                    &&& g.edges() == table_edges(distances@)
                },
                Err(ConfigError::MissingKey(k)) => !table_keys(nodes@).contains(k@)
                    && edge_mentions(table_edges(distances@), k@),
                Err(ConfigError::NegativeWeight(p, c, w)) => w < 0 && table_edges(
                    distances@,
                ).contains((p@, c@, w as int)),
            },
    {
        let mut graph_nodes: Vec<StringNode> = Vec::new();
        let mut i: usize = 0;
        while i < nodes.len()
            invariant
                i <= nodes@.len(),
                graph_nodes@.len() == i,
                forall|j: int|
                    0 <= j < i ==> (#[trigger] graph_nodes@[j]).key() == nodes@[j].0@
                        && graph_nodes@[j].1 == nodes@[j].1,
            decreases nodes@.len() - i,
        {
            graph_nodes.push(StringNode(nodes[i].0.clone(), nodes[i].1));
            i += 1;
        }

        let mut connections: Vec<Connection> = Vec::new();
        let mut p: usize = 0;
        while p < distances.len()
            invariant
                p <= distances@.len(),
                connections_view(connections@) == table_edges(distances@.take(p as int)),
                edge_endpoints_known(table_keys(nodes@), connections_view(connections@)),
                edge_weights_ok(connections_view(connections@)),
            decreases distances@.len() - p,
        {
            let ghost entry = distances@[p as int];
            let mut c: usize = 0;
            while c < distances[p].1.len()
                invariant
                    p < distances@.len(),
                    entry == distances@[p as int],
                    c <= entry.1@.len(),
                    connections_view(connections@) == table_edges(distances@.take(p as int))
                        + entry_edges(entry).take(c as int),
                    edge_endpoints_known(table_keys(nodes@), connections_view(connections@)),
                    edge_weights_ok(connections_view(connections@)),
                decreases entry.1@.len() - c,
            {
                let parent_name = &distances[p].0;
                let child_name = &distances[p].1[c].0;
                let weight = distances[p].1[c].1;
                let ghost edge = entry_edges(entry)[c as int];
                let ghost at = table_edges(distances@.take(p as int)).len() + c;
                proof {
                    lemma_table_edges_snoc(distances@, p as int);
                    lemma_table_edges_extends(distances@, p as int + 1);
                    assert(table_edges(distances@.take(p as int + 1))[at] == edge);
                    assert(table_edges(distances@)[at] == edge);
                }
                let parent_at = match find_key(&nodes, parent_name) {
                    Some(found) => found,
                    None => {
                        return Err(ConfigError::MissingKey(parent_name.clone()));
                    },
                };
                let child_at = match find_key(&nodes, child_name) {
                    Some(found) => found,
                    None => {
                        return Err(ConfigError::MissingKey(child_name.clone()));
                    },
                };
                if weight < 0 {
                    return Err(ConfigError::NegativeWeight(
                        parent_name.clone(),
                        child_name.clone(),
                        weight,
                    ));
                }
                proof {
                    assert(table_keys(nodes@)[parent_at as int] == parent_name@);
                    assert(table_keys(nodes@)[child_at as int] == child_name@);
                    assert(table_keys(nodes@).contains(parent_name@));
                    assert(table_keys(nodes@).contains(child_name@));
                }
                let connection = Connection(
                    StringNode(parent_name.clone(), nodes[parent_at].1),
                    StringNode(child_name.clone(), nodes[child_at].1),
                    weight,
                );
                let ghost old_view = connections_view(connections@);
                proof {
                    assert((connection.0.key(), connection.1.key(), connection.2 as int) == edge);
                }
                connections.push(connection);
                proof {
                    assert(connections_view(connections@) =~= old_view.push(edge));
                    assert(entry_edges(entry).take(c + 1 as int) =~= entry_edges(entry).take(
                        c as int,
                    ).push(edge));
                    assert(connections_view(connections@) =~= table_edges(
                        distances@.take(p as int),
                    ) + entry_edges(entry).take(c + 1 as int));
                    assert forall|j: int| 0 <= j < connections_view(connections@).len() implies
                        table_keys(nodes@).contains(
                            (#[trigger] connections_view(connections@)[j]).0,
                        ) && table_keys(nodes@).contains(connections_view(connections@)[j].1) by {
                        if j < old_view.len() {
                            assert(connections_view(connections@)[j] == old_view[j]);
                        } else {
                            assert(connections_view(connections@)[j] == edge);
                        }
                    }
                }
                c += 1;
            }
            proof {
                lemma_table_edges_snoc(distances@, p as int);
                assert(entry_edges(entry).take(entry.1@.len() as int) =~= entry_edges(entry));
                assert(connections_view(connections@) =~= table_edges(
                    distances@.take(p + 1 as int),
                ));
            }
            p += 1;
        }
        proof {
            assert(distances@.take(distances@.len() as int) =~= distances@);
        }
        let graph = UndirectedGraphImpl { connections, nodes: graph_nodes };
        proof {
            assert(graph.node_keys() =~= table_keys(nodes@));
        }
        Ok(graph)
    }
}

/// Makes a node-table entry with placeholder metadata.
fn city(name: &str) -> (entry: (String, Location))
    ensures
        entry.0@ == name@,
{
    (String::from_str(name), Location(0, 0))
}

/// Makes a distance-table entry that denotes a single connection.
fn road(parent: &str, child: &str, weight: i64) -> (entry: (String, Vec<(String, i64)>))
    ensures
        entry.0@ == parent@,
        entry.1@.len() == 1,
        entry.1@[0].0@ == child@,
        entry.1@[0].1 == weight,
{
    let mut children: Vec<(String, i64)> = Vec::new();
    children.push((String::from_str(child), weight));
    (String::from_str(parent), children)
}

/// The node keys of the Romania road map, in construction order.
pub open spec fn romania_keys() -> Seq<Seq<char>> {
    seq![
        "Oradea"@,
        "Zerind"@,
        "Arad"@,
        "Timisoara"@,
        "Lugoj"@,
        "Mehadia"@,
        "Drobeta"@,
        "Craiova"@,
        "RimnicuVilcea"@,
        "Sibiu"@,
        "Fagarus"@,
        "Pitesti"@,
        "Bucharest"@,
        "Giurgiu"@,
        "Urzieni"@,
        "Hirsova"@,
        "Eforie"@,
        "Vaslui"@,
        "Iasi"@,
        "Neamt"@,
    ]
}

/// The connections of the Romania road map, in construction order.
pub open spec fn romania_edges() -> Seq<EdgeModel> {
    seq![
        ("Oradea"@, "Zerind"@, 71int),
        ("Zerind"@, "Arad"@, 75int),
        ("Arad"@, "Timisoara"@, 118int),
        ("Timisoara"@, "Lugoj"@, 70int),
        ("Lugoj"@, "Mehadia"@, 70int),
        ("Mehadia"@, "Drobeta"@, 75int),
        ("Drobeta"@, "Craiova"@, 120int),
        ("RimnicuVilcea"@, "Sibiu"@, 80int),
        ("Sibiu"@, "Oradea"@, 151int),
        ("Sibiu"@, "Arad"@, 150int),
        ("Sibiu"@, "Fagarus"@, 99int),
        ("RimnicuVilcea"@, "Pitesti"@, 97int),
        ("Craiova"@, "Pitesti"@, 138int),
        ("Pitesti"@, "Bucharest"@, 101int),
        ("Bucharest"@, "Giurgiu"@, 90int),
        ("Bucharest"@, "Urzieni"@, 85int),
        ("Urzieni"@, "Hirsova"@, 98int),
        ("Hirsova"@, "Eforie"@, 86int),
        ("Urzieni"@, "Vaslui"@, 142int),
        ("Vaslui"@, "Iasi"@, 92int),
        ("Iasi"@, "Neamt"@, 87int),
    ]
}

impl UndirectedGraphImpl {
    /// Builds the Romania road-map graph whose tables are written into
    /// the library. The tables are proved well formed, so construction
    /// always succeeds.
    pub fn romania() -> (res: Result<UndirectedGraphImpl, ConfigError>)
        ensures
            res is Ok,
            res matches Ok(g) ==> g.wf() && g.node_keys() == romania_keys() && g.edges()
                == romania_edges(),
    {
        let mut nodes: Vec<(String, Location)> = Vec::new();
        nodes.push(city("Oradea"));
        nodes.push(city("Zerind"));
        nodes.push(city("Arad"));
        nodes.push(city("Timisoara"));
        nodes.push(city("Lugoj"));
        nodes.push(city("Mehadia"));
        nodes.push(city("Drobeta"));
        nodes.push(city("Craiova"));
        nodes.push(city("RimnicuVilcea"));
        nodes.push(city("Sibiu"));
        nodes.push(city("Fagarus"));
        nodes.push(city("Pitesti"));
        nodes.push(city("Bucharest"));
        nodes.push(city("Giurgiu"));
        nodes.push(city("Urzieni"));
        nodes.push(city("Hirsova"));
        nodes.push(city("Eforie"));
        nodes.push(city("Vaslui"));
        nodes.push(city("Iasi"));
        nodes.push(city("Neamt"));

        let mut distances: Vec<(String, Vec<(String, i64)>)> = Vec::new();
        distances.push(road("Oradea", "Zerind", 71));
        distances.push(road("Zerind", "Arad", 75));
        distances.push(road("Arad", "Timisoara", 118));
        distances.push(road("Timisoara", "Lugoj", 70));
        distances.push(road("Lugoj", "Mehadia", 70));
        distances.push(road("Mehadia", "Drobeta", 75));
        distances.push(road("Drobeta", "Craiova", 120));
        distances.push(road("RimnicuVilcea", "Sibiu", 80));
        distances.push(road("Sibiu", "Oradea", 151));
        distances.push(road("Sibiu", "Arad", 150));
        distances.push(road("Sibiu", "Fagarus", 99));
        distances.push(road("RimnicuVilcea", "Pitesti", 97));
        distances.push(road("Craiova", "Pitesti", 138));
        distances.push(road("Pitesti", "Bucharest", 101));
        distances.push(road("Bucharest", "Giurgiu", 90));
        distances.push(road("Bucharest", "Urzieni", 85));
        distances.push(road("Urzieni", "Hirsova", 98));
        distances.push(road("Hirsova", "Eforie", 86));
        distances.push(road("Urzieni", "Vaslui", 142));
        distances.push(road("Vaslui", "Iasi", 92));
        distances.push(road("Iasi", "Neamt", 87));

        proof {
            assert(table_keys(nodes@) =~= romania_keys());
            lemma_table_edges_singletons(distances@);
            assert(table_edges(distances@) =~= romania_edges());
            assert forall|i: int| 0 <= i < romania_edges().len() implies romania_keys().contains(
                (#[trigger] romania_edges()[i]).0,
            ) && romania_keys().contains(romania_edges()[i].1) && 0 <= romania_edges()[i].2 by {
                assert(romania_keys()[0] == "Oradea"@);
                assert(romania_keys()[1] == "Zerind"@);
                assert(romania_keys()[2] == "Arad"@);
                assert(romania_keys()[3] == "Timisoara"@);
                assert(romania_keys()[4] == "Lugoj"@);
                assert(romania_keys()[5] == "Mehadia"@);
                assert(romania_keys()[6] == "Drobeta"@);
                assert(romania_keys()[7] == "Craiova"@);
                assert(romania_keys()[8] == "RimnicuVilcea"@);
                assert(romania_keys()[9] == "Sibiu"@);
                assert(romania_keys()[10] == "Fagarus"@);
                assert(romania_keys()[11] == "Pitesti"@);
                assert(romania_keys()[12] == "Bucharest"@);
                assert(romania_keys()[13] == "Giurgiu"@);
                assert(romania_keys()[14] == "Urzieni"@);
                assert(romania_keys()[15] == "Hirsova"@);
                assert(romania_keys()[16] == "Eforie"@);
                assert(romania_keys()[17] == "Vaslui"@);
                assert(romania_keys()[18] == "Iasi"@);
                assert(romania_keys()[19] == "Neamt"@);
            }
            assert(tables_ok(nodes@, distances@));
        }
        UndirectedGraphImpl::new(nodes, distances)
    }
}

/// A distance table of single-connection entries denotes one connection
/// per entry, in entry order.
proof fn lemma_table_edges_singletons(dist: Seq<(String, Vec<(String, i64)>)>)
    requires
        forall|i: int| 0 <= i < dist.len() ==> (#[trigger] dist[i]).1@.len() == 1,
    ensures
        table_edges(dist).len() == dist.len(),
        forall|i: int| 0 <= i < dist.len() ==> #[trigger] table_edges(dist)[i] == entry_edges(
            dist[i],
        )[0],
    decreases dist.len(),
{
    if dist.len() > 0 {
        lemma_table_edges_singletons(dist.drop_last());
        assert(entry_edges(dist.last()).len() == 1);
        assert(forall|i: int|
            0 <= i < dist.len() - 1 ==> #[trigger] dist.drop_last()[i] == dist[i]);
    }
}

/// Every connection of a prefix of a distance table stands, at the same
/// place, among the connections of the whole table.
proof fn lemma_table_edges_extends(dist: Seq<(String, Vec<(String, i64)>)>, q: int)
    requires
        0 <= q <= dist.len(),
    ensures
        table_edges(dist.take(q)).len() <= table_edges(dist).len(),
        forall|i: int|
            0 <= i < table_edges(dist.take(q)).len() ==> #[trigger] table_edges(dist)[i]
                == table_edges(dist.take(q))[i],
    decreases dist.len() - q,
{
    if q == dist.len() {
        assert(dist.take(q) =~= dist);
    } else {
        lemma_table_edges_extends(dist, q + 1);
        lemma_table_edges_snoc(dist, q);
    }
}

/// Taking one more distance-table entry appends exactly that entry's
/// connections.
proof fn lemma_table_edges_snoc(dist: Seq<(String, Vec<(String, i64)>)>, q: int)
    requires
        0 <= q < dist.len(),
    ensures
        table_edges(dist.take(q + 1)) == table_edges(dist.take(q)) + entry_edges(dist[q]),
{
    assert(dist.take(q + 1).drop_last() =~= dist.take(q));
    assert(dist.take(q + 1).last() == dist[q]);
}

impl UndirectedGraph for UndirectedGraphImpl {
    closed spec fn edges(&self) -> Seq<EdgeModel> {
        connections_view(self.connections@)
    }

    closed spec fn node_keys(&self) -> Seq<Seq<char>> {
        self.nodes@.map_values(|n: StringNode| n.key())
    }

    fn get_connections(&self, from: &StringNode) -> (res: Vec<To<StringNode>>)
        ensures
            tos_view(res@) == spec_neighbors(self.edges(), from.key()),
    {
        let mut res: Vec<To<StringNode>> = Vec::new();
        let mut i: usize = 0;
        while i < self.connections.len()
            invariant
                i <= self.connections@.len(),
                tos_view(res@) == spec_neighbors(
                    connections_view(self.connections@.take(i as int)),
                    from.key(),
                ),
            decreases self.connections@.len() - i,
        {
            let c = &self.connections[i];
            let ghost prefix = connections_view(self.connections@.take(i as int));
            let ghost next = connections_view(self.connections@.take(i + 1 as int));
            proof {
                assert(next.drop_last() =~= prefix);
                assert(next =~= prefix.push((c.0.key(), c.1.key(), c.2 as int)));
            }
            if c.0 == *from {
                res.push(To(c.1.clone(), c.2));
            } else if c.1 == *from {
                res.push(To(c.0.clone(), c.2));
            }
            proof {
                assert(tos_view(res@) =~= spec_neighbors(next, from.key()));
            }
            i += 1;
        }
        proof {
            assert(self.connections@.take(self.connections@.len() as int)
                =~= self.connections@);
        }
        res
    }

    fn list_nodes(&self) -> (res: &[StringNode])
        ensures
            res@ == self.spec_nodes(),
    {
        self.nodes.as_slice()
    }
}

/// Symmetry law: a stored connection (a, b, w) is answered by adjacency
/// queries at both of its endpoints — querying a yields (b, w) and
/// querying b yields (a, w).
pub proof fn lemma_symmetry<G: UndirectedGraph>(graph: &G, i: int)
    requires
        0 <= i < graph.edges().len(),
    ensures
        spec_neighbors(graph.edges(), graph.edges()[i].0).contains(
            (graph.edges()[i].1, graph.edges()[i].2),
        ),
        spec_neighbors(graph.edges(), graph.edges()[i].1).contains(
            (graph.edges()[i].0, graph.edges()[i].2),
        ),
{
    lemma_edge_in_neighbors(graph.edges(), i);
}

/// An edge appears among the adjacency answers of each of its
/// endpoints, with the other endpoint and the weight.
proof fn lemma_edge_in_neighbors(edges: Seq<EdgeModel>, i: int)
    requires
        0 <= i < edges.len(),
    ensures
        spec_neighbors(edges, edges[i].0).contains((edges[i].1, edges[i].2)),
        spec_neighbors(edges, edges[i].1).contains((edges[i].0, edges[i].2)),
    decreases edges.len(),
{
    let e = edges[i];
    let from_a = spec_neighbors(edges, e.0);
    let from_b = spec_neighbors(edges, e.1);
    if i == edges.len() - 1 {
        assert(e == edges.last());
        let at_a = spec_neighbors(edges.drop_last(), e.0).len() as int;
        let at_b = spec_neighbors(edges.drop_last(), e.1).len() as int;
        assert(from_a[at_a] == (e.1, e.2));
        assert(from_b[at_b] == (e.0, e.2));
        assert(from_a.contains((e.1, e.2)));
        assert(from_b.contains((e.0, e.2)));
    } else {
        lemma_edge_in_neighbors(edges.drop_last(), i);
        assert(edges.drop_last()[i] == e);
        lemma_neighbors_prefix(edges, e.0);
        lemma_neighbors_prefix(edges, e.1);
        let short_a = spec_neighbors(edges.drop_last(), e.0);
        let short_b = spec_neighbors(edges.drop_last(), e.1);
        let ja = choose|j: int| 0 <= j < short_a.len() && short_a[j] == (e.1, e.2);
        let jb = choose|j: int| 0 <= j < short_b.len() && short_b[j] == (e.0, e.2);
        assert(from_a[ja] == (e.1, e.2));
        assert(from_b[jb] == (e.0, e.2));
        assert(from_a.contains((e.1, e.2)));
        assert(from_b.contains((e.0, e.2)));
    }
}

/// Dropping the last edge only shortens the adjacency answers: every
/// answer over the shorter sequence stands, at the same place, over the
/// whole one.
proof fn lemma_neighbors_prefix(edges: Seq<EdgeModel>, k: Seq<char>)
    requires
        edges.len() > 0,
    ensures
        spec_neighbors(edges.drop_last(), k).len() <= spec_neighbors(edges, k).len(),
        forall|j: int|
            0 <= j < spec_neighbors(edges.drop_last(), k).len() ==> #[trigger] spec_neighbors(
                edges,
                k,
            )[j] == spec_neighbors(edges.drop_last(), k)[j],
{
}

/// Node preservation law: a graph whose node keys are the keys of a
/// node table keeps every key of that table, including keys that no
/// connection mentions.
pub proof fn lemma_node_preservation<G: UndirectedGraph>(
    graph: &G,
    table: Seq<(String, Location)>,
    i: int,
)
    requires
        graph.node_keys() == table_keys(table),
        0 <= i < table.len(),
    ensures
        graph.node_keys().contains(table[i].0@),
{
    assert(table_keys(table)[i] == table[i].0@);
}

} // verus!
