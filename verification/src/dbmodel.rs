//! Database abstractions' data shapes and their deterministic stand-in
//! implementations. Real engines are driven from outside over these
//! shapes; the stand-ins' behavior is fully specified. Dynamic values
//! are carried in the library's own JSON model, and vector payloads as
//! raw coordinate data is a host concern kept outside.

use vstd::prelude::*;
use crate::jsonval::JsonField;
use vstd::string::StringExecFns;

verus! {

/// Graph node representation.
#[derive(Debug)]
pub struct GraphNode {
    pub id: String,
    pub label: String,
    pub properties: Vec<JsonField>,
}

/// Graph edge representation.
#[derive(Debug)]
pub struct GraphEdge {
    pub id: String,
    pub from: String,
    pub to: String,
    pub label: String,
    pub properties: Vec<JsonField>,
}

/// Graph query result.
#[derive(Debug)]
pub struct GraphQueryResult {
    pub nodes: Vec<GraphNode>,
    pub edges: Vec<GraphEdge>,
}

/// SQL query result: column names and one field list per row.
#[derive(Debug)]
pub struct SqlQueryResult {
    pub columns: Vec<String>,
    pub rows: Vec<Vec<JsonField>>,
    pub affected_rows: Option<u64>,
}

/// Database connection configuration.
#[derive(Debug)]
pub struct DatabaseConfig {
    pub host: String,
    pub port: u16,
    pub database: String,
    pub username: Option<String>,
    pub password: Option<String>,
    pub options: Vec<(String, String)>,
}

/// Kinds of relational engines.
#[derive(Debug, Clone, Copy, PartialEq, Eq, Structural)]
pub enum DatabaseType {
    MySQL,
    PostgreSQL,
    SQLite,
    SqlServer,
    Oracle,
    Other,
}

/// Direction for traversing edges.
#[derive(Debug, Clone, Copy, PartialEq, Eq, Structural)]
pub enum EdgeDirection {
    Incoming,
    Outgoing,
    Both,
}

/// Stand-in relational database.
#[derive(Debug)]
pub struct MockSqlDatabase {
    pub connected: bool,
    pub db_type: DatabaseType,
}

impl MockSqlDatabase {
    /// Disconnected, of the given kind.
    pub fn new(db_type: DatabaseType) -> (r: Self)
        ensures
            r.connected == false,
            r.db_type == db_type,
    {
        MockSqlDatabase { connected: false, db_type }
    }

    /// Marks the connection up.
    pub fn connect(&mut self)
        ensures
            final(self).connected == true,
            final(self).db_type == old(self).db_type,
    {
        self.connected = true;
    }

    /// Marks the connection down.
    pub fn disconnect(&mut self)
        ensures
            final(self).connected == false,
            final(self).db_type == old(self).db_type,
    {
        self.connected = false;
    }

    /// A fixed empty result under two stock columns.
    pub fn query(&self) -> (r: SqlQueryResult)
        ensures
            r.columns@.len() == 2,
            r.columns@[0]@ == "id"@,
            r.columns@[1]@ == "name"@,
            r.rows@.len() == 0,
            r.affected_rows is None,
    {
        let mut columns: Vec<String> = Vec::new();
        columns.push("id".to_owned());
        columns.push("name".to_owned());
        SqlQueryResult { columns, rows: Vec::new(), affected_rows: None }
    }

    /// One row reported changed, always.
    pub fn execute(&self) -> (r: u64)
        ensures
            r == 1,
    {
        1
    }

    /// Whether the connection is up.
    pub fn is_connected(&self) -> (r: bool)
        ensures
            r == self.connected,
    {
        self.connected
    }

    /// The engine kind.
    pub fn database_type(&self) -> (r: DatabaseType)
        ensures
            r == self.db_type,
    {
        self.db_type
    }
}

/// Stand-in transaction: commits and rollbacks are accepted and do
/// nothing.
#[derive(Debug)]
pub struct MockSqlTransaction {}

impl MockSqlTransaction {
    /// A fresh transaction handle.
    pub fn new() -> (r: Self)
        ensures
            true,
    {
        MockSqlTransaction {  }
    }

    /// An empty result.
    pub fn query(&self) -> (r: SqlQueryResult)
        ensures
            r.columns@.len() == 0,
            r.rows@.len() == 0,
            r.affected_rows is None,
    {
        SqlQueryResult { columns: Vec::new(), rows: Vec::new(), affected_rows: None }
    }

    /// No rows changed.
    pub fn execute(&self) -> (r: u64)
        ensures
            r == 0,
    {
        0
    }
}

/// Stand-in graph database.
#[derive(Debug)]
pub struct MockGraphDatabase {
    pub connected: bool,
}

impl MockGraphDatabase {
    /// Disconnected.
    pub fn new() -> (r: Self)
        ensures
            r.connected == false,
    {
        MockGraphDatabase { connected: false }
    }

    /// Marks the connection up.
    pub fn connect(&mut self)
        ensures
            final(self).connected == true,
    {
        self.connected = true;
    }

    /// Marks the connection down.
    pub fn disconnect(&mut self)
        ensures
            final(self).connected == false,
    {
        self.connected = false;
    }

    /// An empty graph result.
    pub fn query(&self) -> (r: GraphQueryResult)
        ensures
            r.nodes@.len() == 0,
            r.edges@.len() == 0,
    {
        GraphQueryResult { nodes: Vec::new(), edges: Vec::new() }
    }

    /// Creating a node reports its own identifier back.
    pub fn create_node(&self, node: GraphNode) -> (r: String)
        ensures
            r@ == node.id@,
    {
        node.id
    }

    /// Creating an edge reports its own identifier back.
    pub fn create_edge(&self, edge: GraphEdge) -> (r: String)
        ensures
            r@ == edge.id@,
    {
        edge.id
    }

    /// Whether the connection is up.
    pub fn is_connected(&self) -> (r: bool)
        ensures
            r == self.connected,
    {
        self.connected
    }
}

/// Stand-in vector database.
#[derive(Debug)]
pub struct MockVectorDatabase {
    pub connected: bool,
}

impl MockVectorDatabase {
    /// Disconnected.
    pub fn new() -> (r: Self)
        ensures
            r.connected == false,
    {
        MockVectorDatabase { connected: false }
    }

    /// Marks the connection up.
    pub fn connect(&mut self)
        ensures
            final(self).connected == true,
    {
        self.connected = true;
    }

    /// Marks the connection down.
    pub fn disconnect(&mut self)
        ensures
            final(self).connected == false,
    {
        self.connected = false;
    }

    /// Whether the connection is up.
    pub fn is_connected(&self) -> (r: bool)
        ensures
            r == self.connected,
    {
        self.connected
    }
}

} // verus!
