//! Backing-service configuration and status. Probing and driving the
//! services themselves is host-process work that happens outside; what
//! stands here is the configuration data, its defaults, and the status
//! assembly from probed facts.

use vstd::prelude::*;
use crate::auth::AuthConfig;
use vstd::string::StringExecFns;

verus! {

/// The whole service configuration.
#[derive(Debug)]
pub struct ServiceConfig {
    pub mysql: MySqlConfig,
    pub neo4j: Neo4jConfig,
    pub milvus: MilvusConfig,
    pub server: ServerConfig,
    pub services: ServicePaths,
    pub auth: Option<AuthConfig>,
}

/// Relational database connection settings.
#[derive(Debug)]
pub struct MySqlConfig {
    pub enabled: bool,
    pub host: String,
    pub port: u16,
    pub database: String,
    pub username: String,
    pub password: String,
    pub pool_min: u32,
    pub pool_max: u32,
    pub connect_timeout: u64,
}

/// Graph database connection settings.
#[derive(Debug)]
pub struct Neo4jConfig {
    pub enabled: bool,
    pub host: String,
    pub port: u16,
    pub bolt_url: String,
    pub http_url: String,
    pub username: String,
    pub password: String,
    pub database: String,
    pub encrypted: bool,
}

/// Vector database connection settings.
#[derive(Debug)]
pub struct MilvusConfig {
    pub enabled: bool,
    pub host: String,
    pub port: u16,
    pub collection_name: String,
    pub dimension: usize,
    pub metric: String,
    pub index_type: String,
}

/// The host server's own settings.
#[derive(Debug, Clone)]
pub struct ServerConfig {
    pub host: String,
    pub port: u16,
    pub log_level: String,
}

/// Filesystem locations of the managed services.
#[derive(Debug, Clone)]
pub struct ServicePaths {
    pub mysql_service: String,
    pub neo4j_home: String,
    pub neo4j_service: String,
    pub mysql_data_dir: String,
    pub neo4j_data_dir: String,
    pub backup_dir: String,
}

/// Key-value store connection settings.
#[derive(Debug, Clone)]
pub struct RedisConfig {
    pub enabled: bool,
    pub host: String,
    pub port: u16,
    pub database: u32,
    pub password: Option<String>,
}

impl Default for ServiceConfig {
    /// The stock local development configuration.
    fn default() -> (r: Self)
        ensures
            r.mysql.enabled == true,
            r.mysql.host@ == "localhost"@,
            r.mysql.port == 3306,
            r.mysql.database@ == "mecp_db"@,
            r.mysql.username@ == "mecp_user"@,
            r.mysql.pool_min == 5,
            r.mysql.pool_max == 20,
            r.mysql.connect_timeout == 30,
            r.neo4j.enabled == true,
            r.neo4j.host@ == "localhost"@,
            r.neo4j.port == 7687,
            r.neo4j.bolt_url@ == "bolt://localhost:7687"@,
            r.neo4j.http_url@ == "http://localhost:7474"@,
            r.neo4j.username@ == "neo4j"@,
            r.neo4j.database@ == "neo4j"@,
            r.neo4j.encrypted == false,
            r.milvus.enabled == false,
            r.milvus.host@ == "localhost"@,
            r.milvus.port == 19530,
            r.milvus.collection_name@ == "mecp_vectors"@,
            r.milvus.dimension == 384,
            r.milvus.metric@ == "L2"@,
            r.milvus.index_type@ == "IVF_FLAT"@,
            r.server.host@ == "0.0.0.0"@,
            r.server.port == 8080,
            r.server.log_level@ == "info"@,
            r.services.mysql_service@ == "mysql"@,
            r.services.neo4j_home@ == "/var/lib/neo4j"@,
            r.services.neo4j_service@ == "neo4j"@,
            r.services.mysql_data_dir@ == "/var/lib/mysql"@,
            r.services.neo4j_data_dir@ == "/var/lib/neo4j/data"@,
            r.services.backup_dir@ == "./backups"@,
            r.auth is None,
    {
        ServiceConfig {
            mysql: MySqlConfig {
                enabled: true,
                host: "localhost".to_owned(),
                port: 3306,
                database: "mecp_db".to_owned(),
                username: "mecp_user".to_owned(),
                password: "mecp_password".to_owned(),
                pool_min: 5,
                pool_max: 20,
                connect_timeout: 30,
            },
            neo4j: Neo4jConfig {
                enabled: true,
                host: "localhost".to_owned(),
                port: 7687,
                bolt_url: "bolt://localhost:7687".to_owned(),
                http_url: "http://localhost:7474".to_owned(),
                username: "neo4j".to_owned(),
                password: "mecp_neo4j_password".to_owned(),
                database: "neo4j".to_owned(),
                encrypted: false,
            },
            milvus: MilvusConfig {
                enabled: false,
                host: "localhost".to_owned(),
                port: 19530,
                collection_name: "mecp_vectors".to_owned(),
                dimension: 384,
                metric: "L2".to_owned(),
                index_type: "IVF_FLAT".to_owned(),
            },
            server: ServerConfig {
                host: "0.0.0.0".to_owned(),
                port: 8080,
                log_level: "info".to_owned(),
            },
            services: ServicePaths {
                mysql_service: "mysql".to_owned(),
                neo4j_home: "/var/lib/neo4j".to_owned(),
                neo4j_service: "neo4j".to_owned(),
                mysql_data_dir: "/var/lib/mysql".to_owned(),
                neo4j_data_dir: "/var/lib/neo4j/data".to_owned(),
                backup_dir: "./backups".to_owned(),
            },
            auth: None,
        }
    }
}

impl Default for RedisConfig {
    /// A disabled local store.
    fn default() -> (r: Self)
        ensures
            r.enabled == false,
            r.host@ == "localhost"@,
            r.port == 6379,
            r.database == 0,
            r.password is None,
    {
        RedisConfig {
            enabled: false,
            host: "localhost".to_owned(),
            port: 6379,
            database: 0,
            password: None,
        }
    }
}

impl Clone for MySqlConfig {
    /// A clone keeps every setting.
    fn clone(&self) -> (r: Self)
        ensures
            r.enabled == self.enabled,
            r.host@ == self.host@,
            r.port == self.port,
            r.database@ == self.database@,
            r.username@ == self.username@,
            r.password@ == self.password@,
            r.pool_min == self.pool_min,
            r.pool_max == self.pool_max,
            r.connect_timeout == self.connect_timeout,
    {
        MySqlConfig {
            enabled: self.enabled,
            host: self.host.clone(),
            port: self.port,
            database: self.database.clone(),
            username: self.username.clone(),
            password: self.password.clone(),
            pool_min: self.pool_min,
            pool_max: self.pool_max,
            connect_timeout: self.connect_timeout,
        }
    }
}

impl Clone for Neo4jConfig {
    /// A clone keeps every setting.
    fn clone(&self) -> (r: Self)
        ensures
            r.enabled == self.enabled,
            r.host@ == self.host@,
            r.port == self.port,
            r.bolt_url@ == self.bolt_url@,
            r.http_url@ == self.http_url@,
            r.username@ == self.username@,
            r.password@ == self.password@,
            r.database@ == self.database@,
            r.encrypted == self.encrypted,
    {
        Neo4jConfig {
            enabled: self.enabled,
            host: self.host.clone(),
            port: self.port,
            bolt_url: self.bolt_url.clone(),
            http_url: self.http_url.clone(),
            username: self.username.clone(),
            password: self.password.clone(),
            database: self.database.clone(),
            encrypted: self.encrypted,
        }
    }
}

impl Clone for MilvusConfig {
    /// A clone keeps every setting.
    fn clone(&self) -> (r: Self)
        ensures
            r.enabled == self.enabled,
            r.host@ == self.host@,
            r.port == self.port,
            r.collection_name@ == self.collection_name@,
            r.dimension == self.dimension,
            r.metric@ == self.metric@,
            r.index_type@ == self.index_type@,
    {
        MilvusConfig {
            enabled: self.enabled,
            host: self.host.clone(),
            port: self.port,
            collection_name: self.collection_name.clone(),
            dimension: self.dimension,
            metric: self.metric.clone(),
            index_type: self.index_type.clone(),
        }
    }
}

/// One service's probed status.
#[derive(Debug, Clone)]
pub struct ServiceStatus {
    pub name: String,
    pub installed: bool,
    pub running: bool,
    pub host: String,
    pub port: u16,
    pub database: Option<String>,
}

/// The relational database service. Probing and driving it is outside
/// work; its status is assembled here from the probed facts.
#[derive(Debug)]
pub struct MySqlService {
    pub config: MySqlConfig,
}

impl MySqlService {
    /// Wraps the given configuration.
    pub fn new(config: MySqlConfig) -> (r: Self)
        ensures
            r.config.host@ == config.host@,
            r.config.port == config.port,
            r.config.database@ == config.database@,
    {
        MySqlService { config }
    }

    /// The status, given the probed installed and running facts.
    pub fn status(&self, installed: bool, running: bool) -> (r: ServiceStatus)
        ensures
            r.name@ == "MySQL"@,
            r.installed == installed,
            r.running == running,
            r.host@ == self.config.host@,
            r.port == self.config.port,
            r.database matches Some(d) && d@ == self.config.database@,
    {
        ServiceStatus {
            name: "MySQL".to_owned(),
            installed,
            running,
            host: self.config.host.clone(),
            port: self.config.port,
            database: Some(self.config.database.clone()),
        }
    }
}

/// The graph database service.
#[derive(Debug)]
pub struct Neo4jService {
    pub config: Neo4jConfig,
}

impl Neo4jService {
    /// Wraps the given configuration.
    pub fn new(config: Neo4jConfig) -> (r: Self)
        ensures
            r.config.host@ == config.host@,
            r.config.port == config.port,
            r.config.database@ == config.database@,
    {
        Neo4jService { config }
    }

    /// The status, given the probed installed and running facts.
    pub fn status(&self, installed: bool, running: bool) -> (r: ServiceStatus)
        ensures
            r.name@ == "Neo4j"@,
            r.installed == installed,
            r.running == running,
            r.host@ == self.config.host@,
            r.port == self.config.port,
            r.database matches Some(d) && d@ == self.config.database@,
    {
        ServiceStatus {
            name: "Neo4j".to_owned(),
            installed,
            running,
            host: self.config.host.clone(),
            port: self.config.port,
            database: Some(self.config.database.clone()),
        }
    }
}

/// The vector database service.
#[derive(Debug)]
pub struct MilvusService {
    pub config: MilvusConfig,
}

impl MilvusService {
    /// Wraps the given configuration.
    pub fn new(config: MilvusConfig) -> (r: Self)
        ensures
            r.config.host@ == config.host@,
            r.config.port == config.port,
            r.config.collection_name@ == config.collection_name@,
    {
        MilvusService { config }
    }

    /// The status, given the probed installed and running facts.
    pub fn status(&self, installed: bool, running: bool) -> (r: ServiceStatus)
        ensures
            r.name@ == "Milvus"@,
            r.installed == installed,
            r.running == running,
            r.host@ == self.config.host@,
            r.port == self.config.port,
            r.database matches Some(d) && d@ == self.config.collection_name@,
    {
        ServiceStatus {
            name: "Milvus".to_owned(),
            installed,
            running,
            host: self.config.host.clone(),
            port: self.config.port,
            database: Some(self.config.collection_name.clone()),
        }
    }
}

/// Holds the three services under one configuration.
#[derive(Debug)]
pub struct ServiceManager {
    pub config: ServiceConfig,
    pub mysql: MySqlService,
    pub neo4j: Neo4jService,
    pub milvus: MilvusService,
}

impl ServiceManager {
    /// Splits the configuration out to each service.
    pub fn new(config: ServiceConfig) -> (r: Self)
        ensures
            r.mysql.config.host@ == config.mysql.host@,
            r.mysql.config.port == config.mysql.port,
            r.neo4j.config.host@ == config.neo4j.host@,
            r.neo4j.config.port == config.neo4j.port,
            r.milvus.config.host@ == config.milvus.host@,
            r.milvus.config.port == config.milvus.port,
            r.config.mysql.enabled == config.mysql.enabled,
            r.config.neo4j.enabled == config.neo4j.enabled,
            r.config.milvus.enabled == config.milvus.enabled,
    {
        let mysql = MySqlService::new(config.mysql.clone());
        let neo4j = Neo4jService::new(config.neo4j.clone());
        let milvus = MilvusService::new(config.milvus.clone());
        ServiceManager { config, mysql, neo4j, milvus }
    }
}

} // verus!
