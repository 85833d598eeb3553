//! A local reverse proxy: route definitions, the route table and port plan
//! derived from them, the proxy lifecycle state machine, certificate
//! material handling and the hosts-file text transformations.

pub mod acme;
pub mod certs;
pub mod hosts;
pub mod listener;
pub mod ports;
pub mod privilege;
pub mod proxy;
pub mod route_table;
pub mod routes;
pub mod text;
