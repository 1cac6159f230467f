pub mod client;
pub mod edges;
pub mod flow_graph;
pub mod neighborhood;
pub mod nodes;
pub mod queries;
