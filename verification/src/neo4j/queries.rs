//! Cypher queries over the wallet graph.
use vstd::prelude::*;

use crate::text::{concat3, decimal_string, spec_decimal};

verus! {

/// The text of the neighbourhood query before its depth.
pub open spec fn graph_query_head() -> Seq<char> {
    "\n        MATCH path =\n        (a:Wallet)-[*1.."@
}

/// The text of the neighbourhood query after its depth.
pub open spec fn graph_query_tail() -> Seq<char> {
    "]-(b)\n\n        WHERE a.address = $address\n\n        RETURN path\n        LIMIT 500\n        "@
}

/// The paths of up to `depth` hops around the wallet bound to `$address`,
/// at most 500 of them.
pub fn address_graph_query(depth: u32) -> (q: String)
    ensures
        q@ == graph_query_head() + spec_decimal(depth as nat) + graph_query_tail(),
{
    let d = decimal_string(depth as u64);
    concat3(
        "\n        MATCH path =\n        (a:Wallet)-[*1..",
        d.as_str(),
        "]-(b)\n\n        WHERE a.address = $address\n\n        RETURN path\n        LIMIT 500\n        ",
    )
}

} // verus!
