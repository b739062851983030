//! What breaks if a symbol changes, worked out from what rust-analyzer says about a workspace:
//! the references to it split into production code and tests, the items and tests that hold
//! them, and the tools a Model Context Protocol server offers to ask such questions.
pub mod blast;
pub mod blast_fixture;
pub mod json;
pub mod mcp;
pub mod protocol;
pub mod text;

use vstd::prelude::*;
use crate::mcp::tools::{get_tools, tool_listing};
use crate::text::{decimal, decimal_string};

verus! {

/// The version line: the package's version, the revision it was built from, and how many
/// tools it offers.
pub open spec fn version_line(package_version: Seq<char>, revision: Seq<char>, tools: nat) -> Seq<
    char,
> {
    "rust-analyzer-mcp "@ + package_version + " (fork, rev "@ + revision + ", "@ + decimal(tools)
        + " tools)"@
}

/// Which build this is, in a form that says so.
///
/// The fork and the crate it was forked from carry the same version number, so the line also
/// gives the revision and the number of tools, which differ between the two builds; the count
/// cannot drift out of date because it is counted rather than written down.
pub fn version(package_version: &str, revision: &str) -> (r: String)
    ensures
        r@ == version_line(package_version@, revision@, tool_listing().len()),
{
    let tools = get_tools();
    proof {
        assert(crate::mcp::tools::tool_views(tools@).len() == tools@.len());
    }
    let mut line = String::from_str("rust-analyzer-mcp ");
    line.append(package_version);
    line.append(" (fork, rev ");
    line.append(revision);
    line.append(", ");
    line.append(decimal_string(tools.len()).as_str());
    line.append(" tools)");
    line
}

} // verus!
