//! The description of the pi_tool.rs1: its assets by symbol, its networks by name.

use crate::json::{first_with, find_with, JsonValue};
use crate::text::join2;
use vstd::prelude::*;

verus! {

/// The description of the pi_tool.rs1, as a JSON document.
pub struct PiTool {
    pi_data: JsonValue,
}

/// The elements of the array that is the member called `list` of a
/// document; none where there is no such array.
pub open spec fn listed(document: JsonValue, list: Seq<char>) -> Seq<JsonValue> {
    match document.member(list) {
        Some(value) => match value.elements() {
            Some(elements) => elements,
            None => Seq::empty(),
        },
        None => Seq::empty(),
    }
}

/// The member called `name` of the member called `table` of a document.
pub open spec fn entry(document: JsonValue, table: Seq<char>, name: Seq<char>) -> Option<
    JsonValue,
> {
    match document.member(table) {
        Some(value) => value.member(name),
        None => None,
    }
}

/// The text of the member called `field` of a value that may be missing.
pub open spec fn field_text(value: Option<JsonValue>, field: Seq<char>) -> Option<Seq<char>> {
    match value {
        Some(value) => match value.member(field) {
            Some(member) => member.text(),
            None => None,
        },
        None => None,
    }
}

impl PiTool {
    /// The document.
    pub closed spec fn document(&self) -> JsonValue {
        self.pi_data
    }

    /// The asset with this symbol: the first element of `pi_assets` whose `symbol`
    /// is the given one.
    pub open spec fn asset(&self, symbol: Seq<char>) -> Option<JsonValue> {
        let assets = listed(self.document(), "pi_assets"@);
        first_with(assets, "symbol"@, symbol, assets.len() as int)
    }

    /// The network with this name: the member of `pi_network` that is called so.
    pub open spec fn network(&self, network: Seq<char>) -> Option<JsonValue> {
        entry(self.document(), "pi_network"@, network)
    }

    /// A description that holds the given document.
    pub fn from_document(pi_data: JsonValue) -> (tool: Self)
        ensures
            tool.document() == pi_data,
    {
        PiTool { pi_data }
    }

    /// The asset with this symbol, if the description holds one.
    pub fn get_asset_info(&self, symbol: &str) -> (r: Option<&JsonValue>)
        ensures
            match r {
                Some(asset) => self.asset(symbol@) == Some(*asset),
                None => self.asset(symbol@) is None,
            },
    {
        match self.pi_data.get("pi_assets") {
            Some(assets) => match assets.as_array() {
                Some(assets) => find_with(assets, "symbol", symbol),
                None => None,
            },
            None => None,
        }
    }

    /// The network with this name, if the description holds one.
    pub fn get_network_info(&self, network: &str) -> (r: Option<&JsonValue>)
        ensures
            match r {
                Some(info) => self.network(network@) == Some(*info),
                None => self.network(network@) is None,
            },
    {
        match self.pi_data.get("pi_network") {
            Some(networks) => networks.get(network),
            None => None,
        }
    }

    /// The address at which the network with this name is reached: its
    /// `api_url`. A network without one is an error.
    pub fn api_url(&self, network: &str) -> (r: Result<String, String>)
        ensures
            match field_text(self.network(network@), "api_url"@) {
                Some(url) => r matches Ok(found) && found@ == url,
                None => r matches Err(e) && e@ == "API URL not found for network: "@ + network@,
            },
    {
        let url = match self.get_network_info(network) {
            Some(info) => match info.get("api_url") {
                Some(url) => url.as_str(),
                None => None,
            },
            None => None,
        };
        match url {
            Some(url) => Ok(url.to_string()),
            None => Err(join2("API URL not found for network: ", network)),
        }
    }
}

} // verus!
