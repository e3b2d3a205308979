use pi_stellar_nexus::directory::pi_tool::PiTool;
use pi_stellar_nexus::directory::stellar_tool::StellarTool;
use pi_stellar_nexus::json::{find_with, JsonValue};

fn text(s: &str) -> JsonValue {
    JsonValue::Text(s.to_string())
}

fn object(members: Vec<(&str, JsonValue)>) -> JsonValue {
    JsonValue::Object(members.into_iter().map(|(k, v)| (k.to_string(), v)).collect())
}

fn pi_document() -> JsonValue {
    object(vec![
        (
            "pi_assets",
            JsonValue::Array(vec![
                object(vec![("symbol", text("TEST")), ("name", text("Test Coin"))]),
                object(vec![("symbol", text("PI")), ("name", text("Pi Coin"))]),
                object(vec![("symbol", text("PI")), ("name", text("Second"))]),
                object(vec![("symbol", JsonValue::Number("1".to_string()))]),
                text("stray"),
            ]),
        ),
        (
            "pi_network",
            object(vec![
                ("mainnet", object(vec![("api_url", text("https://api.pi.network"))])),
                ("testnet", object(vec![("name", text("no address"))])),
                ("oddnet", object(vec![("api_url", JsonValue::Bool(true))])),
            ]),
        ),
    ])
}

fn stellar_document() -> JsonValue {
    object(vec![
        (
            "stellar_assets",
            JsonValue::Array(vec![object(vec![("code", text("USD")), ("issuer", text("G"))])]),
        ),
        (
            "stellar_network",
            object(vec![(
                "mainnet",
                object(vec![("horizon_url", text("https://horizon.stellar.org"))]),
            )]),
        ),
    ])
}

#[test]
fn pi_test_test_get_asset_info() {
    let pi_tool = PiTool::from_document(pi_document());
    let asset_info = pi_tool.get_asset_info("PI");

    assert!(asset_info.is_some(), "Asset info for 'PI' should be present.");
    let asset_info = asset_info.unwrap();

    assert_eq!(asset_info.get("symbol").unwrap().as_str().unwrap(), "PI");
    // the first of two assets with the same symbol
    assert_eq!(asset_info.get("name").unwrap().as_str().unwrap(), "Pi Coin");
}

#[test]
fn pi_test_test_get_network_info() {
    let pi_tool = PiTool::from_document(pi_document());
    let network_info = pi_tool.get_network_info("mainnet");

    assert!(network_info.is_some(), "Network info for 'mainnet' should be present.");
    let network_info = network_info.unwrap();

    assert_eq!(network_info.get("api_url").unwrap().as_str().unwrap(), "https://api.pi.network");
}

#[test]
fn pi_test_test_get_nonexistent_asset_info() {
    let pi_tool = PiTool::from_document(pi_document());
    let asset_info = pi_tool.get_asset_info("NON_EXISTENT");

    assert!(asset_info.is_none(), "Asset info for 'NON_EXISTENT' should not be present.");
    assert!(pi_tool.get_asset_info("1").is_none());
    assert!(pi_tool.get_asset_info("").is_none());
}

#[test]
fn pi_test_test_get_invalid_network_info() {
    let pi_tool = PiTool::from_document(pi_document());
    let network_info = pi_tool.get_network_info("invalid_network");

    assert!(network_info.is_none(), "Network info for 'invalid_network' should not be present.");
}

#[test]
fn stellar_test_test_get_asset_info() {
    let stellar_tool = StellarTool::from_document(stellar_document());
    let asset_info = stellar_tool.get_asset_info("USD");

    assert!(asset_info.is_some(), "Asset info for 'USD' should be present.");
    let asset_info = asset_info.unwrap();

    assert_eq!(asset_info.get("code").unwrap().as_str().unwrap(), "USD");
}

#[test]
fn stellar_test_test_get_network_info() {
    let stellar_tool = StellarTool::from_document(stellar_document());
    let network_info = stellar_tool.get_network_info("mainnet");

    assert!(network_info.is_some(), "Network info for 'mainnet' should be present.");
    let network_info = network_info.unwrap();

    assert_eq!(
        network_info.get("horizon_url").unwrap().as_str().unwrap(),
        "https://horizon.stellar.org"
    );
}

#[test]
fn stellar_test_test_get_nonexistent_asset_info() {
    let stellar_tool = StellarTool::from_document(stellar_document());
    let asset_info = stellar_tool.get_asset_info("NON_EXISTENT");

    assert!(asset_info.is_none(), "Asset info for 'NON_EXISTENT' should not be present.");
}

#[test]
fn stellar_test_test_get_invalid_network_info() {
    let stellar_tool = StellarTool::from_document(stellar_document());
    let network_info = stellar_tool.get_network_info("invalid_network");

    assert!(network_info.is_none(), "Network info for 'invalid_network' should not be present.");
}

#[test]
fn the_address_of_a_network_is_its_url() {
    let pi_tool = PiTool::from_document(pi_document());
    assert_eq!(pi_tool.api_url("mainnet").unwrap(), "https://api.pi.network");
    assert_eq!(pi_tool.api_url("testnet").unwrap_err(), "API URL not found for network: testnet");
    assert_eq!(pi_tool.api_url("oddnet").unwrap_err(), "API URL not found for network: oddnet");
    assert_eq!(pi_tool.api_url("nonet").unwrap_err(), "API URL not found for network: nonet");
    let stellar_tool = StellarTool::from_document(stellar_document());
    assert_eq!(stellar_tool.horizon_url("mainnet").unwrap(), "https://horizon.stellar.org");
    assert_eq!(
        stellar_tool.horizon_url("testnet").unwrap_err(),
        "Horizon URL not found for network: testnet"
    );
}

#[test]
fn a_document_without_the_tables_knows_nothing() {
    let pi_tool = PiTool::from_document(object(vec![("pi_assets", text("none"))]));
    assert!(pi_tool.get_asset_info("PI").is_none());
    assert!(pi_tool.get_network_info("mainnet").is_none());
    let pi_tool = PiTool::from_document(JsonValue::Null);
    assert!(pi_tool.get_asset_info("PI").is_none());
    assert!(pi_tool.api_url("mainnet").is_err());
}

#[test]
fn members_and_elements_are_found_by_name() {
    let value = object(vec![("a", text("1")), ("b", JsonValue::Null), ("a", text("2"))]);
    assert_eq!(value.get("a").unwrap().as_str(), Some("1"));
    assert!(value.get("b").unwrap().as_str().is_none());
    assert!(value.get("c").is_none());
    assert!(value.member_is("a", "1"));
    assert!(!value.member_is("a", "2"));
    assert!(!value.member_is("b", ""));
    assert!(text("x").get("a").is_none());
    assert!(text("x").as_array().is_none());
    let list = vec![text("x"), object(vec![("k", text("v"))]), object(vec![("k", text("w"))])];
    assert!(find_with(&list, "k", "w").unwrap().member_is("k", "w"));
    assert!(find_with(&list, "k", "x").is_none());
    assert_eq!(JsonValue::Array(list).as_array().unwrap().len(), 3);
}
