use pi_stellar_nexus::dashboard::mobile_dashboard::MobileDashboard;
use pi_stellar_nexus::education::tutorials::{Tutorial, TutorialManager};
use pi_stellar_nexus::education::webinars::WebinarManager;
use pi_stellar_nexus::smart_contract::contract::MyContract;
use pi_stellar_nexus::tokenization::tokenization::TokenizationManager;
use pi_stellar_nexus::tools::pi_tool::{PiNetwork, PiTool, PiToolImpl};
use pi_stellar_nexus::tools::stellar_tool::{
    conclude_step, StellarProtocol, StellarTool, StellarToolImpl, Step,
};
use std::cell::Cell;

fn is_version_4(id: u128) -> bool {
    id & 0x0000_0000_0000_F000_C000_0000_0000_0000 == 0x0000_0000_0000_4000_8000_0000_0000_0000
}

#[test]
fn test_add_tutorial() {
    let mut manager = TutorialManager::new();
    let tutorial_id = manager.add_tutorial(
        "Rust Basics".to_string(),
        "Learn Rust from scratch.".to_string(),
        "Alice".to_string(),
    );

    let tutorial = manager.get_tutorial(tutorial_id).unwrap();
    assert_eq!(tutorial.title, "Rust Basics");
    assert_eq!(tutorial.content, "Learn Rust from scratch.");
    assert_eq!(tutorial.author, "Alice");
    assert_eq!(tutorial.version, 1);
    assert_eq!(tutorial.id, tutorial_id);
    assert!(is_version_4(tutorial_id));
}

#[test]
fn test_update_tutorial() {
    let mut manager = TutorialManager::new();
    let tutorial_id = manager.add_tutorial(
        "Rust Basics".to_string(),
        "Learn Rust from scratch.".to_string(),
        "Alice".to_string(),
    );

    manager.update_tutorial(tutorial_id, Some("Advanced Rust".to_string()), None).unwrap();
    let tutorial = manager.get_tutorial(tutorial_id).unwrap();
    assert_eq!(tutorial.title, "Advanced Rust");
    assert_eq!(tutorial.content, "Learn Rust from scratch.");
    assert_eq!(tutorial.version, 2);

    manager.update_tutorial(tutorial_id, None, Some("More.".to_string())).unwrap();
    manager.update_tutorial(tutorial_id, None, None).unwrap();
    let tutorial = manager.get_tutorial(tutorial_id).unwrap();
    assert_eq!(tutorial.title, "Advanced Rust");
    assert_eq!(tutorial.content, "More.");
    assert_eq!(tutorial.version, 4);
}

#[test]
fn test_search_tutorials() {
    let mut manager = TutorialManager::new();
    manager.add_tutorial(
        "Rust Basics".to_string(),
        "Learn Rust from scratch.".to_string(),
        "Alice".to_string(),
    );
    manager.add_tutorial(
        "Advanced Rust".to_string(),
        "Deep dive into Rust.".to_string(),
        "Bob".to_string(),
    );

    let results = manager.search_tutorials("Rust");
    assert_eq!(results.len(), 2);
    assert_eq!(results[0].title, "Rust Basics");
    assert_eq!(results[1].title, "Advanced Rust");

    let results_by_author = manager.search_tutorials("Alice");
    assert_eq!(results_by_author.len(), 1);
    assert_eq!(results_by_author[0].author, "Alice");

    assert_eq!(manager.search_tutorials("").len(), 2);
    assert_eq!(manager.search_tutorials("scratch").len(), 0);
    assert_eq!(manager.search_tutorials("rust").len(), 0);
    assert_eq!(manager.list_tutorials().len(), 2);
}

#[test]
fn test_update_nonexistent_tutorial() {
    let mut manager = TutorialManager::new();
    let result = manager.update_tutorial(7, Some("New Title".to_string()), None);
    assert!(result.is_err());
    assert_eq!(result.err().unwrap(), "Tutorial not found.");
}

#[test]
fn a_tutorial_is_filed_under_its_id() {
    let mut manager = TutorialManager::new();
    let tutorial = |id: u128, title: &str| Tutorial {
        id,
        title: title.to_string(),
        content: String::new(),
        author: "A".to_string(),
        version: 3,
    };
    manager.put_tutorial(tutorial(5, "five"));
    manager.put_tutorial(tutorial(6, "six"));
    manager.put_tutorial(tutorial(5, "cinq"));
    let list = manager.list_tutorials();
    assert_eq!(list.len(), 2);
    assert_eq!(list[0].title, "cinq");
    assert_eq!(list[0].version, 3);
    assert_eq!(list[1].title, "six");
    assert!(manager.get_tutorial(7).is_none());
}

#[test]
fn webinars_test_add_webinar() {
    let mut manager = WebinarManager::new();
    let webinar_id = manager.add_webinar(
        "Test Webinar".to_string(),
        "Testing the add_webinar function.".to_string(),
        "Test Presenter".to_string(),
        "2023-10-20".to_string(),
    );

    let webinar = manager.get_webinar(webinar_id).unwrap();
    assert_eq!(webinar.title, "Test Webinar");
    assert_eq!(webinar.description, "Testing the add_webinar function.");
    assert_eq!(webinar.presenter, "Test Presenter");
    assert_eq!(webinar.date, "2023-10-20");
    assert!(!webinar.is_completed);
    assert!(is_version_4(webinar_id));
}

#[test]
fn test_complete_webinar() {
    let mut manager = WebinarManager::new();
    let webinar_id = manager.add_webinar(
        "Rust".to_string(),
        "About Rust.".to_string(),
        "Alice".to_string(),
        "2023-10-20".to_string(),
    );
    manager.complete_webinar(webinar_id).unwrap();
    assert!(manager.get_webinar(webinar_id).unwrap().is_completed);
    manager.complete_webinar(webinar_id).unwrap();
    assert!(manager.get_webinar(webinar_id).unwrap().is_completed);
}

#[test]
fn test_complete_nonexistent_webinar() {
    let mut manager = WebinarManager::new();
    let result = manager.complete_webinar(1);
    assert_eq!(result.err().unwrap(), "Webinar not found.");
}

#[test]
fn test_search_webinars() {
    let mut manager = WebinarManager::new();
    manager.add_webinar(
        "Rust Basics".to_string(),
        "Intro".to_string(),
        "Alice".to_string(),
        "2023-10-20".to_string(),
    );
    manager.add_webinar(
        "Verification".to_string(),
        "Rust inside".to_string(),
        "Bob".to_string(),
        "2023-10-21".to_string(),
    );
    assert_eq!(manager.search_webinars("Rust").len(), 1);
    assert_eq!(manager.search_webinars("Bob")[0].title, "Verification");
    assert_eq!(manager.search_webinars("2023").len(), 0);
    assert_eq!(manager.list_webinars().len(), 2);
    assert_eq!(manager.list_webinars()[0].presenter, "Alice");
}

#[test]
fn test_get_nonexistent_webinar() {
    let manager = WebinarManager::new();
    assert!(manager.get_webinar(12345).is_none());
}

#[test]
fn test_create_asset() {
    let mut manager = TokenizationManager::new();
    let asset_id = manager.create_asset("Gold".to_string(), 150_000);
    let asset = manager.get_asset(asset_id).unwrap();
    assert_eq!(asset.name, "Gold");
    assert_eq!(asset.value, 150_000);
    assert!(is_version_4(asset_id));
}

#[test]
fn test_create_token() {
    let mut manager = TokenizationManager::new();
    let asset_id = manager.create_asset("Gold".to_string(), 150_000);
    let token_id = manager.create_token(asset_id, "Alice".to_string(), 1_000).unwrap();
    let token = manager.get_token(token_id).unwrap();
    assert_eq!(token.asset_id, asset_id);
    assert_eq!(token.owner, "Alice");
    assert_eq!(token.amount, 1_000);
}

#[test]
fn test_create_token_for_nonexistent_asset() {
    let mut manager = TokenizationManager::new();
    let result = manager.create_token(42, "Alice".to_string(), 1_000);
    assert_eq!(result.unwrap_err(), "Asset does not exist.");
    // the asset is looked for before the amount is looked at
    let result = manager.create_token(42, "Alice".to_string(), 0);
    assert_eq!(result.unwrap_err(), "Asset does not exist.");
    assert!(manager.list_tokens().is_empty());
}

#[test]
fn test_create_token_with_zero_amount() {
    let mut manager = TokenizationManager::new();
    let asset_id = manager.create_asset("Gold".to_string(), 150_000);
    let result = manager.create_token(asset_id, "Alice".to_string(), 0);
    assert_eq!(result.unwrap_err(), "Token amount must be greater than zero.");
    let result = manager.create_token(asset_id, "Alice".to_string(), -5);
    assert_eq!(result.unwrap_err(), "Token amount must be greater than zero.");
    assert!(manager.create_token(asset_id, "Alice".to_string(), 1).is_ok());
}

#[test]
fn test_transfer_token() {
    let mut manager = TokenizationManager::new();
    let asset_id = manager.create_asset("Gold".to_string(), 150_000);
    let token_id = manager.create_token(asset_id, "Alice".to_string(), 1_000).unwrap();
    manager.transfer_token(token_id, "Bob".to_string()).unwrap();
    let token = manager.get_token(token_id).unwrap();
    assert_eq!(token.owner, "Bob");
    assert_eq!(token.amount, 1_000);
}

#[test]
fn test_transfer_nonexistent_token() {
    let mut manager = TokenizationManager::new();
    let result = manager.transfer_token(9, "Bob".to_string());
    assert_eq!(result.unwrap_err(), "Token does not exist.");
}

#[test]
fn test_transfer_token_to_same_owner() {
    let mut manager = TokenizationManager::new();
    let asset_id = manager.create_asset("Gold".to_string(), 150_000);
    let token_id = manager.create_token(asset_id, "Alice".to_string(), 1_000).unwrap();
    let result = manager.transfer_token(token_id, "Alice".to_string());
    assert_eq!(result.unwrap_err(), "New owner must be different from the current owner.");
    assert_eq!(manager.get_token(token_id).unwrap().owner, "Alice");
}

#[test]
fn test_get_nonexistent_asset() {
    let manager = TokenizationManager::new();
    assert!(manager.get_asset(1).is_none());
}

#[test]
fn test_get_nonexistent_token() {
    let manager = TokenizationManager::new();
    assert!(manager.get_token(1).is_none());
}

#[test]
fn assets_and_tokens_are_listed_in_order() {
    let mut manager = TokenizationManager::new();
    manager.create_asset_with_id(2, "Gold".to_string(), 10);
    manager.create_asset_with_id(1, "Silver".to_string(), 5);
    manager.create_asset_with_id(2, "Platinum".to_string(), 20);
    let assets = manager.list_assets();
    assert_eq!(assets.len(), 2);
    assert_eq!(assets[0].name, "Platinum");
    assert_eq!(assets[1].name, "Silver");
    assert_eq!(manager.create_token_with_id(7, 1, "A".to_string(), 3), Ok(7));
    assert_eq!(manager.create_token_with_id(8, 2, "B".to_string(), 4), Ok(8));
    let tokens = manager.list_tokens();
    assert_eq!(tokens.len(), 2);
    assert_eq!(tokens[0].owner, "A");
    assert_eq!(tokens[1].asset_id, 2);
}

#[test]
fn contract_tests_test_transfer() {
    let alice = [1u8; 32];
    let bob = [2u8; 32];
    let mut contract = MyContract::new(alice);
    contract.set_balance(alice, 100);
    contract.set_balance(bob, 0);

    assert_eq!(contract.transfer(alice, bob, 50), Ok(()));
    assert_eq!(contract.balance_of(alice), 50);
    assert_eq!(contract.balance_of(bob), 50);
    assert_eq!(contract.owner(), alice);
}

#[test]
fn test_insufficient_balance() {
    let alice = [1u8; 32];
    let bob = [2u8; 32];
    let mut contract = MyContract::new(alice);
    contract.set_balance(alice, 10);
    contract.set_balance(bob, 0);

    assert_eq!(contract.transfer(alice, bob, 20), Err("Insufficient balance"));
    assert_eq!(contract.balance_of(alice), 10);
    assert_eq!(contract.balance_of(bob), 0);
}

#[test]
fn a_transfer_to_oneself_keeps_the_balance() {
    let alice = [1u8; 32];
    let mut contract = MyContract::new(alice);
    contract.set_balance(alice, u128::MAX);
    assert_eq!(contract.transfer(alice, alice, u128::MAX), Ok(()));
    assert_eq!(contract.balance_of(alice), u128::MAX);
    assert_eq!(contract.transfer([3u8; 32], alice, 0), Ok(()));
    assert_eq!(contract.balance_of([3u8; 32]), 0);
}

#[test]
fn the_dashboard_words_its_lines() {
    let dashboard = MobileDashboard::new();
    assert_eq!(dashboard.update_user_count(42), "User  Count: 42");
    assert_eq!(dashboard.display_user_count(0), "User  Count: 0");
    assert_eq!(dashboard.display_user_count(u32::MAX), "User  Count: 4294967295");
    assert_eq!(dashboard.show_welcome_message(), "Welcome to the Mobile Dashboard!");
}

struct Line {
    connect: Result<(), String>,
    send: Result<(), String>,
    receive: Result<Vec<u8>, String>,
}

fn good_line() -> Line {
    Line { connect: Ok(()), send: Ok(()), receive: Ok(vec![1, 2, 3]) }
}

impl PiNetwork for Line {
    fn connect(&self) -> Result<(), String> {
        self.connect.clone()
    }
    fn send_data(&self, _data: Vec<u8>) -> Result<(), String> {
        self.send.clone()
    }
    fn receive_data(&self) -> Result<Vec<u8>, String> {
        self.receive.clone()
    }
}

impl StellarProtocol for Line {
    fn connect(&self) -> Result<(), String> {
        self.connect.clone()
    }
    fn send_data(&self, _data: Vec<u8>) -> Result<(), String> {
        self.send.clone()
    }
    fn receive_data(&self) -> Result<Vec<u8>, String> {
        self.receive.clone()
    }
}

#[test]
fn the_pi_tool_refuses_empty_data_and_passes_errors_on() {
    let tool = PiToolImpl::new(good_line());
    assert_eq!(tool.perform_pi_operation(vec![1]), Ok(()));
    assert_eq!(tool.perform_pi_operation(vec![]).unwrap_err(), "Data cannot be empty.");
    assert_eq!(tool.validate_data(&vec![]).unwrap_err(), "Data cannot be empty.");
    assert!(tool.validate_data(&vec![0]).is_ok());
    assert_eq!(tool.log_operation("Pi operation performed"), "Operation logged: Pi operation performed");

    let tool = PiToolImpl::new(Line { connect: Err("down".to_string()), ..good_line() });
    assert_eq!(tool.perform_pi_operation(vec![1]).unwrap_err(), "down");
    assert_eq!(tool.perform_pi_operation(vec![]).unwrap_err(), "Data cannot be empty.");
    let tool = PiToolImpl::new(Line { send: Err("full".to_string()), ..good_line() });
    assert_eq!(tool.perform_pi_operation(vec![1]).unwrap_err(), "full");
    let tool = <PiToolImpl<Line> as PiTool<Line>>::new(Line {
        receive: Err("mute".to_string()),
        ..good_line()
    });
    assert_eq!(tool.perform_pi_operation(vec![1]).unwrap_err(), "mute");
}

#[test]
fn the_stellar_tool_names_the_step_that_failed() {
    let tool = StellarToolImpl::new(good_line());
    assert_eq!(tool.perform_stellar_operation(vec![1, 2, 3]), Ok(()));
    assert_eq!(tool.perform_stellar_operation(vec![]), Ok(()));

    let tool = StellarToolImpl::new(Line { connect: Err("down".to_string()), ..good_line() });
    assert_eq!(tool.perform_stellar_operation(vec![1]).unwrap_err(), "Failed to connect: down");
    let tool = StellarToolImpl::new(Line { send: Err("full".to_string()), ..good_line() });
    assert_eq!(tool.perform_stellar_operation(vec![1]).unwrap_err(), "Failed to send data: full");
    let tool = <StellarToolImpl<Line> as StellarTool<Line>>::new(Line {
        receive: Err("mute".to_string()),
        ..good_line()
    });
    assert_eq!(
        tool.perform_stellar_operation(vec![1]).unwrap_err(),
        "Failed to receive data: mute"
    );
}

#[test]
fn integration_tests_test_add_webinar() {
    let mut manager = WebinarManager::new();
    let webinar_id = manager.add_webinar(
        "Test Webinar".to_string(),
        "Testing the add_webinar function.".to_string(),
        "Test Presenter".to_string(),
        "2023-10-20".to_string(),
    );

    assert!(manager.get_webinar(webinar_id).is_some());
}

#[test]
fn test_get_webinar() {
    let mut manager = WebinarManager::new();
    let webinar_id = manager.add_webinar(
        "Another Test Webinar".to_string(),
        "Testing retrieval of a webinar.".to_string(),
        "Another Presenter".to_string(),
        "2023-10-21".to_string(),
    );

    let webinar = manager.get_webinar(webinar_id).unwrap();
    assert_eq!(webinar.title, "Another Test Webinar");
    assert_eq!(webinar.presenter, "Another Presenter");
}

#[test]
fn test_list_webinars() {
    let mut manager = WebinarManager::new();
    manager.add_webinar(
        "Webinar 1".to_string(),
        "Description 1".to_string(),
        "Presenter 1".to_string(),
        "2023-10-22".to_string(),
    );
    manager.add_webinar(
        "Webinar 2".to_string(),
        "Description 2".to_string(),
        "Presenter 2".to_string(),
        "2023-10-23".to_string(),
    );

    let webinars = manager.list_webinars();
    assert_eq!(webinars.len(), 2);
}

#[test]
fn test_add_duplicate_webinar() {
    let mut manager = WebinarManager::new();
    let webinar_id = manager.add_webinar(
        "Duplicate Webinar".to_string(),
        "Testing duplicate webinar addition.".to_string(),
        "Duplicate Presenter".to_string(),
        "2023-10-24".to_string(),
    );

    let duplicate_id = manager.add_webinar(
        "Duplicate Webinar".to_string(),
        "Testing duplicate webinar addition.".to_string(),
        "Duplicate Presenter".to_string(),
        "2023-10-24".to_string(),
    );

    assert_ne!(webinar_id, duplicate_id);
    assert_eq!(manager.list_webinars().len(), 2);
}

#[test]
fn test_performance_add_webinars() {
    let mut manager = WebinarManager::new();
    let start_time = std::time::Instant::now();

    for i in 0..1000 {
        manager.add_webinar(
            format!("Webinar {}", i),
            "Performance testing webinar addition.".to_string(),
            "Performance Presenter".to_string(),
            "2023-10-24".to_string(),
        );
    }

    let duration = start_time.elapsed();
    assert!(duration.as_secs() < 2, "Adding 1000 webinars took too long: {:?}", duration);
}

#[test]
fn test_performance_list_webinars() {
    let mut manager = WebinarManager::new();
    for i in 0..1000 {
        manager.add_webinar(
            format!("Webinar {}", i),
            "Testing listing performance.".to_string(),
            "List Presenter".to_string(),
            "2023-10-25".to_string(),
        );
    }

    let start_time = std::time::Instant::now();
    let webinars = manager.list_webinars();
    let duration = start_time.elapsed();
    assert_eq!(webinars.len(), 1000);
    assert!(duration.as_secs() < 1, "Listing 1000 webinars took too long: {:?}", duration);
}

#[test]
fn test_performance_add_large_number_of_webinars() {
    let mut manager = WebinarManager::new();
    let num_webinars = 5000;
    let start_time = std::time::Instant::now();

    for i in 0..num_webinars {
        manager.add_webinar(
            format!("Webinar {}", i),
            "Performance testing large number of webinar additions.".to_string(),
            "Large Number Presenter".to_string(),
            "2023-10-26".to_string(),
        );
    }

    let duration = start_time.elapsed();
    assert!(
        duration.as_secs() < 5,
        "Adding {} webinars took too long: {:?}",
        num_webinars,
        duration
    );
}

#[test]
fn a_step_ends_the_operation_or_lets_it_go_on() {
    assert_eq!(conclude_step(Step::Connect, Ok(())), None);
    assert_eq!(conclude_step(Step::Send, Ok(())), None);
    assert_eq!(conclude_step(Step::Receive, Ok(())), Some(Ok(())));
    assert_eq!(
        conclude_step(Step::Connect, Err("down".to_string())),
        Some(Err("Failed to connect: down".to_string()))
    );
    assert_eq!(
        conclude_step(Step::Send, Err("full".to_string())),
        Some(Err("Failed to send data: full".to_string()))
    );
    assert_eq!(
        conclude_step(Step::Receive, Err(String::new())),
        Some(Err("Failed to receive data: ".to_string()))
    );
}

struct Counting {
    connects: Cell<u32>,
    sends: Cell<u32>,
    receives: Cell<u32>,
    fail_send: bool,
}

fn counting(fail_send: bool) -> Counting {
    Counting { connects: Cell::new(0), sends: Cell::new(0), receives: Cell::new(0), fail_send }
}

impl StellarProtocol for &Counting {
    fn connect(&self) -> Result<(), String> {
        self.connects.set(self.connects.get() + 1);
        Ok(())
    }
    fn send_data(&self, data: Vec<u8>) -> Result<(), String> {
        self.sends.set(self.sends.get() + data.len() as u32);
        if self.fail_send {
            Err("full".to_string())
        } else {
            Ok(())
        }
    }
    fn receive_data(&self) -> Result<Vec<u8>, String> {
        self.receives.set(self.receives.get() + 1);
        Ok(vec![])
    }
}

#[test]
fn a_step_that_is_not_reached_is_not_taken() {
    let line = counting(true);
    let tool = StellarToolImpl::new(&line);
    assert_eq!(
        tool.perform_stellar_operation(vec![1, 2, 3]).unwrap_err(),
        "Failed to send data: full"
    );
    assert_eq!((line.connects.get(), line.sends.get(), line.receives.get()), (1, 3, 0));
    let line = counting(false);
    let tool = StellarToolImpl::new(&line);
    assert_eq!(tool.perform_stellar_operation(vec![1, 2]), Ok(()));
    assert_eq!((line.connects.get(), line.sends.get(), line.receives.get()), (1, 2, 1));
}
