//! One input per failure kind, and the checks that a failed operation
//! changes nothing.

use vending_machine::contract::{execute, instantiate};
use vending_machine::error::ContractError;
use vending_machine::ledger::Treasury;
use vending_machine::msg::{ExecuteMsg, InstantiateMsg, QueryMsg, ReceiveMsg, TreasurySetup};
use vending_machine::query::query;
use vending_machine::state::VendingMachine;

fn b(s: &str) -> Vec<u8> {
    s.as_bytes().to_vec()
}

fn self_issued(admin: &str, cap: u128) -> VendingMachine {
    instantiate(
        b(admin),
        InstantiateMsg { treasury: TreasurySetup::SelfIssued { supply_cap: cap } },
    )
    .unwrap()
}

fn external(admin: &str, token: &str) -> VendingMachine {
    instantiate(
        b(admin),
        InstantiateMsg { treasury: TreasurySetup::External { token_addr: b(token) } },
    )
    .unwrap()
}

fn add(m: &mut VendingMachine, sender: &str, name: &str, amount: u64, price: u128) -> Result<
    vending_machine::msg::Response,
    ContractError,
> {
    execute(m, &b(sender), ExecuteMsg::AddBeverage { name: b(name), amount, price })
}

fn stock_of(m: &VendingMachine, name: &str) -> u64 {
    m.get_beverage(&b(name)).unwrap().amount
}

#[test]
fn unauthorized_management_changes_nothing() {
    let mut m = self_issued("owner", 1000);
    add(&mut m, "owner", "Mocha", 5, 7).unwrap();

    let before = query(&m, QueryMsg::BeverageList { offset: None, limit: None });
    let intruder = b("mallory");
    let attempts = vec![
        ExecuteMsg::AddBeverage { name: b("Latte"), amount: 1, price: 1 },
        ExecuteMsg::SetPrice { name: b("Mocha"), price: 1 },
        ExecuteMsg::FillUpBeverage { name: b("Mocha"), amount: 1 },
        ExecuteMsg::Withdraw { amount: 1 },
        ExecuteMsg::GiveTokens { address: b("mallory"), tokens: 1 },
    ];
    for msg in attempts {
        assert_eq!(execute(&mut m, &intruder, msg), Err(ContractError::Unauthorized));
    }
    let after = query(&m, QueryMsg::BeverageList { offset: None, limit: None });
    assert_eq!(before.beverages.len(), after.beverages.len());
    for (x, y) in before.beverages.iter().zip(after.beverages.iter()) {
        assert_eq!(x.name, y.name);
        assert_eq!(x.amount, y.amount);
        assert_eq!(x.price, y.price);
    }
    match &m.config.treasury {
        Treasury::SelfIssued { balances, total_supply, supply_cap } => {
            assert_eq!(*total_supply, 0);
            assert_eq!(*supply_cap, 1000);
            assert_eq!(balances.balance(&b("mallory")), 0);
        },
        Treasury::External { .. } => panic!("not a self-issued treasury"),
    }
}

#[test]
fn zero_price_and_zero_amount_are_rejected() {
    let mut m = self_issued("owner", 1000);
    assert_eq!(add(&mut m, "owner", "Mocha", 5, 0), Err(ContractError::InvalidZeroPrice));
    add(&mut m, "owner", "Mocha", 5, 7).unwrap();
    assert_eq!(
        execute(&mut m, &b("owner"), ExecuteMsg::SetPrice { name: b("Mocha"), price: 0 }),
        Err(ContractError::InvalidZeroAmount)
    );
    assert_eq!(
        execute(&mut m, &b("owner"), ExecuteMsg::FillUpBeverage { name: b("Mocha"), amount: 0 }),
        Err(ContractError::InvalidZeroAmount)
    );
}

#[test]
fn stock_above_maximum_is_rejected() {
    let mut m = self_issued("owner", 1000);
    assert_eq!(add(&mut m, "owner", "Mocha", 51, 7), Err(ContractError::AmountTooBig));
    add(&mut m, "owner", "Mocha", 50, 7).unwrap();
    assert_eq!(
        execute(&mut m, &b("owner"), ExecuteMsg::FillUpBeverage { name: b("Mocha"), amount: 1 }),
        Err(ContractError::AmountTooBig)
    );
    assert_eq!(stock_of(&m, "Mocha"), 50);

    let mut m2 = self_issued("owner", 1000);
    add(&mut m2, "owner", "Latte", 44, 7).unwrap();
    // 44 + 7 > 50 is refused as a whole, not clamped
    assert_eq!(
        execute(&mut m2, &b("owner"), ExecuteMsg::FillUpBeverage { name: b("Latte"), amount: 7 }),
        Err(ContractError::AmountTooBig)
    );
    assert_eq!(stock_of(&m2, "Latte"), 44);
    execute(&mut m2, &b("owner"), ExecuteMsg::FillUpBeverage { name: b("Latte"), amount: 6 })
        .unwrap();
    assert_eq!(stock_of(&m2, "Latte"), 50);
}

#[test]
fn duplicate_and_missing_names() {
    let mut m = self_issued("owner", 1000);
    add(&mut m, "owner", "Mocha", 5, 7).unwrap();
    assert_eq!(add(&mut m, "owner", "Mocha", 1, 1), Err(ContractError::IsAlreadyInVendingMachine));
    assert_eq!(
        execute(&mut m, &b("owner"), ExecuteMsg::SetPrice { name: b("Latte"), price: 3 }),
        Err(ContractError::BeverageNotFound)
    );
    assert_eq!(
        execute(&mut m, &b("owner"), ExecuteMsg::FillUpBeverage { name: b("Latte"), amount: 3 }),
        Err(ContractError::BeverageNotFound)
    );
    assert_eq!(
        execute(&mut m, &b("anyone"), ExecuteMsg::BuyBeverage { name: b("Latte") }),
        Err(ContractError::BeverageNotFound)
    );
}

#[test]
fn empty_name_is_rejected() {
    let mut m = self_issued("owner", 1000);
    assert_eq!(add(&mut m, "owner", "", 5, 7), Err(ContractError::InvalidName));
}

#[test]
fn purchase_failures() {
    let mut m = self_issued("owner", 1000);
    add(&mut m, "owner", "Mocha", 1, 7).unwrap();
    execute(&mut m, &b("owner"), ExecuteMsg::GiveTokens { address: b("alice"), tokens: 6 })
        .unwrap();
    // 6 < 7: not enough recorded balance
    assert_eq!(
        execute(&mut m, &b("alice"), ExecuteMsg::BuyBeverage { name: b("Mocha") }),
        Err(ContractError::NotEnoughTokens)
    );
    assert_eq!(stock_of(&m, "Mocha"), 1);
    // tendering funds at a self-issued machine is a wrong token
    assert_eq!(
        execute(
            &mut m,
            &b("some_token"),
            ExecuteMsg::Receive {
                sender: b("alice"),
                amount: 100,
                msg: ReceiveMsg::BuyBeverage { name: b("Mocha") },
            },
        ),
        Err(ContractError::WrongToken)
    );
}

#[test]
fn external_purchase_failures() {
    let mut m = external("owner", "coffee_token");
    add(&mut m, "owner", "Mocha", 1, 7).unwrap();
    // wrong token contract
    assert_eq!(
        execute(
            &mut m,
            &b("other_token"),
            ExecuteMsg::Receive {
                sender: b("alice"),
                amount: 100,
                msg: ReceiveMsg::BuyBeverage { name: b("Mocha") },
            },
        ),
        Err(ContractError::WrongToken)
    );
    // no funds tendered at all
    assert_eq!(
        execute(&mut m, &b("alice"), ExecuteMsg::BuyBeverage { name: b("Mocha") }),
        Err(ContractError::WrongToken)
    );
    // tendered less than the price
    assert_eq!(
        execute(
            &mut m,
            &b("coffee_token"),
            ExecuteMsg::Receive {
                sender: b("alice"),
                amount: 6,
                msg: ReceiveMsg::BuyBeverage { name: b("Mocha") },
            },
        ),
        Err(ContractError::NotEnoughTokens)
    );
    assert_eq!(stock_of(&m, "Mocha"), 1);
}

#[test]
fn withdrawal_beyond_holdings_is_rejected() {
    let mut m = external("owner", "coffee_token");
    assert_eq!(
        execute(&mut m, &b("owner"), ExecuteMsg::Withdraw { amount: 1 }),
        Err(ContractError::NotEnoughTokens)
    );
    let mut m2 = self_issued("owner", 1000);
    execute(&mut m2, &b("owner"), ExecuteMsg::GiveTokens { address: b("owner"), tokens: 5 })
        .unwrap();
    assert_eq!(
        execute(&mut m2, &b("owner"), ExecuteMsg::Withdraw { amount: 6 }),
        Err(ContractError::NotEnoughTokens)
    );
    execute(&mut m2, &b("owner"), ExecuteMsg::Withdraw { amount: 5 }).unwrap();
}

#[test]
fn issuing_in_external_mode_is_refused() {
    let mut m = external("owner", "coffee_token");
    assert_eq!(
        execute(&mut m, &b("owner"), ExecuteMsg::GiveTokens { address: b("alice"), tokens: 1 }),
        Err(ContractError::WrongMode)
    );
}

#[test]
fn invalid_recipients_are_rejected() {
    assert_eq!(
        instantiate(
            b("owner"),
            InstantiateMsg { treasury: TreasurySetup::External { token_addr: b("") } },
        )
        .err()
        .unwrap(),
        ContractError::InvalidRecipient
    );
    assert_eq!(
        instantiate(b(""), InstantiateMsg { treasury: TreasurySetup::SelfIssued { supply_cap: 1 } })
            .err()
            .unwrap(),
        ContractError::InvalidRecipient
    );
    let mut m = self_issued("owner", 1000);
    assert_eq!(
        execute(&mut m, &b("owner"), ExecuteMsg::GiveTokens { address: b(""), tokens: 1 }),
        Err(ContractError::InvalidRecipient)
    );
}

#[test]
fn collected_counter_cannot_overflow() {
    let mut m = external("owner", "coffee_token");
    add(&mut m, "owner", "Gold", 2, u128::MAX).unwrap();
    let buy = |m: &mut VendingMachine| {
        execute(
            m,
            &b("coffee_token"),
            ExecuteMsg::Receive {
                sender: b("alice"),
                amount: u128::MAX,
                msg: ReceiveMsg::BuyBeverage { name: b("Gold") },
            },
        )
    };
    buy(&mut m).unwrap();
    match &m.config.treasury {
        Treasury::External { collected, .. } => assert_eq!(*collected, u128::MAX),
        Treasury::SelfIssued { .. } => panic!("not an external treasury"),
    }
    assert_eq!(buy(&mut m), Err(ContractError::Overflow));
    assert_eq!(stock_of(&m, "Gold"), 1);
}

#[test]
fn error_messages_are_stable() {
    assert_eq!(ContractError::Unauthorized.message(), "Unauthorized");
    assert_eq!(ContractError::InvalidZeroAmount.message(), "Invalid zero amount");
    assert_eq!(ContractError::OutOfStock.message(), "Out of stock");
    assert_eq!(ContractError::CannotExceedCap.message(), "Minting cannot exceed the cap");
}
