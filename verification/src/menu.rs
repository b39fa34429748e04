//! The decisions of the interactive menu: which wallet a typed number picks,
//! and whether an amount may be sent.

use vstd::prelude::*;
use crate::text::same_text;

verus! {

/// An entry of the menu.
#[derive(Debug, Clone, Copy, PartialEq, Eq, Structural)]
pub enum MenuChoice {
    BlockchainInfo,
    WalletInfo,
    SwitchWallet,
    CreateTransaction,
    MineBlock,
    TransactionHistory,
    ValidateBlockchain,
    CreateWallet,
    ExportBlockchain,
    Exit,
    Invalid,
}

/// The entry a typed (trimmed) choice names: `1` to `9`, `0` to leave.
pub open spec fn choice_of(input: Seq<char>) -> MenuChoice {
    if input == "1"@ {
        MenuChoice::BlockchainInfo
    } else if input == "2"@ {
        MenuChoice::WalletInfo
    } else if input == "3"@ {
        MenuChoice::SwitchWallet
    } else if input == "4"@ {
        MenuChoice::CreateTransaction
    } else if input == "5"@ {
        MenuChoice::MineBlock
    } else if input == "6"@ {
        MenuChoice::TransactionHistory
    } else if input == "7"@ {
        MenuChoice::ValidateBlockchain
    } else if input == "8"@ {
        MenuChoice::CreateWallet
    } else if input == "9"@ {
        MenuChoice::ExportBlockchain
    } else if input == "0"@ {
        MenuChoice::Exit
    } else {
        MenuChoice::Invalid
    }
}

/// The menu entry of a typed (trimmed) choice.
pub fn menu_choice(input: &str) -> (c: MenuChoice)
    ensures
        c == choice_of(input@),
{
    if same_text(input, "1") {
        MenuChoice::BlockchainInfo
    } else if same_text(input, "2") {
        MenuChoice::WalletInfo
    } else if same_text(input, "3") {
        MenuChoice::SwitchWallet
    } else if same_text(input, "4") {
        MenuChoice::CreateTransaction
    } else if same_text(input, "5") {
        MenuChoice::MineBlock
    } else if same_text(input, "6") {
        MenuChoice::TransactionHistory
    } else if same_text(input, "7") {
        MenuChoice::ValidateBlockchain
    } else if same_text(input, "8") {
        MenuChoice::CreateWallet
    } else if same_text(input, "9") {
        MenuChoice::ExportBlockchain
    } else if same_text(input, "0") {
        MenuChoice::Exit
    } else {
        MenuChoice::Invalid
    }
}

/// The wallet that a typed number (counted from 1) picks out of `n_wallets`.
pub fn pick_wallet(n_wallets: usize, choice: usize) -> (r: Option<usize>)
    ensures
        r == (if 0 < choice <= n_wallets { Some((choice - 1) as usize) } else { None }),
{
    if choice > 0 && choice <= n_wallets {
        Some(choice - 1)
    } else {
        None
    }
}

/// The receiving wallet that a typed number picks: any wallet but the
/// current one.
pub fn pick_receiver(n_wallets: usize, current: usize, choice: usize) -> (r: Option<usize>)
    ensures
        r == (if 0 < choice <= n_wallets && choice - 1 != current { Some((choice - 1) as usize) } else { None }),
{
    match pick_wallet(n_wallets, choice) {
        Some(i) => if i != current {
            Some(i)
        } else {
            None
        },
        None => None,
    }
}

/// An amount may be sent when it is positive and within the balance.
pub fn amount_sendable(amount: i64, balance: i64) -> (ok: bool)
    ensures
        ok == (0 < amount <= balance),
{
    amount > 0 && amount <= balance
}

} // verus!
