//! Accounts: a name and the postings that touch it.

use vstd::prelude::*;
use vstd::string::StringExecFns;
use crate::journal::PostIndex;

verus! {

/// What an account stands for.
pub struct AccountView {
    pub name: Seq<char>,
    pub posts: Seq<PostIndex>,
}

/// An account. Its name is one flat string: a separator such as `:` has
/// no meaning here. `post_indices` points back at the postings made to
/// the account, in the order in which they were read.
#[derive(Debug)]
pub struct Account {
    pub name: String,
    pub post_indices: Vec<PostIndex>,
}

impl View for Account {
    type V = AccountView;

    open spec fn view(&self) -> AccountView {
        AccountView { name: self.name@, posts: self.post_indices@ }
    }
}

impl Account {
    /// The account of the given name, with no postings yet.
    pub fn new(name: &str) -> (res: Account)
        ensures
            res@ == (AccountView { name: name@, posts: Seq::empty() }),
    {
        Account { name: String::from_str(name), post_indices: Vec::new() }
    }

    /// The account that a token names: the token as it stands is the
    /// name.
    pub fn parse(token: &str) -> (res: Account)
        ensures
            res@ == (AccountView { name: token@, posts: Seq::empty() }),
    {
        Account::new(token)
    }
}

} // verus!
