//! The configured accounts.

use vstd::prelude::*;

verus! {

/// One configured OAuth2 client. An account is never changed once it is built.
pub struct Account {
    pub name: String,
    pub auth_uri: String,
    pub client_id: String,
    pub client_secret: String,
    pub redirect_uri: String,
    pub scopes: Vec<String>,
    pub token_uri: String,
}

/// The content of an [`Account`].
pub struct AccountView {
    pub name: Seq<char>,
    pub auth_uri: Seq<char>,
    pub client_id: Seq<char>,
    pub client_secret: Seq<char>,
    pub redirect_uri: Seq<char>,
    pub scopes: Seq<Seq<char>>,
    pub token_uri: Seq<char>,
}

impl View for Account {
    type V = AccountView;

    open spec fn view(&self) -> AccountView {
        AccountView {
            name: self.name@,
            auth_uri: self.auth_uri@,
            client_id: self.client_id@,
            client_secret: self.client_secret@,
            redirect_uri: self.redirect_uri@,
            scopes: Seq::new(self.scopes@.len(), |i: int| self.scopes@[i]@),
            token_uri: self.token_uri@,
        }
    }
}

impl Account {
    pub fn new(
        name: String,
        auth_uri: String,
        client_id: String,
        client_secret: String,
        redirect_uri: String,
        scopes: Vec<String>,
        token_uri: String,
    ) -> (act: Account)
        ensures
            act.name == name,
            act.auth_uri == auth_uri,
            act.client_id == client_id,
            act.client_secret == client_secret,
            act.redirect_uri == redirect_uri,
            act.scopes == scopes,
            act.token_uri == token_uri,
    {
        Account { name, auth_uri, client_id, client_secret, redirect_uri, scopes, token_uri }
    }

    /// Structural equality: every field of the two accounts holds the same text.
    pub fn same_content(&self, other: &Account) -> (same: bool)
        ensures
            same == (self@ == other@),
    {
        if !(self.name == other.name && self.auth_uri == other.auth_uri && self.client_id
            == other.client_id && self.client_secret == other.client_secret && self.redirect_uri
            == other.redirect_uri && self.token_uri == other.token_uri) {
            return false;
        }
        if self.scopes.len() != other.scopes.len() {
            assert(self@.scopes.len() != other@.scopes.len());
            return false;
        }
        let mut i: usize = 0;
        while i < self.scopes.len()
            invariant
                i <= self.scopes.len(),
                self.scopes.len() == other.scopes.len(),
                forall|k: int| 0 <= k < i ==> self.scopes@[k]@ == other.scopes@[k]@,
            decreases self.scopes.len() - i,
        {
            if self.scopes[i] != other.scopes[i] {
                assert(self@.scopes[i as int] != other@.scopes[i as int]);
                return false;
            }
            i += 1;
        }
        assert(self@.scopes =~= other@.scopes);
        true
    }
}

impl PartialEq for Account {
    /// Two accounts are equal where their contents are.
    fn eq(&self, other: &Account) -> (same: bool) {
        self.same_content(other)
    }
}

impl vstd::std_specs::cmp::PartialEqSpecImpl for Account {
    open spec fn obeys_eq_spec() -> bool {
        true
    }

    open spec fn eq_spec(&self, other: &Account) -> bool {
        self@ == other@
    }
}

/// The content of each of `accounts`, in their order.
pub open spec fn contents(accounts: Seq<Account>) -> Seq<AccountView> {
    Seq::new(accounts.len(), |i: int| accounts[i]@)
}

/// The names of `accounts`, as a set.
pub open spec fn names_of(accounts: Seq<AccountView>) -> Set<Seq<char>> {
    Set::new(|name: Seq<char>| has_name(accounts, name))
}

/// Whether one of `accounts` is called `name`.
pub open spec fn has_name(accounts: Seq<AccountView>, name: Seq<char>) -> bool {
    exists|i: int| 0 <= i < accounts.len() && #[trigger] accounts[i].name == name
}

/// Whether no two of `accounts` share a name.
pub open spec fn names_distinct(accounts: Seq<AccountView>) -> bool {
    forall|i: int, j: int|
        0 <= i < accounts.len() && 0 <= j < accounts.len() && i != j ==> #[trigger] accounts[i].name
            != #[trigger] accounts[j].name
}

/// Where the account called `name` stands in `accounts`.
pub open spec fn position_of(accounts: Seq<AccountView>, name: Seq<char>) -> int {
    choose|i: int| 0 <= i < accounts.len() && #[trigger] accounts[i].name == name
}

/// The account called `name`.
pub open spec fn account_named(accounts: Seq<AccountView>, name: Seq<char>) -> AccountView {
    accounts[position_of(accounts, name)]
}

/// With distinct names, the account called `accounts[i].name` is `accounts[i]`.
pub proof fn lemma_position_of(accounts: Seq<AccountView>, i: int)
    requires
        names_distinct(accounts),
        0 <= i < accounts.len(),
    ensures
        has_name(accounts, accounts[i].name),
        position_of(accounts, accounts[i].name) == i,
        account_named(accounts, accounts[i].name) == accounts[i],
{
}

/// A configuration: accounts in a fixed order, no two of them with the same name.
pub struct Config {
    accounts: Vec<Account>,
}

impl View for Config {
    type V = Seq<AccountView>;

    closed spec fn view(&self) -> Seq<AccountView> {
        contents(self.accounts@)
    }
}

impl Config {
    /// Every configuration that [`Config::new`] hands out is well formed.
    pub open spec fn wf(&self) -> bool {
        names_distinct(self@)
    }

    /// A configuration of `accounts`, or `None` where two of them share a name.
    pub fn new(accounts: Vec<Account>) -> (conf: Option<Config>)
        ensures
            conf is Some <==> names_distinct(contents(accounts@)),
            conf matches Some(c) ==> c.wf() && c@ == contents(accounts@) && c.accounts() == accounts,
    {
        let ghost views = contents(accounts@);
        let mut i: usize = 0;
        while i < accounts.len()
            invariant
                i <= accounts.len(),
                views == contents(accounts@),
                forall|a: int, b: int|
                    0 <= a < i && 0 <= b < a ==> #[trigger] views[a].name != #[trigger] views[b].name,
            decreases accounts.len() - i,
        {
            let mut j: usize = 0;
            while j < i
                invariant
                    j <= i < accounts.len(),
                    views == contents(accounts@),
                    forall|b: int| 0 <= b < j ==> #[trigger] views[b].name != views[i as int].name,
                decreases i - j,
            {
                if accounts[j].name == accounts[i].name {
                    assert(views[j as int].name == views[i as int].name);
                    return None;
                }
                j += 1;
            }
            i += 1;
        }
        assert forall|a: int, b: int|
            0 <= a < views.len() && 0 <= b < views.len() && a != b implies #[trigger] views[a].name
            != #[trigger] views[b].name by {
            // The loop has compared each account with those before it.
            assert(a < b || b < a);
        }
        Some(Config { accounts })
    }

    /// The accounts that make up this configuration.
    pub closed spec fn accounts(&self) -> Vec<Account> {
        self.accounts
    }

    /// The accounts, in the order of the configuration.
    pub fn accounts_in_order(&self) -> (accounts: &Vec<Account>)
        ensures
            *accounts == self.accounts(),
            contents(accounts@) == self@,
    {
        &self.accounts
    }
}

} // verus!
