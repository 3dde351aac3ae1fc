//! The daemon's central state. Every configured [`Account`] has a [`TokenState`] and the other
//! way round, and the configuration may be replaced at any moment, so nothing outside this
//! module reaches either directly. A caller asks the [`AuthenticatorState`] for a [`CTGuard`],
//! and the guard for a [`CTGuardAccountId`], which stands for one account as it was when the
//! identifier was issued. An identifier is good for reading and writing token state only
//! under the guard that issued it; under a later guard it has to be validated again, and that
//! fails once the account or its token state has moved on.

use crate::config::{
    account_named, contents, has_name, lemma_position_of, names_distinct, names_of,
};
use crate::config::{Account, AccountView, Config};
use crate::server::STATE_LEN;
use crate::text::bytes_eq;
use std::time::Instant;
use url::Url;
use vstd::hash_map::StringHashMap;
use vstd::prelude::*;

verus! {

/// A parsed URL of the `url` crate. Values are carried, never looked into.
#[verifier::external_type_specification]
#[verifier::external_body]
pub struct ExUrl(Url);

/// A point in time of the standard library. Values are carried, never looked into.
#[verifier::external_type_specification]
#[verifier::external_body]
pub struct ExInstant(Instant);

/// `Url::clone`, which the `url` crate derives: the copy is the same URL.
pub assume_specification[ <Url as Clone>::clone ](url: &Url) -> (copy: Url)
    ensures
        copy == *url,
;

/// Where one account stands in its authentication.
#[derive(Debug)]
pub enum TokenState {
    /// Authentication is neither pending nor active.
    Empty,
    /// The user has been asked to authorise; `state` is the nonce that the callback must
    /// bring back.
    Pending { last_notification: Option<Instant>, state: [u8; STATE_LEN], url: Url },
    /// There is a usable token, and possibly a refresh token too.
    Active {
        access_token: String,
        refreshed_at: Instant,
        /// When the last ongoing or unsuccessful refresh was started.
        last_refresh_attempt: Option<Instant>,
        expiry: Instant,
        refresh_token: Option<String>,
    },
}

impl Clone for TokenState {
    fn clone(&self) -> (copy: Self)
        ensures
            copy == *self,
    {
        match self {
            TokenState::Empty => TokenState::Empty,
            TokenState::Pending { last_notification, state, url } => TokenState::Pending {
                last_notification: *last_notification,
                state: *state,
                url: url.clone(),
            },
            TokenState::Active {
                access_token,
                refreshed_at,
                last_refresh_attempt,
                expiry,
                refresh_token,
            } => TokenState::Active {
                access_token: access_token.clone(),
                refreshed_at: *refreshed_at,
                last_refresh_attempt: *last_refresh_attempt,
                expiry: *expiry,
                refresh_token: match refresh_token {
                    Some(token) => Some(token.clone()),
                    None => None,
                },
            },
        }
    }
}

impl TokenState {
    /// Whether authorisation is pending under the nonce `nonce`.
    pub open spec fn pending_with(&self, nonce: Seq<u8>) -> bool {
        self matches TokenState::Pending { state, .. } && state@ == nonce
    }

    /// Whether authorisation is pending under the nonce `nonce`.
    pub fn is_pending_with(&self, nonce: &[u8]) -> (pending: bool)
        ensures
            pending == self.pending_with(nonce@),
    {
        match self {
            TokenState::Pending { state, .. } => bytes_eq(state.as_slice(), nonce),
            _ => false,
        }
    }
}

/// A [`TokenState`] with the number of times it has been replaced.
#[derive(Debug)]
pub struct TokenStateVersion {
    pub version: u128,
    pub tokenstate: TokenState,
}

/// What a [`TokenStateVersion`] stands for; the version is a counter without a bound.
pub struct Entry {
    pub version: nat,
    pub tokenstate: TokenState,
}

impl View for TokenStateVersion {
    type V = Entry;

    open spec fn view(&self) -> Entry {
        Entry { version: self.version as nat, tokenstate: self.tokenstate }
    }
}

impl Clone for TokenStateVersion {
    fn clone(&self) -> (copy: Self)
        ensures
            copy == *self,
    {
        TokenStateVersion { version: self.version, tokenstate: self.tokenstate.clone() }
    }
}

/// The entry that an account starts with.
pub open spec fn fresh_entry() -> Entry {
    Entry { version: 0, tokenstate: TokenState::Empty }
}

/// The configuration and the token states, as one value.
pub struct StateView {
    /// The accounts, in the order of the configuration.
    pub accounts: Seq<AccountView>,
    /// The token state and version of each account, by name.
    pub tokens: Map<Seq<char>, Entry>,
    /// How many configurations have been put in place of an earlier one. Each configuration
    /// brings its own instances of its accounts, so a name and a generation name one
    /// instance.
    pub generation: nat,
    /// How many guards have been handed out.
    pub session: nat,
}

impl StateView {
    /// No two accounts share a name, and the names with a token state are exactly the names
    /// of the configuration.
    pub open spec fn inv(self) -> bool {
        &&& names_distinct(self.accounts)
        &&& self.tokens.dom() == names_of(self.accounts)
    }

    /// The state that a daemon starts in with the configuration `accounts`.
    pub open spec fn initial(accounts: Seq<AccountView>) -> StateView {
        StateView {
            accounts,
            tokens: Map::new(|name: Seq<char>| has_name(accounts, name), |name: Seq<char>| fresh_entry()),
            generation: 0,
            session: 0,
        }
    }

    /// The entry of `name` once `accounts` has replaced the configuration. An account that
    /// was there before with the same content keeps its entry; one whose content differs
    /// goes back to `Empty` and its version goes up by one; one that was not there starts
    /// afresh.
    pub open spec fn reload_entry(self, accounts: Seq<AccountView>, name: Seq<char>) -> Entry {
        if has_name(self.accounts, name) {
            if account_named(self.accounts, name) == account_named(accounts, name) {
                self.tokens[name]
            } else {
                Entry { version: self.tokens[name].version + 1, tokenstate: TokenState::Empty }
            }
        } else {
            fresh_entry()
        }
    }

    /// The state once `accounts` has replaced the configuration.
    pub open spec fn reloaded(self, accounts: Seq<AccountView>) -> StateView {
        StateView {
            accounts,
            tokens: Map::new(
                |name: Seq<char>| has_name(accounts, name),
                |name: Seq<char>| self.reload_entry(accounts, name),
            ),
            generation: self.generation + 1,
            session: self.session,
        }
    }

    /// Whether every counter still fits its machine integer after a reload to `accounts`.
    pub open spec fn reload_fits(self, accounts: Seq<AccountView>) -> bool {
        &&& self.generation < u128::MAX
        &&& forall|name: Seq<char>| #[trigger]
            has_name(accounts, name) ==> self.reload_entry(accounts, name).version <= u128::MAX
    }

    /// Whether every counter is below the largest value of its machine integer.
    pub open spec fn headroom(self) -> bool {
        &&& self.generation < u128::MAX
        &&& self.session < u128::MAX
        &&& forall|name: Seq<char>| #[trigger]
            self.tokens.contains_key(name) ==> self.tokens[name].version < u128::MAX
    }

    /// The identifier that stands for the account `name` as it is now.
    pub open spec fn id_of(self, name: Seq<char>) -> AccountIdView {
        AccountIdView {
            name,
            generation: self.generation,
            tokenstate_version: self.tokens[name].version,
            session: self.session,
        }
    }

    /// What validating the name `name` gives: an identifier where the account is configured.
    pub open spec fn validated(self, name: Seq<char>) -> Option<AccountIdView> {
        if has_name(self.accounts, name) {
            Some(self.id_of(name))
        } else {
            None
        }
    }

    /// Whether `id` still stands for what it was issued for: its account is configured, is
    /// the same instance, and its token state has not been replaced since.
    pub open spec fn still_valid(self, id: AccountIdView) -> bool {
        &&& has_name(self.accounts, id.name)
        &&& id.generation == self.generation
        &&& id.tokenstate_version == self.tokens[id.name].version
    }

    /// What validating the identifier `id` again gives: a new identifier for the same
    /// account where `id` is still valid.
    pub open spec fn revalidated(self, id: AccountIdView) -> Option<AccountIdView> {
        if self.still_valid(id) {
            Some(self.id_of(id.name))
        } else {
            None
        }
    }

    /// Whether `id` was issued under the guard that is out now.
    pub open spec fn issued(self, id: AccountIdView) -> bool {
        &&& id.session == self.session
        &&& id.generation == self.generation
        &&& has_name(self.accounts, id.name)
    }

    /// Whether the account at place `i` is pending under the nonce `nonce`.
    pub open spec fn pending_at(self, i: int, nonce: Seq<u8>) -> bool {
        0 <= i < self.accounts.len() && self.tokens[self.accounts[i].name].tokenstate.pending_with(
            nonce,
        )
    }

    /// The state once a guard has been handed out.
    pub open spec fn opened(self) -> StateView {
        StateView { session: self.session + 1, ..self }
    }

    /// The state once `tokenstate` has replaced the token state of `name`.
    pub open spec fn replaced(self, name: Seq<char>, tokenstate: TokenState) -> StateView {
        StateView {
            tokens: self.tokens.insert(
                name,
                Entry { version: self.tokens[name].version + 1, tokenstate },
            ),
            ..self
        }
    }
}

/// What a [`CTGuardAccountId`] stands for.
pub struct AccountIdView {
    /// The account's name.
    pub name: Seq<char>,
    /// The generation of the configuration that the account's instance came with.
    pub generation: nat,
    /// The version of the account's token state when the identifier was issued.
    pub tokenstate_version: nat,
    /// The number of the guard that issued the identifier.
    pub session: nat,
}

/// Whether `index` sends each name of `accounts`, and nothing else, to the place of its
/// account.
spec fn indexes(index: Map<Seq<char>, usize>, accounts: Seq<AccountView>) -> bool {
    &&& forall|i: int|
        0 <= i < accounts.len() ==> index.contains_key((#[trigger] accounts[i]).name)
            && index[accounts[i].name] == i
    &&& forall|name: Seq<char>| #[trigger] index.contains_key(name) ==> has_name(accounts, name)
}

/// An index sends the name of a configured account to the place where the account stands.
proof fn lemma_indexed(index: Map<Seq<char>, usize>, accounts: Seq<AccountView>, name: Seq<char>)
    requires
        indexes(index, accounts),
        has_name(accounts, name),
    ensures
        index.contains_key(name),
        0 <= index[name] < accounts.len(),
        accounts[index[name] as int].name == name,
{
    let i = choose|i: int| 0 <= i < accounts.len() && #[trigger] accounts[i].name == name;
    assert(index[accounts[i].name] == i);
}

/// What the lock protects: the configuration, and for each of its accounts a token state.
pub struct LockedState {
    config: Config,
    generation: u128,
    session: u128,
    account_map: StringHashMap<usize>,
    tokenstates: Vec<TokenStateVersion>,
}

impl View for LockedState {
    type V = StateView;

    closed spec fn view(&self) -> StateView {
        StateView {
            accounts: self.config@,
            tokens: Map::new(
                |name: Seq<char>| self.account_map@.contains_key(name),
                |name: Seq<char>| self.tokenstates@[self.account_map@[name] as int]@,
            ),
            generation: self.generation as nat,
            session: self.session as nat,
        }
    }
}

/// An index over the accounts of `config`, and a fresh token state for each.
fn fresh_tables(config: &Config) -> (tables: (StringHashMap<usize>, Vec<TokenStateVersion>))
    requires
        config.wf(),
    ensures
        indexes(tables.0@, config@),
        tables.1@.len() == config@.len(),
        forall|i: int| 0 <= i < config@.len() ==> (#[trigger] tables.1@[i])@ == fresh_entry(),
{
    let accounts = config.accounts_in_order();
    let mut account_map: StringHashMap<usize> = StringHashMap::with_capacity(accounts.len());
    let mut tokenstates: Vec<TokenStateVersion> = Vec::with_capacity(accounts.len());
    let mut i: usize = 0;
    while i < accounts.len()
        invariant
            i <= accounts.len(),
            contents(accounts@) == config@,
            names_distinct(config@),
            tokenstates@.len() == i,
            forall|k: int|
                0 <= k < i ==> account_map@.contains_key((#[trigger] config@[k]).name)
                    && account_map@[config@[k].name] == k,
            forall|name: Seq<char>| #[trigger]
                account_map@.contains_key(name) ==> exists|k: int|
                    0 <= k < i && (#[trigger] config@[k]).name == name,
            forall|k: int| 0 <= k < i ==> (#[trigger] tokenstates@[k])@ == fresh_entry(),
        decreases accounts.len() - i,
    {
        account_map.insert(accounts[i].name.clone(), i);
        tokenstates.push(TokenStateVersion { version: 0, tokenstate: TokenState::Empty });
        assert(config@[i as int].name == accounts@[i as int]@.name);
        i += 1;
    }
    (account_map, tokenstates)
}

impl LockedState {
    /// What every state that this module hands out satisfies: the index, the token states and
    /// the configuration cover the same accounts.
    pub closed spec fn wf(&self) -> bool {
        &&& self.config.wf()
        &&& self.tokenstates@.len() == self.config@.len()
        &&& indexes(self.account_map@, self.config@)
    }

    /// The configuration in use.
    pub closed spec fn config(&self) -> Config {
        self.config
    }

    /// The names of the accounts that have a token state are the names of the configured
    /// accounts.
    pub proof fn lemma_names_agree(&self)
        requires
            self.wf(),
        ensures
            self@.inv(),
            self@.accounts == self.config()@,
    {
        assert(self@.tokens.dom() =~= names_of(self@.accounts)) by {
            assert forall|i: int| 0 <= i < self.config@.len() implies self.account_map@.contains_key(
                (#[trigger] self.config@[i]).name,
            ) by {}
        }
    }

    /// The state in which a daemon with the configuration `config` starts.
    pub(crate) fn new(config: Config) -> (state: LockedState)
        requires
            config.wf(),
        ensures
            state.wf(),
            state.config() == config,
            state@ == StateView::initial(config@),
    {
        let (account_map, tokenstates) = fresh_tables(&config);
        let state = LockedState { config, generation: 0, session: 0, account_map, tokenstates };
        proof {
            assert forall|name: Seq<char>| has_name(config@, name) implies account_map@.contains_key(
                name,
            ) by {
                lemma_indexed(account_map@, config@, name);
            }
            assert(state@.tokens =~= StateView::initial(config@).tokens);
        }
        state
    }

    /// The token state of `act_name` and its version.
    pub fn tokenstate_version(&self, act_name: &str) -> (entry: &TokenStateVersion)
        requires
            self.wf(),
            self@.tokens.contains_key(act_name@),
        ensures
            entry@ == self@.tokens[act_name@],
    {
        let i = *self.account_map.get(act_name).unwrap();
        &self.tokenstates[i]
    }

    /// Puts `config` in place of the configuration. An account that stays with the same
    /// content keeps its token state and version. One whose content differs is set back to
    /// `Empty` and its version goes up by one, which makes stale whatever a slow caller still
    /// holds of it. One that is gone loses its token state, and a new one starts afresh.
    pub(crate) fn update_conf(&mut self, config: Config)
        requires
            old(self).wf(),
            config.wf(),
            old(self)@.reload_fits(config@),
        ensures
            final(self).wf(),
            final(self).config() == config,
            final(self)@ == old(self)@.reloaded(config@),
    {
        let (account_map, mut tokenstates) = fresh_tables(&config);
        let new_accounts = config.accounts_in_order();
        let old_accounts = self.config.accounts_in_order();
        let ghost pre = self@;
        let mut i: usize = 0;
        while i < new_accounts.len()
            invariant
                i <= new_accounts.len(),
                self.wf(),
                self@ == pre,
                config.wf(),
                pre.reload_fits(config@),
                contents(new_accounts@) == config@,
                contents(old_accounts@) == self.config@,
                tokenstates@.len() == config@.len(),
                forall|k: int|
                    0 <= k < i ==> (#[trigger] tokenstates@[k])@ == pre.reload_entry(
                        config@,
                        config@[k].name,
                    ),
                forall|k: int|
                    i <= k < config@.len() ==> (#[trigger] tokenstates@[k])@ == fresh_entry(),
            decreases new_accounts.len() - i,
        {
            let new_act = &new_accounts[i];
            proof {
                lemma_position_of(config@, i as int);
            }
            match self.account_map.get(new_act.name.as_str()) {
                Some(j) => {
                    let old_act = &old_accounts[*j];
                    let mut ts = self.tokenstates[*j].clone();
                    if new_act != old_act {
                        // Whoever still works on the old account must find that it has moved on.
                        ts.tokenstate = TokenState::Empty;
                        ts.version += 1;
                    }
                    tokenstates.set(i, ts);
                },
                None => {},
            }
            i += 1;
        }
        self.account_map = account_map;
        self.tokenstates = tokenstates;
        self.config = config;
        self.generation += 1;
        proof {
            assert forall|name: Seq<char>| has_name(config@, name) implies self.account_map@.contains_key(
                name,
            ) && self@.tokens[name] == pre.reload_entry(config@, name) by {
                lemma_indexed(self.account_map@, config@, name);
            }
            assert(self@.tokens =~= pre.reloaded(config@).tokens);
        }
    }

    /// Whether every counter of this state is below the largest value of its machine integer,
    /// so that the next guard, reload or replacement cannot overflow one.
    pub fn has_headroom(&self) -> (room: bool)
        requires
            self.wf(),
        ensures
            room == self@.headroom(),
    {
        if self.generation == u128::MAX || self.session == u128::MAX {
            return false;
        }
        let mut i: usize = 0;
        while i < self.tokenstates.len()
            invariant
                self.wf(),
                i <= self.tokenstates.len(),
                forall|k: int| 0 <= k < i ==> (#[trigger] self.tokenstates@[k]).version < u128::MAX,
            decreases self.tokenstates.len() - i,
        {
            if self.tokenstates[i].version == u128::MAX {
                assert(self@.tokens.contains_key(self.config@[i as int].name));
                return false;
            }
            i += 1;
        }
        true
    }
}

/// An account as one guard saw it. While that guard is out, the identifier gives access to
/// the account and its token state. Afterwards it only says which account, and which version
/// of its token state, it was issued for: a later guard can validate it again.
pub struct CTGuardAccountId {
    name: String,
    generation: u128,
    // The version changes often, and the scheme is lost if it wraps: hence the widest integer.
    tokenstate_version: u128,
    session: u128,
}

impl View for CTGuardAccountId {
    type V = AccountIdView;

    closed spec fn view(&self) -> AccountIdView {
        AccountIdView {
            name: self.name@,
            generation: self.generation as nat,
            tokenstate_version: self.tokenstate_version as nat,
            session: self.session as nat,
        }
    }
}

impl CTGuardAccountId {
    /// The name of the account.
    pub fn name(&self) -> (name: &str)
        ensures
            name@ == self@.name,
    {
        self.name.as_str()
    }

    /// The version of the account's token state when this identifier was issued.
    pub fn tokenstate_version(&self) -> (version: u128)
        ensures
            version == self@.tokenstate_version,
    {
        self.tokenstate_version
    }

    /// Whether `other` stands for the same instance of the same account. This needs no
    /// guard: it can be asked of identifiers whose guards are long gone.
    pub fn same_account(&self, other: &CTGuardAccountId) -> (same: bool)
        ensures
            same == (self@.name == other@.name && self@.generation == other@.generation),
    {
        self.generation == other.generation && self.name == other.name
    }
}

/// The configuration and the token states, held for one caller. When the guard goes, every
/// [`CTGuardAccountId`] that it issued stops giving access to accounts and token states.
pub struct CTGuard<'a> {
    pub guard: &'a mut LockedState,
}

impl<'a> CTGuard<'a> {
    /// The state that the guard holds.
    pub open spec fn state(&self) -> LockedState {
        *self.guard
    }

    /// A guard over `guard`, with a session number that no guard before it had: what earlier
    /// guards issued gives no access under this one.
    fn new(guard: &'a mut LockedState) -> (ct_lk: CTGuard<'a>)
        requires
            old(guard).wf(),
            old(guard)@.session < u128::MAX,
        ensures
            ct_lk.state().wf(),
            ct_lk.state().config() == old(guard).config(),
            ct_lk.state()@ == old(guard)@.opened(),
            *final(ct_lk.guard) == *final(guard),
    {
        guard.session += 1;
        CTGuard { guard }
    }

    /// The identifier for the account at place `i`.
    fn id_at(&self, i: usize) -> (id: CTGuardAccountId)
        requires
            self.state().wf(),
            i < self.state()@.accounts.len(),
        ensures
            id@ == self.state()@.id_of(self.state()@.accounts[i as int].name),
    {
        let act = &self.guard.config.accounts_in_order()[i];
        CTGuardAccountId {
            name: act.name.clone(),
            generation: self.guard.generation,
            tokenstate_version: self.guard.tokenstates[i].version,
            session: self.guard.session,
        }
    }

    /// The configuration in use.
    pub fn config(&self) -> (config: &Config)
        requires
            self.state().wf(),
        ensures
            *config == self.state().config(),
            config.wf(),
            config@ == self.state()@.accounts,
    {
        &self.guard.config
    }

    /// An identifier for the account `act_name`, if there is one now.
    pub fn validate_act_name(&self, act_name: &str) -> (id: Option<CTGuardAccountId>)
        requires
            self.state().wf(),
        ensures
            match id {
                Some(id) => self.state()@.validated(act_name@) == Some(id@),
                None => self.state()@.validated(act_name@) is None,
            },
    {
        match self.guard.account_map.get(act_name) {
            Some(i) => {
                Some(self.id_at(*i))
            },
            None => {
                None
            },
        }
    }

    /// An identifier to use in place of `act_id`, if `act_id` is still valid: its account is
    /// configured, is the very instance that `act_id` was issued for, and its token state has
    /// not been replaced since. Equal content is not enough: an account may change and change
    /// back, and the two are not the same account.
    pub fn validate_act_id(&self, act_id: CTGuardAccountId) -> (id: Option<CTGuardAccountId>)
        requires
            self.state().wf(),
        ensures
            match id {
                Some(id) => self.state()@.revalidated(act_id@) == Some(id@),
                None => self.state()@.revalidated(act_id@) is None,
            },
    {
        match self.guard.account_map.get(act_id.name.as_str()) {
            Some(i) if act_id.generation == self.guard.generation => {
                let tokenstate_version = self.guard.tokenstates[*i].version;
                if act_id.tokenstate_version == tokenstate_version {
                    Some(
                        CTGuardAccountId {
                            name: act_id.name,
                            generation: act_id.generation,
                            tokenstate_version,
                            session: self.guard.session,
                        },
                    )
                } else {
                    None
                }
            },
            Some(_) => None,
            None => {
                None
            },
        }
    }

    /// One identifier for each account, in the order of the configuration.
    pub fn act_ids(&self) -> (ids: Vec<CTGuardAccountId>)
        requires
            self.state().wf(),
        ensures
            ids@.len() == self.state()@.accounts.len(),
            forall|i: int|
                0 <= i < ids@.len() ==> (#[trigger] ids@[i])@ == self.state()@.id_of(
                    self.state()@.accounts[i].name,
                ),
    {
        let n = self.guard.tokenstates.len();
        let mut ids: Vec<CTGuardAccountId> = Vec::with_capacity(n);
        let mut i: usize = 0;
        while i < n
            invariant
                self.state().wf(),
                n == self.state()@.accounts.len(),
                i <= n,
                ids@.len() == i,
                forall|k: int|
                    0 <= k < i ==> (#[trigger] ids@[k])@ == self.state()@.id_of(
                        self.state()@.accounts[k].name,
                    ),
            decreases n - i,
        {
            let id = self.id_at(i);
            ids.push(id);
            i += 1;
        }
        ids
    }

    /// An identifier for the first account, in the order of the configuration, whose
    /// authorisation is pending under the nonce `state`.
    pub fn act_id_matching_token_state(&self, state: &[u8]) -> (id: Option<CTGuardAccountId>)
        requires
            self.state().wf(),
        ensures
            match id {
                Some(id) => exists|i: int|
                    {
                        &&& #[trigger] self.state()@.pending_at(i, state@)
                        &&& forall|j: int| 0 <= j < i ==> !self.state()@.pending_at(j, state@)
                        &&& id@ == self.state()@.id_of(self.state()@.accounts[i].name)
                    },
                None => forall|i: int| !self.state()@.pending_at(i, state@),
            },
    {
        let n = self.guard.tokenstates.len();
        let mut i: usize = 0;
        while i < n
            invariant
                self.state().wf(),
                n == self.state()@.accounts.len(),
                i <= n,
                forall|j: int| 0 <= j < i ==> !self.state()@.pending_at(j, state@),
            decreases n - i,
        {
            if self.guard.tokenstates[i].tokenstate.is_pending_with(state) {
                assert(self.state()@.pending_at(i as int, state@));
                return Some(self.id_at(i));
            }
            i += 1;
        }
        None
    }

    /// Whether `act_id` was issued under this guard, so that it may be used to reach the
    /// account and its token state.
    pub fn has_issued(&self, act_id: &CTGuardAccountId) -> (issued: bool)
        requires
            self.state().wf(),
        ensures
            issued == self.state()@.issued(act_id@),
    {
        let known = self.guard.account_map.contains_key(act_id.name.as_str());
        act_id.session == self.guard.session && act_id.generation == self.guard.generation && known
    }

    /// The account that `act_id` stands for. The identifier must have been issued under this
    /// guard.
    pub fn account(&self, act_id: &CTGuardAccountId) -> (account: &Account)
        requires
            self.state().wf(),
            self.state()@.issued(act_id@),
        ensures
            account@ == account_named(self.state()@.accounts, act_id@.name),
    {
        let i = *self.guard.account_map.get(act_id.name.as_str()).unwrap();
        &self.guard.config.accounts_in_order()[i]
    }

    /// The token state of the account that `act_id` stands for. The identifier must have been
    /// issued under this guard.
    pub fn tokenstate(&self, act_id: &CTGuardAccountId) -> (tokenstate: &TokenState)
        requires
            self.state().wf(),
            self.state()@.issued(act_id@),
        ensures
            *tokenstate == self.state()@.tokens[act_id@.name].tokenstate,
    {
        &self.guard.tokenstate_version(act_id.name.as_str()).tokenstate
    }

    /// Puts `new_tokenstate` in place of the token state of the account that `act_id` stands
    /// for, and moves its version on by one, whether or not the new state differs from the
    /// old. The identifier that comes back stands for the new version. `act_id` must have
    /// been issued under this guard.
    pub fn tokenstate_replace(
        &mut self,
        act_id: CTGuardAccountId,
        new_tokenstate: TokenState,
    ) -> (id: CTGuardAccountId)
        requires
            old(self).state().wf(),
            old(self).state()@.issued(act_id@),
            old(self).state()@.tokens[act_id@.name].version < u128::MAX,
        ensures
            final(self).state().wf(),
            final(self).state().config() == old(self).state().config(),
            final(self).state()@ == old(self).state()@.replaced(act_id@.name, new_tokenstate),
            id@ == final(self).state()@.id_of(act_id@.name),
            // The guard still hands its state back to where it took it from.
            *final(final(self).guard) == *final(old(self).guard),
    {
        let ghost pre = self.state();
        let i = *self.guard.account_map.get(act_id.name.as_str()).unwrap();
        let version = self.guard.tokenstates[i].version + 1;
        self.guard.tokenstates.set(i, TokenStateVersion { version, tokenstate: new_tokenstate });
        proof {
            assert forall|name: Seq<char>| #[trigger]
                pre.account_map@.contains_key(name) && name != act_id.name@ implies pre.account_map@[name]
                != i by {
                lemma_indexed(pre.account_map@, pre.config@, name);
                lemma_indexed(pre.account_map@, pre.config@, act_id.name@);
            }
            assert(self.state()@.tokens =~= pre@.replaced(act_id@.name, new_tokenstate).tokens);
        }
        CTGuardAccountId {
            name: act_id.name,
            generation: act_id.generation,
            tokenstate_version: version,
            session: act_id.session,
        }
    }
}

/// The daemon's state: the configuration and the token states, and the port of the HTTP
/// server that takes the authorisation callbacks.
pub struct AuthenticatorState {
    /// Reached only through [`AuthenticatorState::ct_lock`].
    locked_state: LockedState,
    /// Port of the HTTP server that OAuth needs.
    pub http_port: u16,
}

impl AuthenticatorState {
    /// The configuration and the token states.
    pub closed spec fn locked(&self) -> LockedState {
        self.locked_state
    }

    /// The port of the HTTP server.
    pub closed spec fn port(&self) -> u16 {
        self.http_port
    }

    /// What every state that this module hands out satisfies.
    pub open spec fn wf(&self) -> bool {
        self.locked().wf()
    }

    /// The state of a daemon that starts with the configuration `conf`: every account at
    /// version 0 with an empty token state.
    pub fn new(conf: Config, http_port: u16) -> (state: AuthenticatorState)
        requires
            conf.wf(),
        ensures
            state.wf(),
            state.port() == http_port,
            state.locked().config() == conf,
            state.locked()@ == StateView::initial(conf@),
    {
        AuthenticatorState { locked_state: LockedState::new(conf), http_port }
    }

    /// Hands out a guard over the configuration and the token states. While the guard is
    /// out nothing else reaches them; what the guard leaves behind is the state from then on.
    pub fn ct_lock(&mut self) -> (guard: CTGuard<'_>)
        requires
            old(self).wf(),
            old(self).locked()@.session < u128::MAX,
        ensures
            guard.state().wf(),
            guard.state().config() == old(self).locked().config(),
            guard.state()@ == old(self).locked()@.opened(),
            *final(guard.guard) == final(self).locked(),
            final(self).port() == old(self).port(),
    {
        CTGuard::new(&mut self.locked_state)
    }

    /// Puts `new_conf` in place of the configuration. By the time this returns another
    /// caller may have replaced it again.
    pub fn update_conf(&mut self, new_conf: Config)
        requires
            old(self).wf(),
            new_conf.wf(),
            old(self).locked()@.reload_fits(new_conf@),
        ensures
            final(self).wf(),
            final(self).port() == old(self).port(),
            final(self).locked().config() == new_conf,
            final(self).locked()@ == old(self).locked()@.reloaded(new_conf@),
    {
        self.locked_state.update_conf(new_conf);
    }

    /// Whether every counter of the state is below the largest value of its machine integer,
    /// so that the next guard, reload or replacement cannot overflow one.
    pub fn has_headroom(&self) -> (room: bool)
        requires
            self.wf(),
        ensures
            room == self.locked()@.headroom(),
    {
        self.locked_state.has_headroom()
    }
}

} // verus!
