//! Account and refresh-token records, and an in-memory credential store
//! that keeps them: usernames, account ids and token bytes are each unique,
//! and a token is stamped as used at most once, by a conditional update.
use crate::errors::{RbError, RbResult};
use crate::text::{bytes_equal, str_equal};
use vstd::prelude::*;
use vstd::slice::slice_to_vec;

verus! {

/// An account as stored.
#[derive(Debug, Clone, PartialEq, Eq)]
pub struct User {
    pub id: u128,
    pub username: String,
    /// Encoded Argon2 hash: algorithm, parameters, salt and digest.
    pub password: String,
    pub blocked: bool,
    pub admin: bool,
}

pub struct UserModel {
    pub id: u128,
    pub username: Seq<char>,
    pub password: Seq<char>,
    pub blocked: bool,
    pub admin: bool,
}

impl View for User {
    type V = UserModel;

    open spec fn view(&self) -> UserModel {
        UserModel {
            id: self.id,
            username: self.username@,
            password: self.password@,
            blocked: self.blocked,
            admin: self.admin,
        }
    }
}

impl User {
    /// A copy of this account.
    pub fn duplicate(&self) -> (r: User)
        ensures
            r@ == self@,
    {
        User {
            id: self.id,
            username: self.username.clone(),
            password: self.password.clone(),
            blocked: self.blocked,
            admin: self.admin,
        }
    }
}

/// An account to be created, or updated by username.
#[derive(Debug, Clone, PartialEq, Eq)]
pub struct NewUser {
    pub username: String,
    pub password: String,
    pub admin: bool,
}

/// A refresh token as stored.
#[derive(Debug, Clone, PartialEq, Eq)]
pub struct RefreshToken {
    pub token: Vec<u8>,
    pub user_id: u128,
    /// In seconds since the Unix epoch.
    pub expires_at: i64,
    /// Set once, when the token is redeemed.
    pub last_used_at: Option<i64>,
}

pub struct TokenModel {
    pub token: Seq<u8>,
    pub user_id: u128,
    pub expires_at: i64,
    pub last_used_at: Option<i64>,
}

impl View for RefreshToken {
    type V = TokenModel;

    open spec fn view(&self) -> TokenModel {
        TokenModel {
            token: self.token@,
            user_id: self.user_id,
            expires_at: self.expires_at,
            last_used_at: self.last_used_at,
        }
    }
}

impl RefreshToken {
    /// A copy of this token record.
    pub fn duplicate(&self) -> (r: RefreshToken)
        ensures
            r@ == self@,
    {
        RefreshToken {
            token: slice_to_vec(self.token.as_slice()),
            user_id: self.user_id,
            expires_at: self.expires_at,
            last_used_at: self.last_used_at,
        }
    }
}

/// A refresh token to be stored.
#[derive(Debug, Clone, PartialEq, Eq)]
pub struct NewRefreshToken {
    pub token: Vec<u8>,
    pub user_id: u128,
    pub expires_at: i64,
}

/// The contents of a store.
pub struct StoreModel {
    pub users: Seq<UserModel>,
    pub tokens: Seq<TokenModel>,
    /// The id the next created account gets.
    pub next_id: u128,
}

impl StoreModel {
    pub open spec fn wf(self) -> bool {
        &&& forall|i: int, j: int|
            0 <= i < self.users.len() && 0 <= j < self.users.len() && i != j ==> #[trigger] self.users[i].username
                != #[trigger] self.users[j].username
        &&& forall|i: int, j: int|
            0 <= i < self.users.len() && 0 <= j < self.users.len() && i != j ==> #[trigger] self.users[i].id
                != #[trigger] self.users[j].id
        &&& forall|i: int| 0 <= i < self.users.len() ==> #[trigger] self.users[i].id < self.next_id
        &&& forall|i: int, j: int|
            0 <= i < self.tokens.len() && 0 <= j < self.tokens.len() && i != j ==> #[trigger] self.tokens[i].token
                != #[trigger] self.tokens[j].token
    }

    pub open spec fn has_user_named(self, name: Seq<char>) -> bool {
        exists|i: int| 0 <= i < self.users.len() && #[trigger] self.users[i].username == name
    }

    /// The account with this username.
    pub open spec fn user_by_name(self, name: Seq<char>) -> Option<UserModel> {
        if self.has_user_named(name) {
            Some(
                self.users[choose|i: int|
                    0 <= i < self.users.len() && #[trigger] self.users[i].username == name],
            )
        } else {
            None
        }
    }

    /// The account with this id.
    pub open spec fn user_by_id(self, id: u128) -> Option<UserModel> {
        if exists|i: int| 0 <= i < self.users.len() && #[trigger] self.users[i].id == id {
            Some(self.users[choose|i: int| 0 <= i < self.users.len() && #[trigger] self.users[i].id == id])
        } else {
            None
        }
    }

    /// The token record with these bytes.
    pub open spec fn token_by_bytes(self, t: Seq<u8>) -> Option<TokenModel> {
        if exists|i: int| 0 <= i < self.tokens.len() && #[trigger] self.tokens[i].token == t {
            Some(
                self.tokens[choose|i: int|
                    0 <= i < self.tokens.len() && #[trigger] self.tokens[i].token == t],
            )
        } else {
            None
        }
    }

    /// Whether a token of `n` bytes is stored.
    pub open spec fn holds_token_of_len(self, n: nat) -> bool {
        exists|i: int| 0 <= i < self.tokens.len() && #[trigger] self.tokens[i].token.len() == n
    }

    /// The token record with these bytes, joined to its owner.
    pub open spec fn token_with_user(self, t: Seq<u8>) -> Option<(TokenModel, UserModel)> {
        match self.token_by_bytes(t) {
            Some(r) => match self.user_by_id(r.user_id) {
                Some(u) => Some((r, u)),
                None => None,
            },
            None => None,
        }
    }

    /// Every account with this id marked blocked.
    pub open spec fn with_user_blocked(self, id: u128) -> StoreModel {
        StoreModel {
            users: Seq::new(
                self.users.len(),
                |i: int|
                    if self.users[i].id == id {
                        UserModel { blocked: true, ..self.users[i] }
                    } else {
                        self.users[i]
                    },
            ),
            ..self
        }
    }

    /// The unused token with these bytes stamped as used at `at`.
    pub open spec fn with_token_stamped(self, t: Seq<u8>, at: i64) -> StoreModel {
        StoreModel {
            tokens: Seq::new(
                self.tokens.len(),
                |i: int|
                    if self.tokens[i].token == t && self.tokens[i].last_used_at is None {
                        TokenModel { last_used_at: Some(at), ..self.tokens[i] }
                    } else {
                        self.tokens[i]
                    },
            ),
            ..self
        }
    }

    /// A new, unused token record added.
    pub open spec fn with_token(self, t: Seq<u8>, user_id: u128, expires_at: i64) -> StoreModel {
        StoreModel {
            tokens: self.tokens.push(
                TokenModel { token: t, user_id, expires_at, last_used_at: None },
            ),
            ..self
        }
    }

    /// The account with this username given this password hash and admin
    /// flag, or, where there is none, created with the next id.
    pub open spec fn with_user_upserted(
        self,
        name: Seq<char>,
        password: Seq<char>,
        admin: bool,
    ) -> StoreModel {
        if self.has_user_named(name) {
            self.with_user_updated(name, password, admin)
        } else {
            self.with_user_created(name, password, admin)
        }
    }

    /// The account with this username given this password hash and admin
    /// flag.
    pub open spec fn with_user_updated(
        self,
        name: Seq<char>,
        password: Seq<char>,
        admin: bool,
    ) -> StoreModel {
        StoreModel {
            users: Seq::new(
                self.users.len(),
                |i: int|
                    if self.users[i].username == name {
                        UserModel { password, admin, ..self.users[i] }
                    } else {
                        self.users[i]
                    },
            ),
            ..self
        }
    }

    /// A new account added with the next id.
    pub open spec fn with_user_created(
        self,
        name: Seq<char>,
        password: Seq<char>,
        admin: bool,
    ) -> StoreModel {
        StoreModel {
            users: self.users.push(
                UserModel { id: self.next_id, username: name, password, blocked: false, admin },
            ),
            next_id: (self.next_id + 1) as u128,
            ..self
        }
    }
}

/// An upsert keeps the store well formed, and afterwards the username has
/// an account with the given hash and flag.
pub proof fn lemma_upsert_keeps_wf(s: StoreModel, name: Seq<char>, password: Seq<char>, admin: bool)
    requires
        s.wf(),
        s.has_user_named(name) || s.next_id < u128::MAX,
    ensures
        s.with_user_upserted(name, password, admin).wf(),
        s.with_user_upserted(name, password, admin).has_user_named(name),
        forall|i: int|
            0 <= i < s.with_user_upserted(name, password, admin).users.len() && #[trigger] s.with_user_upserted(
                name,
                password,
                admin,
            ).users[i].username == name ==> s.with_user_upserted(name, password, admin).users[i].password
                == password && s.with_user_upserted(name, password, admin).users[i].admin == admin,
{
    let m = s.with_user_upserted(name, password, admin);
    if s.has_user_named(name) {
        let i = choose|i: int| 0 <= i < s.users.len() && #[trigger] s.users[i].username == name;
        assert(m.users[i].username == name);
        assert forall|a: int, b: int|
            0 <= a < m.users.len() && 0 <= b < m.users.len() && a != b implies #[trigger] m.users[a].username
                != #[trigger] m.users[b].username by {
            assert(m.users[a].username == s.users[a].username);
            assert(m.users[b].username == s.users[b].username);
        }
        assert forall|a: int, b: int|
            0 <= a < m.users.len() && 0 <= b < m.users.len() && a != b implies #[trigger] m.users[a].id
                != #[trigger] m.users[b].id by {
            assert(m.users[a].id == s.users[a].id);
            assert(m.users[b].id == s.users[b].id);
        }
        assert forall|a: int| 0 <= a < m.users.len() implies #[trigger] m.users[a].id < m.next_id by {
            assert(m.users[a].id == s.users[a].id);
        }
    } else {
        let n = s.users.len() as int;
        assert(m.users[n].username == name);
        assert forall|a: int, b: int|
            0 <= a < m.users.len() && 0 <= b < m.users.len() && a != b implies #[trigger] m.users[a].username
                != #[trigger] m.users[b].username by {
            if a == n {
                assert(s.users[b].username == m.users[b].username);
            } else if b == n {
                assert(s.users[a].username == m.users[a].username);
            }
        }
        assert forall|a: int, b: int|
            0 <= a < m.users.len() && 0 <= b < m.users.len() && a != b implies #[trigger] m.users[a].id
                != #[trigger] m.users[b].id by {
            if a == n {
                assert(s.users[b].id < s.next_id);
            } else if b == n {
                assert(s.users[a].id < s.next_id);
            }
        }
        assert forall|a: int| 0 <= a < m.users.len() implies #[trigger] m.users[a].id < m.next_id by {
            if a < n {
                assert(s.users[a].id < s.next_id);
            }
        }
        assert forall|a: int|
            0 <= a < m.users.len() && #[trigger] m.users[a].username == name implies m.users[a].password
                == password && m.users[a].admin == admin by {
            if a < n {
                assert(s.users[a].username == name);
            }
        }
    }
}

/// The views of a sequence of accounts.
pub open spec fn user_views(s: Seq<User>) -> Seq<UserModel> {
    s.map_values(|u: User| u@)
}

/// First index of a page of `len` records that skips `offset`.
pub open spec fn window_start(len: int, offset: usize) -> int {
    if offset < len {
        offset as int
    } else {
        len
    }
}

/// End of a page of at most `limit` records that skips `offset`.
pub open spec fn window_end(len: int, offset: usize, limit: usize) -> int {
    if limit < len - window_start(len, offset) {
        window_start(len, offset) + limit
    } else {
        len
    }
}

/// The credential store: accounts and refresh tokens, held in memory.
pub struct Store {
    users: Vec<User>,
    tokens: Vec<RefreshToken>,
    next_id: u128,
}

impl View for Store {
    type V = StoreModel;

    closed spec fn view(&self) -> StoreModel {
        StoreModel {
            users: user_views(self.users@),
            tokens: self.tokens@.map_values(|t: RefreshToken| t@),
            next_id: self.next_id,
        }
    }
}

impl Store {
    pub open spec fn wf(&self) -> bool {
        self@.wf()
    }

    /// An empty store.
    pub fn new() -> (r: Store)
        ensures
            r.wf(),
            r@.users.len() == 0,
            r@.tokens.len() == 0,
    {
        let r = Store { users: Vec::new(), tokens: Vec::new(), next_id: 1 };
        assert(r@.users =~= Seq::<UserModel>::empty());
        assert(r@.tokens =~= Seq::<TokenModel>::empty());
        r
    }

    /// The account with this username.
    pub fn find_by_username(&self, name: &str) -> (r: Option<User>)
        requires
            self.wf(),
        ensures
            match r {
                Some(u) => self@.user_by_name(name@) == Some(u@),
                None => self@.user_by_name(name@) is None,
            },
    {
        let mut i: usize = 0;
        while i < self.users.len()
            invariant
                self.wf(),
                0 <= i <= self.users@.len(),
                forall|j: int| 0 <= j < i ==> #[trigger] self@.users[j].username != name@,
            decreases self.users@.len() - i,
        {
            if str_equal(self.users[i].username.as_str(), name) {
                let ghost m = self@;
                proof {
                    assert(m.users[i as int].username == name@);
                    assert(m.has_user_named(name@));
                    let k = choose|k: int| 0 <= k < m.users.len() && #[trigger] m.users[k].username == name@;
                    assert(k == i);
                }
                return Some(self.users[i].duplicate());
            }
            i = i + 1;
        }
        None
    }

    /// The account with this id.
    pub fn find(&self, id: u128) -> (r: Option<User>)
        requires
            self.wf(),
        ensures
            match r {
                Some(u) => self@.user_by_id(id) == Some(u@),
                None => self@.user_by_id(id) is None,
            },
    {
        let mut i: usize = 0;
        while i < self.users.len()
            invariant
                self.wf(),
                0 <= i <= self.users@.len(),
                forall|j: int| 0 <= j < i ==> #[trigger] self@.users[j].id != id,
            decreases self.users@.len() - i,
        {
            if self.users[i].id == id {
                let ghost m = self@;
                proof {
                    assert(m.users[i as int].id == id);
                    let k = choose|k: int| 0 <= k < m.users.len() && #[trigger] m.users[k].id == id;
                    assert(k == i);
                }
                return Some(self.users[i].duplicate());
            }
            i = i + 1;
        }
        None
    }

    fn token_position(&self, t: &[u8]) -> (r: Option<usize>)
        requires
            self.wf(),
        ensures
            match r {
                Some(i) => i < self@.tokens.len() && self@.tokens[i as int].token == t@
                    && self@.token_by_bytes(t@) == Some(self@.tokens[i as int]),
                None => self@.token_by_bytes(t@) is None,
            },
    {
        let mut i: usize = 0;
        while i < self.tokens.len()
            invariant
                self.wf(),
                0 <= i <= self.tokens@.len(),
                forall|j: int| 0 <= j < i ==> #[trigger] self@.tokens[j].token != t@,
            decreases self.tokens@.len() - i,
        {
            if bytes_equal(self.tokens[i].token.as_slice(), t) {
                let ghost m = self@;
                proof {
                    assert(m.tokens[i as int].token == t@);
                    let k = choose|k: int| 0 <= k < m.tokens.len() && #[trigger] m.tokens[k].token == t@;
                    assert(k == i);
                }
                return Some(i);
            }
            i = i + 1;
        }
        None
    }

    /// Whether a token with these bytes is stored.
    pub fn contains_token(&self, t: &[u8]) -> (r: bool)
        requires
            self.wf(),
        ensures
            r == self@.token_by_bytes(t@) is Some,
    {
        self.token_position(t).is_some()
    }

    /// The token record with these bytes, joined to the account that owns
    /// it.
    pub fn find_with_user(&self, t: &[u8]) -> (r: Option<(RefreshToken, User)>)
        requires
            self.wf(),
        ensures
            match r {
                Some((rec, u)) => self@.token_with_user(t@) == Some((rec@, u@)),
                None => self@.token_with_user(t@) is None,
            },
    {
        let i = match self.token_position(t) {
            Some(i) => i,
            None => return None,
        };
        let rec = self.tokens[i].duplicate();
        match self.find(rec.user_id) {
            Some(u) => Some((rec, u)),
            None => None,
        }
    }

    /// At most `limit` accounts, skipping the first `offset`, in the order
    /// they were created.
    pub fn get(&self, offset: usize, limit: usize) -> (r: Vec<User>)
        requires
            self.wf(),
        ensures
            user_views(r@) == self@.users.subrange(
                window_start(self@.users.len() as int, offset),
                window_end(self@.users.len() as int, offset, limit),
            ),
    {
        let n = self.users.len();
        let start = if offset < n { offset } else { n };
        let end = if limit < n - start { start + limit } else { n };
        let mut out: Vec<User> = Vec::new();
        let mut i = start;
        while i < end
            invariant
                start <= i <= end <= n == self.users@.len(),
                start == window_start(n as int, offset),
                end == window_end(n as int, offset, limit),
                user_views(out@) == self@.users.subrange(start as int, i as int),
            decreases end - i,
        {
            let ghost prev = out@;
            let u = self.users[i].duplicate();
            assert(u@ == self@.users[i as int]);
            out.push(u);
            assert(out@ == prev.push(u));
            let ghost mapped = user_views(out@);
            let ghost want = self@.users.subrange(start as int, i + 1);
            assert(user_views(prev) == self@.users.subrange(start as int, i as int));
            assert(user_views(prev).len() == prev.len());
            assert(self@.users.subrange(start as int, i as int).len() == i - start);
            assert(prev.len() == i - start);
            assert forall|k: int| 0 <= k < want.len() implies #[trigger] mapped[k] == want[k] by {
                if k < prev.len() {
                    assert(user_views(prev)[k] == prev[k]@);
                    assert(self@.users.subrange(start as int, i as int)[k] == want[k]);
                }
            }
            assert(mapped =~= want);
            i = i + 1;
        }
        out
    }

    /// Marks the account with this id as blocked; no account with it is no
    /// error.
    pub fn block(&mut self, id: u128)
        requires
            old(self).wf(),
        ensures
            final(self).wf(),
            final(self)@ == old(self)@.with_user_blocked(id),
    {
        let ghost m0 = self@;
        let mut i: usize = 0;
        while i < self.users.len()
            invariant
                m0.wf(),
                self@.users.len() == m0.users.len(),
                self@.tokens == m0.tokens,
                self@.next_id == m0.next_id,
                0 <= i <= self@.users.len(),
                forall|j: int|
                    0 <= j < i ==> #[trigger] self@.users[j] == m0.with_user_blocked(id).users[j],
                forall|j: int| i <= j < self@.users.len() ==> #[trigger] self@.users[j] == m0.users[j],
            decreases self@.users.len() - i,
        {
            let ghost prev = self@.users;
            assert(prev[i as int] == self.users@[i as int]@);
            if self.users[i].id == id {
                let mut u = self.users[i].duplicate();
                u.blocked = true;
                assert(u@ == m0.with_user_blocked(id).users[i as int]);
                self.users.set(i, u);
                assert(self@.users =~= prev.update(i as int, m0.with_user_blocked(id).users[i as int]));
            } else {
                assert(prev[i as int] == m0.with_user_blocked(id).users[i as int]);
            }
            i = i + 1;
        }
        assert(self@.users =~= m0.with_user_blocked(id).users);
        assert(self@ == m0.with_user_blocked(id));
    }

    /// Creates an account; `UMDuplicateUser` where the username is taken.
    pub fn create(&mut self, new_user: &NewUser) -> (r: RbResult<()>)
        requires
            old(self).wf(),
        ensures
            final(self).wf(),
            old(self)@.has_user_named(new_user.username@) ==> r == Err::<(), RbError>(
                RbError::UMDuplicateUser,
            ) && final(self)@ == old(self)@,
            !old(self)@.has_user_named(new_user.username@) && old(self)@.next_id < u128::MAX ==> r
                is Ok && final(self)@ == old(self)@.with_user_created(
                new_user.username@,
                new_user.password@,
                new_user.admin,
            ),
            !old(self)@.has_user_named(new_user.username@) && old(self)@.next_id == u128::MAX ==> r
                == Err::<(), RbError>(RbError::DbError("Couldn't create user.")) && final(self)@
                == old(self)@,
    {
        if self.find_by_username(new_user.username.as_str()).is_some() {
            return Err(RbError::UMDuplicateUser);
        }
        self.insert_new(new_user)
    }

    fn insert_new(&mut self, new_user: &NewUser) -> (r: RbResult<()>)
        requires
            old(self).wf(),
            !old(self)@.has_user_named(new_user.username@),
        ensures
            final(self).wf(),
            old(self)@.next_id < u128::MAX ==> r is Ok && final(self)@ == old(self)@.with_user_created(
                new_user.username@,
                new_user.password@,
                new_user.admin,
            ),
            old(self)@.next_id == u128::MAX ==> r == Err::<(), RbError>(
                RbError::DbError("Couldn't create user."),
            ) && final(self)@ == old(self)@,
    {
        if self.next_id == u128::MAX {
            return Err(RbError::DbError("Couldn't create user."));
        }
        let ghost m0 = self@;
        let u = User {
            id: self.next_id,
            username: new_user.username.clone(),
            password: new_user.password.clone(),
            blocked: false,
            admin: new_user.admin,
        };
        self.users.push(u);
        self.next_id = self.next_id + 1;
        let ghost m1 = m0.with_user_created(new_user.username@, new_user.password@, new_user.admin);
        assert(self@.users =~= m1.users);
        assert(self@ == m1);
        proof {
            lemma_upsert_keeps_wf(m0, new_user.username@, new_user.password@, new_user.admin);
        }
        Ok(())
    }

    /// Gives the account with this username the new password hash and admin
    /// flag, or creates it where there is none.
    pub fn upsert(&mut self, new_user: &NewUser) -> (r: RbResult<()>)
        requires
            old(self).wf(),
        ensures
            final(self).wf(),
            r is Ok ==> final(self)@ == old(self)@.with_user_upserted(
                new_user.username@,
                new_user.password@,
                new_user.admin,
            ),
            r is Err ==> final(self)@ == old(self)@,
            r is Err <==> !old(self)@.has_user_named(new_user.username@) && old(self)@.next_id
                == u128::MAX,
    {
        if self.find_by_username(new_user.username.as_str()).is_none() {
            return self.insert_new(new_user);
        }
        let ghost m0 = self@;
        let ghost m1 = m0.with_user_updated(new_user.username@, new_user.password@, new_user.admin);
        let mut i: usize = 0;
        while i < self.users.len()
            invariant
                m0.wf(),
                m0.has_user_named(new_user.username@),
                m1 == m0.with_user_updated(new_user.username@, new_user.password@, new_user.admin),
                self@.users.len() == m0.users.len(),
                self@.tokens == m0.tokens,
                self@.next_id == m0.next_id,
                0 <= i <= self@.users.len(),
                forall|j: int| 0 <= j < i ==> #[trigger] self@.users[j] == m1.users[j],
                forall|j: int| i <= j < self@.users.len() ==> #[trigger] self@.users[j] == m0.users[j],
            decreases self@.users.len() - i,
        {
            let ghost prev = self@.users;
            assert(prev[i as int] == self.users@[i as int]@);
            if str_equal(self.users[i].username.as_str(), new_user.username.as_str()) {
                let mut u = self.users[i].duplicate();
                u.password = new_user.password.clone();
                u.admin = new_user.admin;
                assert(u@ == m1.users[i as int]);
                self.users.set(i, u);
                assert(self@.users =~= prev.update(i as int, m1.users[i as int]));
            } else {
                assert(prev[i as int] == m1.users[i as int]);
            }
            i = i + 1;
        }
        assert(self@.users =~= m1.users);
        assert(self@ == m1);
        Ok(())
    }

    /// Stores a new, unused refresh token; fails where a token with the same
    /// bytes exists.
    pub fn create_token(&mut self, new_token: &NewRefreshToken) -> (r: RbResult<()>)
        requires
            old(self).wf(),
        ensures
            final(self).wf(),
            r is Ok <==> old(self)@.token_by_bytes(new_token.token@) is None,
            r is Ok ==> final(self)@ == old(self)@.with_token(
                new_token.token@,
                new_token.user_id,
                new_token.expires_at,
            ),
            r is Err ==> r == Err::<(), RbError>(RbError::DbError("Couldn't insert refresh token."))
                && final(self)@ == old(self)@,
    {
        if self.token_position(new_token.token.as_slice()).is_some() {
            return Err(RbError::DbError("Couldn't insert refresh token."));
        }
        let ghost m0 = self@;
        let rec = RefreshToken {
            token: slice_to_vec(new_token.token.as_slice()),
            user_id: new_token.user_id,
            expires_at: new_token.expires_at,
            last_used_at: None,
        };
        self.tokens.push(rec);
        let ghost m1 = m0.with_token(new_token.token@, new_token.user_id, new_token.expires_at);
        assert(self@.tokens =~= m1.tokens);
        assert(self@ == m1);
        assert forall|i: int, j: int|
            0 <= i < m1.tokens.len() && 0 <= j < m1.tokens.len() && i != j implies #[trigger] m1.tokens[i].token
                != #[trigger] m1.tokens[j].token by {
            if i == m0.tokens.len() {
                assert(m0.tokens[j].token == m1.tokens[j].token);
            } else if j == m0.tokens.len() {
                assert(m0.tokens[i].token == m1.tokens[i].token);
            }
        }
        Ok(())
    }

    /// Stamps the token with these bytes as used at `at`, in one step and
    /// only if it is still unused: of two redemptions of one token, one
    /// stamp fails.
    pub fn update_last_used_at(&mut self, t: &[u8], at: i64) -> (r: RbResult<()>)
        requires
            old(self).wf(),
        ensures
            final(self).wf(),
            r is Ok <==> (old(self)@.token_by_bytes(t@) matches Some(rec) && rec.last_used_at is None),
            r is Ok ==> final(self)@ == old(self)@.with_token_stamped(t@, at),
            r is Err ==> r == Err::<(), RbError>(RbError::DbError("Couldn't update last_used_at."))
                && final(self)@ == old(self)@,
    {
        let i = match self.token_position(t) {
            Some(i) => i,
            None => return Err(RbError::DbError("Couldn't update last_used_at.")),
        };
        if self.tokens[i].last_used_at.is_some() {
            return Err(RbError::DbError("Couldn't update last_used_at."));
        }
        let ghost m0 = self@;
        let mut rec = self.tokens[i].duplicate();
        rec.last_used_at = Some(at);
        self.tokens.set(i, rec);
        let ghost m1 = m0.with_token_stamped(t@, at);
        assert forall|j: int| 0 <= j < m1.tokens.len() implies #[trigger] self@.tokens[j] == m1.tokens[j] by {
            if j != i {
                assert(m0.tokens[j].token != m0.tokens[i as int].token);
            }
        }
        assert(self@.tokens =~= m1.tokens);
        assert(self@ == m1);
        Ok(())
    }
}

} // verus!
