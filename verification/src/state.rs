//! The users, the sessions and the counter of the service.

use vstd::hash_map::StringHashMap;
use vstd::prelude::*;

use crate::credentials::{check_password, hash_password, new_token};

verus! {

/// The user of the demo.
pub const DEMO_USER: &'static str = "agent";

/// The password of the demo user.
pub const DEMO_PASSWORD: &'static str = "tor-rocks";

/// The password behind the hash that is checked for unknown users.
pub const DUMMY_PASSWORD: &'static str = "this password matches nothing";

/// The state that all requests share.
pub struct AppState {
    /// username -> Argon2 PHC string.
    users: StringHashMap<String>,
    /// The hash that is checked when a username is unknown, so that such an attempt takes as
    /// long as one with a wrong password.
    dummy_hash: String,
    /// Active sessions: token -> username.
    sessions: StringHashMap<String>,
    /// How many pings were answered.
    ping_count: usize,
    /// The template of the restricted page.
    restricted_html: String,
}

/// What the state holds.
#[verifier::ext_equal]
pub struct StateView {
    pub users: Map<Seq<char>, Seq<char>>,
    pub dummy_hash: Seq<char>,
    pub sessions: Map<Seq<char>, Seq<char>>,
    pub ping_count: usize,
    pub restricted_html: Seq<char>,
}

impl View for AppState {
    type V = StateView;

    closed spec fn view(&self) -> StateView {
        StateView {
            users: crate::text::text_map(self.users@),
            dummy_hash: self.dummy_hash@,
            sessions: crate::text::text_map(self.sessions@),
            ping_count: self.ping_count,
            restricted_html: self.restricted_html@,
        }
    }
}

/// The users in a list of names and hashes. The last of several entries with one name counts.
pub open spec fn user_map(list: Seq<(String, String)>) -> Map<Seq<char>, Seq<char>>
    decreases list.len(),
{
    if list.len() == 0 {
        Map::empty()
    } else {
        user_map(list.drop_last()).insert(list.last().0@, list.last().1@)
    }
}

proof fn user_map_holds_given_hashes(list: Seq<(String, String)>)
    requires
        forall|i: int|
            0 <= i < list.len() ==> crate::credentials::phc_computable((#[trigger] list[i]).1@),
    ensures
        forall|user: Seq<char>| #[trigger]
            user_map(list).contains_key(user) ==> crate::credentials::phc_computable(
                user_map(list)[user],
            ),
    decreases list.len(),
{
    if list.len() > 0 {
        assert(crate::credentials::phc_computable(list[list.len() - 1].1@));
        assert forall|i: int| 0 <= i < list.drop_last().len() implies
            crate::credentials::phc_computable((#[trigger] list.drop_last()[i]).1@) by {
            assert(list.drop_last()[i] == list[i]);
        }
        user_map_holds_given_hashes(list.drop_last());
        assert forall|user: Seq<char>| #[trigger] user_map(list).contains_key(user) implies
            crate::credentials::phc_computable(user_map(list)[user]) by {
            if user != list.last().0@ {
                assert(user_map(list.drop_last()).contains_key(user));
            }
        }
    }
}

impl StateView {
    /// Argon2 can compute with every stored hash, and every session is named by a token.
    pub open spec fn well_formed(self) -> bool {
        &&& crate::credentials::phc_computable(self.dummy_hash)
        &&& forall|user: Seq<char>|
            #[trigger] self.users.contains_key(user) ==> crate::credentials::phc_computable(
                self.users[user],
            )
        &&& forall|token: Seq<char>| #[trigger]
            self.sessions.contains_key(token) ==> crate::credentials::token_shaped(token)
    }

    /// The hash that a password for `user` is held against.
    pub open spec fn hash_for(self, user: Seq<char>) -> Seq<char> {
        if self.users.contains_key(user) {
            self.users[user]
        } else {
            self.dummy_hash
        }
    }

    /// Whether `user` can sign in, if the check of the password gave `outcome`.
    pub open spec fn accepts(self, user: Seq<char>, outcome: Option<bool>) -> bool {
        outcome == Some(true) && self.users.contains_key(user)
    }

    /// Whether `user` can sign in with `password`.
    pub open spec fn verifies(self, user: Seq<char>, password: Seq<char>) -> bool {
        self.accepts(
            user,
            crate::credentials::argon2_match(
                self.hash_for(user),
                vstd::utf8::encode_utf8(password),
            ),
        )
    }

    /// The user who is signed in with `token`.
    pub open spec fn user_of(self, token: Seq<char>) -> Option<Seq<char>> {
        if self.sessions.contains_key(token) {
            Some(self.sessions[token])
        } else {
            None
        }
    }

    /// The state in which `user` is signed in with `token` as well.
    pub open spec fn with_session(self, token: Seq<char>, user: Seq<char>) -> StateView {
        StateView { sessions: self.sessions.insert(token, user), ..self }
    }

    /// The state in which nobody is signed in with `token`.
    pub open spec fn without_session(self, token: Seq<char>) -> StateView {
        StateView { sessions: self.sessions.remove(token), ..self }
    }

    /// The number of the next ping. The counter starts again at zero when it is full.
    pub open spec fn next_ping(self) -> usize {
        if self.ping_count == usize::MAX {
            0
        } else {
            (self.ping_count + 1) as usize
        }
    }

    /// The state after one more ping.
    pub open spec fn with_ping(self) -> StateView {
        StateView { ping_count: self.next_ping(), ..self }
    }
}

impl AppState {
    /// A state with the given users and their hashes, in which nobody is signed in.
    pub fn new(users: Vec<(String, String)>, dummy_hash: String, restricted_html: String) -> (r:
        AppState)
        requires
            crate::credentials::phc_computable(dummy_hash@),
            forall|i: int|
                0 <= i < users@.len() ==> crate::credentials::phc_computable(
                    (#[trigger] users@[i]).1@,
                ),
        ensures
            r@ == (StateView {
                users: user_map(users@),
                dummy_hash: dummy_hash@,
                sessions: Map::empty(),
                ping_count: 0,
                restricted_html: restricted_html@,
            }),
            r@.well_formed(),
    {
        let mut map: StringHashMap<String> = StringHashMap::new();
        let mut i: usize = 0;
        proof {
            assert(crate::text::text_map(map@) =~= user_map(users@.take(0)));
        }
        while i < users.len()
            invariant
                i <= users@.len(),
                crate::text::text_map(map@) == user_map(users@.take(i as int)),
            decreases users@.len() - i,
        {
            let ghost before = map@;
            map.insert(users[i].0.clone(), users[i].1.clone());
            proof {
                let (name, hash) = users@[i as int];
                assert(users@.take(i + 1).drop_last() =~= users@.take(i as int));
                assert(crate::text::text_map(map@) =~= crate::text::text_map(before).insert(
                    name@,
                    hash@,
                ));
            }
            i += 1;
        }
        let r = AppState {
            users: map,
            dummy_hash,
            sessions: StringHashMap::new(),
            ping_count: 0,
            restricted_html,
        };
        proof {
            assert(users@.take(i as int) =~= users@);
            assert(r@.sessions =~= Map::<Seq<char>, Seq<char>>::empty());
            user_map_holds_given_hashes(users@);
        }
        r
    }

    /// The state of the demo: one user, whose password is known. Their hash and the one that is
    /// checked for unknown users are made by the same algorithm with the same parameters.
    pub fn demo(restricted_html: String) -> (r: AppState)
        ensures
            r@.well_formed(),
            r@.users.dom() == set![DEMO_USER@],
            r@.verifies(DEMO_USER@, DEMO_PASSWORD@),
            r@.sessions == Map::<Seq<char>, Seq<char>>::empty(),
            r@.ping_count == 0,
            r@.restricted_html == restricted_html@,
            exists|salt: Seq<char>| #[trigger]
                crate::credentials::made_of(
                    r@.users[DEMO_USER@],
                    vstd::utf8::encode_utf8(DEMO_PASSWORD@),
                    salt,
                ),
            exists|salt: Seq<char>| #[trigger]
                crate::credentials::made_of(
                    r@.dummy_hash,
                    vstd::utf8::encode_utf8(DUMMY_PASSWORD@),
                    salt,
                ),
            forall|user: Seq<char>|
                crate::credentials::HASH_PREFIX@.is_prefix_of(#[trigger] r@.hash_for(user)),
    {
        proof {
            short_passwords();
        }
        let hash = hash_password(DEMO_PASSWORD);
        let dummy_hash = hash_password(DUMMY_PASSWORD);
        let mut users: Vec<(String, String)> = Vec::new();
        users.push((DEMO_USER.to_owned(), hash));
        let r = AppState::new(users, dummy_hash, restricted_html);
        proof {
            assert(users@.drop_last() =~= Seq::<(String, String)>::empty());
            reveal_with_fuel(user_map, 2);
            assert(r@.users =~= Map::<Seq<char>, Seq<char>>::empty().insert(DEMO_USER@, hash@));
            assert(r@.users.dom() =~= set![DEMO_USER@]);
            crate::credentials::hash_begins_with_its_parameters(
                hash@,
                vstd::utf8::encode_utf8(DEMO_PASSWORD@),
            );
            crate::credentials::hash_begins_with_its_parameters(
                dummy_hash@,
                vstd::utf8::encode_utf8(DUMMY_PASSWORD@),
            );
        }
        r
    }

    /// The hash that a password for `username` is to be held against: that of the user, or the
    /// dummy one if there is no such user.
    pub fn hash_to_check(&self, username: &str) -> (r: &str)
        ensures
            r@ == self@.hash_for(username@),
    {
        match self.users.get(username) {
            Some(hash) => hash.as_str(),
            None => self.dummy_hash.as_str(),
        }
    }

    /// Whether `username` can sign in, if the check of the password gave `outcome`: only a user
    /// who exists can.
    pub fn accept(&self, username: &str, outcome: Option<bool>) -> (r: bool)
        ensures
            r == self@.accepts(username@, outcome),
    {
        match outcome {
            Some(ok) => ok && self.users.contains_key(username),
            None => false,
        }
    }

    /// Verifies credentials. A hash is checked whether the user exists or not.
    pub fn verify(&self, username: &str, password: &str) -> (r: bool)
        requires
            self@.well_formed(),
        ensures
            r == self@.verifies(username@, password@),
    {
        let hash = self.hash_to_check(username);
        let outcome = check_password(hash, password.as_bytes());
        self.accept(username, outcome)
    }

    /// Signs `username` in with `token`.
    pub fn open_session(&mut self, token: String, username: &str)
        requires
            old(self)@.well_formed(),
            crate::credentials::token_shaped(token@),
        ensures
            final(self)@ == old(self)@.with_session(token@, username@),
            final(self)@.well_formed(),
    {
        let ghost before = self.sessions@;
        let ghost key = token@;
        let name = username.to_owned();
        self.sessions.insert(token, name);
        proof {
            assert(crate::text::text_map(self.sessions@) =~= crate::text::text_map(before).insert(
                key,
                username@,
            ));
        }
    }

    /// Signs `username` in with a fresh token.
    pub fn create_session(&mut self, username: &str) -> (token: String)
        requires
            old(self)@.well_formed(),
        ensures
            crate::credentials::token_shaped(token@),
            final(self)@ == old(self)@.with_session(token@, username@),
            final(self)@.well_formed(),
    {
        let token = new_token();
        self.open_session(token.clone(), username);
        token
    }

    /// The user who is signed in with `token`.
    pub fn user_for(&self, token: &str) -> (r: Option<String>)
        ensures
            crate::text::opt_text(r) == self@.user_of(token@),
    {
        match self.sessions.get(token) {
            Some(user) => Some(user.clone()),
            None => None,
        }
    }

    /// Ends the session with `token`, if there is one.
    pub fn destroy_session(&mut self, token: &str)
        ensures
            final(self)@ == old(self)@.without_session(token@),
            old(self)@.well_formed() ==> final(self)@.well_formed(),
    {
        let ghost before = self.sessions@;
        self.sessions.remove(token);
        proof {
            assert(crate::text::text_map(self.sessions@) =~= crate::text::text_map(before).remove(
                token@,
            ));
        }
    }

    /// Counts one more ping and gives its number.
    pub fn count_ping(&mut self) -> (count: usize)
        ensures
            final(self)@ == old(self)@.with_ping(),
            count == old(self)@.next_ping(),
            old(self)@.well_formed() ==> final(self)@.well_formed(),
    {
        self.ping_count = self.ping_count.wrapping_add(1);
        self.ping_count
    }

    /// The template of the restricted page.
    pub fn restricted_html(&self) -> (r: &str)
        ensures
            r@ == self@.restricted_html,
    {
        self.restricted_html.as_str()
    }
}

proof fn short_passwords()
    ensures
        vstd::utf8::encode_utf8(DEMO_PASSWORD@).len() == 9,
        vstd::utf8::encode_utf8(DUMMY_PASSWORD@).len() == 29,
{
    reveal_strlit("tor-rocks");
    reveal_strlit("this password matches nothing");
    vstd::utf8::is_ascii_chars_encode_utf8(DEMO_PASSWORD@);
    vstd::utf8::is_ascii_chars_encode_utf8(DUMMY_PASSWORD@);
}

/// A list of users holds exactly the names in it, each with the hash of its last entry.
pub proof fn last_entry_of_a_user_counts(list: Seq<(String, String)>, i: int, name: Seq<char>)
    ensures
        user_map(list).contains_key(name) <==> exists|j: int|
            0 <= j < list.len() && (#[trigger] list[j]).0@ == name,
        0 <= i < list.len() && list[i].0@ == name && (forall|j: int|
            i < j < list.len() ==> (#[trigger] list[j]).0@ != name) ==> user_map(list)[name]
            == list[i].1@,
    decreases list.len(),
{
    if list.len() > 0 {
        let rest = list.drop_last();
        let n = list.len() - 1;
        last_entry_of_a_user_counts(rest, i, name);
        if list[n].0@ == name {
            assert(list.last() == list[n]);
        } else {
            assert forall|j: int| 0 <= j < list.len() && (#[trigger] list[j]).0@ == name implies j
                < n && rest[j] == list[j] by {
            }
            if exists|j: int| 0 <= j < rest.len() && (#[trigger] rest[j]).0@ == name {
                let j = choose|j: int| 0 <= j < rest.len() && (#[trigger] rest[j]).0@ == name;
                assert(list[j].0@ == name);
            }
            if exists|j: int| 0 <= j < list.len() && (#[trigger] list[j]).0@ == name {
                let j = choose|j: int| 0 <= j < list.len() && (#[trigger] list[j]).0@ == name;
                assert(rest[j].0@ == name);
            }
            if 0 <= i < n && (forall|j: int|
                i < j < list.len() ==> (#[trigger] list[j]).0@ != name) {
                assert forall|j: int| i < j < rest.len() implies (#[trigger] rest[j]).0@
                    != name by {
                    assert(rest[j] == list[j]);
                }
            }
        }
    }
}

/// A token names the user under whom it stands among the sessions, and nobody where it does not.
pub proof fn token_names_its_user(state: StateView, token: Seq<char>, user: Seq<char>)
    ensures
        state.user_of(token) == Some(user) <==> state.sessions.contains_key(token)
            && state.sessions[token] == user,
        state.user_of(token) is None <==> !state.sessions.contains_key(token),
{
}

/// Signing in and out changes the one session, and a ping the counter: all else of the state stays.
pub proof fn changes_are_confined(state: StateView, token: Seq<char>, user: Seq<char>)
    ensures
        state.with_session(token, user).sessions == state.sessions.insert(token, user),
        state.with_session(token, user).users == state.users,
        state.with_session(token, user).dummy_hash == state.dummy_hash,
        state.with_session(token, user).ping_count == state.ping_count,
        state.with_session(token, user).restricted_html == state.restricted_html,
        state.without_session(token).sessions == state.sessions.remove(token),
        state.without_session(token).users == state.users,
        state.without_session(token).dummy_hash == state.dummy_hash,
        state.without_session(token).ping_count == state.ping_count,
        state.without_session(token).restricted_html == state.restricted_html,
        state.with_ping().users == state.users,
        state.with_ping().dummy_hash == state.dummy_hash,
        state.with_ping().sessions == state.sessions,
        state.with_ping().restricted_html == state.restricted_html,
        state.with_ping().ping_count == state.next_ping(),
        state.ping_count < usize::MAX ==> state.next_ping() == state.ping_count + 1,
        state.ping_count == usize::MAX ==> state.next_ping() == 0,
{
}

/// A user signs in exactly where they exist and their own hash matches the whole password. For one
/// who does not exist, another hash is held against the password in its place.
pub proof fn own_hash_decides(state: StateView, user: Seq<char>, password: Seq<char>)
    ensures
        state.verifies(user, password) <==> state.users.contains_key(user)
            && crate::credentials::argon2_match(
            state.users[user],
            vstd::utf8::encode_utf8(password),
        ) == Some(true),
        state.users.contains_key(user) ==> state.hash_for(user) == state.users[user],
        !state.users.contains_key(user) ==> state.hash_for(user) == state.dummy_hash,
        forall|outcome: Option<bool>| #[trigger]
            state.accepts(user, outcome) <==> outcome == Some(true) && state.users.contains_key(
                user,
            ),
{
}

} // verus!
