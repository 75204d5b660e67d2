//! Authentication: bcrypt password checks, bearer headers, and the
//! session store mapping opaque tokens to identities.

use vstd::prelude::*;
use crate::models::User;

verus! {

/// Why a password check failed outright.
#[derive(Debug, Clone, Copy, PartialEq, Eq, Structural)]
pub enum AuthError {
    /// The stored hash is not a bcrypt hash the library can parse.
    InvalidHash,
}

#[verifier::external_type_specification]
#[verifier::external_body]
pub struct ExBcryptError(bcrypt::BcryptError);

/// What `bcrypt::verify` returns for a password and a stored hash:
/// `Some(b)` for a parseable hash that does or does not match, `None`
/// for a hash the crate cannot parse.  A function of its two arguments
/// alone.
pub uninterp spec fn bcrypt_accepts(password: Seq<char>, hash: Seq<char>) -> Option<bool>;

/// Relies on bcrypt::verify: deterministic in the password and hash, its
/// result named by `bcrypt_accepts`.
#[verifier::external_body]
fn bcrypt_verify(password: &str, hash: &str) -> (r: Result<bool, bcrypt::BcryptError>)
    ensures
        match r {
            Ok(b) => bcrypt_accepts(password@, hash@) == Some(b),
            Err(_) => bcrypt_accepts(password@, hash@) is None,
        },
{
    bcrypt::verify(password, hash)
}

/// Relies on uuid::Uuid::new_v4 and its hyphenated `Display` form: a
/// freshly drawn random token, 36 characters long.  Nothing is assumed
/// about which token comes back.
#[verifier::external_body]
fn random_token() -> (r: String)
    ensures
        r@.len() == 36,
{
    uuid::Uuid::new_v4().to_string()
}

/// The token-to-identity map that a sequence of session entries holds;
/// later entries win, though the store keeps its keys unique anyway.
pub open spec fn map_of(s: Seq<(String, String)>) -> Map<Seq<char>, Seq<char>>
    decreases s.len(),
{
    if s.len() == 0 {
        Map::<Seq<char>, Seq<char>>::empty()
    } else {
        map_of(s.drop_last()).insert(s.last().0@, s.last().1@)
    }
}

/// The map holds a key exactly when some entry carries it.
proof fn lemma_map_of_contains(s: Seq<(String, String)>, k: Seq<char>)
    ensures
        map_of(s).contains_key(k) <==> exists|i: int| 0 <= i < s.len() && s[i].0@ == k,
    decreases s.len(),
{
    if s.len() > 0 {
        lemma_map_of_contains(s.drop_last(), k);
        if s.last().0@ == k {
            assert(s[s.len() - 1].0@ == k);
        } else if map_of(s).contains_key(k) {
            let i = choose|i: int| 0 <= i < s.drop_last().len() && s.drop_last()[i].0@ == k;
            assert(s[i].0@ == k);
        } else if exists|i: int| 0 <= i < s.len() && s[i].0@ == k {
            let i = choose|i: int| 0 <= i < s.len() && s[i].0@ == k;
            assert(s.drop_last()[i].0@ == k);
        }
    }
}

/// Distinctness of the entries' tokens.
pub open spec fn entries_wf(s: Seq<(String, String)>) -> bool {
    forall|i: int, j: int|
        0 <= i < j < s.len() ==> (#[trigger] s[i]).0@ != (#[trigger] s[j]).0@
}

/// Under distinct tokens, the entry carrying a key gives its value.
proof fn lemma_map_of_value(s: Seq<(String, String)>, i: int)
    requires
        entries_wf(s),
        0 <= i < s.len(),
    ensures
        map_of(s).contains_key(s[i].0@),
        map_of(s)[s[i].0@] == s[i].1@,
    decreases s.len(),
{
    if i == s.len() - 1 {
    } else {
        assert(forall|a: int, b: int|
            0 <= a < b < s.drop_last().len() ==> (#[trigger] s.drop_last()[a]).0@ != (
            #[trigger] s.drop_last()[b]).0@);
        lemma_map_of_value(s.drop_last(), i);
        assert(s[i].0@ != s.last().0@);
    }
}

/// Removing the entry that carries a key removes exactly that key.
proof fn lemma_map_of_remove(s: Seq<(String, String)>, i: int)
    requires
        entries_wf(s),
        0 <= i < s.len(),
    ensures
        map_of(s.remove(i)) == map_of(s).remove(s[i].0@),
    decreases s.len(),
{
    let k = s[i].0@;
    if i == s.len() - 1 {
        assert(s.remove(i) =~= s.drop_last());
        lemma_map_of_contains(s.drop_last(), k);
        assert(forall|a: int| 0 <= a < s.len() - 1 ==> s[a].0@ != k);
        assert(!map_of(s.drop_last()).contains_key(k));
        assert(map_of(s.drop_last()).insert(k, s.last().1@).remove(k) =~= map_of(s.drop_last()));
    } else {
        assert(forall|a: int, b: int|
            0 <= a < b < s.drop_last().len() ==> (#[trigger] s.drop_last()[a]).0@ != (
            #[trigger] s.drop_last()[b]).0@);
        assert(s.drop_last()[i] == s[i]);
        lemma_map_of_remove(s.drop_last(), i);
        assert(s.remove(i).drop_last() =~= s.drop_last().remove(i));
        assert(s.remove(i).last() == s.last());
        assert(k != s.last().0@);
        assert(map_of(s.remove(i)) == map_of(s.drop_last().remove(i)).insert(
            s.last().0@,
            s.last().1@,
        ));
        assert(map_of(s.drop_last()).remove(k).insert(s.last().0@, s.last().1@) =~= map_of(
            s.drop_last(),
        ).insert(s.last().0@, s.last().1@).remove(k));
    }
}

/// The session store: a map of opaque bearer tokens to identities,
/// created on login, read on every authenticated request, and removed on
/// logout.  Removal of an absent token is not an error.
pub struct AuthManager {
    sessions: Vec<(String, String)>,
}

/// `Bearer ` with the trailing space, as it stands in an authorization
/// header.
pub open spec fn bearer_prefix() -> Seq<char> {
    seq!['B', 'e', 'a', 'r', 'e', 'r', ' ']
}

/// Whether a user record and a password pass the credential check: the
/// user must exist and bcrypt must accept the password against its hash.
pub open spec fn credentials_ok(user: Option<User>, password: Seq<char>) -> bool {
    &&& user is Some
    &&& bcrypt_accepts(password, user->0.password_hash@) == Some(true)
}

impl AuthManager {
    /// The token-to-identity map this store holds.
    pub closed spec fn sessions_map(&self) -> Map<Seq<char>, Seq<char>> {
        map_of(self.sessions@)
    }

    /// The store never holds two entries for one token.
    pub closed spec fn wf(&self) -> bool {
        entries_wf(self.sessions@)
    }

    pub fn new() -> (r: AuthManager)
        ensures
            r.wf(),
            r.sessions_map() == Map::<Seq<char>, Seq<char>>::empty(),
    {
        AuthManager { sessions: Vec::new() }
    }

    /// Checks a password against a stored bcrypt hash; `Ok` exactly when
    /// the hash parses, and then the boolean bcrypt gives.
    pub fn verify_password(password: &str, hash: &str) -> (r: Result<bool, AuthError>)
        ensures
            match r {
                Ok(b) => bcrypt_accepts(password@, hash@) == Some(b),
                Err(_) => bcrypt_accepts(password@, hash@) is None,
            },
    {
        match bcrypt_verify(password, hash) {
            Ok(b) => Ok(b),
            Err(_) => Err(AuthError::InvalidHash),
        }
    }

    /// The index of the entry carrying this token, if any.
    fn find_entry(&self, token: &str) -> (r: Option<usize>)
        ensures
            match r {
                Some(i) => i < self.sessions@.len() && self.sessions@[i as int].0@ == token@,
                None => forall|i: int|
                    0 <= i < self.sessions@.len() ==> (#[trigger] self.sessions@[i]).0@ != token@,
            },
    {
        let t: String = token.to_owned();
        let n: usize = self.sessions.len();
        let mut i: usize = 0;
        while i < n
            invariant
                0 <= i <= n == self.sessions@.len(),
                t@ == token@,
                forall|j: int| 0 <= j < i ==> (#[trigger] self.sessions@[j]).0@ != token@,
            decreases n - i,
        {
            if self.sessions[i].0 == t {
                return Some(i);
            }
            i = i + 1;
        }
        None
    }

    /// An upper bound on the length of every stored token.
    fn max_token_len(&self) -> (m: usize)
        ensures
            forall|i: int|
                0 <= i < self.sessions@.len() ==> (#[trigger] self.sessions@[i]).0@.len() <= m,
    {
        let n: usize = self.sessions.len();
        let mut m: usize = 0;
        let mut i: usize = 0;
        while i < n
            invariant
                0 <= i <= n == self.sessions@.len(),
                forall|j: int| 0 <= j < i ==> (#[trigger] self.sessions@[j]).0@.len() <= m,
            decreases n - i,
        {
            let l: usize = self.sessions[i].0.as_str().unicode_len();
            if l > m {
                m = l;
            }
            i = i + 1;
        }
        m
    }

    /// Issues a fresh token — one the store did not hold — and associates
    /// it with the identity.
    pub fn create_session(&mut self, username: &str) -> (token: String)
        requires
            old(self).wf(),
        ensures
            final(self).wf(),
            !old(self).sessions_map().contains_key(token@),
            final(self).sessions_map() == old(self).sessions_map().insert(token@, username@),
    {
        let mut token = random_token();
        if self.find_entry(token.as_str()).is_some() {
            // A drawn token can already be present; a strictly longer
            // token cannot be.
            let max = self.max_token_len();
            while token.as_str().unicode_len() <= max
                invariant
                    forall|i: int|
                        0 <= i < self.sessions@.len() ==> (#[trigger] self.sessions@[i]).0@.len()
                            <= max,
                decreases max + 1 - token@.len(),
            {
                token.append("x");
                proof {
                    reveal_strlit("x");
                }
            }
            assert(forall|i: int|
                0 <= i < self.sessions@.len() ==> (#[trigger] self.sessions@[i]).0@ != token@);
        }
        proof {
            lemma_map_of_contains(self.sessions@, token@);
        }
        let ghost old_entries = self.sessions@;
        self.sessions.push((token.clone(), username.to_owned()));
        proof {
            assert(self.sessions@.drop_last() =~= old_entries);
            assert(forall|i: int, j: int|
                0 <= i < j < self.sessions@.len() ==> (#[trigger] self.sessions@[i]).0@ != (
                #[trigger] self.sessions@[j]).0@);
        }
        token
    }

    /// Looks a token up without changing anything: the identity the map
    /// associates with it, or `None`.
    pub fn validate_session(&self, token: &str) -> (r: Option<String>)
        requires
            self.wf(),
        ensures
            match r {
                Some(u) => self.sessions_map().contains_key(token@) && self.sessions_map()[token@]
                    == u@,
                None => !self.sessions_map().contains_key(token@),
            },
    {
        proof {
            lemma_map_of_contains(self.sessions@, token@);
        }
        match self.find_entry(token) {
            Some(i) => {
                proof {
                    lemma_map_of_value(self.sessions@, i as int);
                }
                Some(self.sessions[i].1.clone())
            },
            None => None,
        }
    }

    /// Deletes a token's session; removing an absent token changes
    /// nothing.
    pub fn remove_session(&mut self, token: &str)
        requires
            old(self).wf(),
        ensures
            final(self).wf(),
            final(self).sessions_map() == old(self).sessions_map().remove(token@),
    {
        proof {
            lemma_map_of_contains(self.sessions@, token@);
        }
        match self.find_entry(token) {
            Some(i) => {
                proof {
                    lemma_map_of_remove(self.sessions@, i as int);
                    assert(forall|a: int, b: int|
                        0 <= a < b < self.sessions@.remove(i as int).len() ==> (
                        #[trigger] self.sessions@.remove(i as int)[a]).0@ != (
                        #[trigger] self.sessions@.remove(i as int)[b]).0@);
                }
                self.sessions.remove(i);
            },
            None => {
                proof {
                    assert(old(self).sessions_map().remove(token@) =~= old(self).sessions_map());
                }
            },
        }
    }

    /// The login decision: with an existing user whose hash accepts the
    /// password, a fresh session token; otherwise no change at all.
    pub fn authenticate(&mut self, user: &Option<User>, password: &str) -> (r: Option<String>)
        requires
            old(self).wf(),
        ensures
            final(self).wf(),
            match r {
                Some(token) => credentials_ok(*user, password@) && !old(
                    self,
                ).sessions_map().contains_key(token@) && final(self).sessions_map() == old(
                    self,
                ).sessions_map().insert(token@, user->0.username@),
                None => !credentials_ok(*user, password@) && *final(self) == *old(self),
            },
    {
        match user {
            Some(u) => {
                let ok = match Self::verify_password(password, u.password_hash.as_str()) {
                    Ok(b) => b,
                    Err(_) => false,
                };
                if ok {
                    Some(self.create_session(u.username.as_str()))
                } else {
                    None
                }
            },
            None => None,
        }
    }
}

/// The token of a `Bearer ` authorization header, if it carries one.
pub fn bearer_token(header: &str) -> (r: Option<String>)
    ensures
        match r {
            Some(t) => header@.len() >= 7 && header@.take(7) == bearer_prefix() && t@
                == header@.skip(7),
            None => !(header@.len() >= 7 && header@.take(7) == bearer_prefix()),
        },
{
    let n: usize = header.unicode_len();
    if n < 7 {
        return None;
    }
    proof {
        assert forall|j: int| 0 <= j < 7 implies header@.take(7)[j] == header@[j] by {}
    }
    if header.get_char(0) == 'B' && header.get_char(1) == 'e' && header.get_char(2) == 'a'
        && header.get_char(3) == 'r' && header.get_char(4) == 'e' && header.get_char(5) == 'r'
        && header.get_char(6) == ' ' {
        proof {
            assert(header@.take(7) =~= bearer_prefix());
        }
        let t = header.substring_char(7, n);
        proof {
            assert(t@ =~= header@.skip(7));
        }
        Some(t.to_owned())
    } else {
        None
    }
}

/// Session isolation: a second session created after a first one (each
/// with a token the store did not hold) leaves both tokens mapping to
/// their own identities, and revoking the first removes only the first.
pub proof fn lemma_session_isolation(
    m0: Map<Seq<char>, Seq<char>>,
    t1: Seq<char>,
    u1: Seq<char>,
    t2: Seq<char>,
    u2: Seq<char>,
)
    requires
        !m0.contains_key(t1),
        !m0.insert(t1, u1).contains_key(t2),
    ensures
        t1 != t2,
        m0.insert(t1, u1).insert(t2, u2)[t1] == u1,
        m0.insert(t1, u1).insert(t2, u2)[t2] == u2,
        m0.insert(t1, u1).insert(t2, u2).remove(t1)[t2] == u2,
        !m0.insert(t1, u1).insert(t2, u2).remove(t1).contains_key(t1),
{
}

} // verus!
