//! The login decisions of a session with the service: which token a request
//! carries, when the list of capitals must be fetched, and when to log in.
//! The caller performs each step that needs the network and hands back what
//! came of it.

use vstd::prelude::*;

use crate::models::{capitals_view, Capital, User};
use crate::tokens::TokenStore;

verus! {

/// The id of the first capital whose code is `code`.
pub open spec fn first_with_code(caps: Seq<(Seq<char>, u32)>, code: Seq<char>) -> Option<u32>
    decreases caps.len(),
{
    if caps.len() == 0 {
        None
    } else if caps[0].0 == code {
        Some(caps[0].1)
    } else {
        first_with_code(caps.drop_first(), code)
    }
}

/// What to log in with.
pub struct LoginRequest {
    pub client_id: u32,
    pub username: String,
    pub password: String,
}

/// The next step towards the token a user's requests carry.
pub enum AuthStep {
    /// A token is kept for the user: use it, with no request.
    Cached(String),
    /// No capital is known yet: fetch the list and record it.
    FetchCapitals,
    /// Log in with these details and record the reply.
    Login(LoginRequest),
    /// No capital has the user's participant code.
    UnknownDp,
}

/// `AuthStep` in terms of plain values.
pub enum AuthStepView {
    Cached(Seq<char>),
    FetchCapitals,
    Login { client_id: u32, username: Seq<char>, password: Seq<char> },
    UnknownDp,
}

impl AuthStep {
    pub open spec fn view(&self) -> AuthStepView {
        match self {
            AuthStep::Cached(t) => AuthStepView::Cached(t@),
            AuthStep::FetchCapitals => AuthStepView::FetchCapitals,
            AuthStep::Login(r) => AuthStepView::Login {
                client_id: r.client_id,
                username: r.username@,
                password: r.password@,
            },
            AuthStep::UnknownDp => AuthStepView::UnknownDp,
        }
    }
}

/// The log-in step once the capitals are known.
pub open spec fn login_step(
    caps: Seq<(Seq<char>, u32)>,
    dp: Seq<char>,
    username: Seq<char>,
    password: Seq<char>,
) -> AuthStepView {
    match first_with_code(caps, dp) {
        Some(id) => AuthStepView::Login { client_id: id, username, password },
        None => AuthStepView::UnknownDp,
    }
}

/// The next step for a user, given the kept tokens and the known capitals.
pub open spec fn auth_step_of(
    tokens: Map<Seq<char>, Seq<char>>,
    caps: Seq<(Seq<char>, u32)>,
    dp: Seq<char>,
    username: Seq<char>,
    password: Seq<char>,
) -> AuthStepView {
    if tokens.contains_key(username) {
        AuthStepView::Cached(tokens[username])
    } else if caps.len() == 0 {
        AuthStepView::FetchCapitals
    } else {
        login_step(caps, dp, username, password)
    }
}

/// The state of a session: the tokens kept by user name and the capitals
/// fetched so far.
pub struct Meroshare {
    tokens: TokenStore,
    capitals: Vec<Capital>,
}

impl Meroshare {
    pub closed spec fn wf(&self) -> bool {
        self.tokens.wf()
    }

    /// The tokens kept by user name.
    pub closed spec fn tokens(&self) -> Map<Seq<char>, Seq<char>> {
        self.tokens@
    }

    /// The (code, id) of the capitals fetched so far.
    pub closed spec fn capitals(&self) -> Seq<(Seq<char>, u32)> {
        capitals_view(self.capitals@)
    }

    /// A session that keeps no token and knows no capital.
    pub fn new() -> (r: Meroshare)
        ensures
            r.wf(),
            r.tokens() == Map::<Seq<char>, Seq<char>>::empty(),
            r.capitals() == Seq::<(Seq<char>, u32)>::empty(),
    {
        let r = Meroshare { tokens: TokenStore::new(), capitals: Vec::new() };
        proof {
            assert(r.capitals() =~= Seq::<(Seq<char>, u32)>::empty());
        }
        r
    }

    fn find_capital(&self, dp: &String) -> (r: Option<u32>)
        ensures
            r == first_with_code(self.capitals(), dp@),
    {
        let ghost caps = self.capitals();
        let n = self.capitals.len();
        let mut i: usize = 0;
        proof {
            assert(caps.subrange(0, n as int) =~= caps);
        }
        while i < n
            invariant
                caps == self.capitals(),
                n == caps.len(),
                i <= n,
                first_with_code(caps, dp@) == first_with_code(caps.subrange(i as int, n as int), dp@),
            decreases n - i,
        {
            let ghost rest = caps.subrange(i as int, n as int);
            assert(rest[0] == caps[i as int]);
            if self.capitals[i].code == *dp {
                return Some(self.capitals[i].id);
            }
            proof {
                assert(rest.drop_first() =~= caps.subrange(i + 1, n as int));
            }
            i = i + 1;
        }
        None
    }

    /// The log-in step for a user once the capitals are known: log in
    /// through the first capital with the user's participant code.
    pub fn login_step(&self, user: &User) -> (r: AuthStep)
        ensures
            r@ == login_step(self.capitals(), user.dp@, user.username@, user.password@),
            r matches AuthStep::Login(req) ==> exists|i: int|
                0 <= i < self.capitals().len() && self.capitals()[i].0 == user.dp@
                    && self.capitals()[i].1 == req.client_id && forall|j: int|
                    0 <= j < i ==> self.capitals()[j].0 != user.dp@,
            r is UnknownDp <==> forall|i: int|
                0 <= i < self.capitals().len() ==> self.capitals()[i].0 != user.dp@,
    {
        proof {
            law_first_with_code_is_first_exact_match(self.capitals(), user.dp@);
            if first_with_code(self.capitals(), user.dp@) is Some {
                let id = first_with_code(self.capitals(), user.dp@)->0;
                let i = choose|i: int|
                    0 <= i < self.capitals().len() && self.capitals()[i].0 == user.dp@
                        && self.capitals()[i].1 == id && forall|j: int|
                        0 <= j < i ==> self.capitals()[j].0 != user.dp@;
                assert(!(forall|i: int|
                    0 <= i < self.capitals().len() ==> self.capitals()[i].0 != user.dp@));
            }
        }
        match self.find_capital(&user.dp) {
            Some(id) => AuthStep::Login(
                LoginRequest {
                    client_id: id,
                    username: user.username.clone(),
                    password: user.password.clone(),
                },
            ),
            None => AuthStep::UnknownDp,
        }
    }

    /// The next step towards the token of a user: the kept token if there is
    /// one; else the capitals must be fetched if none is known; else log in.
    pub fn auth_step(&self, user: &User) -> (r: AuthStep)
        requires
            self.wf(),
        ensures
            r@ == auth_step_of(
                self.tokens(),
                self.capitals(),
                user.dp@,
                user.username@,
                user.password@,
            ),
    {
        match self.tokens.get(&user.username) {
            Some(t) => AuthStep::Cached(t),
            None => {
                if self.capitals.len() == 0 {
                    AuthStep::FetchCapitals
                } else {
                    self.login_step(user)
                }
            },
        }
    }

    /// Adds the fetched capitals to the known ones.
    pub fn record_capitals(&mut self, fetched: Vec<Capital>)
        requires
            old(self).wf(),
        ensures
            final(self).wf(),
            final(self).tokens() == old(self).tokens(),
            final(self).capitals() == old(self).capitals() + capitals_view(fetched@),
    {
        let ghost before = self.capitals@;
        let mut fetched = fetched;
        let ghost added = fetched@;
        self.capitals.append(&mut fetched);
        proof {
            assert(self.capitals@ =~= before + added);
            assert(capitals_view(before + added) =~= capitals_view(before) + capitals_view(added));
        }
    }

    /// Records the reply to a log-in: the token the service handed back, or
    /// nothing when the log-in failed. Gives the token that requests carry
    /// from now on: the new one, or the empty text after a failure.
    pub fn record_login(&mut self, user: &User, reply: Option<String>) -> (token: String)
        requires
            old(self).wf(),
        ensures
            final(self).wf(),
            final(self).capitals() == old(self).capitals(),
            match reply {
                Some(t) => token@ == t@ && final(self).tokens() == old(self).tokens().insert(
                    user.username@,
                    t@,
                ),
                None => token@ == Seq::<char>::empty() && final(self).tokens() == old(
                    self,
                ).tokens(),
            },
    {
        match reply {
            Some(t) => {
                self.tokens.insert(user.username.clone(), t.clone());
                t
            },
            None => String::new(),
        }
    }
}

/// After a user logged in with a token, the user's next step is that token
/// and no request.
pub proof fn law_login_is_remembered(
    tokens: Map<Seq<char>, Seq<char>>,
    caps: Seq<(Seq<char>, u32)>,
    dp: Seq<char>,
    username: Seq<char>,
    password: Seq<char>,
    token: Seq<char>,
)
    ensures
        auth_step_of(tokens.insert(username, token), caps, dp, username, password)
            == AuthStepView::Cached(token),
{
}

/// Logging one user in leaves the next step of every other user as it was.
pub proof fn law_login_keeps_other_users(
    tokens: Map<Seq<char>, Seq<char>>,
    caps: Seq<(Seq<char>, u32)>,
    username: Seq<char>,
    token: Seq<char>,
    other_dp: Seq<char>,
    other: Seq<char>,
    other_password: Seq<char>,
)
    requires
        other != username,
    ensures
        auth_step_of(tokens.insert(username, token), caps, other_dp, other, other_password)
            == auth_step_of(tokens, caps, other_dp, other, other_password),
{
    assert(tokens.insert(username, token).contains_key(other) == tokens.contains_key(other));
}

/// Once some capital is known, no step asks to fetch the capitals again.
pub proof fn law_capitals_fetched_once(
    tokens: Map<Seq<char>, Seq<char>>,
    known: Seq<(Seq<char>, u32)>,
    fetched: Seq<(Seq<char>, u32)>,
    dp: Seq<char>,
    username: Seq<char>,
    password: Seq<char>,
)
    requires
        fetched.len() > 0,
    ensures
        auth_step_of(tokens, known + fetched, dp, username, password)
            != AuthStepView::FetchCapitals,
{
}

/// The capital found for a code is the first capital whose code is exactly
/// that code, and none is found only when no capital has exactly that code.
pub proof fn law_first_with_code_is_first_exact_match(caps: Seq<(Seq<char>, u32)>, code: Seq<char>)
    ensures
        first_with_code(caps, code) matches Some(id) ==> exists|i: int|
            0 <= i < caps.len() && caps[i].0 == code && caps[i].1 == id && forall|j: int|
                0 <= j < i ==> caps[j].0 != code,
        first_with_code(caps, code) is None ==> forall|i: int|
            0 <= i < caps.len() ==> caps[i].0 != code,
    decreases caps.len(),
{
    if caps.len() > 0 {
        let rest = caps.drop_first();
        law_first_with_code_is_first_exact_match(rest, code);
        if caps[0].0 == code {
            assert(caps[0].0 == code && caps[0].1 == caps[0].1);
        } else {
            if let Some(id) = first_with_code(rest, code) {
                let k = choose|k: int|
                    0 <= k < rest.len() && rest[k].0 == code && rest[k].1 == id && forall|j: int|
                        0 <= j < k ==> rest[j].0 != code;
                assert(caps[k + 1] == rest[k]);
                assert forall|j: int| 0 <= j < k + 1 implies caps[j].0 != code by {
                    if j > 0 {
                        assert(caps[j] == rest[j - 1]);
                    }
                }
            } else {
                assert forall|i: int| 0 <= i < caps.len() implies caps[i].0 != code by {
                    if i > 0 {
                        assert(caps[i] == rest[i - 1]);
                    }
                }
            }
        }
    }
}

/// A user with no kept token, once capitals are known, logs in with the id
/// of the first capital whose code equals the user's participant code,
/// with the user's own name and password; the code is unknown only when no
/// capital has exactly that code.
pub proof fn law_login_uses_capital_of_exact_code(
    tokens: Map<Seq<char>, Seq<char>>,
    caps: Seq<(Seq<char>, u32)>,
    dp: Seq<char>,
    username: Seq<char>,
    password: Seq<char>,
)
    requires
        !tokens.contains_key(username),
        caps.len() > 0,
    ensures
        auth_step_of(tokens, caps, dp, username, password) matches AuthStepView::Login {
            client_id,
            username: u,
            password: p,
        } ==> u == username && p == password && exists|i: int|
            0 <= i < caps.len() && caps[i].0 == dp && caps[i].1 == client_id && forall|j: int|
                0 <= j < i ==> caps[j].0 != dp,
        auth_step_of(tokens, caps, dp, username, password) is UnknownDp <==> forall|i: int|
            0 <= i < caps.len() ==> caps[i].0 != dp,
        auth_step_of(tokens, caps, dp, username, password) is Login || auth_step_of(
            tokens,
            caps,
            dp,
            username,
            password,
        ) is UnknownDp,
{
    law_first_with_code_is_first_exact_match(caps, dp);
    if first_with_code(caps, dp) is Some {
        let id = first_with_code(caps, dp)->0;
        let i = choose|i: int|
            0 <= i < caps.len() && caps[i].0 == dp && caps[i].1 == id && forall|j: int|
                0 <= j < i ==> caps[j].0 != dp;
        assert(!(forall|i: int| 0 <= i < caps.len() ==> caps[i].0 != dp));
    }
}

} // verus!
