//! The login tokens kept per user name: a map from user name to token, with
//! the token file's read and write steps.

use vstd::prelude::*;

use crate::models::User;

verus! {

/// The map that a list of (user name, token) entries stands for; a later
/// entry for a name replaces an earlier one.
pub open spec fn map_of(s: Seq<(Seq<char>, Seq<char>)>) -> Map<Seq<char>, Seq<char>>
    decreases s.len(),
{
    if s.len() == 0 {
        Map::empty()
    } else {
        map_of(s.drop_last()).insert(s.last().0, s.last().1)
    }
}

/// No user name occurs twice.
pub open spec fn distinct_names(s: Seq<(Seq<char>, Seq<char>)>) -> bool {
    forall|i: int, j: int| 0 <= i < j < s.len() ==> #[trigger] s[i].0 != #[trigger] s[j].0
}

/// Tokens by user name.
pub struct TokenStore {
    entries: Vec<(String, String)>,
}

impl View for TokenStore {
    type V = Map<Seq<char>, Seq<char>>;

    closed spec fn view(&self) -> Map<Seq<char>, Seq<char>> {
        map_of(self.entries.deep_view())
    }
}

proof fn lemma_map_of_domain(s: Seq<(Seq<char>, Seq<char>)>, k: Seq<char>)
    ensures
        map_of(s).contains_key(k) <==> exists|i: int| 0 <= i < s.len() && #[trigger] s[i].0 == k,
    decreases s.len(),
{
    if s.len() > 0 {
        let t = s.drop_last();
        lemma_map_of_domain(t, k);
        if map_of(s).contains_key(k) && s.last().0 != k {
            let i = choose|i: int| 0 <= i < t.len() && #[trigger] t[i].0 == k;
            assert(s[i].0 == k);
        }
        if exists|i: int| 0 <= i < s.len() && #[trigger] s[i].0 == k {
            let i = choose|i: int| 0 <= i < s.len() && #[trigger] s[i].0 == k;
            if i < s.len() - 1 {
                assert(t[i].0 == k);
            }
        }
    }
}

proof fn lemma_map_of_value(s: Seq<(Seq<char>, Seq<char>)>, i: int)
    requires
        distinct_names(s),
        0 <= i < s.len(),
    ensures
        map_of(s).contains_key(s[i].0),
        map_of(s)[s[i].0] == s[i].1,
    decreases s.len(),
{
    let t = s.drop_last();
    if i < s.len() - 1 {
        assert(t[i] == s[i]);
        assert(distinct_names(t));
        lemma_map_of_value(t, i);
        assert(s[i].0 != s[s.len() - 1].0);
    }
}

proof fn lemma_map_of_update(s: Seq<(Seq<char>, Seq<char>)>, i: int, v: Seq<char>)
    requires
        distinct_names(s),
        0 <= i < s.len(),
    ensures
        map_of(s.update(i, (s[i].0, v))) =~= map_of(s).insert(s[i].0, v),
        distinct_names(s.update(i, (s[i].0, v))),
    decreases s.len(),
{
    let u = s.update(i, (s[i].0, v));
    let t = s.drop_last();
    if i == s.len() - 1 {
        assert(u.drop_last() =~= t);
        assert(!map_of(t).contains_key(s[i].0)) by {
            lemma_map_of_domain(t, s[i].0);
            if exists|j: int| 0 <= j < t.len() && #[trigger] t[j].0 == s[i].0 {
                let j = choose|j: int| 0 <= j < t.len() && #[trigger] t[j].0 == s[i].0;
                assert(s[j].0 == s[i].0);
            }
        }
    } else {
        assert(distinct_names(t));
        lemma_map_of_update(t, i, v);
        assert(u.drop_last() =~= t.update(i, (t[i].0, v)));
        assert(s.last().0 != s[i].0);
    }
}

impl TokenStore {
    /// The entries, no user name twice.
    pub closed spec fn wf(&self) -> bool {
        distinct_names(self.entries.deep_view())
    }

    /// A store that holds no token.
    pub fn new() -> (r: TokenStore)
        ensures
            r.wf(),
            r@ == Map::<Seq<char>, Seq<char>>::empty(),
    {
        let r = TokenStore { entries: Vec::new() };
        proof {
            assert(r.entries.deep_view() =~= Seq::<(Seq<char>, Seq<char>)>::empty());
        }
        r
    }

    /// How many user names have a token.
    pub fn len(&self) -> (n: usize)
        requires
            self.wf(),
        ensures
            n == self@.len(),
    {
        proof {
            self.lemma_len();
        }
        self.entries.len()
    }

    proof fn lemma_len(&self)
        requires
            self.wf(),
        ensures
            self@.len() == self.entries.len(),
            self@.dom().finite(),
    {
        lemma_distinct_map_len(self.entries.deep_view());
    }

    /// The token kept for `name`, if there is one.
    pub fn get(&self, name: &String) -> (r: Option<String>)
        requires
            self.wf(),
        ensures
            r is Some <==> self@.contains_key(name@),
            r matches Some(t) ==> t@ == self@[name@],
    {
        let ghost s = self.entries.deep_view();
        let n = self.entries.len();
        let mut i: usize = 0;
        while i < n
            invariant
                s == self.entries.deep_view(),
                n == s.len(),
                i <= n,
                distinct_names(s),
                forall|j: int| 0 <= j < i ==> #[trigger] s[j].0 != name@,
            decreases n - i,
        {
            assert(s[i as int] == self.entries[i as int].deep_view());
            if self.entries[i].0 == *name {
                proof {
                    lemma_map_of_value(s, i as int);
                }
                return Some(self.entries[i].1.clone());
            }
            i = i + 1;
        }
        proof {
            lemma_map_of_domain(s, name@);
        }
        None
    }

    /// Keeps `token` as the token of `name`, in place of any earlier one.
    pub fn insert(&mut self, name: String, token: String)
        requires
            old(self).wf(),
        ensures
            final(self).wf(),
            final(self)@ == old(self)@.insert(name@, token@),
    {
        let ghost s = self.entries.deep_view();
        let n = self.entries.len();
        let mut i: usize = 0;
        while i < n
            invariant
                s == self.entries.deep_view(),
                s == old(self).entries.deep_view(),
                n == s.len(),
                i <= n,
                distinct_names(s),
                forall|j: int| 0 <= j < i ==> #[trigger] s[j].0 != name@,
            decreases n - i,
        {
            assert(s[i as int] == self.entries[i as int].deep_view());
            if self.entries[i].0 == name {
                proof {
                    assert(s[i as int].0 == name@);
                    lemma_map_of_update(s, i as int, token@);
                }
                self.entries.set(i, (name, token));
                proof {
                    assert(self.entries.deep_view() =~= s.update(i as int, (s[i as int].0, token@)));
                }
                return;
            }
            i = i + 1;
        }
        let ghost e = (name@, token@);
        self.entries.push((name, token));
        proof {
            assert(self.entries.deep_view() =~= s.push(e));
            assert(s.push(e).drop_last() =~= s);
            assert(distinct_names(s.push(e)));
        }
    }

    /// The (user name, token) entries, each user name once.
    pub fn entries(&self) -> (r: Vec<(String, String)>)
        requires
            self.wf(),
        ensures
            distinct_names(r.deep_view()),
            map_of(r.deep_view()) == self@,
    {
        let n = self.entries.len();
        let mut r: Vec<(String, String)> = Vec::new();
        let mut i: usize = 0;
        while i < n
            invariant
                n == self.entries.len(),
                i <= n,
                r.deep_view() =~= self.entries.deep_view().subrange(0, i as int),
            decreases n - i,
        {
            let e = (self.entries[i].0.clone(), self.entries[i].1.clone());
            proof {
                assert(e.deep_view() == self.entries.deep_view()[i as int]);
            }
            r.push(e);
            proof {
                assert(self.entries.deep_view().subrange(0, i + 1) =~= self.entries.deep_view().subrange(0, i as int).push(e.deep_view()));
            }
            i = i + 1;
        }
        proof {
            assert(self.entries.deep_view().subrange(0, n as int) =~= self.entries.deep_view());
        }
        r
    }

    /// The store that the entries stand for, read in order: a later entry for
    /// a user name replaces an earlier one.
    pub fn from_entries(entries: Vec<(String, String)>) -> (r: TokenStore)
        ensures
            r.wf(),
            r@ == map_of(entries.deep_view()),
    {
        let mut r = TokenStore::new();
        let mut entries = entries;
        let ghost all = entries.deep_view();
        let mut rest: Vec<(String, String)> = Vec::new();
        // Take the entries out front to back by reversing them once.
        while entries.len() > 0
            invariant
                all =~= entries.deep_view() + rest.deep_view().reverse(),
            decreases entries.len(),
        {
            let e = entries.pop().unwrap();
            proof {
                assert(all =~= entries.deep_view() + rest.deep_view().push(e.deep_view()).reverse());
            }
            rest.push(e);
        }
        let ghost seen = Seq::<(Seq<char>, Seq<char>)>::empty();
        while rest.len() > 0
            invariant
                r.wf(),
                all =~= seen + rest.deep_view().reverse(),
                r@ == map_of(seen),
            decreases rest.len(),
        {
            let e = rest.pop().unwrap();
            proof {
                assert(all =~= seen.push(e.deep_view()) + rest.deep_view().reverse());
                assert(seen.push(e.deep_view()).drop_last() =~= seen);
                seen = seen.push(e.deep_view());
            }
            r.insert(e.0, e.1);
        }
        r
    }
}

proof fn lemma_distinct_map_len(s: Seq<(Seq<char>, Seq<char>)>)
    requires
        distinct_names(s),
    ensures
        map_of(s).dom().finite(),
        map_of(s).len() == s.len(),
    decreases s.len(),
{
    if s.len() > 0 {
        let t = s.drop_last();
        assert(distinct_names(t));
        lemma_distinct_map_len(t);
        lemma_map_of_domain(t, s.last().0);
        if map_of(t).contains_key(s.last().0) {
            let j = choose|j: int| 0 <= j < t.len() && #[trigger] t[j].0 == s.last().0;
            assert(s[j].0 == s[s.len() - 1].0);
        }
    }
}

/// The tokens as the token file gave them, or no tokens when it could not be read.
pub open spec fn stored_tokens(stored: Option<Map<Seq<char>, Seq<char>>>) -> Map<
    Seq<char>,
    Seq<char>,
> {
    match stored {
        Some(m) => m,
        None => Map::empty(),
    }
}

/// The view of the token file as read: the map, or nothing when reading failed.
pub open spec fn stored_view(stored: &Option<TokenStore>) -> Option<Map<Seq<char>, Seq<char>>> {
    match stored {
        Some(s) => Some(s@),
        None => None,
    }
}

/// The store is well formed wherever it is present.
pub open spec fn stored_wf(stored: &Option<TokenStore>) -> bool {
    match stored {
        Some(s) => s.wf(),
        None => true,
    }
}

/// The token kept for `id` in what was read from the token file: none when
/// the file could not be read or holds no token for `id`.
pub fn get_user_stored_token(stored: &Option<TokenStore>, id: &String) -> (r: Option<String>)
    requires
        stored_wf(stored),
    ensures
        r is Some <==> stored_tokens(stored_view(stored)).contains_key(id@),
        r matches Some(t) ==> t@ == stored_tokens(stored_view(stored))[id@],
{
    match stored {
        Some(s) => s.get(id),
        None => None,
    }
}

/// The tokens to write back to the token file after keeping `token` for
/// `user`: what was read (nothing when reading failed) with the user's
/// token put in.
pub fn store_user_token(stored: Option<TokenStore>, user: &User, token: &String) -> (r: TokenStore)
    requires
        stored_wf(&stored),
    ensures
        r.wf(),
        r@ == stored_tokens(stored_view(&stored)).insert(user.username@, token@),
{
    let mut tokens = match stored {
        Some(s) => s,
        None => TokenStore::new(),
    };
    tokens.insert(user.username.clone(), token.clone());
    tokens
}

/// A token kept for a user is the token read back for that user's name.
pub proof fn law_stored_token_read_back(
    stored: Option<Map<Seq<char>, Seq<char>>>,
    username: Seq<char>,
    token: Seq<char>,
)
    ensures
        stored_tokens(Some(stored_tokens(stored).insert(username, token))).contains_key(username),
        stored_tokens(Some(stored_tokens(stored).insert(username, token)))[username] == token,
{
}

/// Keeping a token for one user leaves the token of every other user as it was.
pub proof fn law_store_keeps_other_users(
    stored: Option<Map<Seq<char>, Seq<char>>>,
    username: Seq<char>,
    token: Seq<char>,
    other: Seq<char>,
)
    requires
        other != username,
    ensures
        stored_tokens(Some(stored_tokens(stored).insert(username, token))).contains_key(other)
            == stored_tokens(stored).contains_key(other),
        stored_tokens(Some(stored_tokens(stored).insert(username, token)))[other]
            == stored_tokens(stored)[other],
{
}

/// With no user name twice, the map of a list of entries holds exactly the
/// listed (user name, token) pairs.
proof fn lemma_map_of_pairs(s: Seq<(Seq<char>, Seq<char>)>, k: Seq<char>)
    requires
        distinct_names(s),
    ensures
        map_of(s).contains_key(k) ==> s.contains((k, map_of(s)[k])),
        forall|v: Seq<char>| #[trigger] s.contains((k, v)) ==> map_of(s).contains_key(k)
            && map_of(s)[k] == v,
{
    lemma_map_of_domain(s, k);
    if map_of(s).contains_key(k) {
        let i = choose|i: int| 0 <= i < s.len() && #[trigger] s[i].0 == k;
        lemma_map_of_value(s, i);
        assert(s[i] == (k, map_of(s)[k]));
    }
    assert forall|v: Seq<char>| #[trigger] s.contains((k, v)) implies map_of(s).contains_key(k)
        && map_of(s)[k] == v by {
        let i = choose|i: int| 0 <= i < s.len() && s[i] == (k, v);
        lemma_map_of_value(s, i);
    }
}

/// Tokens written out as entries and read back in another order give the
/// same tokens: two lists of entries, each naming no user twice, that hold
/// the same (user name, token) pairs stand for the same map.
pub proof fn law_entries_order_does_not_matter(
    written: Seq<(Seq<char>, Seq<char>)>,
    read: Seq<(Seq<char>, Seq<char>)>,
)
    requires
        distinct_names(written),
        distinct_names(read),
        forall|e: (Seq<char>, Seq<char>)| written.contains(e) <==> read.contains(e),
    ensures
        map_of(read) == map_of(written),
{
    assert forall|k: Seq<char>| #[trigger] map_of(read).contains_key(k) <==> map_of(
        written,
    ).contains_key(k) by {
        lemma_map_of_pairs(written, k);
        lemma_map_of_pairs(read, k);
        if map_of(read).contains_key(k) {
            assert(written.contains((k, map_of(read)[k])));
        }
        if map_of(written).contains_key(k) {
            assert(read.contains((k, map_of(written)[k])));
        }
    }
    assert forall|k: Seq<char>| #[trigger] map_of(read).contains_key(k) implies map_of(read)[k]
        == map_of(written)[k] by {
        lemma_map_of_pairs(written, k);
        lemma_map_of_pairs(read, k);
        assert(written.contains((k, map_of(read)[k])));
    }
    assert(map_of(read) =~= map_of(written));
}

} // verus!
