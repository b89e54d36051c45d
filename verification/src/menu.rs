//! The choices a user makes at the prompts: the menu action, a serial number
//! from a listing, a yes/no confirmation, the tag to total, the users file.

use vstd::prelude::*;

use crate::models::{IPOAppliedResult, IPOResult, User};
use crate::text::{contains, contains_text, trim, trimmed};

verus! {

/// What the menu offers.
#[derive(PartialEq, Eq, Structural, Clone, Copy, Debug)]
pub enum Action {
    ListOpenShares,
    ListResultShares,
    ViewPortfolio,
    ViewTransactions,
    CalculateProfit,
}

/// The action that a menu key stands for.
pub open spec fn action_of(c: char) -> Option<Action> {
    if c == '1' {
        Some(Action::ListOpenShares)
    } else if c == '2' {
        Some(Action::ListResultShares)
    } else if c == '3' {
        Some(Action::ViewPortfolio)
    } else if c == '4' {
        Some(Action::ViewTransactions)
    } else if c == '5' {
        Some(Action::CalculateProfit)
    } else {
        None
    }
}

/// The action chosen with a menu key: `1` to `5`; any other key is refused
/// with the message "Invalid Selection".
pub fn menu_action(c: char) -> (r: Result<Action, String>)
    ensures
        r matches Ok(a) ==> action_of(c) == Some(a),
        r matches Err(m) ==> action_of(c) is None && m@ == "Invalid Selection"@,
        r is Ok <==> action_of(c) is Some,
{
    if c == '1' {
        Ok(Action::ListOpenShares)
    } else if c == '2' {
        Ok(Action::ListResultShares)
    } else if c == '3' {
        Ok(Action::ViewPortfolio)
    } else if c == '4' {
        Ok(Action::ViewTransactions)
    } else if c == '5' {
        Ok(Action::CalculateProfit)
    } else {
        Err(String::from_str("Invalid Selection"))
    }
}

/// The action chosen with a whole typed line: the trimmed line must be just
/// one of the keys `1` to `5`.
pub fn menu_action_for_line(line: &str) -> (r: Result<Action, String>)
    ensures
        r matches Ok(a) ==> trimmed(line@).len() == 1 && action_of(trimmed(line@)[0]) == Some(a),
        r matches Err(m) ==> m@ == "Invalid Selection"@,
        r is Ok <==> (trimmed(line@).len() == 1 && action_of(trimmed(line@)[0]) is Some),
{
    let t = trim(line);
    if t.unicode_len() == 1 {
        menu_action(t.get_char(0))
    } else {
        Err(String::from_str("Invalid Selection"))
    }
}

/// Whether the key typed after an action asks for the menu again.
pub fn wants_menu(c: char) -> (b: bool)
    ensures
        b == (c == 'm'),
{
    c == 'm'
}

/// The position, counted from 0, of the entry with serial number `sn` in a
/// listing of `len` entries numbered from 1; nothing when `sn` is not one
/// of those numbers.
pub fn serial_index(sn: usize, len: usize) -> (r: Option<usize>)
    ensures
        r is Some <==> 1 <= sn <= len,
        r matches Some(i) ==> i == sn - 1 && i < len,
{
    if sn > 0 && sn <= len {
        Some(sn - 1)
    } else {
        None
    }
}

/// The answer to a yes/no question.
#[derive(PartialEq, Eq, Structural, Clone, Copy, Debug)]
pub enum Confirmation {
    Yes,
    No,
    Invalid,
}

/// `y` confirms, `n` declines, any other key is an invalid selection.
pub fn confirmation(c: char) -> (r: Confirmation)
    ensures
        r == (if c == 'y' {
            Confirmation::Yes
        } else if c == 'n' {
            Confirmation::No
        } else {
            Confirmation::Invalid
        }),
{
    if c == 'y' {
        Confirmation::Yes
    } else if c == 'n' {
        Confirmation::No
    } else {
        Confirmation::Invalid
    }
}

/// The tag whose users are totalled, chosen by key: `1` is the family tag,
/// the only one offered.
pub fn tag_for_choice(c: char) -> (r: Option<String>)
    ensures
        r is Some <==> c == '1',
        r matches Some(t) ==> t@ == "family"@,
{
    if c == '1' {
        Some(String::from_str("family"))
    } else {
        None
    }
}

/// The user carries the tag.
pub open spec fn has_tag(user: User, tag: Seq<char>) -> bool {
    exists|k: int| 0 <= k < user.tags.len() && #[trigger] user.tags@[k]@ == tag
}

/// Whether the user carries the tag.
pub fn user_has_tag(user: &User, tag: &String) -> (b: bool)
    ensures
        b == has_tag(*user, tag@),
{
    let n = user.tags.len();
    let mut k: usize = 0;
    while k < n
        invariant
            n == user.tags.len(),
            k <= n,
            forall|j: int| 0 <= j < k ==> #[trigger] user.tags@[j]@ != tag@,
        decreases n - k,
    {
        if user.tags[k] == *tag {
            return true;
        }
        k = k + 1;
    }
    false
}

/// The positions of the users that carry the tag, in order.
pub open spec fn tagged_positions(users: Seq<User>, tag: Seq<char>) -> Seq<usize>
    decreases users.len(),
{
    if users.len() == 0 {
        Seq::empty()
    } else {
        let rest = tagged_positions(users.drop_last(), tag);
        if has_tag(users.last(), tag) {
            rest.push((users.len() - 1) as usize)
        } else {
            rest
        }
    }
}

/// The positions of the users that carry the tag, in the order of the list.
pub fn users_with_tag(users: &Vec<User>, tag: &String) -> (r: Vec<usize>)
    ensures
        r@ == tagged_positions(users@, tag@),
        forall|i: int|
            0 <= i < users.len() ==> (r@.contains(i as usize) <==> has_tag(
                #[trigger] users@[i],
                tag@,
            )),
        forall|a: int, b: int| 0 <= a < b < r.len() ==> #[trigger] r@[a] < #[trigger] r@[b],
{
    let n = users.len();
    let mut r: Vec<usize> = Vec::new();
    let mut i: usize = 0;
    while i < n
        invariant
            n == users.len(),
            i <= n,
            r@ == tagged_positions(users@.subrange(0, i as int), tag@),
        decreases n - i,
    {
        proof {
            assert(users@.subrange(0, i + 1).drop_last() =~= users@.subrange(0, i as int));
        }
        if user_has_tag(&users[i], tag) {
            r.push(i);
        }
        i = i + 1;
    }
    proof {
        assert(users@.subrange(0, n as int) =~= users@);
        law_tagged_positions_are_the_tagged_users(users@, tag@);
    }
    r
}

impl IPOAppliedResult {
    /// An application went through unless its status says "Not".
    pub open spec fn succeeded_spec(&self) -> bool {
        !contains_text(self.status@, "Not"@)
    }

    /// Whether the application went through: its status does not contain "Not".
    pub fn succeeded(&self) -> (b: bool)
        ensures
            b == self.succeeded_spec(),
    {
        !contains(self.status.as_str(), "Not")
    }
}

impl IPOResult {
    /// A result is a success unless its status says "Not" or "Rejected".
    pub open spec fn succeeded_spec(&self) -> bool {
        !contains_text(self.status@, "Not"@) && !contains_text(self.status@, "Rejected"@)
    }

    /// Whether the result is a success: its status contains neither "Not"
    /// nor "Rejected".
    pub fn succeeded(&self) -> (b: bool)
        ensures
            b == self.succeeded_spec(),
    {
        !contains(self.status.as_str(), "Not") && !contains(self.status.as_str(), "Rejected")
    }
}

/// Where the users file is to be found before anything is typed.
pub enum UsersPath {
    /// Read this file.
    Use(String),
    /// Ask the user for the path.
    Ask,
}

/// The file named on the command line, else `users.json` when that file
/// exists, else the user is asked.
pub fn users_path_from_args(arg: Option<&str>, default_exists: bool) -> (r: UsersPath)
    ensures
        match arg {
            Some(a) => r matches UsersPath::Use(p) && p@ == a@,
            None => if default_exists {
                r matches UsersPath::Use(p) && p@ == "users.json"@
            } else {
                r is Ask
            },
        },
{
    match arg {
        Some(a) => UsersPath::Use(a.to_owned()),
        None => {
            if default_exists {
                UsersPath::Use(String::from_str("users.json"))
            } else {
                UsersPath::Ask
            }
        },
    }
}

/// The path the user typed, trimmed; nothing when only whitespace was typed.
pub fn users_path_from_input(line: &str) -> (r: Option<String>)
    ensures
        r is Some <==> trimmed(line@).len() > 0,
        r matches Some(p) ==> p@ == trimmed(line@),
{
    let t = trim(line);
    if t.unicode_len() == 0 {
        None
    } else {
        Some(t.to_owned())
    }
}

/// Where the menu loop stands: waiting for an action key, waiting for the
/// key that asks for the menu again, or finished.
#[derive(PartialEq, Eq, Structural, Clone, Copy, Debug)]
pub enum MenuState {
    AwaitingAction,
    AwaitingContinue,
    Done,
}

/// What the front end does after a key.
#[derive(PartialEq, Eq, Structural, Clone, Copy, Debug)]
pub enum MenuEffect {
    /// Carry out the action, then ask whether to show the menu again.
    Perform(Action),
    /// Say the choice is invalid and show the menu again at once.
    InvalidChoice,
    /// Show the menu again.
    ShowMenu,
    /// Stop.
    Quit,
}

/// One step of the menu loop: an action key is carried out, any other key
/// is refused and the menu shown again with no further question; after an
/// action, `m` shows the menu again and any other key ends the loop.
pub open spec fn menu_step_of(state: MenuState, key: char) -> (MenuState, MenuEffect) {
    match state {
        MenuState::AwaitingAction => match action_of(key) {
            Some(a) => (MenuState::AwaitingContinue, MenuEffect::Perform(a)),
            None => (MenuState::AwaitingAction, MenuEffect::InvalidChoice),
        },
        MenuState::AwaitingContinue => if key == 'm' {
            (MenuState::AwaitingAction, MenuEffect::ShowMenu)
        } else {
            (MenuState::Done, MenuEffect::Quit)
        },
        MenuState::Done => (MenuState::Done, MenuEffect::Quit),
    }
}

/// The next state of the menu loop and what to do, given the key typed.
pub fn menu_step(state: MenuState, key: char) -> (r: (MenuState, MenuEffect))
    ensures
        r == menu_step_of(state, key),
        state == MenuState::AwaitingContinue ==> (r.1 == MenuEffect::ShowMenu <==> key == 'm'),
        state == MenuState::AwaitingContinue && key != 'm' ==> r == (MenuState::Done, MenuEffect::Quit),
{
    match state {
        MenuState::AwaitingAction => match menu_action(key) {
            Ok(a) => (MenuState::AwaitingContinue, MenuEffect::Perform(a)),
            Err(_) => (MenuState::AwaitingAction, MenuEffect::InvalidChoice),
        },
        MenuState::AwaitingContinue => {
            if wants_menu(key) {
                (MenuState::AwaitingAction, MenuEffect::ShowMenu)
            } else {
                (MenuState::Done, MenuEffect::Quit)
            }
        },
        MenuState::Done => (MenuState::Done, MenuEffect::Quit),
    }
}

/// The first character of a line as typed, whitespace included.
pub fn first_char(line: &str) -> (c: Option<char>)
    ensures
        c is Some <==> line@.len() > 0,
        c matches Some(x) ==> x == line@[0],
{
    if line.unicode_len() > 0 {
        Some(line.get_char(0))
    } else {
        None
    }
}

/// The users file as typed at the prompt that offers a default: the trimmed
/// path, or `users.json` when only whitespace was typed.
pub fn users_path_or_default(line: &str) -> (p: String)
    ensures
        trimmed(line@).len() == 0 ==> p@ == "users.json"@,
        trimmed(line@).len() > 0 ==> p@ == trimmed(line@),
{
    match users_path_from_input(line) {
        Some(p) => p,
        None => String::from_str("users.json"),
    }
}

/// The tag chosen with a whole typed line: the trimmed line `1` is the
/// family tag; any other line chooses none.
pub fn tag_for_line(line: &str) -> (r: Option<String>)
    ensures
        r is Some <==> (trimmed(line@).len() == 1 && trimmed(line@)[0] == '1'),
        r matches Some(t) ==> t@ == "family"@,
{
    let t = trim(line);
    if t.unicode_len() == 1 {
        tag_for_choice(t.get_char(0))
    } else {
        None
    }
}

/// A user is among the tagged positions exactly when that user carries the
/// tag (the last user of the list included), every position names a user,
/// and the positions come in increasing order.
pub proof fn law_tagged_positions_are_the_tagged_users(users: Seq<User>, tag: Seq<char>)
    requires
        users.len() <= usize::MAX,
    ensures
        forall|i: int|
            0 <= i < users.len() ==> (tagged_positions(users, tag).contains(i as usize)
                <==> has_tag(#[trigger] users[i], tag)),
        forall|k: int|
            0 <= k < tagged_positions(users, tag).len() ==> #[trigger] tagged_positions(
                users,
                tag,
            )[k] < users.len(),
        forall|a: int, b: int|
            0 <= a < b < tagged_positions(users, tag).len() ==> #[trigger] tagged_positions(
                users,
                tag,
            )[a] < #[trigger] tagged_positions(users, tag)[b],
    decreases users.len(),
{
    if users.len() > 0 {
        let init = users.drop_last();
        law_tagged_positions_are_the_tagged_users(init, tag);
        let rest = tagged_positions(init, tag);
        let r = tagged_positions(users, tag);
        let n = users.len() - 1;
        let last = n as usize;
        assert(last as int == n);
        if has_tag(users.last(), tag) {
            assert(r == rest.push(last));
            assert forall|k: int| 0 <= k < r.len() implies #[trigger] r[k] < users.len() by {
                if k < rest.len() {
                    assert(r[k] == rest[k]);
                }
            }
            assert forall|a: int, b: int| 0 <= a < b < r.len() implies #[trigger] r[a]
                < #[trigger] r[b] by {
                assert(r[a] == rest[a]);
                if b < rest.len() {
                    assert(r[b] == rest[b]);
                } else {
                    assert(rest[a] < init.len());
                }
            }
        } else {
            assert(r == rest);
        }
        assert forall|i: int| 0 <= i < users.len() implies (r.contains(i as usize) <==> has_tag(
            #[trigger] users[i],
            tag,
        )) by {
            if i < n {
                assert(init[i] == users[i]);
                assert(rest.contains(i as usize) <==> has_tag(init[i], tag));
                if has_tag(users.last(), tag) {
                    if r.contains(i as usize) {
                        let k = choose|k: int| 0 <= k < r.len() && r[k] == i as usize;
                        if k < rest.len() {
                            assert(rest[k] == r[k]);
                            assert(rest.contains(i as usize));
                        } else {
                            assert(r[k] == last);
                        }
                    }
                    if rest.contains(i as usize) {
                        let k = choose|k: int| 0 <= k < rest.len() && rest[k] == i as usize;
                        assert(r[k] == rest[k]);
                        assert(r.contains(i as usize));
                    }
                }
            } else {
                assert(i == n);
                assert(users[i] == users.last());
                if has_tag(users.last(), tag) {
                    assert(r[r.len() - 1] == last);
                    assert(r.contains(i as usize));
                } else {
                    if rest.contains(last) {
                        let k = choose|k: int| 0 <= k < rest.len() && rest[k] == last;
                        assert(rest[k] < init.len());
                    }
                }
            }
        }
    }
}

/// After an action, the menu is shown again exactly when the key is `m`;
/// every other key ends the loop. Before an action, a key that names an
/// action carries it out and any other key is refused with the menu shown
/// again; once finished, the loop stays finished.
pub proof fn law_menu_step_keys(key: char)
    ensures
        menu_step_of(MenuState::AwaitingContinue, key).1 == MenuEffect::ShowMenu <==> key == 'm',
        key == 'm' ==> menu_step_of(MenuState::AwaitingContinue, key).0
            == MenuState::AwaitingAction,
        key != 'm' ==> menu_step_of(MenuState::AwaitingContinue, key) == (
            MenuState::Done,
            MenuEffect::Quit,
        ),
        ('1' <= key <= '5') <==> menu_step_of(MenuState::AwaitingAction, key).1 is Perform,
        !('1' <= key <= '5') ==> menu_step_of(MenuState::AwaitingAction, key) == (
            MenuState::AwaitingAction,
            MenuEffect::InvalidChoice,
        ),
        menu_step_of(MenuState::Done, key) == (MenuState::Done, MenuEffect::Quit),
{
    if '1' <= key <= '5' {
        assert(key == '1' || key == '2' || key == '3' || key == '4' || key == '5');
    }
}

} // verus!
