//! The registry of users: each user added gets the next number.

use vstd::prelude::*;

verus! {

/// A registered user.
#[derive(Clone, Debug)]
pub struct User {
    id: Option<u64>,
    first_name: String,
}

/// A user to be registered.
#[derive(Debug)]
pub struct NewUser {
    first_name: String,
}

/// The registry: the users in the order they were added.
pub type Users = Vec<User>;

impl View for User {
    type V = (Option<u64>, Seq<char>);

    closed spec fn view(&self) -> (Option<u64>, Seq<char>) {
        (self.id, self.first_name@)
    }
}

impl User {
    /// The number of the user, if it has one.
    pub fn id(&self) -> (r: Option<u64>)
        ensures
            r == self@.0,
    {
        self.id
    }

    /// The first name of the user.
    pub fn first_name(&self) -> (r: &str)
        ensures
            r@ == self@.1,
    {
        self.first_name.as_str()
    }
}

impl NewUser {
    /// A user to be registered under `first_name`.
    pub fn new(first_name: &str) -> (r: NewUser)
        ensures
            r.name() == first_name@,
    {
        NewUser { first_name: String::from_str(first_name) }
    }

    /// The first name of the user to be registered.
    pub closed spec fn name(&self) -> Seq<char> {
        self.first_name@
    }

    /// The user, not numbered yet.
    pub fn to_internal(self) -> (u: User)
        ensures
            u@ == (None::<u64>, self.name()),
    {
        User { id: None, first_name: self.first_name }
    }
}

/// The views of the users of a registry.
pub open spec fn user_views(users: Seq<User>) -> Seq<(Option<u64>, Seq<char>)> {
    users.map_values(|u: User| u@)
}

/// A registry in which every user carries its position, counted from one, as
/// its number.
pub open spec fn numbered(users: Seq<(Option<u64>, Seq<char>)>) -> bool {
    forall|i: int| 0 <= i < users.len() ==> #[trigger] users[i].0 == Some((i + 1) as u64)
}

/// Registers `nu`: it gets the number after the last, and is appended.
pub fn push(users: &mut Users, nu: NewUser) -> (user: User)
    requires
        old(users)@.len() < usize::MAX,
    ensures
        user@ == (Some((old(users)@.len() + 1) as u64), nu.name()),
        user_views(final(users)@) == user_views(old(users)@).push(user@),
{
    let mut user = nu.to_internal();
    user.id = Some((users.len() + 1) as u64);
    let copy = User { id: user.id, first_name: user.first_name.clone() };
    users.push(copy);
    assert(user_views(users@) =~= user_views(old(users)@).push(user@));
    user
}

/// All users of the registry, in the order they were added.
pub fn list(users: &Users) -> (r: Users)
    ensures
        user_views(r@) == user_views(users@),
{
    let mut r: Users = Vec::new();
    let mut i: usize = 0;
    while i < users.len()
        invariant
            i <= users@.len(),
            user_views(r@) == user_views(users@).take(i as int),
        decreases users@.len() - i,
    {
        let u = &users[i];
        let c = User { id: u.id, first_name: u.first_name.clone() };
        assert(c@ == users@[i as int]@);
        let ghost before = r@;
        r.push(c);
        assert(r@ == before.push(c));
        assert(user_views(before.push(c)) =~= user_views(before).push(c@));
        assert(user_views(users@)[i as int] == users@[i as int]@);
        assert(user_views(users@).take(i + 1) =~= user_views(users@).take(i as int).push(
            user_views(users@)[i as int],
        ));
        assert(user_views(r@) =~= user_views(users@).take(i + 1));
        i = i + 1;
    }
    assert(user_views(users@).take(users@.len() as int) =~= user_views(users@));
    r
}

/// The registry that registering users under `names`, one after another,
/// makes from an empty one: the user at position `i` is named `names[i]` and
/// numbered `i + 1`.
pub open spec fn registry_of(names: Seq<Seq<char>>) -> Seq<(Option<u64>, Seq<char>)> {
    Seq::new(names.len(), |i: int| (Some((i + 1) as u64), names[i]))
}

/// Registering users one after another, starting from an empty registry:
/// `states[k]` is the registry after the first `k` registrations, each of
/// which appended the user named `names[k]` with the number after the last
/// (what `push` ensures). Then the users are numbered one to the number of
/// registrations, no two alike, in the order they were registered, and each
/// registered user is in the registry once, under its name.
pub proof fn lemma_registry_after_pushes(
    names: Seq<Seq<char>>,
    states: Seq<Seq<(Option<u64>, Seq<char>)>>,
)
    requires
        names.len() <= u64::MAX,
        states.len() == names.len() + 1,
        states[0] == Seq::<(Option<u64>, Seq<char>)>::empty(),
        forall|k: int|
            0 <= k < names.len() ==> #[trigger] states[k + 1] == states[k].push(
                (Some((states[k].len() + 1) as u64), names[k]),
            ),
    ensures
        states.last() == registry_of(names),
        numbered(states.last()),
        forall|i: int, j: int|
            0 <= i < j < states.last().len() ==> #[trigger] states.last()[i].0 != #[trigger] states.last()[j].0,
    decreases names.len(),
{
    if names.len() == 0 {
        assert(states.last() =~= registry_of(names));
    } else {
        let n = (names.len() - 1) as int;
        let fewer = names.take(n);
        let earlier = states.take(n + 1);
        assert forall|k: int| 0 <= k < fewer.len() implies #[trigger] earlier[k + 1]
            == earlier[k].push((Some((earlier[k].len() + 1) as u64), fewer[k])) by {
            assert(states[k + 1] == states[k].push(
                (Some((states[k].len() + 1) as u64), names[k]),
            ));
        }
        lemma_registry_after_pushes(fewer, earlier);
        assert(earlier.last() == states[n]);
        assert(states[n + 1] == states[n].push((Some((states[n].len() + 1) as u64), names[n])));
        assert(states.last() =~= registry_of(names));
    }
    let last = states.last();
    assert forall|i: int| 0 <= i < last.len() implies #[trigger] last[i].0 == Some(
        (i + 1) as u64,
    ) by {
        assert(last == registry_of(names));
    }
    assert forall|i: int, j: int| 0 <= i < j < last.len() implies #[trigger] last[i].0
        != #[trigger] last[j].0 by {
        assert(last[i].0 == Some((i + 1) as u64));
        assert(last[j].0 == Some((j + 1) as u64));
    }
}

/// Registering keeps the registry numbered: the users, in the order they were
/// added, are numbered one, two, three and so on.
pub proof fn lemma_push_keeps_numbering(
    before: Seq<(Option<u64>, Seq<char>)>,
    user: (Option<u64>, Seq<char>),
)
    requires
        numbered(before),
        user.0 == Some((before.len() + 1) as u64),
    ensures
        numbered(before.push(user)),
{
    assert forall|i: int| 0 <= i < before.push(user).len() implies #[trigger] before.push(
        user,
    )[i].0 == Some((i + 1) as u64) by {
        if i < before.len() {
            assert(before.push(user)[i] == before[i]);
        }
    }
}

} // verus!
