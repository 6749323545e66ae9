//! Credential entries and the insertion-ordered credential list.
//!
//! Lookup identity is the pair `(service, username)`: equality is exact
//! string match and a missing username is distinct from an empty one.
//! Duplicates may coexist; lookup and removal always act on the first
//! matching entry in insertion order.

use vstd::prelude::*;

verus! {

/// The mathematical value of one credential entry.
pub struct EntryView {
    pub service: Seq<char>,
    pub username: Option<Seq<char>>,
    pub password: Seq<char>,
}

/// One stored credential: a service name, an optional username and a password.
#[derive(Debug, Clone)]
pub struct PasswordEntry {
    pub service: String,
    pub username: Option<String>,
    pub password: String,
}

impl View for PasswordEntry {
    type V = EntryView;

    open spec fn view(&self) -> EntryView {
        EntryView {
            service: self.service@,
            username: match self.username {
                Some(u) => Some(u@),
                None => None,
            },
            password: self.password@,
        }
    }
}

/// The value of an optional string, used to state lookups over views.
pub open spec fn opt_view(u: Option<String>) -> Option<Seq<char>> {
    match u {
        Some(s) => Some(s@),
        None => None,
    }
}

/// Whether an entry is the one identified by `(service, username)`.
pub open spec fn entry_matches(e: EntryView, service: Seq<char>, username: Option<Seq<char>>) -> bool {
    e.service == service && e.username == username
}

/// Whether some entry of `es` is identified by `(service, username)`.
pub open spec fn has_match(es: Seq<EntryView>, service: Seq<char>, username: Option<Seq<char>>) -> bool {
    exists|j: int| 0 <= j < es.len() && entry_matches(es[j], service, username)
}

/// The position of the first matching entry, or `es.len()` when none matches.
pub open spec fn first_match_idx(
    es: Seq<EntryView>,
    service: Seq<char>,
    username: Option<Seq<char>>,
) -> int
    decreases es.len(),
{
    if es.len() == 0 {
        0
    } else if entry_matches(es[0], service, username) {
        0
    } else {
        1 + first_match_idx(es.drop_first(), service, username)
    }
}

/// The first matching entry in insertion order, if any.
pub open spec fn find_first(
    es: Seq<EntryView>,
    service: Seq<char>,
    username: Option<Seq<char>>,
) -> Option<EntryView> {
    if has_match(es, service, username) {
        Some(es[first_match_idx(es, service, username)])
    } else {
        None
    }
}

/// The list with its first matching entry removed; unchanged when none matches.
pub open spec fn remove_first(
    es: Seq<EntryView>,
    service: Seq<char>,
    username: Option<Seq<char>>,
) -> Seq<EntryView> {
    if has_match(es, service, username) {
        es.remove(first_match_idx(es, service, username))
    } else {
        es
    }
}

/// `first_match_idx` points at the first match: everything before it
/// mismatches, and it lies inside the list exactly when a match exists.
pub proof fn lemma_first_match_idx(
    es: Seq<EntryView>,
    service: Seq<char>,
    username: Option<Seq<char>>,
)
    ensures
        0 <= first_match_idx(es, service, username) <= es.len(),
        has_match(es, service, username) <==> first_match_idx(es, service, username) < es.len(),
        has_match(es, service, username) ==> entry_matches(
            es[first_match_idx(es, service, username)],
            service,
            username,
        ),
        forall|j: int|
            0 <= j < first_match_idx(es, service, username) ==> !entry_matches(
                es[j],
                service,
                username,
            ),
    decreases es.len(),
{
    if es.len() == 0 {
        assert(!has_match(es, service, username));
    } else if entry_matches(es[0], service, username) {
        assert(has_match(es, service, username));
    } else {
        let rest = es.drop_first();
        lemma_first_match_idx(rest, service, username);
        assert(forall|j: int| 0 <= j < rest.len() ==> rest[j] == es[j + 1]);
        if has_match(rest, service, username) {
            let j = choose|j: int| 0 <= j < rest.len() && entry_matches(rest[j], service, username);
            assert(entry_matches(es[j + 1], service, username));
            assert(has_match(es, service, username));
        }
        if has_match(es, service, username) {
            let j = choose|j: int| 0 <= j < es.len() && entry_matches(es[j], service, username);
            assert(j != 0);
            assert(entry_matches(rest[j - 1], service, username));
            assert(has_match(rest, service, username));
        }
        assert(first_match_idx(es, service, username) == 1 + first_match_idx(
            rest,
            service,
            username,
        ));
        if has_match(es, service, username) {
            assert(es[first_match_idx(es, service, username)] == rest[first_match_idx(
                rest,
                service,
                username,
            )]);
        }
        assert forall|j: int|
            0 <= j < first_match_idx(es, service, username) implies !entry_matches(
            es[j],
            service,
            username,
        ) by {
            if j > 0 {
                assert(es[j] == rest[j - 1]);
            }
        }
    }
}

/// Removing the first match exposes, as the new first match, the first
/// match of what followed the removed entry in insertion order.
pub proof fn lemma_pop_then_find(
    es: Seq<EntryView>,
    service: Seq<char>,
    username: Option<Seq<char>>,
)
    requires
        has_match(es, service, username),
    ensures
        find_first(remove_first(es, service, username), service, username) == find_first(
            es.subrange(first_match_idx(es, service, username) + 1, es.len() as int),
            service,
            username,
        ),
    decreases es.len(),
{
    lemma_first_match_idx(es, service, username);
    let i = first_match_idx(es, service, username);
    if i == 0 {
        assert(es.remove(0) =~= es.subrange(1, es.len() as int));
    } else {
        let rest = es.drop_first();
        assert(forall|j: int| 0 <= j < rest.len() ==> rest[j] == es[j + 1]);
        lemma_first_match_idx(rest, service, username);
        assert(entry_matches(rest[i - 1], service, username));
        assert(has_match(rest, service, username));
        lemma_pop_then_find(rest, service, username);
        assert(first_match_idx(rest, service, username) == i - 1);
        assert(rest.remove(i - 1) =~= es.remove(i).drop_first());
        assert(rest.subrange(i, rest.len() as int) =~= es.subrange(i + 1, es.len() as int));
        lemma_first_match_idx(es.remove(i), service, username);
        lemma_first_match_idx(rest.remove(i - 1), service, username);
        let removed = es.remove(i);
        assert(!entry_matches(removed[0], service, username));
        assert(forall|j: int| 0 <= j < removed.len() - 1 ==> removed.drop_first()[j] == removed[
            j + 1
        ]);
        if has_match(removed.drop_first(), service, username) {
            let j = choose|j: int|
                0 <= j < removed.drop_first().len() && entry_matches(
                    removed.drop_first()[j],
                    service,
                    username,
                );
            assert(entry_matches(removed[j + 1], service, username));
        }
        if has_match(removed, service, username) {
            let j = choose|j: int|
                0 <= j < removed.len() && entry_matches(removed[j], service, username);
            assert(j != 0);
            assert(entry_matches(removed.drop_first()[j - 1], service, username));
        }
        assert(has_match(removed, service, username) == has_match(
            removed.drop_first(),
            service,
            username,
        ));
        if has_match(removed, service, username) {
            assert(first_match_idx(removed, service, username) == 1 + first_match_idx(
                removed.drop_first(),
                service,
                username,
            ));
        }
    }
}

impl PasswordEntry {
    pub fn new(service: String, username: Option<String>, password: String) -> (r: PasswordEntry)
        ensures
            r@.service == service@,
            r@.username == opt_view(username),
            r@.password == password@,
    {
        PasswordEntry { service, username, password }
    }

    pub fn get_password(&self) -> (r: String)
        ensures
            r@ == self@.password,
    {
        self.password.clone()
    }

    /// An owned copy whose value equals this entry's.
    pub fn duplicate(&self) -> (r: PasswordEntry)
        ensures
            r@ == self@,
    {
        PasswordEntry {
            service: self.service.clone(),
            username: match &self.username {
                Some(u) => Some(u.clone()),
                None => None,
            },
            password: self.password.clone(),
        }
    }

    /// Whether this entry is identified by `(service, username)`.
    pub fn matches(&self, service: &String, username: &Option<String>) -> (r: bool)
        ensures
            r == entry_matches(self@, service@, opt_view(*username)),
    {
        let user_eq = match (&self.username, username) {
            (Some(a), Some(b)) => *a == *b,
            (None, None) => true,
            _ => false,
        };
        self.service == *service && user_eq
    }
}

impl PartialEq for PasswordEntry {
    fn eq(&self, other: &PasswordEntry) -> (r: bool) {
        let user_eq = match (&self.username, &other.username) {
            (Some(a), Some(b)) => *a == *b,
            (None, None) => true,
            _ => false,
        };
        self.service == other.service && user_eq && self.password == other.password
    }
}

impl vstd::std_specs::cmp::PartialEqSpecImpl for PasswordEntry {
    open spec fn obeys_eq_spec() -> bool {
        true
    }

    open spec fn eq_spec(&self, other: &PasswordEntry) -> bool {
        self@ == other@
    }
}

/// The insertion-ordered list of credential entries.
#[derive(Debug)]
pub struct Passwords(pub Vec<PasswordEntry>);

impl View for Passwords {
    type V = Seq<EntryView>;

    open spec fn view(&self) -> Seq<EntryView> {
        Seq::new(self.0.len() as nat, |i: int| self.0[i]@)
    }
}

impl Passwords {
    pub fn new() -> (r: Passwords)
        ensures
            r@ =~= Seq::<EntryView>::empty(),
    {
        Passwords(Vec::new())
    }

    /// Appends an entry at the end, keeping all existing entries in place.
    pub fn append(&mut self, new_password: PasswordEntry)
        ensures
            final(self)@ == old(self)@.push(new_password@),
    {
        let ghost before = self@;
        self.0.push(new_password);
        proof {
            assert(self@ =~= before.push(new_password@));
        }
    }

    /// The position of the first entry identified by `(service, username)`.
    fn find_index(&self, service: &String, username: &Option<String>) -> (r: Option<usize>)
        ensures
            match r {
                Some(i) => has_match(self@, service@, opt_view(*username)) && i
                    == first_match_idx(self@, service@, opt_view(*username)),
                None => !has_match(self@, service@, opt_view(*username)),
            },
    {
        let ghost uv = opt_view(*username);
        proof {
            lemma_first_match_idx(self@, service@, uv);
        }
        let n = self.0.len();
        let mut i: usize = 0;
        while i < n
            invariant
                uv == opt_view(*username),
                n == self.0.len(),
                0 <= i <= n,
                forall|j: int| 0 <= j < i ==> !entry_matches(self@[j], service@, uv),
                first_match_idx(self@, service@, uv) >= i,
            decreases n - i,
        {
            let hit = self.0[i].matches(service, username);
            proof {
                assert(self@[i as int] == self.0[i as int]@);
            }
            if hit {
                proof {
                    assert(entry_matches(self@[i as int], service@, uv));
                    lemma_idx_of_scan(self@, service@, uv, i as int);
                }
                return Some(i);
            }
            proof {
                assert(!entry_matches(self@[i as int], service@, uv));
                lemma_idx_past_mismatch(self@, service@, uv, i as int);
            }
            i += 1;
        }
        proof {
            lemma_first_match_idx(self@, service@, uv);
        }
        None
    }

    /// Returns the first entry identified by `(service, username)`, or none.
    pub fn find(&self, service: String, username: Option<String>) -> (r: Option<&PasswordEntry>)
        ensures
            match r {
                Some(e) => find_first(self@, service@, opt_view(username)) == Some(e@),
                None => find_first(self@, service@, opt_view(username)) is None,
            },
    {
        match self.find_index(&service, &username) {
            Some(i) => {
                proof {
                    lemma_first_match_idx(self@, service@, opt_view(username));
                }
                Some(&self.0[i])
            },
            None => None,
        }
    }

    /// Removes and returns the first entry identified by `(service, username)`,
    /// preserving the relative order of the remaining entries; returns none
    /// and leaves the list unchanged when no entry matches.
    pub fn remove(&mut self, service: String, username: Option<String>) -> (r: Option<
        PasswordEntry,
    >)
        ensures
            final(self)@ == remove_first(old(self)@, service@, opt_view(username)),
            match r {
                Some(e) => find_first(old(self)@, service@, opt_view(username)) == Some(e@),
                None => find_first(old(self)@, service@, opt_view(username)) is None,
            },
    {
        let ghost before = old(self)@;
        let ghost uv = opt_view(username);
        proof {
            lemma_first_match_idx(before, service@, uv);
        }
        match self.find_index(&service, &username) {
            Some(i) => {
                let e = self.0.remove(i);
                proof {
                    assert(self@ =~= before.remove(i as int));
                }
                Some(e)
            },
            None => None,
        }
    }
}

/// A scan that mismatched everywhere before a matching position `i` has in
/// fact found the first match.
proof fn lemma_idx_of_scan(
    es: Seq<EntryView>,
    service: Seq<char>,
    username: Option<Seq<char>>,
    i: int,
)
    requires
        0 <= i < es.len(),
        entry_matches(es[i], service, username),
        forall|j: int| 0 <= j < i ==> !entry_matches(es[j], service, username),
    ensures
        has_match(es, service, username),
        first_match_idx(es, service, username) == i,
    decreases es.len(),
{
    if i == 0 {
    } else {
        let rest = es.drop_first();
        assert(forall|j: int| 0 <= j < rest.len() ==> rest[j] == es[j + 1]);
        assert(entry_matches(rest[i - 1], service, username));
        lemma_idx_of_scan(rest, service, username, i - 1);
    }
}

/// A mismatch at the scan frontier pushes the first match past it.
proof fn lemma_idx_past_mismatch(
    es: Seq<EntryView>,
    service: Seq<char>,
    username: Option<Seq<char>>,
    i: int,
)
    requires
        0 <= i < es.len(),
        !entry_matches(es[i], service, username),
        first_match_idx(es, service, username) >= i,
    ensures
        first_match_idx(es, service, username) >= i + 1,
    decreases es.len(),
{
    if es.len() > 0 && !entry_matches(es[0], service, username) {
        let rest = es.drop_first();
        assert(forall|j: int| 0 <= j < rest.len() ==> rest[j] == es[j + 1]);
        if i > 0 {
            lemma_idx_past_mismatch(rest, service, username, i - 1);
        } else {
            lemma_first_match_idx(rest, service, username);
        }
    }
}

impl PartialEq for Passwords {
    fn eq(&self, other: &Passwords) -> (r: bool) {
        let n = self.0.len();
        if n != other.0.len() {
            proof {
                assert(self@.len() != other@.len());
            }
            return false;
        }
        let mut i: usize = 0;
        while i < n
            invariant
                n == self.0.len(),
                n == other.0.len(),
                0 <= i <= n,
                forall|j: int| 0 <= j < i ==> self@[j] == other@[j],
            decreases n - i,
        {
            if !(self.0[i] == other.0[i]) {
                proof {
                    assert(self@[i as int] != other@[i as int]);
                    assert(self@ != other@);
                }
                return false;
            }
            i += 1;
        }
        proof {
            assert(self@ =~= other@);
        }
        true
    }
}

impl vstd::std_specs::cmp::PartialEqSpecImpl for Passwords {
    open spec fn obeys_eq_spec() -> bool {
        true
    }

    open spec fn eq_spec(&self, other: &Passwords) -> bool {
        self@ == other@
    }
}

impl Default for Passwords {
    fn default() -> (r: Passwords)
        ensures
            r@ =~= Seq::<EntryView>::empty(),
    {
        Passwords::new()
    }
}

impl From<Vec<PasswordEntry>> for Passwords {
    fn from(passwords: Vec<PasswordEntry>) -> (r: Passwords) {
        Passwords(passwords)
    }
}

impl vstd::std_specs::convert::FromSpecImpl<Vec<PasswordEntry>> for Passwords {
    open spec fn obeys_from_spec() -> bool {
        true
    }

    open spec fn from_spec(v: Vec<PasswordEntry>) -> Passwords {
        Passwords(v)
    }
}

} // verus!
