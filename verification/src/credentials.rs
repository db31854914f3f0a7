//! The credentials a proxy admits requests by.

use vstd::prelude::*;
use vstd::string::*;
use vstd::utf8::*;
use crate::text::{str_eq, str_is_encoded_as};

verus! {

/// How requests present their credential. One scheme is active in a running
/// proxy.
#[derive(Clone, Copy, Debug, PartialEq, Eq, Structural)]
pub enum AuthScheme {
    /// A token in a header of its own; any configured token admits.
    Token,
    /// `Basic` proxy authorization: a user name and its password.
    Basic,
}

/// One configured credential: a name and the secret that belongs to it.
#[derive(Clone, Debug)]
pub struct Credential {
    pub name: String,
    pub secret: String,
}

impl View for Credential {
    type V = (Seq<char>, Seq<char>);

    open spec fn view(&self) -> (Seq<char>, Seq<char>) {
        (self.name@, self.secret@)
    }
}

/// The secret of each name after the entries are taken one by one: where a
/// name comes twice, its later secret stands.
pub open spec fn entries_map(entries: Seq<(Seq<char>, Seq<char>)>) -> Map<Seq<char>, Seq<char>>
    decreases entries.len(),
{
    if entries.len() == 0 {
        Map::empty()
    } else {
        entries_map(entries.drop_last()).insert(entries.last().0, entries.last().1)
    }
}

/// The name of the header that carries the credential under `scheme`.
pub open spec fn credential_header(scheme: AuthScheme) -> Seq<char> {
    match scheme {
        AuthScheme::Token => "x-proxy-token"@,
        AuthScheme::Basic => "proxy-authorization"@,
    }
}

/// The name of the header that carries the credential under `scheme`.
pub fn credential_header_name(scheme: AuthScheme) -> (name: &'static str)
    ensures
        name@ == credential_header(scheme),
{
    match scheme {
        AuthScheme::Token => "x-proxy-token",
        AuthScheme::Basic => "proxy-authorization",
    }
}

/// The configured credentials: a secret for each name, and the scheme under
/// which they are presented. Under the token scheme the secret is the token,
/// under the basic scheme the name is the user and the secret the password.
#[derive(Debug)]
pub struct CredentialStore {
    scheme: AuthScheme,
    entries: Vec<Credential>,
}

impl View for CredentialStore {
    type V = Map<Seq<char>, Seq<char>>;

    /// The secret of each name.
    closed spec fn view(&self) -> Map<Seq<char>, Seq<char>> {
        Map::new(
            |name: Seq<char>| self.has_name(name),
            |name: Seq<char>| self.entries[self.index_of(name)].secret@,
        )
    }
}

impl CredentialStore {
    spec fn has_name(&self, name: Seq<char>) -> bool {
        exists|i: int| 0 <= i < self.entries.len() && #[trigger] self.entries[i].name@ == name
    }

    spec fn index_of(&self, name: Seq<char>) -> int {
        choose|i: int| 0 <= i < self.entries.len() && #[trigger] self.entries[i].name@ == name
    }

    /// No name occurs twice.
    #[verifier::type_invariant]
    spec fn names_differ(&self) -> bool {
        forall|i: int, j: int|
            0 <= i < j < self.entries.len() ==> #[trigger] self.entries[i].name@
                != #[trigger] self.entries[j].name@
    }

    /// The scheme under which the credentials are presented.
    pub closed spec fn spec_scheme(&self) -> AuthScheme {
        self.scheme
    }

    /// A store without credentials.
    pub fn new(scheme: AuthScheme) -> (store: Self)
        ensures
            store@ == Map::<Seq<char>, Seq<char>>::empty(),
            store.spec_scheme() == scheme,
    {
        let store = CredentialStore { scheme, entries: Vec::new() };
        assert(store@ =~= Map::<Seq<char>, Seq<char>>::empty());
        store
    }

    /// The scheme under which the credentials are presented.
    #[verifier::when_used_as_spec(spec_scheme)]
    pub fn scheme(&self) -> (scheme: AuthScheme)
        ensures
            scheme == self.spec_scheme(),
    {
        self.scheme
    }

    /// Where `name` stands among the entries.
    fn position(&self, name: &str) -> (r: Option<usize>)
        ensures
            match r {
                Some(i) => i < self.entries.len() && self.entries[i as int].name@ == name@,
                None => !self.has_name(name@),
            },
    {
        let mut i: usize = 0;
        while i < self.entries.len()
            invariant
                i <= self.entries.len(),
                forall|j: int| 0 <= j < i ==> #[trigger] self.entries[j].name@ != name@,
            decreases self.entries.len() - i,
        {
            if str_eq(self.entries[i].name.as_str(), name) {
                return Some(i);
            }
            i += 1;
        }
        None
    }

    /// The store with `secret` as the secret of `name`, in place of the one
    /// that `name` had, if it had one.
    pub fn with(self, name: String, secret: String) -> (store: Self)
        ensures
            store@ == self@.insert(name@, secret@),
            store.spec_scheme() == self.spec_scheme(),
    {
        proof {
            use_type_invariant(&self);
        }
        let ghost before = self;
        let found = self.position(name.as_str());
        let CredentialStore { scheme, mut entries } = self;
        match found {
            Some(i) => {
                entries.set(i, Credential { name, secret });
            },
            None => {
                entries.push(Credential { name, secret });
            },
        }
        let store = CredentialStore { scheme, entries };
        proof {
            assert forall|n: Seq<char>| store.has_name(n) <==> (n == name@ || before.has_name(
                n,
            )) by {
                if store.has_name(n) {
                    let k = store.index_of(n);
                    if n != name@ {
                        assert(before.entries[k].name@ == n);
                    }
                }
                if before.has_name(n) {
                    let k = before.index_of(n);
                    assert(store.entries[k].name@ == n);
                }
                if n == name@ {
                    match found {
                        Some(i) => {
                            assert(store.entries[i as int].name@ == n);
                        },
                        None => {
                            assert(store.entries[before.entries.len() as int].name@ == n);
                        },
                    }
                }
            }
            assert forall|n: Seq<char>| store.has_name(n) implies #[trigger] store@[n]
                == before@.insert(name@, secret@)[n] by {
                let k = store.index_of(n);
                if n != name@ {
                    assert(before.entries[k].name@ == n);
                    assert(before.has_name(n));
                    let k0 = before.index_of(n);
                    assert(k0 == k);
                } else {
                    match found {
                        Some(i) => {
                            assert(store.entries[i as int].name@ == n);
                            assert(k == i);
                        },
                        None => {
                            assert(store.entries[before.entries.len() as int].name@ == n);
                            assert(k == before.entries.len());
                        },
                    }
                }
            }
            assert(store@ =~= before@.insert(name@, secret@));
        }
        store
    }

    /// The store that holds `entries`, taken one by one.
    pub fn from_entries(scheme: AuthScheme, entries: &Vec<Credential>) -> (store: Self)
        ensures
            store@ == entries_map(Seq::new(entries.len() as nat, |i: int| entries[i]@)),
            store.spec_scheme() == scheme,
    {
        let ghost all = Seq::new(entries.len() as nat, |i: int| entries[i]@);
        let mut store = CredentialStore::new(scheme);
        let mut i: usize = 0;
        while i < entries.len()
            invariant
                i <= entries.len(),
                all == Seq::new(entries.len() as nat, |i: int| entries[i]@),
                store@ == entries_map(all.subrange(0, i as int)),
                store.spec_scheme() == scheme,
            decreases entries.len() - i,
        {
            let name = entries[i].name.clone();
            let secret = entries[i].secret.clone();
            proof {
                assert(all.subrange(0, i + 1).drop_last() =~= all.subrange(0, i as int));
                assert(all.subrange(0, i + 1).last() == entries[i as int]@);
            }
            store = store.with(name, secret);
            i += 1;
        }
        proof {
            assert(all.subrange(0, entries.len() as int) =~= all);
        }
        store
    }

    /// The credentials, one entry for each name.
    pub fn entries(&self) -> (entries: Vec<Credential>)
        ensures
            entries_map(Seq::new(entries.len() as nat, |i: int| entries[i]@)) == self@,
            entries.len() == self@.dom().len(),
    {
        let mut entries: Vec<Credential> = Vec::new();
        let mut i: usize = 0;
        while i < self.entries.len()
            invariant
                i <= self.entries.len(),
                entries.len() == i,
                forall|j: int| 0 <= j < i ==> #[trigger] entries[j]@ == self.entries[j]@,
            decreases self.entries.len() - i,
        {
            let name = self.entries[i].name.clone();
            let secret = self.entries[i].secret.clone();
            entries.push(Credential { name, secret });
            i += 1;
        }
        proof {
            use_type_invariant(self);
            let all = Seq::new(entries.len() as nat, |i: int| entries[i]@);
            let n = self.entries.len() as int;
            self.lemma_entries_map(all, n);
            assert(all.subrange(0, n) =~= all);
            assert(entries_map(all) =~= self@) by {
                assert forall|name: Seq<char>| self.has_name(name) implies self.names_upto(
                    n,
                ).contains(name) by {
                    let k = self.index_of(name);
                    assert(self.entries[k].name@ == name);
                }
                assert forall|name: Seq<char>| self@.dom().contains(name) implies entries_map(
                    all,
                )[name] == self@[name] by {
                    let k = self.index_of(name);
                    assert(all[k] == self.entries[k]@);
                    assert(all[k].0 == name);
                    assert(entries_map(all.subrange(0, n))[all[k].0] == all[k].1);
                }
            }
            self.lemma_dom_len(n);
            assert(self.names_upto(n) =~= self@.dom());
        }
        entries
    }

    proof fn lemma_entries_map(&self, all: Seq<(Seq<char>, Seq<char>)>, k: int)
        requires
            self.names_differ(),
            0 <= k <= self.entries.len(),
            all.len() == self.entries.len(),
            forall|j: int| 0 <= j < all.len() ==> #[trigger] all[j] == self.entries[j]@,
        ensures
            entries_map(all.subrange(0, k)).dom() == self.names_upto(k),
            forall|j: int|
                0 <= j < k ==> entries_map(all.subrange(0, k))[#[trigger] all[j].0] == all[j].1,
        decreases k,
    {
        let prefix = all.subrange(0, k);
        if k == 0 {
            assert(entries_map(prefix).dom() =~= self.names_upto(0));
        } else {
            self.lemma_entries_map(all, k - 1);
            assert(prefix.drop_last() =~= all.subrange(0, k - 1));
            assert(prefix.last() == all[k - 1]);
            assert(entries_map(prefix).dom() =~= self.names_upto(k)) by {
                assert forall|name: Seq<char>| self.names_upto(k).contains(name) implies (name
                    == all[k - 1].0 || self.names_upto(k - 1).contains(name)) by {
                    let j = choose|j: int| 0 <= j < k && #[trigger] self.entries[j].name@ == name;
                    if j < k - 1 {
                        assert(self.entries[j].name@ == name);
                    } else {
                        assert(all[k - 1] == self.entries[k - 1]@);
                    }
                }
                assert(self.names_upto(k).contains(all[k - 1].0)) by {
                    assert(self.entries[k - 1].name@ == all[k - 1].0);
                }
                assert forall|name: Seq<char>| self.names_upto(k - 1).contains(
                    name,
                ) implies self.names_upto(k).contains(name) by {
                    let j = choose|j: int|
                        0 <= j < k - 1 && #[trigger] self.entries[j].name@ == name;
                    assert(0 <= j < k && self.entries[j].name@ == name);
                }
            }
            assert forall|j: int| 0 <= j < k implies entries_map(prefix)[#[trigger] all[j].0]
                == all[j].1 by {
                if j < k - 1 {
                    assert(all[j] == self.entries[j]@);
                    assert(all[k - 1] == self.entries[k - 1]@);
                    assert(self.entries[j].name@ != self.entries[k - 1].name@);
                }
            }
        }
    }

    /// How many names have a secret.
    pub fn len(&self) -> (n: usize)
        ensures
            self@.dom().finite(),
            n == self@.dom().len(),
    {
        proof {
            use_type_invariant(self);
            self.lemma_dom_len(self.entries.len() as int);
            assert(self.names_upto(self.entries.len() as int) =~= self@.dom());
        }
        self.entries.len()
    }

    spec fn names_upto(&self, k: int) -> Set<Seq<char>> {
        Set::new(|n: Seq<char>| exists|i: int| 0 <= i < k && #[trigger] self.entries[i].name@ == n)
    }

    proof fn lemma_dom_len(&self, k: int)
        requires
            self.names_differ(),
            0 <= k <= self.entries.len(),
        ensures
            self.names_upto(k).finite(),
            self.names_upto(k).len() == k,
        decreases k,
    {
        if k == 0 {
            assert(self.names_upto(0) =~= Set::<Seq<char>>::empty());
        } else {
            self.lemma_dom_len(k - 1);
            let last = self.entries[k - 1].name@;
            assert(!self.names_upto(k - 1).contains(last));
            assert(self.names_upto(k) =~= self.names_upto(k - 1).insert(last));
        }
    }

    /// The secret of the user whose name is encoded in `name`.
    pub fn secret_of(&self, name: &[u8]) -> (r: Option<&str>)
        ensures
            match r {
                Some(secret) => valid_utf8(name@) && self@.contains_key(decode_utf8(name@))
                    && secret@ == self@[decode_utf8(name@)],
                None => !(valid_utf8(name@) && self@.contains_key(decode_utf8(name@))),
            },
    {
        let mut i: usize = 0;
        while i < self.entries.len()
            invariant
                i <= self.entries.len(),
                forall|j: int| 0 <= j < i ==> encode_utf8(#[trigger] self.entries[j].name@) != name@,
            decreases self.entries.len() - i,
        {
            if str_is_encoded_as(self.entries[i].name.as_str(), name) {
                proof {
                    use_type_invariant(self);
                    let text = self.entries[i as int].name@;
                    encode_utf8_valid_utf8(text);
                    encode_utf8_decode_utf8(text);
                    assert(self.has_name(text));
                    assert(self.index_of(text) == i);
                }
                return Some(self.entries[i].secret.as_str());
            }
            i += 1;
        }
        proof {
            if valid_utf8(name@) && self@.contains_key(decode_utf8(name@)) {
                let k = self.index_of(decode_utf8(name@));
                decode_utf8_encode_utf8(name@);
                assert(encode_utf8(self.entries[k].name@) == name@);
            }
        }
        None
    }

    /// Whether `secret` encodes the secret of some name.
    pub fn holds_secret(&self, secret: &[u8]) -> (r: bool)
        ensures
            r == (valid_utf8(secret@) && self@.contains_value(decode_utf8(secret@))),
    {
        let mut i: usize = 0;
        while i < self.entries.len()
            invariant
                i <= self.entries.len(),
                forall|j: int|
                    0 <= j < i ==> encode_utf8(#[trigger] self.entries[j].secret@) != secret@,
            decreases self.entries.len() - i,
        {
            if str_is_encoded_as(self.entries[i].secret.as_str(), secret) {
                proof {
                    use_type_invariant(self);
                    let text = self.entries[i as int].secret@;
                    let name = self.entries[i as int].name@;
                    encode_utf8_valid_utf8(text);
                    encode_utf8_decode_utf8(text);
                    assert(self.has_name(name));
                    assert(self.index_of(name) == i);
                    assert(self@.contains_key(name) && self@[name] == text);
                }
                return true;
            }
            i += 1;
        }
        proof {
            if valid_utf8(secret@) && self@.contains_value(decode_utf8(secret@)) {
                let text = decode_utf8(secret@);
                let name = choose|name: Seq<char>|
                    #[trigger] self@.dom().contains(name) && self@[name] == text;
                let k = self.index_of(name);
                decode_utf8_encode_utf8(secret@);
                assert(encode_utf8(self.entries[k].secret@) == secret@);
            }
        }
        false
    }
}

} // verus!
