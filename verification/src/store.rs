//! The link store: one credential and the map from short keys to URLs.
//!
//! The store is kept as a list of entries in which no short key occurs
//! twice; contracts speak of the map that the list stands for. Reading and
//! writing the backing file is the caller's part: after every change the
//! caller writes the whole store to [`Config::path`].

use vstd::prelude::*;
use crate::password::compute_password_hash;
use crate::password::hash_accepts;
use crate::password::verify_password_hash;
use crate::password::Password;
use crate::password::PasswordError;

verus! {

/// One entry of the store: a short key and the URL it stands for.
#[derive(Debug)]
pub struct Link {
    pub short: String,
    pub url: String,
}

/// What a [`Link`] holds, as two sequences of characters.
pub struct LinkView {
    pub short: Seq<char>,
    pub url: Seq<char>,
}

impl View for Link {
    type V = LinkView;

    open spec fn view(&self) -> LinkView {
        LinkView { short: self.short@, url: self.url@ }
    }
}

impl Clone for Link {
    fn clone(&self) -> (copy: Self)
        ensures
            copy@ == self@,
    {
        Link { short: self.short.clone(), url: self.url.clone() }
    }
}

/// The name of the one user who may change the store.
#[derive(Debug)]
pub struct Username(String);

impl View for Username {
    type V = Seq<char>;

    closed spec fn view(&self) -> Seq<char> {
        self.0@
    }
}

impl Clone for Username {
    fn clone(&self) -> (copy: Self)
        ensures
            copy@ == self@,
    {
        Username(self.0.clone())
    }
}

impl Username {
    pub fn new(name: String) -> (username: Username)
        ensures
            username@ == name@,
    {
        Username(name)
    }

    pub fn as_str(&self) -> (name: &str)
        ensures
            name@ == self@,
    {
        self.0.as_str()
    }
}

/// Why a change to the store did not go through.
#[derive(Clone, Copy, Debug, PartialEq, Eq, Structural)]
pub enum StoreError {
    /// The short key is not in the store.
    NotFound,
    /// The store was changed in memory, but writing it out failed.
    Persistence,
}

/// No short key occurs twice among `entries`.
pub open spec fn distinct_keys(entries: Seq<Link>) -> bool {
    forall|i: int, j: int|
        0 <= i < j < entries.len() ==> (#[trigger] entries[i]).short@ != (#[trigger] entries[j]).short@
}

/// Some entry has the short key `short`.
pub open spec fn has_key(entries: Seq<Link>, short: Seq<char>) -> bool {
    exists|i: int| 0 <= i < entries.len() && (#[trigger] entries[i]).short@ == short
}

/// The map that a list of entries stands for: the keys are the short keys
/// that occur, each with the URL of an entry that has it. Where no key occurs
/// twice ([`distinct_keys`]) that entry is the only one.
pub open spec fn links_map(entries: Seq<Link>) -> Map<Seq<char>, Seq<char>> {
    Map::new(
        |short: Seq<char>| has_key(entries, short),
        |short: Seq<char>|
            entries[choose|i: int|
                0 <= i < entries.len() && (#[trigger] entries[i]).short@ == short].url@,
    )
}

/// The map after inserting `entries` one after the other into `start`; of
/// two entries with one short key the later one stays.
pub open spec fn insert_all(start: Map<Seq<char>, Seq<char>>, entries: Seq<Link>) -> Map<
    Seq<char>,
    Seq<char>,
>
    decreases entries.len(),
{
    if entries.len() == 0 {
        start
    } else {
        insert_all(start, entries.drop_last()).insert(entries.last().short@, entries.last().url@)
    }
}

/// In a list without repeated keys, every entry is what the map holds for
/// its key.
proof fn lemma_entry_in_map(entries: Seq<Link>, at: int)
    requires
        distinct_keys(entries),
        0 <= at < entries.len(),
    ensures
        links_map(entries).contains_key(entries[at].short@),
        links_map(entries)[entries[at].short@] == entries[at].url@,
{
    let short = entries[at].short@;
    assert(has_key(entries, short));
    let chosen = choose|i: int| 0 <= i < entries.len() && (#[trigger] entries[i]).short@ == short;
    assert(chosen == at);
}

/// A list without repeated keys stands for `map` when every entry is in
/// `map` and every key of `map` is the key of an entry.
proof fn lemma_map_of_entries(entries: Seq<Link>, map: Map<Seq<char>, Seq<char>>)
    requires
        distinct_keys(entries),
        forall|i: int|
            0 <= i < entries.len() ==> map.contains_key((#[trigger] entries[i]).short@)
                && map[entries[i].short@] == entries[i].url@,
        forall|short: Seq<char>| #[trigger] map.contains_key(short) ==> has_key(entries, short),
    ensures
        links_map(entries) == map,
{
    assert forall|short: Seq<char>| #[trigger] links_map(entries).contains_key(short) implies (
    map.contains_key(short) && map[short] == links_map(entries)[short]) by {
        let at = choose|i: int| 0 <= i < entries.len() && (#[trigger] entries[i]).short@ == short;
        lemma_entry_in_map(entries, at);
    }
    assert(links_map(entries) =~= map);
}

/// Adding an entry whose key is new.
proof fn lemma_push(entries: Seq<Link>, link: Link)
    requires
        distinct_keys(entries),
        !has_key(entries, link.short@),
    ensures
        distinct_keys(entries.push(link)),
        links_map(entries.push(link)) == links_map(entries).insert(link.short@, link.url@),
{
    let after = entries.push(link);
    let map = links_map(entries).insert(link.short@, link.url@);
    assert forall|i: int| 0 <= i < after.len() implies map.contains_key(
        (#[trigger] after[i]).short@,
    ) && map[after[i].short@] == after[i].url@ by {
        if i < entries.len() {
            assert(after[i] == entries[i]);
            lemma_entry_in_map(entries, i);
        }
    }
    assert forall|short: Seq<char>| #[trigger] map.contains_key(short) implies has_key(
        after,
        short,
    ) by {
        if short == link.short@ {
            assert(after[entries.len() as int].short@ == short);
        } else {
            let at = choose|i: int|
                0 <= i < entries.len() && (#[trigger] entries[i]).short@ == short;
            assert(after[at].short@ == short);
        }
    }
    lemma_map_of_entries(after, map);
}

/// Replacing the entry at `at` by one with the same key.
proof fn lemma_replace(entries: Seq<Link>, at: int, link: Link)
    requires
        distinct_keys(entries),
        0 <= at < entries.len(),
        entries[at].short@ == link.short@,
    ensures
        distinct_keys(entries.update(at, link)),
        links_map(entries.update(at, link)) == links_map(entries).insert(link.short@, link.url@),
{
    let after = entries.update(at, link);
    let map = links_map(entries).insert(link.short@, link.url@);
    assert forall|i: int, j: int| 0 <= i < j < after.len() implies (#[trigger] after[i]).short@ != (
    #[trigger] after[j]).short@ by {
        assert(after[i].short@ == entries[i].short@);
        assert(after[j].short@ == entries[j].short@);
    }
    assert forall|i: int| 0 <= i < after.len() implies map.contains_key(
        (#[trigger] after[i]).short@,
    ) && map[after[i].short@] == after[i].url@ by {
        if i != at {
            assert(after[i] == entries[i]);
            lemma_entry_in_map(entries, i);
        }
    }
    assert forall|short: Seq<char>| #[trigger] map.contains_key(short) implies has_key(
        after,
        short,
    ) by {
        if short == link.short@ {
            assert(after[at].short@ == short);
        } else {
            let other = choose|i: int|
                0 <= i < entries.len() && (#[trigger] entries[i]).short@ == short;
            assert(after[other].short@ == short);
        }
    }
    lemma_map_of_entries(after, map);
}

/// Taking out the entry at `at`.
proof fn lemma_remove(entries: Seq<Link>, at: int)
    requires
        distinct_keys(entries),
        0 <= at < entries.len(),
    ensures
        distinct_keys(entries.remove(at)),
        links_map(entries.remove(at)) == links_map(entries).remove(entries[at].short@),
{
    let after = entries.remove(at);
    let gone = entries[at].short@;
    let map = links_map(entries).remove(gone);
    assert forall|i: int, j: int| 0 <= i < j < after.len() implies (#[trigger] after[i]).short@ != (
    #[trigger] after[j]).short@ by {
        let from_i = if i < at { i } else { i + 1 };
        let from_j = if j < at { j } else { j + 1 };
        assert(after[i] == entries[from_i]);
        assert(after[j] == entries[from_j]);
    }
    assert forall|i: int| 0 <= i < after.len() implies map.contains_key(
        (#[trigger] after[i]).short@,
    ) && map[after[i].short@] == after[i].url@ by {
        let from = if i < at { i } else { i + 1 };
        assert(after[i] == entries[from]);
        assert(entries[from].short@ != entries[at].short@);
        lemma_entry_in_map(entries, from);
    }
    assert forall|short: Seq<char>| #[trigger] map.contains_key(short) implies has_key(
        after,
        short,
    ) by {
        let from = choose|i: int|
            0 <= i < entries.len() && (#[trigger] entries[i]).short@ == short;
        let to = if from < at { from } else { from - 1 };
        assert(after[to] == entries[from]);
    }
    lemma_map_of_entries(after, map);
}

/// Two lists that agree entry by entry in keys and URLs stand for the same
/// map.
proof fn lemma_same_views(entries: Seq<Link>, copies: Seq<Link>)
    requires
        distinct_keys(entries),
        copies.len() == entries.len(),
        forall|i: int| 0 <= i < entries.len() ==> (#[trigger] copies[i])@ == entries[i]@,
    ensures
        distinct_keys(copies),
        links_map(copies) == links_map(entries),
{
    let map = links_map(entries);
    assert forall|i: int, j: int| 0 <= i < j < copies.len() implies (#[trigger] copies[i]).short@ != (
    #[trigger] copies[j]).short@ by {
        assert(copies[i]@ == entries[i]@);
        assert(copies[j]@ == entries[j]@);
    }
    assert forall|i: int| 0 <= i < copies.len() implies map.contains_key(
        (#[trigger] copies[i]).short@,
    ) && map[copies[i].short@] == copies[i].url@ by {
        assert(copies[i]@ == entries[i]@);
        lemma_entry_in_map(entries, i);
    }
    assert forall|short: Seq<char>| #[trigger] map.contains_key(short) implies has_key(
        copies,
        short,
    ) by {
        let at = choose|i: int| 0 <= i < entries.len() && (#[trigger] entries[i]).short@ == short;
        assert(copies[at]@ == entries[at]@);
    }
    lemma_map_of_entries(copies, map);
}

/// Where `short` stands in `entries`, if anywhere.
fn position(entries: &Vec<Link>, short: &str) -> (found: Option<usize>)
    ensures
        match found {
            Some(at) => at < entries@.len() && entries@[at as int].short@ == short@,
            None => !has_key(entries@, short@),
        },
{
    let key = short.to_owned();
    let mut at: usize = 0;
    while at < entries.len()
        invariant
            at <= entries@.len(),
            key@ == short@,
            forall|i: int| 0 <= i < at ==> (#[trigger] entries@[i]).short@ != short@,
        decreases entries@.len() - at,
    {
        if entries[at].short == key {
            return Some(at);
        }
        at = at + 1;
    }
    None
}

/// Inserts `link`, in place of the entry with its key if there is one.
fn put(entries: &mut Vec<Link>, link: Link)
    requires
        distinct_keys(old(entries)@),
    ensures
        distinct_keys(final(entries)@),
        links_map(final(entries)@) == links_map(old(entries)@).insert(link.short@, link.url@),
{
    match position(entries, link.short.as_str()) {
        Some(at) => {
            proof {
                lemma_replace(entries@, at as int, link);
            }
            entries[at] = link;
        },
        None => {
            proof {
                lemma_push(entries@, link);
            }
            entries.push(link);
        },
    }
}

/// The whole persisted state: the credential and the links.
#[derive(Debug)]
pub struct Store {
    username: Username,
    password: Password,
    links: Vec<Link>,
}

/// What a [`Store`] holds: the user's name, the stored password hash and the
/// map from short keys to URLs.
pub struct StoreView {
    pub username: Seq<char>,
    pub password: Seq<char>,
    pub links: Map<Seq<char>, Seq<char>>,
}

impl StoreView {
    /// The URL that `short` stands for, if it is in the store.
    pub open spec fn lookup(self, short: Seq<char>) -> Option<Seq<char>> {
        if self.links.contains_key(short) {
            Some(self.links[short])
        } else {
            None
        }
    }

    /// The store once `short` stands for `url`, whether or not it stood for
    /// anything before.
    pub open spec fn with_link(self, short: Seq<char>, url: Seq<char>) -> StoreView {
        StoreView { links: self.links.insert(short, url), ..self }
    }

    /// The store once `short` stands for nothing.
    pub open spec fn without_link(self, short: Seq<char>) -> StoreView {
        StoreView { links: self.links.remove(short), ..self }
    }

    /// The store once `entries` were added one after the other.
    pub open spec fn with_links(self, entries: Seq<Link>) -> StoreView {
        StoreView { links: insert_all(self.links, entries), ..self }
    }
}

/// Whether `username` and `password` are the credential of `store`: the
/// name is the stored one and the stored hash accepts the password.
pub open spec fn credentials_match(
    store: StoreView,
    username: Seq<char>,
    password: Seq<char>,
) -> bool {
    username == store.username && hash_accepts(store.password, password)
}

impl View for Store {
    type V = StoreView;

    closed spec fn view(&self) -> StoreView {
        StoreView {
            username: self.username@,
            password: self.password@,
            links: links_map(self.links@),
        }
    }
}

impl Store {
    /// The store's invariant: no short key is listed twice.
    pub closed spec fn wf(&self) -> bool {
        distinct_keys(self.links@)
    }

    /// A store with the given credential and no links.
    pub fn new(username: Username, password: Password) -> (store: Store)
        ensures
            store.wf(),
            store@ == (StoreView {
                username: username@,
                password: password@,
                links: Map::<Seq<char>, Seq<char>>::empty(),
            }),
    {
        let store = Store { username, password, links: Vec::new() };
        assert(links_map(store.links@) =~= Map::<Seq<char>, Seq<char>>::empty());
        store
    }

    /// A store with the given credential and the given entries, inserted in
    /// their order.
    pub fn from_entries(username: Username, password: Password, entries: Vec<Link>) -> (store:
        Store)
        ensures
            store.wf(),
            store@ == (StoreView {
                username: username@,
                password: password@,
                links: insert_all(Map::<Seq<char>, Seq<char>>::empty(), entries@),
            }),
    {
        let mut links: Vec<Link> = Vec::new();
        assert(links_map(links@) =~= Map::<Seq<char>, Seq<char>>::empty());
        assert(entries@.take(0) =~= Seq::<Link>::empty());
        let mut next: usize = 0;
        while next < entries.len()
            invariant
                next <= entries@.len(),
                distinct_keys(links@),
                links_map(links@) == insert_all(
                    Map::<Seq<char>, Seq<char>>::empty(),
                    entries@.take(next as int),
                ),
            decreases entries@.len() - next,
        {
            proof {
                let done = entries@.take(next + 1);
                assert(done.drop_last() =~= entries@.take(next as int));
                assert(done.last() == entries@[next as int]);
            }
            put(&mut links, entries[next].clone());
            next = next + 1;
        }
        assert(entries@.take(next as int) =~= entries@);
        Store { username, password, links }
    }

    pub fn username(&self) -> (username: &Username)
        ensures
            username@ == self@.username,
    {
        &self.username
    }

    /// The stored password hash.
    pub fn password(&self) -> (password: &Password)
        ensures
            password@ == self@.password,
    {
        &self.password
    }

    /// The entries, each short key once, in no particular order.
    pub fn links(&self) -> (entries: &Vec<Link>)
        requires
            self.wf(),
        ensures
            distinct_keys(entries@),
            links_map(entries@) == self@.links,
    {
        &self.links
    }
}

/// The store together with the path of the file that backs it.
#[derive(Debug)]
pub struct Config {
    path: String,
    store: Store,
}

impl View for Config {
    type V = StoreView;

    closed spec fn view(&self) -> StoreView {
        self.store@
    }
}

impl Config {
    /// The invariant of the store inside.
    pub closed spec fn wf(&self) -> bool {
        self.store.wf()
    }

    /// The path of the backing file, as characters.
    pub closed spec fn path_view(&self) -> Seq<char> {
        self.path@
    }

    /// Takes a store that was read from the file at `path`.
    pub fn new(path: String, store: Store) -> (config: Config)
        requires
            store.wf(),
        ensures
            config.wf(),
            config@ == store@,
            config.path_view() == path@,
    {
        Config { path, store }
    }

    /// Hashes `password` and builds the store of a new deployment: the
    /// credential and no links. The caller writes it to `path`, over whatever
    /// is there.
    ///
    /// The hash carries a random salt, so the contract does not say which
    /// hash is stored, only that it accepts `password`.
    pub fn new_by_creating_file(path: String, username: String, password: Password) -> (created:
        Result<Config, PasswordError>)
        ensures
            match created {
                Ok(config) => {
                    &&& config.wf()
                    &&& config.path_view() == path@
                    &&& config@.username == username@
                    &&& config@.links == Map::<Seq<char>, Seq<char>>::empty()
                    &&& credentials_match(config@, username@, password@)
                },
                Err(e) => e == PasswordError::HashingFailed,
            },
    {
        let hashed = compute_password_hash(&password);
        let created = Config::from_hashing(path, username, hashed);
        created
    }

    /// Builds the store of a new deployment from what hashing the password
    /// gave: with a hash, the store that holds `username`, that hash and no
    /// links, to be written to `path`; without one, the failure as it came.
    pub fn from_hashing(path: String, username: String, hashed: Result<Password, PasswordError>) -> (created:
        Result<Config, PasswordError>)
        ensures
            match hashed {
                Ok(hash) => {
                    &&& created matches Ok(config)
                    &&& config.wf()
                    &&& config.path_view() == path@
                    &&& config@ == (StoreView {
                        username: username@,
                        password: hash@,
                        links: Map::<Seq<char>, Seq<char>>::empty(),
                    })
                },
                Err(error) => created matches Err(e) && e == error,
            },
    {
        match hashed {
            Ok(hash) => Ok(Config { path, store: Store::new(Username::new(username), hash) }),
            Err(error) => Err(error),
        }
    }

    pub fn path(&self) -> (path: &str)
        ensures
            path@ == self.path_view(),
    {
        self.path.as_str()
    }

    /// The store as it is to be written out.
    pub fn store(&self) -> (store: &Store)
        ensures
            store@ == self@,
            store.wf() == self.wf(),
    {
        &self.store
    }

    /// Checks a login attempt: the user's name if the name is the stored
    /// one and the stored hash accepts the password, nothing otherwise. The
    /// answer does not tell which of the two was wrong.
    pub fn auth_user(&self, username: &str, password: Password) -> (user: Option<Username>)
        ensures
            match user {
                Some(name) => credentials_match(self@, username@, password@) && name@ == username@,
                None => !credentials_match(self@, username@, password@),
            },
    {
        let name = username.to_owned();
        if name == self.store.username.0 && verify_password_hash(&self.store.password, &password) {
            Some(Username::new(name))
        } else {
            None
        }
    }

    /// A snapshot of the links: every short key once, with its URL, in no
    /// particular order.
    pub fn links_iter(&self) -> (entries: Vec<Link>)
        requires
            self.wf(),
        ensures
            distinct_keys(entries@),
            links_map(entries@) == self@.links,
    {
        let stored = &self.store.links;
        let mut entries: Vec<Link> = Vec::new();
        let mut next: usize = 0;
        while next < stored.len()
            invariant
                next <= stored@.len(),
                entries@.len() == next,
                forall|i: int| 0 <= i < next ==> (#[trigger] entries@[i])@ == stored@[i]@,
            decreases stored@.len() - next,
        {
            entries.push(stored[next].clone());
            next = next + 1;
        }
        proof {
            lemma_same_views(stored@, entries@);
        }
        entries
    }

    /// Looks a short key up.
    pub fn get_link(&self, short: &str) -> (url: Option<&String>)
        requires
            self.wf(),
        ensures
            match url {
                Some(target) => self@.lookup(short@) == Some(target@),
                None => self@.lookup(short@) is None,
            },
    {
        match position(&self.store.links, short) {
            Some(at) => {
                proof {
                    lemma_entry_in_map(self.store.links@, at as int);
                }
                Some(&self.store.links[at].url)
            },
            None => None,
        }
    }

    /// Inserts a link, in place of the one with the same short key if there
    /// is one. The change is in memory; the caller then writes the store out.
    pub fn add_link(&mut self, link: Link)
        requires
            old(self).wf(),
        ensures
            final(self).wf(),
            final(self).path_view() == old(self).path_view(),
            final(self)@ == old(self)@.with_link(link.short@, link.url@),
    {
        put(&mut self.store.links, link);
    }

    /// Removes a short key and returns the URL it stood for. Where the key
    /// is not in the store nothing changes and nothing is to be written out.
    pub fn remove_link(&mut self, short: &str) -> (removed: Result<String, StoreError>)
        requires
            old(self).wf(),
        ensures
            final(self).wf(),
            final(self).path_view() == old(self).path_view(),
            match removed {
                Ok(url) => {
                    &&& old(self)@.lookup(short@) == Some(url@)
                    &&& final(self)@ == old(self)@.without_link(short@)
                },
                Err(e) => {
                    &&& e == StoreError::NotFound
                    &&& old(self)@.lookup(short@) is None
                    &&& final(self)@ == old(self)@
                },
            },
    {
        match position(&self.store.links, short) {
            Some(at) => {
                proof {
                    lemma_entry_in_map(self.store.links@, at as int);
                    lemma_remove(self.store.links@, at as int);
                }
                let link = self.store.links.remove(at);
                Ok(link.url)
            },
            None => Err(StoreError::NotFound),
        }
    }
}

/// Removing a short key twice: after the first removal the key stands for
/// nothing, so the second one finds nothing ([`Config::remove_link`] then
/// reports `NotFound` and leaves the store as it is), and taking the key
/// out again would not change the store either.
pub proof fn lemma_second_removal_finds_nothing(store: StoreView, short: Seq<char>)
    ensures
        store.without_link(short).lookup(short) is None,
        store.without_link(short).without_link(short) == store.without_link(short),
{
    assert(store.links.remove(short).remove(short) =~= store.links.remove(short));
}

/// Adding a link under a short key that is taken replaces the URL: after
/// two additions under one key the key stands for the second URL, and the
/// store is as if the first addition had not been made.
pub proof fn lemma_later_link_replaces(
    store: StoreView,
    short: Seq<char>,
    first: Seq<char>,
    second: Seq<char>,
)
    ensures
        store.with_link(short, first).with_link(short, second).lookup(short) == Some(second),
        store.with_link(short, first).with_link(short, second) == store.with_link(short, second),
{
    assert(store.links.insert(short, first).insert(short, second) =~= store.links.insert(
        short,
        second,
    ));
}

/// A link that was added is found, and a link that was removed is not.
pub proof fn lemma_lookup_after_change(store: StoreView, short: Seq<char>, url: Seq<char>)
    ensures
        store.with_link(short, url).lookup(short) == Some(url),
        store.with_link(short, url).without_link(short).lookup(short) is None,
{
}

/// Adding and removing links leaves the credential as it is: whoever could
/// log in before can log in after, and nobody else.
pub proof fn lemma_changes_keep_the_credential(
    store: StoreView,
    short: Seq<char>,
    url: Seq<char>,
    username: Seq<char>,
    password: Seq<char>,
)
    ensures
        credentials_match(store.with_link(short, url), username, password) == credentials_match(
            store,
            username,
            password,
        ),
        credentials_match(store.without_link(short), username, password) == credentials_match(
            store,
            username,
            password,
        ),
{
}

/// Links with pairwise different short keys that are added one after the
/// other, in whatever order the additions are taken, are all in the store
/// afterwards, each with its own URL, and what the store held under other
/// keys is still there. Additions are taken one at a time, so this holds of
/// any number of callers that add at once.
pub proof fn lemma_distinct_links_all_kept(store: StoreView, entries: Seq<Link>)
    requires
        distinct_keys(entries),
    ensures
        forall|i: int|
            0 <= i < entries.len() ==> store.with_links(entries).lookup(
                (#[trigger] entries[i]).short@,
            ) == Some(entries[i].url@),
        forall|short: Seq<char>|
            !has_key(entries, short) ==> #[trigger] store.with_links(entries).lookup(short)
                == store.lookup(short),
    decreases entries.len(),
{
    if entries.len() > 0 {
        let before = entries.drop_last();
        let last = entries.last();
        lemma_distinct_links_all_kept(store, before);
        assert forall|i: int| 0 <= i < entries.len() implies store.with_links(entries).lookup(
            (#[trigger] entries[i]).short@,
        ) == Some(entries[i].url@) by {
            if i < before.len() {
                assert(before[i] == entries[i]);
                assert(entries[i].short@ != entries[entries.len() - 1].short@);
            }
        }
        assert forall|short: Seq<char>| !has_key(entries, short) implies #[trigger] store.with_links(
            entries,
        ).lookup(short) == store.lookup(short) by {
            assert(entries[entries.len() - 1].short@ != short);
            if has_key(before, short) {
                let at = choose|i: int|
                    0 <= i < before.len() && (#[trigger] before[i]).short@ == short;
                assert(before[at] == entries[at]);
                assert(entries[at].short@ == short);
            }
            assert(store.with_links(before).lookup(short) == store.lookup(short));
        }
    }
}

/// A store that is built again from its own entries is the same store:
/// inserting the entries of a list without repeated keys into an empty map
/// gives the map that the list stands for.
pub proof fn lemma_entries_rebuild_the_map(entries: Seq<Link>)
    requires
        distinct_keys(entries),
    ensures
        insert_all(Map::<Seq<char>, Seq<char>>::empty(), entries) == links_map(entries),
    decreases entries.len(),
{
    if entries.len() == 0 {
        assert(links_map(entries) =~= Map::<Seq<char>, Seq<char>>::empty());
    } else {
        let before = entries.drop_last();
        let last = entries.last();
        lemma_entries_rebuild_the_map(before);
        assert(!has_key(before, last.short@)) by {
            if has_key(before, last.short@) {
                let at = choose|i: int|
                    0 <= i < before.len() && (#[trigger] before[i]).short@ == last.short@;
                assert(before[at] == entries[at]);
                assert(entries[at].short@ != entries[entries.len() - 1].short@);
            }
        }
        lemma_push(before, last);
        assert(before.push(last) =~= entries);
    }
}

} // verus!
