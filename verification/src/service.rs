//! The service: the four registries and the protocol that keeps them
//! consistent across the create -> upload -> resolve -> download
//! lifecycle.
//!
//! The behaviour of every operation is stated once, over the abstract
//! state [`ServiceView`], and each executable operation is proved to
//! follow it exactly. The laws at the end of this module are proved from
//! those statements alone.

use vstd::prelude::*;
use crate::alias::alias_of;
use crate::alias::get_file_alias;
use crate::alias::AliasIndex;
use crate::counter::FileCounter;
use crate::identity::IdentityRegistry;
use crate::identity::User;
use crate::identity::UserView;
use crate::identity::WhoamiResponse;
use crate::store::stored_content;
use crate::store::FileData;
use crate::store::FileMetadata;
use crate::store::FileMetadataView;
use crate::store::FileStore;
use crate::store::FileView;

verus! {

/// The metadata record returned when an alias does not resolve.
pub open spec fn sentinel_metadata() -> FileMetadataView {
    FileMetadataView { file_id: 0, file_name: "non-existing file"@ }
}

/// The abstract state of the service: the identity registry, the file
/// counter, the file store and the alias index.
#[verifier::ext_equal]
pub struct ServiceView {
    pub users: Map<Seq<char>, UserView>,
    pub file_count: u64,
    pub files: Map<u64, FileView>,
    pub aliases: Map<Seq<char>, FileMetadataView>,
}

impl ServiceView {
    /// The state at process start: everything empty, no identifier
    /// issued.
    pub open spec fn init() -> ServiceView {
        ServiceView {
            users: Map::empty(),
            file_count: 0,
            files: Map::empty(),
            aliases: Map::empty(),
        }
    }

    /// The identifier the next file request will be assigned.
    pub open spec fn next_file_id(self) -> u64
        recommends
            self.file_count < u64::MAX,
    {
        (self.file_count + 1) as u64
    }

    /// The invariants that hold after every operation:
    /// - exactly the identifiers 1 through `file_count` are in the store,
    ///   and each entry records its own identifier;
    /// - every issued alias maps to an existing entry and to exactly that
    ///   entry's metadata, recorded when the alias was issued.
    pub open spec fn wf(self) -> bool {
        &&& (forall|id: u64|
            #[trigger] self.files.contains_key(id) <==> 1 <= id <= self.file_count)
        &&& (forall|id: u64|
            self.files.contains_key(id) ==> (#[trigger] self.files[id]).metadata.file_id == id)
        &&& (forall|a: Seq<char>| #[trigger] self.aliases.contains_key(a) ==> {
            &&& self.files.contains_key(self.aliases[a].file_id)
            &&& self.aliases[a] == self.files[self.aliases[a].file_id].metadata
        })
    }

    /// What `set_user` does: insert or replace the caller's profile.
    pub open spec fn set_user(
        self,
        caller: Seq<char>,
        first_name: Seq<char>,
        last_name: Seq<char>,
    ) -> ServiceView {
        ServiceView {
            users: self.users.insert(caller, UserView { first_name, last_name }),
            file_count: self.file_count,
            files: self.files,
            aliases: self.aliases,
        }
    }

    /// What `who_am_i` returns: the caller's profile, or nothing when the
    /// caller never registered one.
    pub open spec fn who_am_i(self, caller: Seq<char>) -> Option<UserView> {
        if self.users.contains_key(caller) {
            Some(self.users[caller])
        } else {
            None
        }
    }

    /// What a successful `create_file_request` does: issue the next
    /// identifier, store a content-less entry under it, and issue the
    /// alias derived from the seed.
    pub open spec fn create_file_request(self, request_name: Seq<char>, seed: Seq<u8>) -> ServiceView
        recommends
            self.file_count < u64::MAX,
            !self.aliases.contains_key(alias_of(seed)),
    {
        let id = self.next_file_id();
        let metadata = FileMetadataView { file_id: id, file_name: request_name };
        ServiceView {
            users: self.users,
            file_count: id,
            files: self.files.insert(id, FileView { metadata, contents: None }),
            aliases: self.aliases.insert(alias_of(seed), metadata),
        }
    }

    /// What `upload_file` does: attach (or overwrite) the content of an
    /// existing entry, leaving its metadata as it was; a silent no-op on
    /// an identifier that was never issued.
    pub open spec fn upload_file(self, file_id: u64, content: Seq<u8>) -> ServiceView {
        if self.files.contains_key(file_id) {
            ServiceView {
                users: self.users,
                file_count: self.file_count,
                files: self.files.insert(
                    file_id,
                    FileView { metadata: self.files[file_id].metadata, contents: Some(content) },
                ),
                aliases: self.aliases,
            }
        } else {
            self
        }
    }

    /// What `get_request_info` returns: the metadata recorded for the
    /// alias when it was issued, or the sentinel record (file identifier
    /// 0) when the alias never was.
    pub open spec fn get_request_info(self, alias: Seq<char>) -> FileMetadataView {
        if self.aliases.contains_key(alias) {
            self.aliases[alias]
        } else {
            sentinel_metadata()
        }
    }

    /// What `download_file` returns: the content stored under the
    /// identifier, or nothing when the identifier was never issued or
    /// nothing was uploaded against it yet.
    pub open spec fn download_file(self, file_id: u64) -> Option<Seq<u8>> {
        stored_content(self.files, file_id)
    }
}

/// The four registries a running service owns.
struct Registries {
    identities: IdentityRegistry,
    counter: FileCounter,
    store: FileStore,
    aliases: AliasIndex,
}

impl Registries {
    /// The abstract state these registries hold.
    spec fn abs(self) -> ServiceView {
        ServiceView {
            users: self.identities@,
            file_count: self.counter.spec_count(),
            files: self.store@,
            aliases: self.aliases@,
        }
    }

    /// Four empty registries: the state at process start.
    fn empty() -> (r: Self)
        ensures
            r.abs() == ServiceView::init(),
    {
        let r = Registries {
            identities: IdentityRegistry::new(),
            counter: FileCounter::new(),
            store: FileStore::new(),
            aliases: AliasIndex::new(),
        };
        proof {
            assert(r.abs() =~= ServiceView::init());
        }
        r
    }
}

/// The running service. Each operation runs to completion on its own;
/// the hosting environment serializes calls, so no operation ever sees a
/// half-updated state.
pub struct Service {
    state: Registries,
}

impl View for Service {
    type V = ServiceView;

    closed spec fn view(&self) -> ServiceView {
        self.state.abs()
    }
}

impl Service {
    /// Every service value this API can produce is well-formed.
    #[verifier::type_invariant]
    spec fn inv(self) -> bool {
        self@.wf()
    }

    /// A freshly started service: all four registries empty.
    pub fn new() -> (s: Self)
        ensures
            s@ == ServiceView::init(),
    {
        Service { state: Registries::empty() }
    }

    /// Inserts or replaces the profile for the calling identity. Names
    /// are not validated; the last write wins.
    pub fn set_user(&mut self, caller: String, first_name: String, last_name: String)
        ensures
            final(self)@ == old(self)@.set_user(caller@, first_name@, last_name@),
    {
        proof {
            use_type_invariant(&*self);
        }
        let ghost prior = self@;
        let ghost key = caller@;
        let ghost profile = UserView { first_name: first_name@, last_name: last_name@ };
        let mut state = Registries::empty();
        core::mem::swap(&mut state, &mut self.state);
        let user = User { first_name, last_name };
        state.identities.set(caller, user);
        proof {
            assert(state.abs() =~= prior.set_user(key, profile.first_name, profile.last_name));
        }
        self.state = state;
    }

    /// Returns the profile registered for the calling identity, or the
    /// distinguished unknown answer when it never registered one.
    pub fn who_am_i(&self, caller: &str) -> (r: WhoamiResponse)
        ensures
            r@ == self@.who_am_i(caller@),
    {
        match self.state.identities.get(caller) {
            Some(user) => WhoamiResponse::KnownUser(user.clone()),
            None => WhoamiResponse::UnknownUser,
        }
    }

    /// Reserves the next file identifier under the caller-supplied name,
    /// stores a content-less entry for it, and issues the alias derived
    /// from `seed`, a fresh draw from the caller's random source.
    ///
    /// The candidate alias is checked against the index before it is
    /// accepted: when it was issued before — which, the derivation being
    /// injective, can only mean the very same bytes were drawn before —
    /// nothing is reserved, no entry changes, and the caller retries with
    /// fresh bytes.
    pub fn create_file_request(&mut self, request_name: String, seed: &[u8]) -> (r: Option<
        String,
    >)
        requires
            old(self)@.file_count < u64::MAX,
        ensures
            match r {
                Some(alias) => {
                    &&& !old(self)@.aliases.contains_key(alias_of(seed@))
                    &&& alias@ == alias_of(seed@)
                    &&& final(self)@ == old(self)@.create_file_request(request_name@, seed@)
                },
                None => {
                    &&& old(self)@.aliases.contains_key(alias_of(seed@))
                    &&& final(self)@ == old(self)@
                },
            },
    {
        proof {
            use_type_invariant(&*self);
        }
        let ghost prior = self@;
        let ghost name = request_name@;
        let alias = get_file_alias(seed);
        if self.state.aliases.contains(alias.as_str()) {
            return None;
        }
        let return_alias = alias.clone();
        let mut state = Registries::empty();
        core::mem::swap(&mut state, &mut self.state);
        let file_id = state.counter.next_id();
        let metadata = FileMetadata { file_id, file_name: request_name };
        let metadata_copy = metadata.clone();
        state.store.create(metadata);
        state.aliases.register(alias, metadata_copy);
        proof {
            assert(state.abs() =~= prior.create_file_request(name, seed@));
            lemma_create_preserves_wf(prior, name, seed@);
        }
        self.state = state;
        Some(return_alias)
    }

    /// Attaches the given content to the entry stored under `file_id`,
    /// overwriting any content uploaded before; a silent no-op when the
    /// identifier was never issued.
    pub fn upload_file(&mut self, file_id: u64, file_content: Vec<u8>)
        ensures
            final(self)@ == old(self)@.upload_file(file_id, file_content@),
    {
        proof {
            use_type_invariant(&*self);
        }
        let ghost prior = self@;
        let ghost content = file_content@;
        let mut state = Registries::empty();
        core::mem::swap(&mut state, &mut self.state);
        state.store.attach_content(file_id, file_content);
        proof {
            assert(state.abs() =~= prior.upload_file(file_id, content));
            lemma_upload_preserves_wf(prior, file_id, content);
        }
        self.state = state;
    }

    /// Resolves an alias to the metadata recorded for it when it was
    /// issued; an alias that never was resolves to the sentinel record
    /// with file identifier 0.
    pub fn get_request_info(&self, alias: &str) -> (r: FileMetadata)
        ensures
            r@ == self@.get_request_info(alias@),
    {
        match self.state.aliases.resolve(alias) {
            Some(metadata) => metadata.clone(),
            None => FileMetadata {
                file_id: 0,
                file_name: String::from_str("non-existing file"),
            },
        }
    }

    /// Returns the content stored under the identifier, or the
    /// distinguished empty answer when the identifier was never issued or
    /// nothing was uploaded against it yet.
    pub fn download_file(&self, file_id: u64) -> (r: FileData)
        ensures
            r@ == self@.download_file(file_id),
    {
        self.state.store.get_content(file_id)
    }

    /// The number of file identifiers issued so far. A caller can check
    /// it against [`u64::MAX`] before asking for another file request.
    pub fn file_count(&self) -> (r: u64)
        ensures
            r == self@.file_count,
    {
        self.state.counter.count()
    }
}

/// The state at process start is well-formed.
pub proof fn lemma_init_wf()
    ensures
        ServiceView::init().wf(),
{
}

/// Registering a profile preserves the invariants: it touches no file,
/// no alias and no identifier.
pub proof fn lemma_set_user_preserves_wf(
    s: ServiceView,
    caller: Seq<char>,
    first_name: Seq<char>,
    last_name: Seq<char>,
)
    requires
        s.wf(),
    ensures
        s.set_user(caller, first_name, last_name).wf(),
{
}

/// A file request that passes the uniqueness check preserves the
/// invariants.
pub proof fn lemma_create_preserves_wf(s: ServiceView, request_name: Seq<char>, seed: Seq<u8>)
    requires
        s.wf(),
        s.file_count < u64::MAX,
        !s.aliases.contains_key(alias_of(seed)),
    ensures
        s.create_file_request(request_name, seed).wf(),
{
    let id = s.next_file_id();
    let s1 = s.create_file_request(request_name, seed);
    assert forall|a: Seq<char>| #[trigger] s1.aliases.contains_key(a) implies {
        &&& s1.files.contains_key(s1.aliases[a].file_id)
        &&& s1.aliases[a] == s1.files[s1.aliases[a].file_id].metadata
    } by {
        if a != alias_of(seed) {
            assert(s.aliases.contains_key(a));
            assert(s.aliases[a].file_id != id);
        }
    }
}

/// Uploading preserves the invariants: it changes no identifier, no
/// metadata and no alias.
pub proof fn lemma_upload_preserves_wf(s: ServiceView, file_id: u64, content: Seq<u8>)
    requires
        s.wf(),
    ensures
        s.upload_file(file_id, content).wf(),
{
}

/// File identifiers are issued strictly increasing and are never reused:
/// a file request issues an identifier strictly greater than every
/// identifier in the store, and the new identifier's alias resolves to
/// exactly that identifier.
pub proof fn lemma_file_ids_strictly_increase(s: ServiceView, request_name: Seq<char>, seed: Seq<u8>)
    requires
        s.wf(),
        s.file_count < u64::MAX,
        !s.aliases.contains_key(alias_of(seed)),
    ensures
        s.create_file_request(request_name, seed).file_count == s.file_count + 1,
        !s.files.contains_key(s.next_file_id()),
        forall|id: u64| #[trigger] s.files.contains_key(id) ==> id < s.next_file_id(),
        s.create_file_request(request_name, seed).get_request_info(alias_of(seed)).file_id
            == s.next_file_id(),
{
    lemma_create_preserves_wf(s, request_name, seed);
}

/// Downloading yields the empty answer for an identifier the counter
/// never issued (0, or above the count), and for an issued identifier
/// that nothing was uploaded against — in particular for one freshly
/// issued by a file request.
pub proof fn lemma_download_before_upload(
    s: ServiceView,
    file_id: u64,
    request_name: Seq<char>,
    seed: Seq<u8>,
)
    requires
        s.wf(),
        s.file_count < u64::MAX,
    ensures
        file_id == 0 || file_id > s.file_count ==> s.download_file(file_id) == None::<Seq<u8>>,
        s.files.contains_key(file_id) && s.files[file_id].contents == None::<Seq<u8>>
            ==> s.download_file(file_id) == None::<Seq<u8>>,
        s.create_file_request(request_name, seed).download_file(s.next_file_id())
            == None::<Seq<u8>>,
{
}

/// The round-trip law: after uploading content against an identifier a
/// prior file request produced, downloading that identifier yields
/// exactly that content.
pub proof fn lemma_upload_download_round_trip(s: ServiceView, file_id: u64, content: Seq<u8>)
    requires
        s.wf(),
        s.files.contains_key(file_id),
    ensures
        s.upload_file(file_id, content).download_file(file_id) == Some(content),
{
}

/// Resolving the alias issued by a file request yields exactly the
/// metadata produced at creation time: the fresh identifier and the
/// caller-supplied name. An alias never issued resolves to the sentinel
/// record.
pub proof fn lemma_get_request_info_exact(
    s: ServiceView,
    request_name: Seq<char>,
    seed: Seq<u8>,
    other: Seq<char>,
)
    requires
        s.wf(),
        s.file_count < u64::MAX,
        !s.aliases.contains_key(alias_of(seed)),
    ensures
        s.create_file_request(request_name, seed).get_request_info(alias_of(seed))
            == (FileMetadataView { file_id: s.next_file_id(), file_name: request_name }),
        !s.aliases.contains_key(other) ==> s.get_request_info(other) == sentinel_metadata(),
{
}

/// An issued alias keeps resolving to the same metadata: neither a later
/// file request nor an upload changes what it resolves to.
pub proof fn lemma_resolution_is_stable(
    s: ServiceView,
    alias: Seq<char>,
    request_name: Seq<char>,
    seed: Seq<u8>,
    file_id: u64,
    content: Seq<u8>,
)
    requires
        s.wf(),
        s.aliases.contains_key(alias),
        s.file_count < u64::MAX,
        !s.aliases.contains_key(alias_of(seed)),
    ensures
        s.create_file_request(request_name, seed).get_request_info(alias)
            == s.get_request_info(alias),
        s.upload_file(file_id, content).get_request_info(alias) == s.get_request_info(alias),
{
}

/// The profile law: an identity that never registered is unknown, and
/// after registering, the identity reads back exactly the names of its
/// most recent registration — registrations by other identities do not
/// affect it.
pub proof fn lemma_who_am_i_reads_last_write(
    s: ServiceView,
    caller: Seq<char>,
    other: Seq<char>,
    first_name: Seq<char>,
    last_name: Seq<char>,
)
    requires
        other != caller,
    ensures
        !s.users.contains_key(caller) ==> s.who_am_i(caller) == None::<UserView>,
        s.set_user(caller, first_name, last_name).who_am_i(caller)
            == Some(UserView { first_name, last_name }),
        s.set_user(other, first_name, last_name).who_am_i(caller) == s.who_am_i(caller),
{
}

/// Two consecutive file requests that both pass the uniqueness check
/// issue distinct identifiers and two distinct, non-colliding aliases:
/// the first alias is in the index by the time the second candidate
/// passes its check.
pub proof fn lemma_consecutive_requests_distinct(
    s: ServiceView,
    name1: Seq<char>,
    seed1: Seq<u8>,
    name2: Seq<char>,
    seed2: Seq<u8>,
)
    requires
        s.wf(),
        s.file_count + 2 <= u64::MAX,
        !s.aliases.contains_key(alias_of(seed1)),
        !s.create_file_request(name1, seed1).aliases.contains_key(alias_of(seed2)),
    ensures
        ({
            let s1 = s.create_file_request(name1, seed1);
            let s2 = s1.create_file_request(name2, seed2);
            &&& s1.file_count != s2.file_count
            &&& alias_of(seed1) != alias_of(seed2)
        }),
{
    let s1 = s.create_file_request(name1, seed1);
    assert(s1.aliases.contains_key(alias_of(seed1)));
}

} // verus!
