//! Blossom manifests: which content-addressed blob serves which path of a site.
use vstd::prelude::*;

use sha2::Digest;

use crate::hexcode::{all_hex_digits, hex_encode, hex_text};
use crate::net::nostr_client::{event_verify_outcome, verify_event, NnsEvent, RelayEvent};
use crate::text::{prefixed, ascii_lowercase, chars_of, str_equal, string_from_range, to_ascii_lowercase};

verus! {

/// The Nostr event kind of manifest entries.
pub const MANIFEST_EVENT_KIND: u16 = 34128;

#[derive(Debug, Clone, PartialEq, Eq)]
pub enum BlossomError {
    Nostr(String),
    Network(String),
    Io(String),
    HashMismatch { expected: String, actual: String },
    InvalidHash(String),
    MissingPath(String),
    InvalidPubkey(String),
    Manifest(String),
}

/// The message of each Blossom error.
pub open spec fn blossom_error_text(e: BlossomError) -> Seq<char> {
    match e {
        BlossomError::Nostr(s) => "nostr error: "@ + s@,
        BlossomError::Network(s) => "network error: "@ + s@,
        BlossomError::Io(s) => "io error: "@ + s@,
        BlossomError::HashMismatch { expected, actual } => "hash mismatch: expected "@ + expected@
            + ", got "@ + actual@,
        BlossomError::InvalidHash(s) => "invalid hash: "@ + s@,
        BlossomError::MissingPath(s) => "path "@ + s@ + " not found in manifest"@,
        BlossomError::InvalidPubkey(s) => "invalid pubkey: "@ + s@,
        BlossomError::Manifest(s) => "manifest error: "@ + s@,
    }
}

impl BlossomError {
    /// The error's message.
    pub fn message(&self) -> (r: String)
        ensures
            r@ == blossom_error_text(*self),
    {
        match self {
            BlossomError::Nostr(s) => prefixed("nostr error: ", s.as_str()),
            BlossomError::Network(s) => prefixed("network error: ", s.as_str()),
            BlossomError::Io(s) => prefixed("io error: ", s.as_str()),
            BlossomError::HashMismatch { expected, actual } => {
                let mut m = prefixed("hash mismatch: expected ", expected.as_str());
                m.append(", got ");
                m.append(actual.as_str());
                m
            },
            BlossomError::InvalidHash(s) => prefixed("invalid hash: ", s.as_str()),
            BlossomError::MissingPath(s) => {
                let mut m = prefixed("path ", s.as_str());
                m.append(" not found in manifest");
                m
            },
            BlossomError::InvalidPubkey(s) => prefixed("invalid pubkey: ", s.as_str()),
            BlossomError::Manifest(s) => prefixed("manifest error: ", s.as_str()),
        }
    }
}

/// One path of a site and the hash of the blob that serves it.
#[derive(Debug, Clone, PartialEq, Eq)]
pub struct BlossomManifestEntry {
    pub path: String,
    pub hash: String,
    pub created_at: u64,
}

/// An entry as (path, hash, creation time).
pub type EntryView = (Seq<char>, Seq<char>, u64);

impl View for BlossomManifestEntry {
    type V = EntryView;

    open spec fn view(&self) -> EntryView {
        (self.path@, self.hash@, self.created_at)
    }
}

/// A manifest: at most one entry per path.
#[derive(Debug, Clone)]
pub struct BlossomManifest {
    entries: Vec<BlossomManifestEntry>,
}

pub open spec fn entries_view(v: Seq<BlossomManifestEntry>) -> Seq<EntryView> {
    Seq::new(v.len(), |i: int| v[i]@)
}

/// No two entries have the same path.
pub open spec fn paths_unique(s: Seq<EntryView>) -> bool {
    forall|i: int, j: int| 0 <= i < j < s.len() ==> s[i].0 != s[j].0
}

/// The entry for `path`, if any.
pub open spec fn lookup(s: Seq<EntryView>, path: Seq<char>) -> Option<EntryView> {
    if exists|i: int| 0 <= i < s.len() && s[i].0 == path {
        Some(s[choose|i: int| 0 <= i < s.len() && s[i].0 == path])
    } else {
        None
    }
}

/// The manifest after one more entry: a new path is added; for a known path the newer
/// entry wins (the older one stays when the times are equal).
pub open spec fn manifest_insert(s: Seq<EntryView>, e: EntryView) -> Seq<EntryView> {
    if exists|i: int| 0 <= i < s.len() && s[i].0 == e.0 {
        let i = choose|i: int| 0 <= i < s.len() && s[i].0 == e.0;
        if e.2 > s[i].2 {
            s.update(i, e)
        } else {
            s
        }
    } else {
        s.push(e)
    }
}

/// A path as manifests store it: with a leading slash, `/` for the empty path.
pub open spec fn normalized_path(path: Seq<char>) -> Seq<char> {
    if path.len() == 0 {
        seq!['/']
    } else if path[0] == '/' {
        path
    } else {
        seq!['/'] + path
    }
}

/// Two texts are equal when ASCII letters are compared without case.
pub open spec fn eq_ignore_ascii_case(a: Seq<char>, b: Seq<char>) -> bool {
    ascii_lowercase(a) == ascii_lowercase(b)
}

impl BlossomManifest {
    pub closed spec fn view(&self) -> Seq<EntryView> {
        entries_view(self.entries@)
    }

    pub closed spec fn wf(&self) -> bool {
        paths_unique(self.view())
    }

    /// An empty manifest.
    pub fn new() -> (r: BlossomManifest)
        ensures
            r.wf(),
            r.view() == Seq::<EntryView>::empty(),
    {
        let r = BlossomManifest { entries: Vec::new() };
        assert(r.view() =~= Seq::<EntryView>::empty());
        r
    }

    /// The number of paths.
    pub fn len(&self) -> (r: usize)
        ensures
            r == self.view().len(),
    {
        self.entries.len()
    }

    fn position(&self, path: &str) -> (r: Option<usize>)
        ensures
            match r {
                Some(i) => i < self.view().len() && self.view()[i as int].0 == path@,
                None => forall|i: int| 0 <= i < self.view().len() ==> self.view()[i].0 != path@,
            },
    {
        let mut i: usize = 0;
        while i < self.entries.len()
            invariant
                i <= self.view().len(),
                self.view() == entries_view(self.entries@),
                forall|k: int| 0 <= k < i ==> self.view()[k].0 != path@,
            decreases self.view().len() - i,
        {
            if str_equal(self.entries[i].path.as_str(), path) {
                return Some(i);
            }
            i = i + 1;
        }
        None
    }

    /// Adds an entry, keeping the newer one when the path is already there.
    pub fn insert(&mut self, entry: BlossomManifestEntry)
        requires
            old(self).wf(),
        ensures
            final(self).wf(),
            final(self).view() == manifest_insert(old(self).view(), entry@),
    {
        let ghost s = self.view();
        match self.position(entry.path.as_str()) {
            Some(i) => {
                assert(s[i as int].0 == entry@.0);
                let ghost c = choose|k: int| 0 <= k < s.len() && s[k].0 == entry@.0;
                assert(c == i) by {
                    if c != i {
                        if c < i {
                            assert(s[c].0 != s[i as int].0);
                        } else {
                            assert(s[i as int].0 != s[c].0);
                        }
                    }
                }
                if entry.created_at > self.entries[i].created_at {
                    self.entries.set(i, entry);
                    assert(self.view() =~= s.update(i as int, entry@));
                }
            },
            None => {
                self.entries.push(entry);
                assert(self.view() =~= s.push(entry@));
            },
        }
    }

    /// The entry for a path (the path is normalized first).
    pub fn get(&self, path: &str) -> (r: Option<&BlossomManifestEntry>)
        requires
            self.wf(),
        ensures
            match lookup(self.view(), normalized_path(path@)) {
                Some(e) => r matches Some(x) && x@ == e,
                None => r is None,
            },
    {
        let normalized = normalize_path(path);
        match self.position(normalized.as_str()) {
            Some(i) => {
                let ghost s = self.view();
                let ghost c = choose|k: int| 0 <= k < s.len() && s[k].0 == normalized@;
                assert(c == i) by {
                    if c != i {
                        if c < i {
                            assert(s[c].0 != s[i as int].0);
                        } else {
                            assert(s[i as int].0 != s[c].0);
                        }
                    }
                }
                Some(&self.entries[i])
            },
            None => None,
        }
    }

    /// An entry whose hash equals `hash` ignoring ASCII case, if there is one.
    pub fn find_by_hash(&self, hash: &str) -> (r: Option<&BlossomManifestEntry>)
        ensures
            match r {
                Some(x) => self.view().contains(x@) && eq_ignore_ascii_case(x@.1, hash@),
                None => forall|i: int|
                    0 <= i < self.view().len() ==> !eq_ignore_ascii_case(
                        #[trigger] self.view()[i].1,
                        hash@,
                    ),
            },
    {
        let wanted = to_ascii_lowercase(hash);
        let mut i: usize = 0;
        while i < self.entries.len()
            invariant
                i <= self.view().len(),
                self.view() == entries_view(self.entries@),
                wanted@ == ascii_lowercase(hash@),
                forall|k: int|
                    0 <= k < i ==> !eq_ignore_ascii_case(#[trigger] self.view()[k].1, hash@),
            decreases self.view().len() - i,
        {
            let lowered = to_ascii_lowercase(self.entries[i].hash.as_str());
            if lowered.len() == wanted.len() && crate::text::chars_equal(
                lowered.as_slice(),
                wanted.as_slice(),
            ) {
                assert(self.view()[i as int] == self.entries@[i as int]@);
                return Some(&self.entries[i]);
            }
            i = i + 1;
        }
        None
    }
}

/// A manifest path with a leading slash (`/` for the empty path).
pub fn normalize_path(path: &str) -> (r: String)
    ensures
        r@ == normalized_path(path@),
{
    let cs = chars_of(path);
    if cs.len() == 0 {
        let r = String::from_str("/");
        proof {
            reveal_strlit("/");
        }
        return r;
    }
    if cs[0] == '/' {
        return String::from_str(path);
    }
    let mut r = String::from_str("/");
    proof {
        reveal_strlit("/");
    }
    r.append(path);
    r
}

/// A blob hash must be hex text of even length and at least ten digits.
pub open spec fn valid_hash(hash: Seq<char>) -> bool {
    hash.len() >= 10 && hash.len() % 2 == 0 && all_hex_digits(hash)
}

/// Checks the form of a blob hash.
pub fn validate_hash(hash: &str) -> (r: Result<(), BlossomError>)
    ensures
        r is Ok <==> valid_hash(hash@),
        r matches Err(e) ==> (e matches BlossomError::InvalidHash(h) && h@ == hash@),
{
    let cs = chars_of(hash);
    if cs.len() < 10 || cs.len() % 2 != 0 {
        return Err(BlossomError::InvalidHash(String::from_str(hash)));
    }
    let mut i: usize = 0;
    while i < cs.len()
        invariant
            cs@ == hash@,
            i <= cs@.len(),
            forall|k: int| 0 <= k < i ==> crate::hexcode::is_hex_digit(#[trigger] cs@[k]),
        decreases cs@.len() - i,
    {
        let c = cs[i];
        if !(('0' <= c && c <= '9') || ('a' <= c && c <= 'f') || ('A' <= c && c <= 'F')) {
            assert(!crate::hexcode::is_hex_digit(hash@[i as int]));
            return Err(BlossomError::InvalidHash(String::from_str(hash)));
        }
        i = i + 1;
    }
    Ok(())
}

/// The SHA-256 digest of some bytes.
pub uninterp spec fn sha256_digest(data: Seq<u8>) -> Seq<u8>;

/// Hashes bytes with `sha2::Sha256`. Trusted: the digest is `sha256_digest(data)`,
/// 32 bytes long.
#[verifier::external_body]
fn sha256(data: &[u8]) -> (r: Vec<u8>)
    ensures
        r@ == sha256_digest(data@),
        r@.len() == 32,
{
    sha2::Sha256::digest(data).to_vec()
}

/// Checks that `bytes` hash to `expected` (lower-case hex SHA-256).
pub fn verify_hash(expected: &str, bytes: &[u8]) -> (r: Result<(), BlossomError>)
    ensures
        r is Ok <==> expected@ == hex_text(sha256_digest(bytes@)),
        r matches Err(e) ==> (e matches BlossomError::HashMismatch { expected: x, actual: a }
            && x@ == expected@ && a@ == hex_text(sha256_digest(bytes@))),
{
    let digest = sha256(bytes);
    let actual = hex_encode(digest.as_slice());
    if str_equal(expected, actual.as_str()) {
        Ok(())
    } else {
        Err(BlossomError::HashMismatch { expected: String::from_str(expected), actual })
    }
}

/// The cache location of a blob: a directory named by the hash's first two characters
/// and a file named by the rest.
pub open spec fn cache_parts(hash: Seq<char>) -> (Seq<char>, Seq<char>) {
    let split = if hash.len() < 2 {
        hash.len() as int
    } else {
        2
    };
    (hash.take(split), hash.skip(split))
}

pub fn cache_path_parts(hash: &str) -> (r: (String, String))
    ensures
        (r.0@, r.1@) == cache_parts(hash@),
{
    let cs = chars_of(hash);
    let split: usize = if cs.len() < 2 {
        cs.len()
    } else {
        2
    };
    let a = string_from_range(cs.as_slice(), 0, split);
    let b = string_from_range(cs.as_slice(), split, cs.len());
    assert(cs@.subrange(0, split as int) =~= hash@.take(split as int));
    assert(cs@.subrange(split as int, cs@.len() as int) =~= hash@.skip(split as int));
    (a, b)
}

/// What a manifest event says: the last `d` tag (normalized) and the last `sha256` tag.
pub open spec fn manifest_tag(tags: Seq<Seq<Seq<char>>>, key: Seq<char>) -> Option<Seq<char>>
    decreases tags.len(),
{
    if tags.len() == 0 {
        None
    } else {
        let t = tags.last();
        if t.len() >= 2 && t[0] == key {
            Some(t[1])
        } else {
            manifest_tag(tags.drop_last(), key)
        }
    }
}

/// Why a manifest event was refused.
pub enum ManifestRejection {
    /// The `sha256` tag is not a well-formed hash.
    InvalidHash(Seq<char>),
    /// The signature check failed, with this message.
    BadSignature(Seq<char>),
}

/// The entry a manifest event makes: none without a path or a hash; an error for a
/// malformed hash or a bad signature.
pub open spec fn manifest_outcome(e: NnsEvent) -> Result<Option<EntryView>, ManifestRejection> {
    let path = manifest_tag(e.tag_view(), "d"@);
    let hash = manifest_tag(e.tag_view(), "sha256"@);
    if path is None || hash is None {
        Ok(None)
    } else if !valid_hash(hash->0) {
        Err(ManifestRejection::InvalidHash(hash->0))
    } else {
        match event_verify_outcome(
            e.id@,
            e.pubkey@,
            e.created_at,
            e.kind,
            e.tag_view(),
            e.content@,
            e.sig@,
        ) {
            Some(msg) => Err(ManifestRejection::BadSignature("invalid signature: "@ + msg)),
            None => Ok(Some((normalized_path(path->0), hash->0, e.created_at))),
        }
    }
}

fn last_tag_value(tags: &Vec<Vec<String>>, key: &str) -> (r: Option<String>)
    ensures
        match manifest_tag(tags.deep_view(), key@) {
            Some(v) => r matches Some(s) && s@ == v,
            None => r is None,
        },
{
    let ghost tv = tags.deep_view();
    let mut found: Option<String> = None;
    let mut i: usize = 0;
    proof {
        assert(tv.take(0) =~= Seq::<Seq<Seq<char>>>::empty());
    }
    while i < tags.len()
        invariant
            tv == tags.deep_view(),
            i <= tv.len(),
            match manifest_tag(tv.take(i as int), key@) {
                Some(v) => found matches Some(s) && s@ == v,
                None => found is None,
            },
        decreases tv.len() - i,
    {
        proof {
            assert(tv.take(i + 1).drop_last() =~= tv.take(i as int));
            assert(tv.take(i + 1).last() == tv[i as int]);
        }
        let t = &tags[i];
        if t.len() >= 2 && str_equal(t[0].as_str(), key) {
            found = Some(t[1].clone());
        }
        i = i + 1;
    }
    assert(tv.take(tv.len() as int) =~= tv);
    found
}

/// Reads the manifest entry that an event makes.
pub fn parse_manifest_event(event: &NnsEvent) -> (r: Result<Option<BlossomManifestEntry>, BlossomError>)
    ensures
        match manifest_outcome(*event) {
            Ok(Some(v)) => r matches Ok(Some(x)) && x@ == v,
            Ok(None) => r matches Ok(None),
            Err(ManifestRejection::InvalidHash(m)) => r matches Err(BlossomError::InvalidHash(h))
                && h@ == m,
            Err(ManifestRejection::BadSignature(m)) => r matches Err(BlossomError::Manifest(h))
                && h@ == m,
        },
{
    let path = last_tag_value(&event.tags, "d");
    let hash = last_tag_value(&event.tags, "sha256");
    let (path, hash) = match (path, hash) {
        (Some(p), Some(h)) => (p, h),
        _ => {
            return Ok(None);
        },
    };
    match validate_hash(hash.as_str()) {
        Ok(()) => {},
        Err(e) => {
            return Err(e);
        },
    }
    match verify_event(event) {
        Ok(()) => {},
        Err(msg) => {
            let mut text = String::from_str("invalid signature: ");
            text.append(msg.as_str());
            return Err(BlossomError::Manifest(text));
        },
    }
    Ok(Some(BlossomManifestEntry { path: normalize_path(path.as_str()), hash, created_at: event.created_at }))
}

/// Insertion keeps, for the inserted path, the newer of the two entries.
pub proof fn lemma_insert_keeps_newest(s: Seq<EntryView>, e: EntryView)
    requires
        paths_unique(s),
    ensures
        paths_unique(manifest_insert(s, e)),
        lookup(manifest_insert(s, e), e.0) is Some,
        lookup(s, e.0) is None ==> lookup(manifest_insert(s, e), e.0) == Some(e),
        lookup(s, e.0) matches Some(old) ==> lookup(manifest_insert(s, e), e.0) == (if e.2 > old.2 {
            Some(e)
        } else {
            Some(old)
        }),
{
    let t = manifest_insert(s, e);
    if exists|i: int| 0 <= i < s.len() && s[i].0 == e.0 {
        let i = choose|i: int| 0 <= i < s.len() && s[i].0 == e.0;
        assert(t[i].0 == e.0);
        let c = choose|k: int| 0 <= k < t.len() && t[k].0 == e.0;
        assert(c == i) by {
            if c != i {
                if c < i {
                    assert(t[c] == s[c]);
                } else {
                    assert(t[c] == s[c]);
                }
            }
        }
        let c2 = choose|k: int| 0 <= k < s.len() && s[k].0 == e.0;
        assert(c2 == i);
    } else {
        assert(t[s.len() as int].0 == e.0);
        let c = choose|k: int| 0 <= k < t.len() && t[k].0 == e.0;
        assert(c == s.len());
    }
}

/// Insertion does not change the entries of other paths.
pub proof fn lemma_insert_other_paths(s: Seq<EntryView>, e: EntryView, p: Seq<char>)
    requires
        paths_unique(s),
        p != e.0,
    ensures
        lookup(manifest_insert(s, e), p) == lookup(s, p),
{
    let t = manifest_insert(s, e);
    if exists|i: int| 0 <= i < s.len() && s[i].0 == p {
        let i = choose|i: int| 0 <= i < s.len() && s[i].0 == p;
        assert(t[i] == s[i]);
        assert(exists|k: int| 0 <= k < t.len() && t[k].0 == p);
    } else {
        assert forall|k: int| 0 <= k < t.len() implies t[k].0 != p by {
            if k < s.len() {
                assert(t[k] == s[k] || t[k] == e);
            }
        }
    }
}

/// The manifest that inserting entries in turn builds, starting empty.
pub open spec fn manifest_from(es: Seq<EntryView>) -> Seq<EntryView>
    decreases es.len(),
{
    if es.len() == 0 {
        Seq::empty()
    } else {
        manifest_insert(manifest_from(es.drop_last()), es.last())
    }
}

/// Entries for one path with the same time are the same entry.
pub open spec fn times_tell_apart(es: Seq<EntryView>) -> bool {
    forall|i: int, j: int|
        0 <= i < es.len() && 0 <= j < es.len() && es[i].0 == es[j].0 && es[i].2 == es[j].2
            ==> es[i] == es[j]
}

/// `e` is an entry of `es` for path `p`, at least as new as every other entry for `p`.
pub open spec fn newest_in(es: Seq<EntryView>, e: EntryView, p: Seq<char>) -> bool {
    &&& e.0 == p
    &&& es.contains(e)
    &&& forall|i: int| 0 <= i < es.len() && es[i].0 == p ==> es[i].2 <= e.2
}

proof fn lemma_manifest_from_newest(es: Seq<EntryView>)
    ensures
        paths_unique(manifest_from(es)),
        forall|p: Seq<char>|
            #![trigger lookup(manifest_from(es), p)]
            (lookup(manifest_from(es), p) is Some) == (exists|i: int|
                0 <= i < es.len() && es[i].0 == p),
        forall|p: Seq<char>|
            #![trigger lookup(manifest_from(es), p)]
            lookup(manifest_from(es), p) matches Some(e) ==> newest_in(es, e, p),
    decreases es.len(),
{
    if es.len() == 0 {
        assert forall|p: Seq<char>| #![trigger lookup(manifest_from(es), p)]
            (lookup(manifest_from(es), p) is Some) == (exists|i: int|
                0 <= i < es.len() && es[i].0 == p) by {}
    } else {
        let d = es.drop_last();
        let x = es.last();
        let m = manifest_from(d);
        lemma_manifest_from_newest(d);
        lemma_insert_keeps_newest(m, x);
        let t = manifest_insert(m, x);
        assert(manifest_from(es) == t);
        assert forall|p: Seq<char>| #![trigger lookup(manifest_from(es), p)]
            (lookup(manifest_from(es), p) is Some) == (exists|i: int|
                0 <= i < es.len() && es[i].0 == p) by {
            if p == x.0 {
                assert(es[es.len() - 1].0 == p);
            } else {
                lemma_insert_other_paths(m, x, p);
                if exists|i: int| 0 <= i < es.len() && es[i].0 == p {
                    let i = choose|i: int| 0 <= i < es.len() && es[i].0 == p;
                    assert(d[i] == es[i]);
                    assert(lookup(m, p) is Some);
                }
                if lookup(m, p) is Some {
                    let i = choose|i: int| 0 <= i < d.len() && d[i].0 == p;
                    assert(es[i] == d[i]);
                }
            }
        }
        assert forall|p: Seq<char>| #![trigger lookup(manifest_from(es), p)]
            lookup(manifest_from(es), p) is Some implies newest_in(
                es,
                lookup(manifest_from(es), p)->0,
                p,
            ) by {
            let e = lookup(t, p)->0;
            if p == x.0 {
                match lookup(m, p) {
                    None => {
                        assert(e == x);
                        assert(es[es.len() - 1] == x);
                        assert forall|i: int| 0 <= i < es.len() && es[i].0 == p implies es[i].2
                            <= e.2 by {
                            if i < d.len() {
                                assert(d[i] == es[i]);
                            }
                        }
                    },
                    Some(o) => {
                        let k = choose|k: int| 0 <= k < d.len() && d[k] == o;
                        assert(es[k] == d[k]);
                        assert(es[es.len() - 1] == x);
                        assert forall|i: int| 0 <= i < es.len() && es[i].0 == p implies es[i].2
                            <= e.2 by {
                            if i < d.len() {
                                assert(d[i] == es[i]);
                            }
                        }
                    },
                }
            } else {
                lemma_insert_other_paths(m, x, p);
                let o = lookup(m, p)->0;
                let k = choose|k: int| 0 <= k < d.len() && d[k] == o;
                assert(es[k] == d[k]);
                assert forall|i: int| 0 <= i < es.len() && es[i].0 == p implies es[i].2 <= e.2 by {
                    if i < d.len() {
                        assert(d[i] == es[i]);
                    }
                }
            }
        }
    }
}

/// A manifest does not depend on the order in which its entries are inserted: two runs of
/// inserts with the same entries, where entries for one path differ in time, find the same
/// entry for every path (the newest one for it).
pub proof fn lemma_manifest_order_free(a: Seq<EntryView>, b: Seq<EntryView>, p: Seq<char>)
    requires
        times_tell_apart(a),
        forall|e: EntryView| a.contains(e) <==> b.contains(e),
    ensures
        lookup(manifest_from(a), p) == lookup(manifest_from(b), p),
{
    lemma_manifest_from_newest(a);
    lemma_manifest_from_newest(b);
    let la = lookup(manifest_from(a), p);
    let lb = lookup(manifest_from(b), p);
    if la is Some {
        let ea = la->0;
        let i = choose|i: int| 0 <= i < a.len() && a[i] == ea;
        assert(b.contains(ea));
        let j = choose|j: int| 0 <= j < b.len() && b[j] == ea;
        assert(b[j].0 == p);
        assert(lb is Some);
        let eb = lb->0;
        assert(a.contains(eb));
        let k = choose|k: int| 0 <= k < a.len() && a[k] == eb;
        assert(a[k].2 <= ea.2);
        assert(b[j].2 <= eb.2);
        assert(a[i] == a[k]);
    } else {
        if lb is Some {
            let eb = lb->0;
            assert(a.contains(eb));
            let k = choose|k: int| 0 <= k < a.len() && a[k] == eb;
            assert(a[k].0 == p);
        }
    }
}

/// The manifest that a list of events builds: each event's entry is inserted in turn;
/// events without an entry, or refused, are skipped.
pub open spec fn manifest_of(events: Seq<RelayEvent>) -> Seq<EntryView>
    decreases events.len(),
{
    if events.len() == 0 {
        Seq::empty()
    } else {
        let prev = manifest_of(events.drop_last());
        match manifest_outcome(events.last().event) {
            Ok(Some(e)) => manifest_insert(prev, e),
            _ => prev,
        }
    }
}

/// Builds the manifest of a site from the events its author published.
pub fn manifest_from_events(events: &[RelayEvent]) -> (r: BlossomManifest)
    ensures
        r.wf(),
        r.view() == manifest_of(events@),
{
    let mut manifest = BlossomManifest::new();
    let mut i: usize = 0;
    proof {
        assert(events@.take(0) =~= Seq::<RelayEvent>::empty());
    }
    while i < events.len()
        invariant
            i <= events@.len(),
            manifest.wf(),
            manifest.view() == manifest_of(events@.take(i as int)),
        decreases events@.len() - i,
    {
        proof {
            let t = events@.take(i + 1);
            assert(t.drop_last() =~= events@.take(i as int));
            assert(t.last() == events@[i as int]);
        }
        match parse_manifest_event(&events[i].event) {
            Ok(Some(entry)) => {
                manifest.insert(entry);
            },
            _ => {},
        }
        i = i + 1;
    }
    proof {
        assert(events@.take(events@.len() as int) =~= events@);
    }
    manifest
}

/// The relays to ask for a manifest: the directory's relays, then each extra relay that
/// is not already listed, in order.
pub open spec fn merged_relays(base: Seq<Seq<char>>, extra: Seq<Seq<char>>) -> Seq<Seq<char>>
    decreases extra.len(),
{
    if extra.len() == 0 {
        base
    } else {
        let m = merged_relays(base, extra.drop_last());
        if m.contains(extra.last()) {
            m
        } else {
            m.push(extra.last())
        }
    }
}

/// Lists the relays to ask for a manifest (URLs by their serialization).
pub fn merge_relays(base: &Vec<String>, extra: &Vec<String>) -> (r: Vec<String>)
    ensures
        r.deep_view() == merged_relays(base.deep_view(), extra.deep_view()),
{
    let mut out = crate::nns::models::copy_strings(base);
    let ghost ev = extra.deep_view();
    let mut i: usize = 0;
    proof {
        assert(ev.take(0) =~= Seq::<Seq<char>>::empty());
    }
    while i < extra.len()
        invariant
            ev == extra.deep_view(),
            i <= ev.len(),
            out.deep_view() == merged_relays(base.deep_view(), ev.take(i as int)),
        decreases ev.len() - i,
    {
        proof {
            let t = ev.take(i + 1);
            assert(t.drop_last() =~= ev.take(i as int));
            assert(t.last() == ev[i as int]);
        }
        let mut found = false;
        let mut j: usize = 0;
        while j < out.len()
            invariant
                j <= out@.len(),
                found ==> out.deep_view().contains(extra@[i as int]@),
                !found ==> forall|k: int| 0 <= k < j ==> out@[k]@ != extra@[i as int]@,
                i < extra@.len(),
            decreases out@.len() - j,
        {
            if str_equal(out[j].as_str(), extra[i].as_str()) {
                assert(out.deep_view()[j as int] == extra@[i as int]@);
                found = true;
            }
            j = j + 1;
        }
        if !found {
            let ghost before = out.deep_view();
            proof {
                assert forall|k: int| 0 <= k < before.len() implies before[k] != extra@[i as int]@ by {
                    assert(before[k] == out@[k]@);
                }
            }
            out.push(extra[i].clone());
            proof {
                assert(out.deep_view() =~= before.push(extra@[i as int]@));
            }
        }
        i = i + 1;
    }
    proof {
        assert(ev.take(ev.len() as int) =~= ev);
    }
    out
}

/// The error when no server gave the blob: the last server's error, or `MissingPath`
/// naming the hash when there was no server to ask.
pub fn blob_fetch_failure(hash: &str, last_error: Option<BlossomError>) -> (r: BlossomError)
    ensures
        match last_error {
            Some(e) => r == e,
            None => r matches BlossomError::MissingPath(h) && h@ == hash@,
        },
{
    match last_error {
        Some(e) => e,
        None => BlossomError::MissingPath(String::from_str(hash)),
    }
}

/// Normalizing a path twice is normalizing it once.
pub proof fn lemma_normalize_idempotent(path: Seq<char>)
    ensures
        normalized_path(normalized_path(path)) == normalized_path(path),
{
}

/// After an entry for a path is inserted, looking up the path (in any spelling that
/// normalizes to it) finds an entry for it; and it is the inserted entry unless an entry
/// at least as new was there.
pub proof fn lemma_get_after_insert(s: Seq<EntryView>, e: EntryView, asked: Seq<char>)
    requires
        paths_unique(s),
        normalized_path(asked) == e.0,
    ensures
        lookup(manifest_insert(s, e), normalized_path(asked)) is Some,
        (lookup(s, e.0) matches Some(old) && old.2 >= e.2) || lookup(
            manifest_insert(s, e),
            normalized_path(asked),
        ) == Some(e),
{
    lemma_insert_keeps_newest(s, e);
}

/// The merged relay list starts with the directory's relays and contains every extra relay.
pub proof fn lemma_merged_relays(base: Seq<Seq<char>>, extra: Seq<Seq<char>>)
    ensures
        merged_relays(base, extra).len() >= base.len(),
        merged_relays(base, extra).take(base.len() as int) == base,
        forall|i: int| 0 <= i < extra.len() ==> merged_relays(base, extra).contains(#[trigger] extra[i]),
    decreases extra.len(),
{
    if extra.len() > 0 {
        let prev = extra.drop_last();
        lemma_merged_relays(base, prev);
        let m = merged_relays(base, prev);
        assert forall|i: int| 0 <= i < extra.len() implies merged_relays(base, extra).contains(#[trigger] extra[i]) by {
            if i < extra.len() - 1 {
                assert(extra[i] == prev[i]);
                assert(m.contains(prev[i]));
                if !m.contains(extra.last()) {
                    let j = choose|j: int| 0 <= j < m.len() && m[j] == prev[i];
                    assert(m.push(extra.last())[j] == prev[i]);
                }
            } else {
                if !m.contains(extra.last()) {
                    assert(m.push(extra.last())[m.len() as int] == extra.last());
                }
            }
        }
        if !m.contains(extra.last()) {
            assert(m.push(extra.last()).take(base.len() as int) =~= m.take(base.len() as int));
        }
    } else {
        assert(base.take(base.len() as int) =~= base);
    }
}

} // verus!
