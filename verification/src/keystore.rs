//! The key store: hex-encoded secret keys filed under a name.
//!
//! A name is a category and an identifier joined by a slash, as in
//! `bls_keys/<public key>`. The store is the table of key files as the
//! library sees it; reading it from a directory and writing it back is the
//! business of the program around the library.

use vstd::prelude::*;
use crate::error::KeyError;
use crate::hex_codec::{hex_bytes, is_hex_text};
use crate::scalar::is_scalar;

verus! {

/// Category of the BLS secret keys, with the slash that ends it.
pub const BLS_KEYS: &'static str = "bls_keys/";

/// Category of the identity secret keys, with the slash that ends it.
pub const ETH_KEYS: &'static str = "eth_keys/";

/// One stored key: the name it is filed under and the bytes of the file.
#[derive(Debug, Clone)]
pub struct KeyFile {
    pub name: String,
    pub content: Vec<u8>,
}

/// A table of key files in which no name occurs twice.
pub struct KeyStore {
    files: Vec<KeyFile>,
}

/// A table of key files as pairs of name and content.
pub type Files = Seq<(Seq<char>, Seq<u8>)>;

impl View for KeyStore {
    type V = Files;

    closed spec fn view(&self) -> Files {
        Seq::new(self.files@.len(), |i: int| (self.files@[i].name@, self.files@[i].content@))
    }
}

/// Whether no name occurs twice in `files`.
pub open spec fn distinct_names(files: Files) -> bool {
    forall|i: int, j: int| 0 <= i < j < files.len() ==> files[i].0 != files[j].0
}

/// Whether a file is stored under `name`.
pub open spec fn holds(files: Files, name: Seq<char>) -> bool {
    exists|i: int| 0 <= i < files.len() && files[i].0 == name
}

/// Whether `i` is the position of the first file stored under `name`.
pub open spec fn is_first(files: Files, name: Seq<char>, i: int) -> bool {
    &&& 0 <= i < files.len()
    &&& files[i].0 == name
    &&& forall|j: int| 0 <= j < i ==> files[j].0 != name
}

/// The position of the first file stored under `name`.
pub open spec fn position(files: Files, name: Seq<char>) -> int
    recommends
        holds(files, name),
{
    choose|i: int| is_first(files, name, i)
}

/// The content stored under `name`, if any.
pub open spec fn lookup(files: Files, name: Seq<char>) -> Option<Seq<u8>> {
    if holds(files, name) {
        Some(files[position(files, name)].1)
    } else {
        None
    }
}

/// The table after `content` is written under `name`: a file of that name is
/// overwritten in place, a new one is added at the end.
pub open spec fn put(files: Files, name: Seq<char>, content: Seq<u8>) -> Files {
    if holds(files, name) {
        files.update(position(files, name), (name, content))
    } else {
        files.push((name, content))
    }
}

/// Whether `name` lies in the category `prefix`.
pub open spec fn has_prefix(name: Seq<char>, prefix: Seq<char>) -> bool {
    name.len() >= prefix.len() && name.take(prefix.len() as int) == prefix
}

/// The identifiers of the files in the category `prefix`, in the order of
/// the table.
pub open spec fn listed(files: Files, prefix: Seq<char>) -> Seq<Seq<char>>
    decreases files.len(),
{
    if files.len() == 0 {
        Seq::empty()
    } else {
        let rest = listed(files.drop_last(), prefix);
        let name = files.last().0;
        if has_prefix(name, prefix) {
            rest.push(name.skip(prefix.len() as int))
        } else {
            rest
        }
    }
}

/// The secret scalar that the content of a key file stands for: the content
/// must be hexadecimal text, and the bytes it spells a scalar below `order`.
pub open spec fn parse_secret(content: Seq<u8>, order: Seq<u8>) -> Result<Seq<u8>, KeyError> {
    if !is_hex_text(content) {
        Err(KeyError::DecodeError)
    } else if !is_scalar(hex_bytes(content), order) {
        Err(KeyError::InvalidKeyEncoding)
    } else {
        Ok(hex_bytes(content))
    }
}

/// What reading the secret scalar filed under `name` returns.
pub open spec fn read_outcome(files: Files, name: Seq<char>, order: Seq<u8>) -> Result<
    Seq<u8>,
    KeyError,
> {
    match lookup(files, name) {
        None => Err(KeyError::NotFound),
        Some(content) => parse_secret(content, order),
    }
}

/// The views of a list of strings.
pub open spec fn string_views(names: Seq<String>) -> Seq<Seq<char>> {
    Seq::new(names.len(), |i: int| names[i]@)
}

/// Where a file is stored under `name`, one of them is the first, and
/// `position` is where it lies.
pub proof fn lemma_position(files: Files, name: Seq<char>)
    requires
        holds(files, name),
    ensures
        is_first(files, name, position(files, name)),
    decreases files.len(),
{
    let before = files.drop_last();
    assert forall|j: int| 0 <= j < before.len() implies before[j] == files[j] by {}
    if holds(before, name) {
        lemma_position(before, name);
        let first = position(before, name);
        assert(files[first].0 == name);
        assert forall|j: int| 0 <= j < first implies files[j].0 != name by {
            assert(before[j].0 != name);
        }
        assert(is_first(files, name, first));
    } else {
        let last = files.len() - 1;
        let i = choose|i: int| 0 <= i < files.len() && files[i].0 == name;
        if i < last {
            assert(before[i].0 == name);
        }
        assert forall|j: int| 0 <= j < last implies files[j].0 != name by {
            assert(before[j].0 == files[j].0);
        }
        assert(is_first(files, name, last));
    }
}

/// The first file stored under `name` lies at `position` and nowhere else.
pub proof fn lemma_first_is_position(files: Files, name: Seq<char>, i: int)
    requires
        is_first(files, name, i),
    ensures
        holds(files, name),
        position(files, name) == i,
{
    lemma_position(files, name);
    let p = position(files, name);
    if p < i {
        assert(files[p].0 != name);
    }
    if i < p {
        assert(files[i].0 != name);
    }
}

impl KeyStore {
    /// The invariant of the table: no name occurs twice.
    #[verifier::type_invariant]
    pub open spec fn wf(&self) -> bool {
        distinct_names(self@)
    }

    /// The empty store.
    pub fn new() -> (store: KeyStore)
        ensures
            store@ == Files::empty(),
    {
        let store = KeyStore { files: Vec::new() };
        assert(store@ =~= Files::empty());
        store
    }

    /// The files of the store, in the order of the table. No two of them
    /// have one name.
    pub fn files(&self) -> (files: &Vec<KeyFile>)
        ensures
            files@.len() == self@.len(),
            forall|i: int|
                0 <= i < files@.len() ==> (#[trigger] files@[i].name@, files@[i].content@)
                    == self@[i],
            distinct_names(self@),
    {
        proof {
            use_type_invariant(self);
        }
        &self.files
    }

    /// The position of the first file stored under `name`, if there is one.
    fn find(&self, name: &String) -> (found: Option<usize>)
        ensures
            match found {
                Some(i) => is_first(self@, name@, i as int) && i == position(self@, name@),
                None => !holds(self@, name@),
            },
    {
        let mut i: usize = 0;
        while i < self.files.len()
            invariant
                i <= self.files@.len(),
                forall|j: int| 0 <= j < i ==> self@[j].0 != name@,
            decreases self.files@.len() - i,
        {
            if self.files[i].name == *name {
                proof {
                    lemma_first_is_position(self@, name@, i as int);
                }
                return Some(i);
            }
            i += 1;
        }
        None
    }

    /// Writes `content` under `name`, over what was stored there.
    pub fn write(&mut self, name: &String, content: &[u8])
        ensures
            final(self)@ == put(old(self)@, name@, content@),
    {
        proof {
            use_type_invariant(&*self);
            lemma_put_lookup(self@, name@, content@);
        }
        let file = KeyFile { name: name.clone(), content: vstd::slice::slice_to_vec(content) };
        let found = self.find(name);
        let mut files: Vec<KeyFile> = Vec::new();
        core::mem::swap(&mut self.files, &mut files);
        match found {
            Some(i) => {
                files.set(i, file);
            },
            None => {
                files.push(file);
            },
        }
        assert(Seq::new(files@.len(), |i: int| (files@[i].name@, files@[i].content@)) =~= put(
            old(self)@,
            name@,
            content@,
        ));
        core::mem::swap(&mut self.files, &mut files);
    }

    /// The content stored under `name`, if any.
    pub fn read(&self, name: &String) -> (content: Option<&Vec<u8>>)
        ensures
            match content {
                Some(bytes) => lookup(self@, name@) == Some(bytes@),
                None => lookup(self@, name@) is None,
            },
    {
        match self.find(name) {
            Some(i) => Some(&self.files[i].content),
            None => None,
        }
    }
}

/// What was written is what is found: under the name written to, the new
/// content; under every other name, what was there before. And writing adds
/// no second file of a name.
pub proof fn lemma_put_lookup(files: Files, name: Seq<char>, content: Seq<u8>)
    ensures
        lookup(put(files, name, content), name) == Some(content),
        forall|other: Seq<char>|
            other != name ==> lookup(put(files, name, content), other) == lookup(files, other),
        distinct_names(files) ==> distinct_names(put(files, name, content)),
{
    let after = put(files, name, content);
    if holds(files, name) {
        lemma_position(files, name);
    }
    let at = if holds(files, name) {
        position(files, name)
    } else {
        files.len() as int
    };
    assert(after[at] == (name, content));
    assert forall|j: int| 0 <= j < after.len() && j != at implies after[j] == files[j] by {}
    lemma_first_is_position(after, name, at);
    assert forall|other: Seq<char>| other != name implies lookup(after, other) == lookup(
        files,
        other,
    ) by {
        if holds(files, other) {
            lemma_position(files, other);
            lemma_first_is_position(after, other, position(files, other));
        } else if holds(after, other) {
            lemma_position(after, other);
            assert(files[position(after, other)].0 == other);
        }
    }
}

/// The identifiers listed for a category are exactly those under which a
/// file lies in it.
pub proof fn lemma_listed_is_filed(files: Files, prefix: Seq<char>, id: Seq<char>)
    ensures
        listed(files, prefix).contains(id) <==> holds(files, prefix + id),
    decreases files.len(),
{
    assert((prefix + id).take(prefix.len() as int) =~= prefix);
    assert((prefix + id).skip(prefix.len() as int) =~= id);
    if files.len() > 0 {
        let before = files.drop_last();
        let name = files.last().0;
        lemma_listed_is_filed(before, prefix, id);
        if has_prefix(name, prefix) {
            assert(name =~= prefix + name.skip(prefix.len() as int));
            let rest = listed(before, prefix);
            let all = rest.push(name.skip(prefix.len() as int));
            assert(all[rest.len() as int] == name.skip(prefix.len() as int));
            assert forall|i: int| 0 <= i < rest.len() implies all[i] == rest[i] by {}
        }
        if holds(files, prefix + id) {
            lemma_position(files, prefix + id);
            let i = position(files, prefix + id);
            if i < before.len() {
                assert(before[i].0 == prefix + id);
            }
        }
        if holds(before, prefix + id) {
            lemma_position(before, prefix + id);
            assert(files[position(before, prefix + id)].0 == prefix + id);
        }
        if listed(files, prefix).contains(id) && !listed(before, prefix).contains(id) {
            assert(files[files.len() - 1].0 == prefix + id);
        }
    }
}

/// Files `sk_hex` under the name `fname`, over what was stored there.
///
/// Nothing keeps two keys from being written under one name: callers name a
/// key after its public key or address, which do not collide.
pub fn write_key(store: &mut KeyStore, fname: &String, sk_hex: &String) -> (res: Result<
    (),
    KeyError,
>)
    ensures
        res is Ok,
        final(store)@ == put(old(store)@, fname@, vstd::utf8::encode_utf8(sk_hex@)),
{
    store.write(fname, sk_hex.as_str().as_bytes());
    Ok(())
}

/// The identifier of `name` within the category `prefix`, if it lies there.
fn identifier_in(name: &String, prefix: &str) -> (id: Option<String>)
    ensures
        match id {
            Some(id) => has_prefix(name@, prefix@) && id@ == name@.skip(prefix@.len() as int),
            None => !has_prefix(name@, prefix@),
        },
{
    let name_len = name.as_str().unicode_len();
    let prefix_len = prefix.unicode_len();
    if name_len < prefix_len {
        return None;
    }
    let head = String::from_str(name.as_str().substring_char(0, prefix_len));
    if head != String::from_str(prefix) {
        return None;
    }
    assert(name@.take(prefix@.len() as int) =~= name@.subrange(0, prefix_len as int));
    assert(name@.skip(prefix@.len() as int) =~= name@.subrange(
        prefix_len as int,
        name_len as int,
    ));
    Some(String::from_str(name.as_str().substring_char(prefix_len, name_len)))
}

/// Where no name occurs twice in the table, no identifier is listed twice.
pub proof fn lemma_listed_once(files: Files, prefix: Seq<char>)
    requires
        distinct_names(files),
    ensures
        listed(files, prefix).no_duplicates(),
    decreases files.len(),
{
    if files.len() > 0 {
        let before = files.drop_last();
        let name = files.last().0;
        lemma_listed_once(before, prefix);
        if has_prefix(name, prefix) {
            let id = name.skip(prefix.len() as int);
            assert(name =~= prefix + id);
            lemma_listed_is_filed(before, prefix, id);
            if holds(before, name) {
                lemma_position(before, name);
                assert(files[position(before, name)].0 == files[files.len() - 1].0);
            }
            let rest = listed(before, prefix);
            assert(!rest.contains(id));
            assert forall|i: int, j: int|
                0 <= i < rest.len() + 1 && 0 <= j < rest.len() + 1 && i != j implies rest.push(
                id,
            )[i] != rest.push(id)[j] by {
                if i < rest.len() && j < rest.len() {
                    assert(rest[i] != rest[j]);
                } else if i < rest.len() {
                    assert(rest.contains(rest[i]));
                } else {
                    assert(rest.contains(rest[j]));
                }
            }
        }
    }
}

/// The identifiers of all stored BLS secret keys: the public keys they are
/// filed under, in hexadecimal, each once and in the order of the table.
/// With no key stored the list is empty.
pub fn list_bls_keys(store: &KeyStore) -> (res: Result<Vec<String>, KeyError>)
    ensures
        res matches Ok(names) && string_views(names@) == listed(store@, BLS_KEYS@),
        listed(store@, BLS_KEYS@).no_duplicates(),
{
    let mut names: Vec<String> = Vec::new();
    let mut i: usize = 0;
    while i < store.files.len()
        invariant
            i <= store.files@.len(),
            string_views(names@) == listed(store@.take(i as int), BLS_KEYS@),
        decreases store.files@.len() - i,
    {
        assert(store@.take(i + 1).drop_last() =~= store@.take(i as int));
        match identifier_in(&store.files[i].name, BLS_KEYS) {
            Some(id) => {
                let ghost before = names@;
                names.push(id);
                assert(string_views(names@) =~= string_views(before).push(id@));
            },
            None => {},
        }
        i += 1;
    }
    assert(store@.take(i as int) =~= store@);
    proof {
        use_type_invariant(store);
        lemma_listed_once(store@, BLS_KEYS@);
    }
    Ok(names)
}

} // verus!
