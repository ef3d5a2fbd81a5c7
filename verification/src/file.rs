//! File metadata: a file's owner, name, content type, size, content hash and
//! tags, with the tags that the system derives from the file itself.
use vstd::prelude::*;
use crate::ids::{hex_digit, AccountId, FileId};
use crate::tag::{
    content_type_key, ext_key, is_reserved_key, name_key, opt_view, size_key, valid_tag_value,
    Tag,
};
use crate::tags::{insert_tags, TagMap, Tags};
use crate::text::{contains_seq, decimal, string_of, usize_to_string};

verus! {

/// The extension of the path `name`, as `std::path::Path::extension` gives it.
pub uninterp spec fn spec_path_extension(name: Seq<char>) -> Option<Seq<char>>;

/// The extension of the path `name` (`std::path::Path::extension`, kept when it
/// is valid UTF-8). It is named, not stated; what is stated is that an
/// extension is a piece of the name.
#[verifier::external_body]
fn path_extension(name: &str) -> (r: Option<String>)
    ensures
        opt_view(r) == spec_path_extension(name@),
        r matches Some(e) ==> contains_seq(name@, e@),
{
    std::path::Path::new(name).extension().and_then(|e| e.to_str()).map(|e| e.to_string())
}

/// Lowercase hexadecimal text of a byte sequence, two digits per byte.
pub open spec fn bytes_hex(b: Seq<u8>) -> Seq<char>
    decreases b.len(),
{
    if b.len() == 0 {
        Seq::empty()
    } else {
        bytes_hex(b.drop_last()) + seq![hex_digit(b.last() as int / 16), hex_digit(b.last() as int % 16)]
    }
}

/// The text of a BLAKE3 hash (`blake3::Hash::to_hex`), documented as lowercase hexadecimal.
#[verifier::external_body]
fn blake3_hex(bytes: &[u8; 32]) -> (s: String)
    ensures
        s@ == bytes_hex(bytes@),
{
    blake3::Hash::from_bytes(*bytes).to_hex().to_string()
}

/// The tags that the system derives from a file's name, content type, size and extension.
pub open spec fn default_tag_map(
    name: Seq<char>,
    content_type: Seq<char>,
    size: nat,
    ext: Option<Seq<char>>,
) -> TagMap {
    let m = TagMap::empty().insert(name_key(), Some(name)).insert(
        content_type_key(),
        Some(content_type),
    ).insert(size_key(), Some(decimal(size)));
    match ext {
        Some(e) => m.insert(ext_key(), Some(e)),
        None => m,
    }
}

/// The tags of `s` that users may set.
pub open spec fn public_tags(s: Seq<Tag>) -> Seq<Tag> {
    s.filter(|t: Tag| !is_reserved_key(t.key@))
}

/// What a file is, as plain values.
pub struct FileView {
    pub id: u128,
    pub owner_id: u128,
    pub name: Seq<char>,
    pub content_type: Seq<char>,
    pub size: usize,
    pub tags: TagMap,
    pub hash: Option<Seq<u8>>,
}

/// A stored file's metadata.
pub struct File {
    pub id: FileId,
    pub owner_id: AccountId,
    pub name: String,
    pub content_type: String,
    pub size: usize,
    pub tags: Tags,
    pub hash: Option<[u8; 32]>,
}

impl View for File {
    type V = FileView;

    open spec fn view(&self) -> FileView {
        FileView {
            id: self.id@,
            owner_id: self.owner_id@,
            name: self.name@,
            content_type: self.content_type@,
            size: self.size,
            tags: self.tags@,
            hash: self.hash_view(),
        }
    }
}

/// Changes to a file's name and tags.
#[derive(Debug, Default)]
pub struct UpdateFile {
    pub name: Option<String>,
    pub tags: Option<Vec<Tag>>,
}

fn key_string(k: &Vec<char>) -> (s: String)
    ensures
        s@ == k@,
{
    let s = string_of(k, 0, k.len());
    assert(k@.subrange(0, k@.len() as int) =~= k@);
    s
}

fn name_tag(value: &str) -> (t: Tag)
    ensures
        t.key@ == name_key(),
        opt_view(t.value) == Some(value@),
{
    let k: Vec<char> = vec!['n', 'a', 'm', 'e'];
    assert(k@ =~= name_key());
    Tag::from_parts(key_string(&k), Some(String::from_str(value)))
}

fn content_type_tag(value: &str) -> (t: Tag)
    ensures
        t.key@ == content_type_key(),
        opt_view(t.value) == Some(value@),
{
    let k: Vec<char> = vec!['c', 'o', 'n', 't', 'e', 'n', 't', '_', 't', 'y', 'p', 'e'];
    assert(k@ =~= content_type_key());
    Tag::from_parts(key_string(&k), Some(String::from_str(value)))
}

fn size_tag(size: usize) -> (t: Tag)
    ensures
        t.key@ == size_key(),
        opt_view(t.value) == Some(decimal(size as nat)),
{
    let k: Vec<char> = vec!['s', 'i', 'z', 'e'];
    assert(k@ =~= size_key());
    Tag::from_parts(key_string(&k), Some(usize_to_string(size)))
}

fn ext_tag(value: String) -> (t: Tag)
    ensures
        t.key@ == ext_key(),
        opt_view(t.value) == Some(value@),
{
    let k: Vec<char> = vec!['e', 'x', 't'];
    assert(k@ =~= ext_key());
    Tag::from_parts(key_string(&k), Some(value))
}

/// The tags of `tags` that users may set, in order.
fn filter_public(tags: &Vec<Tag>) -> (r: Vec<Tag>)
    ensures
        r@.len() == public_tags(tags@).len(),
        forall|i: int| 0 <= i < r@.len() ==> (#[trigger] r@[i]).key@ == public_tags(tags@)[i].key@
            && opt_view(r@[i].value) == opt_view(public_tags(tags@)[i].value),
{
    let ghost pred = |t: Tag| !is_reserved_key(t.key@);
    let mut r: Vec<Tag> = Vec::new();
    let mut i: usize = 0;
    proof {
        reveal_with_fuel(Seq::<_>::filter, 1);
    }
    assert(tags@.take(0).filter(pred) =~= Seq::<Tag>::empty());
    while i < tags.len()
        invariant
            i <= tags@.len(),
            pred == (|t: Tag| !is_reserved_key(t.key@)),
            r@.len() == tags@.take(i as int).filter(pred).len(),
            forall|j: int| 0 <= j < r@.len() ==> (#[trigger] r@[j]).key@ == tags@.take(i as int).filter(pred)[j].key@
                && opt_view(r@[j].value) == opt_view(tags@.take(i as int).filter(pred)[j].value),
        decreases tags.len() - i,
    {
        let ghost prev = tags@.take(i as int).filter(pred);
        proof {
            reveal_with_fuel(Seq::<_>::filter, 1);
        }
        assert(tags@.take(i + 1).drop_last() =~= tags@.take(i as int));
        assert(tags@.take(i + 1).last() == tags@[i as int]);
        if tags[i].is_public() {
            r.push(tags[i].duplicate());
            assert(tags@.take(i + 1).filter(pred) == prev.push(tags@[i as int]));
        } else {
            assert(tags@.take(i + 1).filter(pred) == prev);
        }
        i = i + 1;
    }
    assert(tags@.take(tags@.len() as int) =~= tags@);
    r
}

impl File {
    /// The file's content hash, if it has one.
    pub open spec fn hash_view(&self) -> Option<Seq<u8>> {
        match self.hash {
            Some(h) => Some(h@),
            None => None,
        }
    }

    /// The tags that the system derives from this file: its name, content type,
    /// size and, when its name has one, extension.
    pub fn default_tags(&self) -> (t: Tags)
        ensures
            t@ == default_tag_map(self.name@, self.content_type@, self.size as nat, spec_path_extension(self.name@)),
    {
        let mut t = Tags::new();
        t.insert(name_tag(self.name.as_str()));
        t.insert(content_type_tag(self.content_type.as_str()));
        t.insert(size_tag(self.size));
        match path_extension(self.name.as_str()) {
            Some(ext) => t.insert(ext_tag(ext)),
            None => {},
        }
        t
    }

    /// A new, empty file with its default tags. The name and content type must be
    /// valid tag values, since they become the values of reserved tags.
    pub fn new(owner_id: AccountId, name: &str, content_type: &str) -> (f: File)
        requires
            valid_tag_value(name@),
            valid_tag_value(content_type@),
        ensures
            f@.owner_id == owner_id@,
            f@.name == name@,
            f@.content_type == content_type@,
            f@.size == 0,
            f@.tags == default_tag_map(name@, content_type@, 0, spec_path_extension(name@)),
            f@.hash is None,
    {
        let mut f = File {
            id: FileId::new(),
            owner_id,
            name: String::from_str(name),
            content_type: String::from_str(content_type),
            size: 0,
            tags: Tags::new(),
            hash: None,
        };
        f.tags = f.default_tags();
        f
    }

    /// Sets the size, and the `size` tag with it.
    pub fn set_size(&mut self, size: usize)
        ensures
            final(self)@ == (FileView {
                size,
                tags: old(self)@.tags.insert(size_key(), Some(decimal(size as nat))),
                ..old(self)@
            }),
    {
        self.size = size;
        self.add_tag(size_tag(size));
    }

    /// Adds the tags in order; a tag replaces the one with the same key.
    pub fn with_tags(self, tags: Vec<Tag>) -> (f: File)
        ensures
            f@ == (FileView { tags: insert_tags(self@.tags, tags@), ..self@ }),
    {
        let mut f = self;
        f.add_tags(tags);
        f
    }

    /// Adds one tag, replacing the one with the same key.
    pub fn tagged(self, tag: Tag) -> (f: File)
        ensures
            f@ == (FileView { tags: self@.tags.insert(tag.key@, opt_view(tag.value)), ..self@ }),
    {
        let mut f = self;
        f.add_tag(tag);
        f
    }

    /// Replaces the user tags: the default tags are restored, then the tags that
    /// users may set are added in order; reserved tags among `tags` are dropped.
    pub fn set_tags(&mut self, tags: Vec<Tag>)
        requires
            valid_tag_value(old(self).name@),
            valid_tag_value(old(self).content_type@),
        ensures
            final(self)@ == (FileView {
                tags: insert_tags(
                    default_tag_map(old(self).name@, old(self).content_type@, old(self).size as nat, spec_path_extension(old(self).name@)),
                    public_tags(tags@),
                ),
                ..old(self)@
            }),
    {
        let defaults = self.default_tags();
        self.tags = defaults;
        let public = filter_public(&tags);
        let ghost m0 = self.tags@;
        self.tags.extend(public);
        proof {
            lemma_insert_tags_congruent(m0, public@, public_tags(tags@));
        }
    }

    /// Adds tags in order; a tag replaces the one with the same key.
    pub fn add_tags(&mut self, tags: Vec<Tag>)
        ensures
            final(self)@ == (FileView { tags: insert_tags(old(self)@.tags, tags@), ..old(self)@ }),
    {
        self.tags.extend(tags);
    }

    /// Adds one tag, replacing the one with the same key.
    pub fn add_tag(&mut self, tag: Tag)
        ensures
            final(self)@ == (FileView { tags: old(self)@.tags.insert(tag.key@, opt_view(tag.value)), ..old(self)@ }),
    {
        self.tags.insert(tag);
    }

    /// The content hash in lowercase hexadecimal, once the content is known.
    pub fn hash(&self) -> (r: Option<String>)
        ensures
            match r {
                Some(h) => self@.hash matches Some(b) && h@ == bytes_hex(b),
                None => self@.hash is None,
            },
    {
        match &self.hash {
            Some(h) => Some(blake3_hex(h)),
            None => None,
        }
    }

    /// Records the hash of the file's content.
    pub fn set_hash(&mut self, hash: [u8; 32])
        ensures
            final(self)@ == (FileView { hash: Some(hash@), ..old(self)@ }),
    {
        self.hash = Some(hash);
    }

    /// Applies a change: a new name sets the `name` tag; new tags replace the
    /// user tags as `set_tags` does, with the default tags of the (new) name.
    pub fn update(&mut self, data: UpdateFile)
        requires
            data.name matches Some(n) ==> valid_tag_value(n@),
            data.tags is Some ==> valid_tag_value(old(self).content_type@),
            data.tags is Some && data.name is None ==> valid_tag_value(old(self).name@),
        ensures
            ({
                let named = match data.name {
                    Some(n) => FileView {
                        name: n@,
                        tags: old(self)@.tags.insert(name_key(), Some(n@)),
                        ..old(self)@
                    },
                    None => old(self)@,
                };
                match data.tags {
                    Some(ts) => final(self)@ == (FileView {
                        tags: insert_tags(
                            default_tag_map(named.name, named.content_type, named.size as nat, spec_path_extension(named.name)),
                            public_tags(ts@),
                        ),
                        ..named
                    }),
                    None => final(self)@ == named,
                }
            }),
    {
        let UpdateFile { name, tags } = data;
        match name {
            Some(n) => {
                let t = name_tag(n.as_str());
                self.name = n;
                self.add_tag(t);
            },
            None => {},
        }
        match tags {
            Some(ts) => self.set_tags(ts),
            None => {},
        }
    }

    /// A copy of this file's metadata.
    pub fn duplicate(&self) -> (f: File)
        ensures
            f@ == self@,
    {
        File {
            id: self.id,
            owner_id: self.owner_id,
            name: String::from_str(self.name.as_str()),
            content_type: String::from_str(self.content_type.as_str()),
            size: self.size,
            tags: self.tags.duplicate(),
            hash: self.hash,
        }
    }
}

proof fn lemma_insert_tags_congruent(m: TagMap, s: Seq<Tag>, t: Seq<Tag>)
    requires
        s.len() == t.len(),
        forall|i: int| 0 <= i < s.len() ==> (#[trigger] s[i]).key@ == t[i].key@ && opt_view(s[i].value) == opt_view(t[i].value),
    ensures
        insert_tags(m, s) == insert_tags(m, t),
    decreases s.len(),
{
    if s.len() > 0 {
        lemma_insert_tags_congruent(m, s.drop_last(), t.drop_last());
    }
}

} // verus!
