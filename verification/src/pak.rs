//! Packages: many named files in one, some of them scrambled.

use crate::bytes::{get_le_u32, le_bytes, le_u32_at, write_le_u32};
use crate::Error;
use vstd::prelude::*;
use vstd::string::StringSliceAdditionalSpecFns;

verus! {

pub const MAX_NAME_LEN: usize = 32;

/// First key of the scrambling.
pub const XOR_KEY2: u32 = 0x2268_3297;

/// What the scrambling's second addend grows by with each word.
pub const ACC_STEP: u32 = 0x4D;

/// A file of a package: its name, padded with zeros, and where its bytes
/// lie in the package.
#[derive(Debug, Clone, Copy)]
pub struct Entry {
    pub(crate) name: [u8; 32],
    pub(crate) offset: u32,
    pub(crate) size: u32,
}

/// What an `Entry` holds.
pub struct EntryView {
    pub name: Seq<u8>,
    pub offset: u32,
    pub size: u32,
}

impl View for Entry {
    type V = EntryView;

    open(crate) spec fn view(&self) -> EntryView {
        EntryView { name: self.name@, offset: self.offset, size: self.size }
    }
}

/// A package held in memory.
pub struct Package {
    pub(crate) image: Vec<u8>,
    pub(crate) entries: Vec<Entry>,
}

/// What a `Package` holds.
pub struct PackageView {
    /// The bytes of the package file.
    pub image: Seq<u8>,
    pub entries: Seq<EntryView>,
}

impl View for Package {
    type V = PackageView;

    open(crate) spec fn view(&self) -> PackageView {
        PackageView {
            image: self.image@,
            entries: Seq::new(self.entries@.len(), |i: int| self.entries@[i]@),
        }
    }
}

/// A name that is no text.
#[derive(Clone, Copy, Debug, PartialEq, Eq, Structural)]
pub enum NameError {
    NotUtf8,
}

/// Number of bytes of a padded name before its first zero.
pub open spec fn name_len(name: Seq<u8>) -> int
    decreases name.len(),
{
    if name.len() == 0 || name[0] == 0 {
        0
    } else {
        1 + name_len(name.subrange(1, name.len() as int))
    }
}

/// A padded name without its padding.
pub open spec fn trimmed(name: Seq<u8>) -> Seq<u8> {
    name.subrange(0, name_len(name))
}

/// An upper-case ASCII letter as lower case; any other byte as it is.
pub open spec fn lowered(b: u8) -> u8 {
    if 0x41 <= b <= 0x5A {
        (b + 0x20) as u8
    } else {
        b
    }
}

/// Whether two names are the same but for the case of ASCII letters.
pub open spec fn same_name(a: Seq<u8>, b: Seq<u8>) -> bool {
    a.len() == b.len() && forall|i: int| 0 <= i < a.len() ==> lowered(a[i]) == lowered(b[i])
}

/// The length of a name lies within the name, and no zero before it.
pub proof fn lemma_name_len(name: Seq<u8>)
    ensures
        0 <= name_len(name) <= name.len(),
        forall|i: int| 0 <= i < name_len(name) ==> name[i] != 0,
        name_len(name) < name.len() ==> name[name_len(name)] == 0,
    decreases name.len(),
{
    if name.len() == 0 || name[0] == 0 {
    } else {
        let rest = name.subrange(1, name.len() as int);
        lemma_name_len(rest);
        assert forall|i: int| 0 <= i < name_len(name) implies name[i] != 0 by {
            if i > 0 {
                assert(rest[i - 1] == name[i]);
            }
        }
        if name_len(name) < name.len() {
            assert(rest[name_len(rest)] == name[name_len(name)]);
        }
    }
}

/// The first zero, or the end where there is none, is where a name ends.
pub proof fn lemma_name_ends_at(name: Seq<u8>, n: int)
    requires
        0 <= n <= name.len(),
        forall|i: int| 0 <= i < n ==> name[i] != 0,
        n < name.len() ==> name[n] == 0,
    ensures
        name_len(name) == n,
{
    lemma_name_len(name);
    let m = name_len(name);
    if m < n {
        assert(name[m] != 0);
    } else if n < m {
        assert(name[n] != 0);
    }
}

#[verifier::external_type_specification]
#[verifier::external_body]
pub struct ExUtf8Error(core::str::Utf8Error);

/// Calls `core::str::from_utf8`, which hands the bytes back as a string
/// slice if they are valid UTF-8 and fails if they are not.
#[verifier::external_body]
fn from_utf8(bytes: &[u8]) -> (res: Result<&str, core::str::Utf8Error>)
    ensures
        res is Ok <==> vstd::utf8::valid_utf8(bytes@),
        res is Ok ==> res->Ok_0.spec_bytes() == bytes@,
{
    core::str::from_utf8(bytes)
}

impl Entry {
    /// An entry of the given name, which is cut off after `MAX_NAME_LEN`
    /// bytes.
    pub fn new(name: &[u8], offset: u32, size: u32) -> (e: Self)
        ensures
            e@.offset == offset,
            e@.size == size,
            e@.name == Seq::new(
                32,
                |i: int|
                    if i < name@.len() {
                        name@[i]
                    } else {
                        0u8
                    },
            ),
    {
        let mut padded = [0u8;32];
        let mut i: usize = 0;
        while i < 32 && i < name.len()
            invariant
                i <= 32,
                i <= name@.len(),
                forall|k: int| 0 <= k < i ==> padded@[k] == name@[k],
                forall|k: int| i <= k < 32 ==> padded@[k] == 0,
            decreases 32 - i,
        {
            padded[i] = name[i];
            i += 1;
        }
        let e = Entry { name: padded, offset, size };
        assert(e@.name =~= Seq::new(
            32,
            |i: int|
                if i < name@.len() {
                    name@[i]
                } else {
                    0u8
                },
        ));
        e
    }

    /// The name as text.
    pub fn name(&self) -> (res: Result<&str, NameError>)
        ensures
            match res {
                Ok(s) => vstd::utf8::valid_utf8(trimmed(self@.name)) && s.spec_bytes() == trimmed(
                    self@.name,
                ),
                Err(e) => !vstd::utf8::valid_utf8(trimmed(self@.name)),
            },
    {
        match from_utf8(self.raw_name()) {
            Ok(s) => Ok(s),
            Err(_) => Err(NameError::NotUtf8),
        }
    }

    /// Whether the entry is called `other`, whatever the case of letters.
    pub fn name_equals(&self, other: &str) -> (b: bool)
        ensures
            b == same_name(trimmed(self@.name), other.spec_bytes()),
    {
        let mine = self.raw_name();
        let theirs = other.as_bytes();
        if mine.len() != theirs.len() {
            return false;
        }
        let mut i: usize = 0;
        while i < mine.len()
            invariant
                i <= mine@.len(),
                mine@.len() == theirs@.len(),
                mine@ == trimmed(self@.name),
                theirs@ == other.spec_bytes(),
                forall|k: int| 0 <= k < i ==> lowered(mine@[k]) == lowered(theirs@[k]),
            decreases mine@.len() - i,
        {
            if to_lower(mine[i]) != to_lower(theirs[i]) {
                assert(lowered(mine@[i as int]) != lowered(theirs@[i as int]));
                return false;
            }
            i += 1;
        }
        true
    }

    /// The name up to its first zero, which is left out.
    pub fn raw_name(&self) -> (name: &[u8])
        ensures
            name@ == trimmed(self@.name),
    {
        let mut null_pos: usize = 0;
        while null_pos < MAX_NAME_LEN && self.name[null_pos] != 0
            invariant
                null_pos <= 32,
                forall|k: int| 0 <= k < null_pos ==> self.name@[k] != 0,
            decreases 32 - null_pos,
        {
            null_pos += 1;
        }
        proof {
            lemma_name_ends_at(self.name@, null_pos as int);
        }
        vstd::slice::slice_subrange(vstd::array::array_as_slice(&self.name), 0, null_pos)
    }

    /// Where the entry's bytes start in the package.
    pub fn offset(&self) -> (n: u32)
        ensures
            n == self@.offset,
    {
        self.offset
    }

    /// Number of the entry's bytes.
    pub fn size(&self) -> (n: u32)
        ensures
            n == self@.size,
    {
        self.size
    }
}

/// An upper-case ASCII letter as lower case.
fn to_lower(b: u8) -> (l: u8)
    ensures
        l == lowered(b),
{
    if 0x41 <= b && b <= 0x5A {
        b + 0x20
    } else {
        b
    }
}

/// What the scrambling adds to its key for the word `i` of `data`: the sum
/// of the word's first three bytes, XORed with its fourth.
pub open spec fn word_sum(data: Seq<u8>, i: int) -> u32 {
    ((data[4 * i + 2] + data[4 * i + 1] + data[4 * i]) as u32) ^ (data[4 * i + 3] as u32)
}

/// The scrambling's second addend for word `i`.
pub open spec fn word_acc(i: nat) -> u32
    decreases i,
{
    if i == 0 {
        0u32
    } else {
        word_acc((i - 1) as nat).wrapping_add(ACC_STEP)
    }
}

/// The key with which word `i` of `data` is scrambled: `XOR_KEY2` for the
/// first, and for each further word the key of the one before, plus that
/// word's sum as it stands scrambled, plus the second addend.
pub open spec fn word_key(data: Seq<u8>, i: nat) -> u32
    decreases i,
{
    if i == 0 {
        XOR_KEY2
    } else {
        word_key(data, (i - 1) as nat).wrapping_add(
            word_sum(data, i - 1).wrapping_add(word_acc((i - 1) as nat)),
        )
    }
}

/// The bytes with the words from `start` on unscrambled: each
/// little-endian word is XORed with its key. Bytes before `start`, and up
/// to three that are left behind the last whole word, stay.
pub open spec fn unscrambled(data: Seq<u8>, start: int) -> Seq<u8> {
    let tail = data.subrange(start, data.len() as int);
    Seq::new(
        data.len(),
        |k: int|
            if start <= k < start + 4 * ((data.len() - start) / 4) {
                let i = (k - start) / 4;
                le_bytes(le_u32_at(tail, 4 * i) ^ word_key(tail, i as nat))[(k - start) % 4]
            } else {
                data[k]
            },
    )
}

/// Unscrambles the words of `data` from `start` on.
#[verifier::rlimit(40)]
fn decode_toodc(data: &mut Vec<u8>, start: usize)
    requires
        start <= old(data)@.len(),
        (old(data)@.len() - start) % 4 == 0,
    ensures
        final(data)@ == unscrambled(old(data)@, start as int),
{
    let words = (data.len() - start) / 4;
    let ghost tail = data@.subrange(start as int, data@.len() as int);
    let mut key = XOR_KEY2;
    let mut acc: u32 = 0;
    let mut i: usize = 0;
    while i < words
        invariant
            i <= words,
            start + 4 * words == data@.len(),
            data@.len() <= usize::MAX,
            data@.len() == old(data)@.len(),
            tail == old(data)@.subrange(start as int, old(data)@.len() as int),
            key == word_key(tail, i as nat),
            acc == word_acc(i as nat),
            forall|k: int|
                0 <= k < data@.len() ==> data@[k] == if k < start + 4 * i {
                    unscrambled(old(data)@, start as int)[k]
                } else {
                    old(data)@[k]
                },
        decreases words - i,
    {
        let pos = start + 4 * i;
        let ghost before = data@;
        assert(before.subrange(pos as int, pos + 4) =~= tail.subrange(4 * i, 4 * i + 4));
        let word = get_le_u32(data.as_slice(), pos) ^ key;
        let q0 = data[pos] as u32;
        let q1 = data[pos + 1] as u32;
        let q2 = data[pos + 2] as u32;
        let q3 = data[pos + 3] as u32;
        let r = (q2 + q1 + q0) ^ q3;
        assert(r == word_sum(tail, i as int));
        write_le_u32(data, pos, word);
        assert forall|k: int| 0 <= k < data@.len() implies data@[k] == if k < start + 4 * (i + 1) {
            unscrambled(old(data)@, start as int)[k]
        } else {
            old(data)@[k]
        } by {
            if pos <= k < pos + 4 {
                assert((k - start) / 4 == i && (k - start) % 4 == k - pos);
                assert(data@[k] == le_bytes(word)[k - pos]);
            } else {
                assert(data@[k] == before[k]);
            }
        }
        key = key.wrapping_add(r.wrapping_add(acc));
        acc = acc.wrapping_add(ACC_STEP);
        i += 1;
    }
    assert(data@ =~= unscrambled(old(data)@, start as int));
}

/// Whether a file starts with the mark of a scrambled one.
pub open spec fn is_toodc(data: Seq<u8>) -> bool {
    data.len() >= 5 && data[0] == 0x54 && data[1] == 0x6F && data[2] == 0x6F && data[3] == 0x44
        && data[4] == 0x43
}

/// The bytes of a file as they are used: a file that starts with `TooDC`
/// is unscrambled from its seventh byte on and loses its first ten bytes.
/// Such a file must have ten bytes at least, and whole words behind the
/// sixth.
pub open spec fn decoded_file(data: Seq<u8>) -> Result<Seq<u8>, Error> {
    if !is_toodc(data) {
        Ok(data)
    } else if data.len() < 10 || (data.len() - 6) % 4 != 0 {
        Err(Error::Corrupt)
    } else {
        Ok(unscrambled(data, 6).subrange(10, data.len() as int))
    }
}

/// The bytes of an entry of a package, as they are used.
pub open spec fn loaded_file(p: PackageView, e: EntryView) -> Result<Seq<u8>, Error> {
    if e.offset + e.size > p.image.len() {
        Err(Error::Io)
    } else {
        decoded_file(p.image.subrange(e.offset as int, e.offset + e.size))
    }
}

/// Whether entry `i` is the first that is called `name`.
pub open spec fn is_first_named(entries: Seq<EntryView>, name: Seq<u8>, i: int) -> bool {
    &&& 0 <= i < entries.len()
    &&& same_name(trimmed(entries[i].name), name)
    &&& forall|j: int| 0 <= j < i ==> !same_name(trimmed((#[trigger] entries[j]).name), name)
}

impl Package {
    /// A package with the given content and table of entries.
    pub fn new(image: Vec<u8>, entries: Vec<Entry>) -> (p: Self)
        ensures
            p@.image == image@,
            p@.entries == Seq::new(entries@.len(), |i: int| entries@[i]@),
    {
        Package { image, entries }
    }

    /// The first entry called `name`, whatever the case of letters.
    pub fn find(&self, name: &str) -> (res: Option<&Entry>)
        ensures
            match res {
                Some(e) => exists|i: int|
                    is_first_named(self@.entries, name.spec_bytes(), i) && e@ == self@.entries[i],
                None => forall|i: int| !is_first_named(self@.entries, name.spec_bytes(), i),
            },
    {
        let mut i: usize = 0;
        while i < self.entries.len()
            invariant
                i <= self.entries@.len(),
                forall|j: int|
                    0 <= j < i ==> !same_name(
                        trimmed((#[trigger] self@.entries[j]).name),
                        name.spec_bytes(),
                    ),
            decreases self.entries@.len() - i,
        {
            if self.entries[i].name_equals(name) {
                assert(is_first_named(self@.entries, name.spec_bytes(), i as int));
                return Some(&self.entries[i]);
            }
            i += 1;
        }
        assert forall|k: int| !is_first_named(self@.entries, name.spec_bytes(), k) by {
            if is_first_named(self@.entries, name.spec_bytes(), k) {
                assert(!same_name(trimmed(self@.entries[k].name), name.spec_bytes()));
            }
        }
        None
    }

    /// The bytes of an entry, as they are used.
    pub fn load(&self, entry: &Entry) -> (res: Result<Vec<u8>, Error>)
        ensures
            match res {
                Ok(data) => loaded_file(self@, entry@) == Ok::<Seq<u8>, Error>(data@),
                Err(e) => loaded_file(self@, entry@) == Err::<Seq<u8>, Error>(e),
            },
    {
        let offset = entry.offset as usize;
        let length = entry.size as usize;
        let total = self.image.len();
        if offset > total || length > total - offset {
            return Err(Error::Io);
        }
        let mut data: Vec<u8> = Vec::new();
        let mut i: usize = 0;
        while i < length
            invariant
                i <= length,
                offset + length <= self.image@.len(),
                self.image@.len() <= usize::MAX,
                data@ == self.image@.subrange(offset as int, offset + i),
            decreases length - i,
        {
            data.push(self.image[offset + i]);
            assert(data@ =~= self.image@.subrange(offset as int, offset + i + 1));
            i += 1;
        }
        if starts_with_toodc(&data) {
            if length < 10 || (length - 6) % 4 != 0 {
                return Err(Error::Corrupt);
            }
            decode_toodc(&mut data, 6);
            let mut out: Vec<u8> = Vec::new();
            let mut k: usize = 10;
            while k < length
                invariant
                    10 <= k <= length,
                    data@.len() == length,
                    out@ == data@.subrange(10, k as int),
                decreases length - k,
            {
                out.push(data[k]);
                assert(out@ =~= data@.subrange(10, k + 1));
                k += 1;
            }
            return Ok(out);
        }
        Ok(data)
    }
}

/// Whether a file starts with the mark of a scrambled one.
fn starts_with_toodc(data: &Vec<u8>) -> (b: bool)
    ensures
        b == is_toodc(data@),
{
    data.len() >= 5 && data[0] == 0x54 && data[1] == 0x6F && data[2] == 0x6F && data[3] == 0x44
        && data[4] == 0x43
}

} // verus!
