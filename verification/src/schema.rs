//! The schema registry: schema SDL stored under the SHA-256 of its canonical text.
use vstd::prelude::*;

use crate::error::{Error, Fallible};
use crate::text::{cat2, cat3, trim, trim_spec};

verus! {

/// `c` is an ASCII hexadecimal digit.
pub open spec fn is_hex_digit(c: char) -> bool {
    ('0' <= c && c <= '9') || ('a' <= c && c <= 'f') || ('A' <= c && c <= 'F')
}

/// Sixty-four hexadecimal digits: the form of a schema hash.
pub open spec fn is_schema_hash_spec(s: Seq<char>) -> bool {
    s.len() == 64 && forall|i: int| 0 <= i < s.len() ==> is_hex_digit(#[trigger] s[i])
}

/// The lowercase hexadecimal SHA-256 of the UTF-8 bytes of a text.
pub uninterp spec fn sha256_hex_of(text: Seq<char>) -> Seq<char>;

/// `format!("{:x}", Sha256::digest(text.as_bytes()))`: the digest is 32 bytes, each written as
/// two lowercase hex digits, so the text is 64 hex digits; it is a function of `text` alone.
#[verifier::external_body]
pub(crate) fn sha256_hex(text: &str) -> (r: String)
    ensures
        r@ == sha256_hex_of(text@),
        r@.len() == 64,
        forall|i: int| 0 <= i < r@.len() ==> ('0' <= #[trigger] r@[i] <= '9') || ('a' <= r@[i] <= 'f'),
{
    format!("{:x}", <sha2::Sha256 as sha2::Digest>::digest(text.as_bytes()))
}

/// Where a schema is stored: its hash and its text encoding.
#[derive(Debug)]
pub struct SchemaRef {
    pub hash: String,
    pub encoding: String,
}

pub struct SpecSchemaRef {
    pub hash: Seq<char>,
    pub encoding: Seq<char>,
}

impl View for SchemaRef {
    type V = SpecSchemaRef;

    open spec fn view(&self) -> SpecSchemaRef {
        SpecSchemaRef { hash: self.hash@, encoding: self.encoding@ }
    }
}

impl SchemaRef {
    pub fn clone_ref(&self) -> (r: SchemaRef)
        ensures
            r@ == self@,
    {
        SchemaRef { hash: self.hash.clone(), encoding: self.encoding.clone() }
    }
}

/// A directory of schema files, `<hash>.graphql`.
pub struct SchemaRegistry {
    pub root: String,
}

/// A schema file to be written: where, and what.
pub struct StoredSchema {
    pub schema_ref: SchemaRef,
    pub path: String,
    pub contents: String,
}

/// `root` joined with `name` as a file path.
pub open spec fn join_file_spec(root: Seq<char>, name: Seq<char>) -> Seq<char> {
    if root.len() == 0 {
        name
    } else if root.last() == '/' {
        root + name
    } else {
        root + "/"@ + name
    }
}

/// The file of the schema with hash `hash` under `root`.
pub open spec fn schema_file_spec(root: Seq<char>, hash: Seq<char>) -> Seq<char> {
    join_file_spec(root, hash + ".graphql"@)
}

/// The canonical text a schema is stored as: trimmed, with one final newline.
pub open spec fn stored_text_spec(sdl: Seq<char>) -> Seq<char> {
    trim_spec(sdl) + "\n"@
}

pub open spec fn invalid_hash_message(hash: Seq<char>) -> Seq<char> {
    "invalid schema hash: "@ + hash
}

/// The file of the schema with hash `hash` under `root`, or the refusal of a text that is
/// not a schema hash.
pub open spec fn schema_path_spec(root: Seq<char>, hash: Seq<char>) -> Result<Seq<char>, Seq<Seq<char>>> {
    if is_schema_hash_spec(hash) {
        Ok(schema_file_spec(root, hash))
    } else {
        Err(seq![invalid_hash_message(hash)])
    }
}

/// A schema the registry stored is found again: for the hash of a stored schema (a schema
/// hash, under which `store` names its file), `schema_path` gives the file `store` named.
pub proof fn lemma_stored_schema_found(root: Seq<char>, stored: StoredSchema)
    requires
        is_schema_hash_spec(stored.schema_ref.hash@),
        stored.path@ == schema_file_spec(root, stored.schema_ref.hash@),
    ensures
        schema_path_spec(root, stored.schema_ref.hash@) == Ok::<Seq<char>, Seq<Seq<char>>>(stored.path@),
{
}

/// Storing a schema again, or any SDL that trims to the same text, gives the same contents
/// under the same hash, so the same reference and file (see `SchemaRegistry::store`).
pub proof fn lemma_store_is_idempotent(root: Seq<char>, a: Seq<char>, b: Seq<char>)
    requires
        trim_spec(a) == trim_spec(b),
    ensures
        stored_text_spec(a) == stored_text_spec(b),
        sha256_hex_of(stored_text_spec(a)) == sha256_hex_of(stored_text_spec(b)),
        schema_file_spec(root, sha256_hex_of(stored_text_spec(a))) == schema_file_spec(root, sha256_hex_of(stored_text_spec(b))),
{
}

fn join_file(root: &str, name: &str) -> (r: String)
    ensures
        r@ == join_file_spec(root@, name@),
{
    let n = root.unicode_len();
    if n == 0 {
        name.to_owned()
    } else if root.get_char(n - 1) == '/' {
        cat2(root, name)
    } else {
        cat3(root, "/", name)
    }
}

/// Sixty-four hexadecimal digits (see `is_schema_hash_spec`).
pub fn is_schema_hash(value: &str) -> (r: bool)
    ensures
        r == is_schema_hash_spec(value@),
{
    let n = value.unicode_len();
    if n != 64 {
        return false;
    }
    let mut i: usize = 0;
    while i < n
        invariant
            n == value@.len(),
            i <= n,
            forall|j: int| 0 <= j < i ==> is_hex_digit(#[trigger] value@[j]),
        decreases n - i,
    {
        let c = value.get_char(i);
        if !(('0' <= c && c <= '9') || ('a' <= c && c <= 'f') || ('A' <= c && c <= 'F')) {
            return false;
        }
        i += 1;
    }
    true
}

/// Fails with "invalid schema hash: ..." unless `hash` is sixty-four hexadecimal digits.
pub fn validate_hash(hash: &str) -> (r: Fallible<()>)
    ensures
        r is Ok <==> is_schema_hash_spec(hash@),
        r matches Err(e) ==> e@ == seq![invalid_hash_message(hash@)],
{
    if !is_schema_hash(hash) {
        return Err(Error::msg(cat2("invalid schema hash: ", hash)));
    }
    Ok(())
}

impl SchemaRegistry {
    /// A registry rooted at `root` (the directory itself is made by the caller).
    pub fn new(root: &str) -> (r: SchemaRegistry)
        ensures
            r.root@ == root@,
    {
        SchemaRegistry { root: root.to_owned() }
    }

    /// Where and what to store for `sdl`: the trimmed text with one final newline, under the
    /// SHA-256 of that text. Fails when the SDL is blank.
    pub fn store(&self, sdl: &str) -> (r: Fallible<StoredSchema>)
        ensures
            trim_spec(sdl@).len() == 0 <==> r is Err,
            r matches Err(e) ==> e@ == seq!["schema SDL must not be empty"@],
            r matches Ok(s) ==> {
                &&& s.contents@ == stored_text_spec(sdl@)
                &&& s.schema_ref.hash@ == sha256_hex_of(stored_text_spec(sdl@))
                &&& s.schema_ref.encoding@ == "utf-8"@
                &&& s.path@ == schema_file_spec(self.root@, s.schema_ref.hash@)
                &&& is_schema_hash_spec(s.schema_ref.hash@)
                &&& forall|i: int| 0 <= i < s.schema_ref.hash@.len() ==> ('0' <= #[trigger] s.schema_ref.hash@[i] <= '9')
                    || ('a' <= s.schema_ref.hash@[i] <= 'f')
            },
    {
        let trimmed = trim(sdl);
        if trimmed.unicode_len() == 0 {
            return Err(Error::msg(String::from_str("schema SDL must not be empty")));
        }
        let canonical = cat2(trimmed.as_str(), "\n");
        let hash = sha256_hex(canonical.as_str());
        let name = cat2(hash.as_str(), ".graphql");
        let path = join_file(self.root.as_str(), name.as_str());
        proof {
            assert forall|i: int| 0 <= i < hash@.len() implies is_hex_digit(#[trigger] hash@[i]) by {
                assert(('0' <= hash@[i] <= '9') || ('a' <= hash@[i] <= 'f'));
            }
        }
        Ok(StoredSchema {
            schema_ref: SchemaRef { hash, encoding: String::from_str("utf-8") },
            path,
            contents: canonical,
        })
    }

    /// The file of the schema with hash `hash`; fails unless `hash` is a schema hash.
    pub fn schema_path(&self, hash: &str) -> (r: Fallible<String>)
        ensures
            match schema_path_spec(self.root@, hash@) {
                Ok(p) => r matches Ok(x) && x@ == p,
                Err(m) => r matches Err(e) && e@ == m,
            },
    {
        validate_hash(hash)?;
        let name = cat2(hash, ".graphql");
        Ok(join_file(self.root.as_str(), name.as_str()))
    }
}

} // verus!
