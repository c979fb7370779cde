use vstd::prelude::*;
use vstd::utf8::encode_utf8;
use sha2::Digest;
use crate::text::{decimal, decimal_text};

verus! {

/// Directory of the persisted configuration store.
pub const FILE_DB_PATH: &'static str = "C:/ProgramData/Tauri/EH Version Scraper";

/// Name of the persisted configuration store.
pub const FILE_DB_NAME: &'static str = "application_db";

/// Prefix of every resolver error text.
pub const RESOLVE_ERROR_PREFIX: &'static str = "[Get File Version] ";

/// The file that backs the configuration store: `FILE_DB_PATH/FILE_DB_NAME.kv`.
pub fn store_file_path() -> (r: String)
    ensures
        r@ == FILE_DB_PATH@ + "/"@ + FILE_DB_NAME@ + ".kv"@,
{
    let mut s = String::from_str(FILE_DB_PATH);
    s.append("/");
    s.append(FILE_DB_NAME);
    s.append(".kv");
    s
}

/// How the version of a file is found.
#[derive(Debug, Clone, Copy, PartialEq, Eq, Structural)]
pub enum Resolver {
    /// The version resource of an executable or library.
    FileProperties,
    /// A digest of the file's content.
    ContentHash,
}

/// What the pipeline does with one settled change event.
#[derive(Debug, Clone, Copy, PartialEq, Eq, Structural)]
pub enum Route {
    /// The configuration store changed: refresh the watches, then the broker
    /// connection.
    RefreshConfig,
    /// A watched file changed: resolve its version this way, then update and
    /// publish.
    Resolve(Resolver),
}

/// The extension of the last component of a path, as `std::path::Path`
/// finds it.
pub uninterp spec fn extension_of(p: Seq<char>) -> Option<Seq<char>>;

/// Relies on std::path::Path::extension: the text after the last dot of the
/// file name, if any.
#[verifier::external_body]
fn extension(p: &str) -> (r: Option<String>)
    ensures
        match r {
            Some(e) => extension_of(p@) == Some(e@),
            None => extension_of(p@) is None,
        },
{
    std::path::Path::new(p).extension().map(|e| e.to_string_lossy().into_owned())
}

/// The resolver for an extension: the version resource for `exe` and `dll`,
/// a content digest for any other.
pub open spec fn resolver_for(ext: Seq<char>) -> Resolver {
    if ext == "exe"@ || ext == "dll"@ {
        Resolver::FileProperties
    } else {
        Resolver::ContentHash
    }
}

/// The route of a settled change event at `path`; `store_path` is the file
/// that backs the configuration store. A path without an extension is
/// resolved by its content.
pub open spec fn route_of(path: Seq<char>, store_path: Seq<char>) -> Route {
    if path == store_path {
        Route::RefreshConfig
    } else {
        match extension_of(path) {
            Some(e) => Route::Resolve(resolver_for(e)),
            None => Route::Resolve(Resolver::ContentHash),
        }
    }
}

/// The resolver for a file extension (see `resolver_for`).
pub fn resolver_for_ext(ext: &str) -> (r: Resolver)
    ensures
        r == resolver_for(ext@),
{
    let e = String::from_str(ext);
    let exe = String::from_str("exe");
    let dll = String::from_str("dll");
    if e == exe || e == dll {
        Resolver::FileProperties
    } else {
        Resolver::ContentHash
    }
}

/// Decides what a settled change event leads to.
pub fn route_event(path: &str, store_path: &str) -> (r: Route)
    ensures
        r == route_of(path@, store_path@),
{
    let p = String::from_str(path);
    let s = String::from_str(store_path);
    if p == s {
        return Route::RefreshConfig;
    }
    match extension(path) {
        Some(e) => Route::Resolve(resolver_for_ext(e.as_str())),
        None => Route::Resolve(Resolver::ContentHash),
    }
}

/// A version made of four numbers, written `a.b.c.d`.
pub open spec fn dotted(a: nat, b: nat, c: nat, d: nat) -> Seq<char> {
    decimal(a) + "."@ + decimal(b) + "."@ + decimal(c) + "."@ + decimal(d)
}

/// The version text for what the version resource held: `a.b.c.d`, or an
/// error where the file has no readable version resource.
pub fn get_file_version_from_file_properties(found: Option<(u32, u32, u32, u32)>) -> (r: Result<String, String>)
    ensures
        match found {
            Some((a, b, c, d)) => r is Ok && r->Ok_0@ == dotted(a as nat, b as nat, c as nat, d as nat),
            None => r is Err && r->Err_0@ == RESOLVE_ERROR_PREFIX@ + "Could not read version."@,
        },
{
    match found {
        Some((a, b, c, d)) => {
            let mut s = decimal_text(a as u64);
            s.append(".");
            s.append(decimal_text(b as u64).as_str());
            s.append(".");
            s.append(decimal_text(c as u64).as_str());
            s.append(".");
            s.append(decimal_text(d as u64).as_str());
            Ok(s)
        },
        None => {
            let mut s = String::from_str(RESOLVE_ERROR_PREFIX);
            s.append("Could not read version.");
            Err(s)
        },
    }
}

/// The character of a hexadecimal digit, in lower case.
pub open spec fn hex_char(d: nat) -> char {
    if d < 10 {
        crate::text::digit_char(d)
    } else if d == 10 { 'a' }
    else if d == 11 { 'b' }
    else if d == 12 { 'c' }
    else if d == 13 { 'd' }
    else if d == 14 { 'e' }
    else { 'f' }
}

/// Two lower-case hexadecimal digits for each byte.
pub open spec fn hex_of(b: Seq<u8>) -> Seq<char>
    decreases b.len(),
{
    if b.len() == 0 {
        Seq::empty()
    } else {
        hex_of(b.drop_last()) + seq![hex_char(b.last() as nat / 16), hex_char(b.last() as nat % 16)]
    }
}

/// The elements of a byte list in decimal, separated by `, `.
pub open spec fn list_body(b: Seq<u8>) -> Seq<char>
    decreases b.len(),
{
    if b.len() == 0 {
        Seq::empty()
    } else if b.len() == 1 {
        decimal(b[0] as nat)
    } else {
        list_body(b.drop_last()) + ", "@ + decimal(b.last() as nat)
    }
}

/// A byte list written as Rust's `Debug` writes it: `[1, 2, 3]`.
pub open spec fn byte_list_text(b: Seq<u8>) -> Seq<char> {
    "["@ + list_body(b) + "]"@
}

/// The SHA-256 digest of a byte sequence.
pub uninterp spec fn sha256_of(b: Seq<u8>) -> Seq<u8>;

/// Relies on sha2::Sha256::digest: the SHA-256 digest of the bytes, 32 bytes
/// long.
#[verifier::external_body]
fn sha256(data: &[u8]) -> (r: Vec<u8>)
    ensures
        r@ == sha256_of(data@),
        r@.len() == 32,
{
    sha2::Sha256::digest(data).to_vec()
}

/// The version text of a content: the SHA-256 digest, in lower-case
/// hexadecimal, of the content's byte list written as `[1, 2, 3]`.
pub open spec fn content_version_of(content: Seq<u8>) -> Seq<char> {
    hex_of(sha256_of(encode_utf8(byte_list_text(content))))
}

fn hex_str(d: u8) -> (r: &'static str)
    requires
        d < 16,
    ensures
        r@ == seq![hex_char(d as nat)],
{
    proof {
        reveal_strlit("0");
        reveal_strlit("1");
        reveal_strlit("2");
        reveal_strlit("3");
        reveal_strlit("4");
        reveal_strlit("5");
        reveal_strlit("6");
        reveal_strlit("7");
        reveal_strlit("8");
        reveal_strlit("9");
        reveal_strlit("a");
        reveal_strlit("b");
        reveal_strlit("c");
        reveal_strlit("d");
        reveal_strlit("e");
        reveal_strlit("f");
    }
    if d == 0 { "0" }
    else if d == 1 { "1" }
    else if d == 2 { "2" }
    else if d == 3 { "3" }
    else if d == 4 { "4" }
    else if d == 5 { "5" }
    else if d == 6 { "6" }
    else if d == 7 { "7" }
    else if d == 8 { "8" }
    else if d == 9 { "9" }
    else if d == 10 { "a" }
    else if d == 11 { "b" }
    else if d == 12 { "c" }
    else if d == 13 { "d" }
    else if d == 14 { "e" }
    else { "f" }
}

/// Writes bytes as lower-case hexadecimal, two digits each.
pub fn hex_text(b: &[u8]) -> (r: String)
    ensures
        r@ == hex_of(b@),
{
    let mut out = String::new();
    let mut i: usize = 0;
    while i < b.len()
        invariant
            i <= b@.len(),
            out@ == hex_of(b@.subrange(0, i as int)),
        decreases b@.len() - i,
    {
        let x = b[i];
        let ghost pre = b@.subrange(0, i as int);
        assert(b@.subrange(0, i + 1).drop_last() =~= pre);
        out.append(hex_str(x / 16));
        out.append(hex_str(x % 16));
        assert(out@ =~= hex_of(b@.subrange(0, i + 1)));
        i = i + 1;
    }
    assert(b@.subrange(0, b@.len() as int) =~= b@);
    out
}

/// Writes a byte list as `[1, 2, 3]`.
pub fn byte_list(b: &[u8]) -> (r: String)
    ensures
        r@ == byte_list_text(b@),
{
    let mut body = String::new();
    let mut i: usize = 0;
    while i < b.len()
        invariant
            i <= b@.len(),
            body@ == list_body(b@.subrange(0, i as int)),
        decreases b@.len() - i,
    {
        let ghost pre = b@.subrange(0, i as int);
        assert(b@.subrange(0, i + 1).drop_last() =~= pre);
        if i > 0 {
            body.append(", ");
        }
        body.append(decimal_text(b[i] as u64).as_str());
        proof {
            if i == 0 {
                assert(b@.subrange(0, 1)[0] == b@[0]);
                assert(body@ =~= list_body(b@.subrange(0, 1)));
            } else {
                assert(body@ =~= list_body(b@.subrange(0, i + 1)));
            }
        }
        i = i + 1;
    }
    assert(b@.subrange(0, b@.len() as int) =~= b@);
    let mut out = String::from_str("[");
    out.append(body.as_str());
    out.append("]");
    out
}

/// The version text of a file's content (see `content_version_of`).
pub fn content_digest(content: &[u8]) -> (r: String)
    ensures
        r@ == content_version_of(content@),
{
    let text = byte_list(content);
    let bytes = text.as_str().as_bytes_vec();
    let digest = sha256(bytes.as_slice());
    hex_text(digest.as_slice())
}

/// Why the content of a file could not be had.
#[derive(Debug, Clone)]
pub enum ReadFailure {
    /// The file could not be opened; the text says why.
    Open(String),
    /// The file was opened but could not be read; the text says why.
    Read(String),
}

/// The version text for a file's content, or the error text for a failed
/// read.
pub fn get_file_meta_hash(read: Result<Vec<u8>, ReadFailure>) -> (r: Result<String, String>)
    ensures
        match read {
            Ok(c) => r is Ok && r->Ok_0@ == content_version_of(c@),
            Err(ReadFailure::Open(m)) => r is Err && r->Err_0@ == RESOLVE_ERROR_PREFIX@ + m@,
            Err(ReadFailure::Read(m)) => r is Err && r->Err_0@ == RESOLVE_ERROR_PREFIX@
                + "Could not read file content: "@ + m@,
        },
{
    match read {
        Ok(c) => Ok(content_digest(c.as_slice())),
        Err(ReadFailure::Open(m)) => {
            let mut s = String::from_str(RESOLVE_ERROR_PREFIX);
            s.append(m.as_str());
            Err(s)
        },
        Err(ReadFailure::Read(m)) => {
            let mut s = String::from_str(RESOLVE_ERROR_PREFIX);
            s.append("Could not read file content: ");
            s.append(m.as_str());
            Err(s)
        },
    }
}

} // verus!
