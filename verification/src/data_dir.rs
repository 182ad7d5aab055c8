//! Where a webview window keeps its data on Windows: a directory chosen by
//! the host below the local data directory, or one per executable path.

use vstd::prelude::*;
use vstd::string::*;
use sha2::Digest;
use crate::error::OperationError;
use crate::shortcut::{executable_error, RESOLVE_EXECUTABLE_OPERATION};
use crate::paths::{
    has_parent_component, has_prefix, has_root, is_absolute, is_verbatim, join_path, join_path_text, needs_separator,
    path_has_parent_component, path_is_absolute, path_string,
};
use crate::text::{char_from_ascii, push_char};

verus! {

/// The Tauri identifier used when the host sets none, and the directory
/// under the local data directory that holds the per-executable profiles.
pub const DEFAULT_IDENTIFIER: &'static str = "Tauriless";

/// The SHA-256 digest of `data`, as the `sha2` crate computes it.
pub uninterp spec fn sha256_digest(data: Seq<u8>) -> Seq<u8>;

/// `sha2::Sha256::digest`: the result is named `sha256_digest` of the input;
/// its length is 32 bytes, the output size of `Sha256`.
#[verifier::external_body]
fn sha256(data: &[u8]) -> (r: Vec<u8>)
    ensures
        r@ == sha256_digest(data@),
        r@.len() == 32,
{
    sha2::Sha256::digest(data).to_vec()
}

/// The UTF-16 code units of a character.
pub open spec fn utf16_units(c: char) -> Seq<int> {
    let u = c as int;
    if u < 0x10000 {
        seq![u]
    } else {
        let v = u - 0x10000;
        seq![0xD800 + v / 1024, 0xDC00 + v % 1024]
    }
}

/// Code units as little-endian bytes.
pub open spec fn units_le_bytes(units: Seq<int>) -> Seq<u8>
    decreases units.len(),
{
    if units.len() == 0 {
        seq![]
    } else {
        units_le_bytes(units.drop_last()) + seq![(units.last() % 256) as u8, (units.last() / 256) as u8]
    }
}

/// A text encoded as UTF-16LE, as Windows stores a path.
pub open spec fn utf16le(s: Seq<char>) -> Seq<u8>
    decreases s.len(),
{
    if s.len() == 0 {
        seq![]
    } else {
        utf16le(s.drop_last()) + units_le_bytes(utf16_units(s.last()))
    }
}

/// The lowercase hexadecimal digit for `d` (below 16).
pub open spec fn hex_digit(d: int) -> char {
    if d < 10 {
        (48 + d) as char
    } else {
        (87 + d) as char
    }
}

/// Bytes in lowercase hexadecimal, two digits each, as `{:x}` prints a digest.
pub open spec fn hex_lower(b: Seq<u8>) -> Seq<char>
    decreases b.len(),
{
    if b.len() == 0 {
        seq![]
    } else {
        hex_lower(b.drop_last()).push(hex_digit(b.last() as int / 16)).push(hex_digit(b.last() as int % 16))
    }
}

/// The characters `hex_lower` writes: `0`-`9` and `a`-`f`.
pub open spec fn is_lower_hex_char(c: char) -> bool {
    ('0' <= c && c <= '9') || ('a' <= c && c <= 'f')
}

proof fn lemma_hex_lower_chars(b: Seq<u8>)
    ensures
        forall|i: int| 0 <= i < hex_lower(b).len() ==> is_lower_hex_char(#[trigger] hex_lower(b)[i]),
    decreases b.len(),
{
    if b.len() > 0 {
        lemma_hex_lower_chars(b.drop_last());
        let h = hex_lower(b.drop_last());
        let d1 = b.last() as int / 16;
        let d2 = b.last() as int % 16;
        assert(is_lower_hex_char(hex_digit(d1)));
        assert(is_lower_hex_char(hex_digit(d2)));
        assert forall|i: int| 0 <= i < hex_lower(b).len() implies is_lower_hex_char(#[trigger] hex_lower(b)[i]) by {
            if i < h.len() {
                assert(hex_lower(b)[i] == h[i]);
            }
        }
    }
}

proof fn lemma_hex_lower_len(b: Seq<u8>)
    ensures
        hex_lower(b).len() == 2 * b.len(),
    decreases b.len(),
{
    if b.len() > 0 {
        lemma_hex_lower_len(b.drop_last());
    }
}

fn push_le(bytes: &mut Vec<u8>, unit: u32)
    requires
        unit < 0x10000,
    ensures
        final(bytes)@ == old(bytes)@ + seq![(unit % 256) as u8, (unit / 256) as u8],
{
    bytes.push((unit % 256) as u8);
    bytes.push((unit / 256) as u8);
    assert(final(bytes)@ =~= old(bytes)@ + seq![(unit % 256) as u8, (unit / 256) as u8]);
}

/// Encodes a text as UTF-16LE bytes.
pub fn utf16le_bytes(s: &str) -> (r: Vec<u8>)
    ensures
        r@ == utf16le(s@),
{
    let n = s.unicode_len();
    let mut r: Vec<u8> = Vec::new();
    let mut i: usize = 0;
    while i < n
        invariant
            n == s@.len(),
            i <= n,
            r@ == utf16le(s@.subrange(0, i as int)),
        decreases n - i,
    {
        let c = s.get_char(i);
        let u = c as u32;
        let ghost before = r@;
        proof {
            let pre = s@.subrange(0, i as int);
            let nxt = s@.subrange(0, i + 1);
            assert(nxt.drop_last() =~= pre);
            assert(nxt.last() == c);
        }
        if u < 0x10000 {
            push_le(&mut r, u);
            proof {
                let units = utf16_units(c);
                assert(units =~= seq![u as int]);
                assert(units.drop_last() =~= Seq::<int>::empty());
                assert(units_le_bytes(units.drop_last()) =~= Seq::<u8>::empty());
                assert(units.last() == u as int);
                assert(units_le_bytes(units) =~= seq![(u % 256) as u8, (u / 256) as u8]);
            }
        } else {
            let v = u - 0x10000;
            assert(u <= 0x10FFFF);
            let hi = 0xD800 + v / 1024;
            let lo = 0xDC00 + v % 1024;
            push_le(&mut r, hi);
            push_le(&mut r, lo);
            proof {
                let units = utf16_units(c);
                assert(units =~= seq![hi as int, lo as int]);
                assert(units.drop_last() =~= seq![hi as int]);
                assert(units.drop_last().drop_last() =~= Seq::<int>::empty());
                assert(units_le_bytes(units.drop_last().drop_last()) =~= Seq::<u8>::empty());
                assert(units.drop_last().last() == hi as int);
                assert(units.last() == lo as int);
                assert(units_le_bytes(units.drop_last()) =~= seq![(hi % 256) as u8, (hi / 256) as u8]);
                assert(units_le_bytes(units) =~= seq![(hi % 256) as u8, (hi / 256) as u8] + seq![(lo % 256) as u8, (lo / 256) as u8]);
                assert(r@ =~= before + units_le_bytes(units));
            }
        }
        i = i + 1;
    }
    assert(s@.subrange(0, n as int) =~= s@);
    r
}

fn hex_digit_char(d: u8) -> (r: char)
    requires
        d < 16,
    ensures
        r == hex_digit(d as int),
{
    if d < 10 {
        char_from_ascii(48 + d as u32)
    } else {
        char_from_ascii(87 + d as u32)
    }
}

/// Writes bytes in lowercase hexadecimal.
pub fn hex_text(bytes: &Vec<u8>) -> (r: String)
    ensures
        r@ == hex_lower(bytes@),
        r@.len() == 2 * bytes@.len(),
{
    let n = bytes.len();
    let mut r = String::new();
    let mut i: usize = 0;
    while i < n
        invariant
            n == bytes@.len(),
            i <= n,
            r@ == hex_lower(bytes@.subrange(0, i as int)),
        decreases n - i,
    {
        let b = bytes[i];
        push_char(&mut r, hex_digit_char(b / 16));
        push_char(&mut r, hex_digit_char(b % 16));
        assert(bytes@.subrange(0, i + 1).drop_last() =~= bytes@.subrange(0, i as int));
        i = i + 1;
    }
    assert(bytes@.subrange(0, n as int) =~= bytes@);
    proof {
        lemma_hex_lower_len(bytes@);
    }
    r
}

/// The profile directory of an executable: `<local data>\Tauriless\<hash>`,
/// where the hash is the SHA-256 of the executable path in UTF-16LE, in
/// lowercase hexadecimal.
pub open spec fn executable_profile_dir(local_data: Seq<char>, executable: Seq<char>) -> Seq<char> {
    join_path(join_path(local_data, DEFAULT_IDENTIFIER@), hex_lower(sha256_digest(utf16le(executable))))
}

/// The hash that names an executable's profile directory.
pub fn windows_path_hash(path: &str) -> (r: String)
    ensures
        r@ == hex_lower(sha256_digest(utf16le(path@))),
        r@.len() == 64,
{
    let bytes = utf16le_bytes(path);
    let digest = sha256(bytes.as_slice());
    hex_text(&digest)
}

/// The directory a webview window of `executable` uses when the host names none.
pub fn webview_data_directory_for_executable(local_data: &str, executable: &str) -> (r: String)
    ensures
        r@ == executable_profile_dir(local_data@, executable@),
{
    let base = join_path_text(local_data, DEFAULT_IDENTIFIER);
    let hash = windows_path_hash(executable);
    join_path_text(base.as_str(), hash.as_str())
}

/// The directory a webview window uses when the host names none, given the
/// lookup of the host's executable path (or why it failed).
pub fn default_webview_data_directory(local_data: &str, executable: Result<String, String>) -> (r: Result<
    String,
    OperationError,
>)
    ensures
        match executable {
            Ok(exe) => r matches Ok(p) && p@ == executable_profile_dir(local_data@, exe@),
            Err(m) => r matches Err(e) && e.operation@ == RESOLVE_EXECUTABLE_OPERATION@ && e.message@ == m@
                && e.executable_path is None && e.shortcut_path is None && e.webview_data_directory is None,
        },
{
    match executable {
        Ok(exe) => Ok(webview_data_directory_for_executable(local_data, exe.as_str())),
        Err(message) => Err(executable_error(message.as_str())),
    }
}

/// The operation named when a requested data directory is refused.
pub const RESOLVE_DATA_DIRECTORY_OPERATION: &'static str = "resolve-webview-data-directory";

/// The message given when a requested data directory is refused.
pub const UNSAFE_DATA_DIRECTORY_MESSAGE: &'static str = "dataDirectory must be a safe relative path";

/// The directory a host requests for a webview window: `relative` below
/// `<local data>\<label>`.
pub open spec fn requested_data_dir(local_data: Seq<char>, label: Seq<char>, relative: Seq<char>) -> Seq<char> {
    join_path(join_path(local_data, label), relative)
}

/// A requested directory is refused when it is absolute or has a `..` component.
pub open spec fn refuses_data_dir(relative: Seq<char>) -> bool {
    is_absolute(relative) || has_parent_component(relative)
}

/// Resolves the data directory a host requests for the webview window `label`.
pub fn resolved_explicit_webview_data_directory(local_data: &str, label: &str, relative: &str) -> (r: Result<
    String,
    OperationError,
>)
    ensures
        refuses_data_dir(relative@) <==> r is Err,
        r matches Ok(p) ==> p@ == requested_data_dir(local_data@, label@, relative@),
        r matches Err(e) ==> {
            &&& e.operation@ == RESOLVE_DATA_DIRECTORY_OPERATION@
            &&& e.message@ == UNSAFE_DATA_DIRECTORY_MESSAGE@
            &&& e.webview_data_directory matches Some(p) && p@ == requested_data_dir(local_data@, label@, relative@)
            &&& e.executable_path is None
            &&& e.shortcut_path is None
        },
{
    let base = join_path_text(local_data, label);
    let path = join_path_text(base.as_str(), relative);
    if path_is_absolute(relative) || path_has_parent_component(relative) {
        return Err(OperationError {
            operation: RESOLVE_DATA_DIRECTORY_OPERATION.to_owned(),
            message: UNSAFE_DATA_DIRECTORY_MESSAGE.to_owned(),
            executable_path: None,
            shortcut_path: None,
            webview_data_directory: Some(path_string(path.as_str())),
        });
    }
    Ok(path)
}

/// The directory an executable's webview windows use by default lies directly
/// in `<local data>\Tauriless`, under the hexadecimal digest of the
/// executable's path: the same path always gives the same directory. (Stated
/// for a local data directory that is not verbatim, `\\?\...`, onto which
/// `Path::join` normalizes instead of appending.)
pub proof fn law_profile_dir_is_below_identifier_dir(local_data: Seq<char>, executable: Seq<char>)
    requires
        !is_verbatim(local_data),
        !is_verbatim(join_path(local_data, DEFAULT_IDENTIFIER@)),
    ensures
        executable_profile_dir(local_data, executable) == join_path(local_data, DEFAULT_IDENTIFIER@) + seq!['\\']
            + hex_lower(sha256_digest(utf16le(executable))),
        forall|i: int| 0 <= i < hex_lower(sha256_digest(utf16le(executable))).len()
            ==> is_lower_hex_char(#[trigger] hex_lower(sha256_digest(utf16le(executable)))[i]),
{
    reveal_strlit("Tauriless");
    let hex = hex_lower(sha256_digest(utf16le(executable)));
    lemma_hex_lower_chars(sha256_digest(utf16le(executable)));
    let base = join_path(local_data, DEFAULT_IDENTIFIER@);
    assert(!has_prefix(DEFAULT_IDENTIFIER@));
    assert(!has_root(DEFAULT_IDENTIFIER@));
    assert(base.len() >= 9);
    assert(base.last() == 's');
    assert(needs_separator(base));
    if hex.len() >= 2 {
        assert(is_lower_hex_char(hex[0]));
        assert(is_lower_hex_char(hex[1]));
    }
    if hex.len() >= 1 {
        assert(is_lower_hex_char(hex[0]));
    }
    assert(!has_prefix(hex));
    assert(!has_root(hex));
}

/// A requested data directory that is accepted and names neither a drive nor
/// a root lies below `<local data>\<label>`: it is that directory, a
/// separator when needed, and the requested relative path, which has no `..`
/// component. (Stated for a directory that is not verbatim, `\\?\...`, onto
/// which `Path::join` normalizes instead of appending.)
pub proof fn law_accepted_relative_dir_is_confined(local_data: Seq<char>, label: Seq<char>, relative: Seq<char>)
    requires
        !refuses_data_dir(relative),
        !has_prefix(relative),
        !has_root(relative),
        !is_verbatim(join_path(local_data, label)),
    ensures
        requested_data_dir(local_data, label, relative) == join_path(local_data, label) + (if needs_separator(
            join_path(local_data, label),
        ) {
            seq!['\\']
        } else {
            seq![]
        }) + relative,
        !has_parent_component(relative),
{
    let base = join_path(local_data, label);
    if !needs_separator(base) {
        assert(base + relative =~= base + seq![] + relative);
    }
}

} // verus!
