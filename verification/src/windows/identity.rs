//! Identities derived from what Windows reports, and native values in portable form.

use vstd::prelude::*;
use vstd::utf8::{char_u32_cast, encode_utf8};

use crate::ids::{FileId128, FileKey, FileLinkId, VolumeId};
use crate::search::ranking::{occurs_at, starts_with_text};
use crate::text::{char_with_code, chars_of, lowercase, lowercase_of};

verus! {

/// The hash of no bytes.
pub const HASH_BASIS: u128 = 0x6c62_272e_07bb_0142_62b8_2175_6295_c58d;

/// What the hash is multiplied with for each byte.
pub const HASH_PRIME: u128 = 0x0000_0000_0100_0000_0000_0000_0000_013b;

/// The hash of the first `n` bytes: each is mixed in, then the hash is multiplied, modulo two to
/// the power of its width.
pub open spec fn hash_of(bytes: Seq<u8>, n: nat) -> u128
    decreases n,
{
    if n == 0 {
        HASH_BASIS
    } else {
        (((hash_of(bytes, (n - 1) as nat) ^ (bytes[n - 1] as u128)) * HASH_PRIME)
            % 0x1_0000_0000_0000_0000_0000_0000_0000_0000int) as u128
    }
}

/// The hash of bytes.
pub open spec fn hash(bytes: Seq<u8>) -> u128 {
    hash_of(bytes, bytes.len())
}

/// Hashes bytes.
pub fn stable_hash_bytes(bytes: &[u8]) -> (r: u128)
    ensures
        r == hash(bytes@),
{
    let mut hash: u128 = HASH_BASIS;
    let mut i: usize = 0;
    while i < bytes.len()
        invariant
            i <= bytes@.len(),
            hash == hash_of(bytes@, i as nat),
        decreases bytes@.len() - i,
    {
        hash = (hash ^ (bytes[i] as u128)).wrapping_mul(HASH_PRIME);
        i = i + 1;
    }
    hash
}

/// The last `n` bytes of a number, most significant first.
pub open spec fn big_endian(value: u128, n: nat) -> Seq<u8>
    decreases n,
{
    if n == 0 {
        Seq::empty()
    } else {
        big_endian(value / 256, (n - 1) as nat).push((value % 256) as u8)
    }
}

pub(crate) fn push_big_endian(bytes: &mut Vec<u8>, value: u128, n: usize)
    ensures
        final(bytes)@ == old(bytes)@ + big_endian(value, n as nat),
    decreases n,
{
    if n == 0 {
        assert(bytes@ =~= old(bytes)@ + big_endian(value, 0));
    } else {
        push_big_endian(bytes, value / 256, n - 1);
        bytes.push((value % 256) as u8);
        assert(bytes@ =~= old(bytes)@ + big_endian(value, n as nat));
    }
}

/// The bytes of a number, most significant first.
pub fn big_endian_bytes(value: u128) -> (r: Vec<u8>)
    ensures
        r@ == big_endian(value, 16),
{
    let mut r: Vec<u8> = Vec::new();
    push_big_endian(&mut r, value, 16);
    assert(r@ =~= big_endian(value, 16));
    r
}

fn push_text(bytes: &mut Vec<u8>, text: &str)
    ensures
        final(bytes)@ == old(bytes)@ + encode_utf8(text@),
{
    let encoded = text.as_bytes();
    let mut i: usize = 0;
    while i < encoded.len()
        invariant
            i <= encoded@.len(),
            bytes@ =~= old(bytes)@ + encoded@.take(i as int),
        decreases encoded@.len() - i,
    {
        bytes.push(encoded[i]);
        i = i + 1;
    }
    assert(encoded@.take(i as int) =~= encoded@);
}

/// The object with a file reference.
pub open spec fn object_of(volume_id: VolumeId, reference: u64) -> FileKey {
    FileKey { volume_id, file_id: FileId128 { value: reference as u128 } }
}

/// The object with a file reference.
pub fn file_key(volume_id: VolumeId, reference: u64) -> (r: FileKey)
    ensures
        r == object_of(volume_id, reference),
{
    FileKey::new(volume_id, FileId128::from_u128(reference as u128))
}

/// What sets the root link apart from its volume.
pub const ROOT_LINK_TAG: u128 = 0x006c_732d_726f_6f74_2d6c_696e_6b2d_7631;

/// The link of the root of a volume.
pub open spec fn root_link(volume_id: VolumeId) -> FileLinkId {
    FileLinkId { value: volume_id.value ^ ROOT_LINK_TAG }
}

/// The link of the root of a volume.
pub fn root_link_id(volume_id: VolumeId) -> (r: FileLinkId)
    ensures
        r == root_link(volume_id),
{
    FileLinkId::from_u128(volume_id.value ^ ROOT_LINK_TAG)
}

/// Roots of different volumes have different links.
pub proof fn root_links_are_distinct(a: VolumeId, b: VolumeId)
    ensures
        root_link(a) == root_link(b) ==> a == b,
{
    let (x, y, tag) = (a.value, b.value, ROOT_LINK_TAG);
    assert(x ^ tag == y ^ tag ==> x == y) by (bit_vector);
}

/// What a link is hashed from: its directory, if it has one, and its name.
pub open spec fn link_bytes(parent: Option<FileKey>, name: Seq<char>) -> Seq<u8> {
    (match parent {
        Some(key) => big_endian(key.volume_id.value, 16) + big_endian(key.file_id.value, 16),
        None => Seq::empty(),
    }) + encode_utf8(name)
}

/// The hash of a link.
pub fn link_hash(parent: Option<FileKey>, name: &str) -> (r: u128)
    ensures
        r == hash(link_bytes(parent, name@)),
{
    let mut bytes: Vec<u8> = Vec::new();
    if let Some(key) = parent {
        push_big_endian(&mut bytes, key.volume_id.value, 16);
        push_big_endian(&mut bytes, key.file_id.value, 16);
    }
    push_text(&mut bytes, name);
    assert(bytes@ =~= link_bytes(parent, name@));
    stable_hash_bytes(bytes.as_slice())
}

/// The identity of the volume with a name.
pub fn volume_id_from_guid(guid: &str) -> (r: VolumeId)
    ensures
        r.value == hash(encode_utf8(guid@)),
{
    VolumeId::from_u128(stable_hash_bytes(guid.as_bytes()))
}

/// The fingerprint of a root, whatever the case of its letters.
pub open spec fn root_fingerprint(lowered: Seq<char>) -> u128 {
    hash(encode_utf8(lowered))
}

/// The fingerprint of a root that is in lower case already.
pub fn lowered_root_fingerprint(lowered: &str) -> (r: u128)
    ensures
        r == root_fingerprint(lowered@),
{
    stable_hash_bytes(lowered.as_bytes())
}

/// The fingerprint of a root.
pub fn scoped_root_fingerprint(root: &str) -> (r: u128)
    ensures
        r == root_fingerprint(lowercase_of(root@)),
{
    lowered_root_fingerprint(lowercase(root).as_str())
}

/// What the identity of a scoped source is hashed from.
pub open spec fn scoped_bytes(source: VolumeId, fingerprint: u128) -> Seq<u8> {
    big_endian(source.value, 16) + big_endian(fingerprint, 16)
}

/// The identity of a source with a fingerprint on a volume.
pub fn fingerprinted_volume_id(source: VolumeId, fingerprint: u128) -> (r: VolumeId)
    ensures
        r.value == hash(scoped_bytes(source, fingerprint)),
{
    let mut bytes: Vec<u8> = Vec::new();
    push_big_endian(&mut bytes, source.value, 16);
    push_big_endian(&mut bytes, fingerprint, 16);
    assert(bytes@ =~= scoped_bytes(source, fingerprint));
    VolumeId::from_u128(stable_hash_bytes(bytes.as_slice()))
}

/// The identity of a source that is one root of a volume.
pub fn scoped_volume_id(source: VolumeId, root: &str) -> (r: VolumeId)
    ensures
        r.value == hash(scoped_bytes(source, root_fingerprint(lowercase_of(root@)))),
{
    fingerprinted_volume_id(source, scoped_root_fingerprint(root))
}

/// The journal identity of a volume that is not journalled: the second half of its identity.
pub fn checkpoint_identity(volume_id: VolumeId) -> (r: u64)
    ensures
        r == volume_id.value % 0x1_0000_0000_0000_0000,
{
    (volume_id.value % 0x1_0000_0000_0000_0000) as u64
}

/// Ticks of a hundred nanoseconds from 1601 to 1970.
pub const FILETIME_EPOCH: u64 = 116_444_736_000_000_000;

/// Milliseconds since 1970 of a file time; nothing before.
pub fn filetime_ms(value: u64) -> (r: Option<i64>)
    ensures
        r == (if value < FILETIME_EPOCH {
            None::<i64>
        } else {
            Some(((value - FILETIME_EPOCH) / 10_000) as i64)
        }),
        r matches Some(ms) ==> ms == (value - FILETIME_EPOCH) / 10_000,
{
    match value.checked_sub(FILETIME_EPOCH) {
        Some(ticks) => Some((ticks / 10_000) as i64),
        None => None,
    }
}

/// A text without its first `n` characters.
fn without_first(text: &str, n: usize) -> (r: String)
    requires
        n <= text@.len(),
    ensures
        r@ == text@.skip(n as int),
{
    let chars = chars_of(text);
    let mut r = String::new();
    let mut i: usize = n;
    while i < chars.len()
        invariant
            n <= i <= chars@.len(),
            chars@ == text@,
            r@ =~= text@.subrange(n as int, i as int),
        decreases chars@.len() - i,
    {
        r.push(chars[i]);
        i = i + 1;
    }
    r
}

/// A path as it is shown: without the prefix that marks a long path, and with two backslashes
/// before the server of a share.
pub open spec fn displayed(path: Seq<char>) -> Seq<char> {
    if occurs_at(path, "\\\\?\\UNC\\"@, 0) {
        "\\\\"@ + path.skip("\\\\?\\UNC\\"@.len() as int)
    } else if occurs_at(path, "\\\\?\\"@, 0) {
        path.skip("\\\\?\\"@.len() as int)
    } else {
        path
    }
}

/// A path as it is shown.
pub fn display_root_path(path: &str) -> (r: String)
    ensures
        r@ == displayed(path@),
{
    proof {
        reveal_strlit("\\\\?\\UNC\\");
        reveal_strlit("\\\\?\\");
    }
    if starts_with_text(path, "\\\\?\\UNC\\") {
        let mut r = "\\\\".to_owned();
        r.append(without_first(path, 8).as_str());
        r
    } else if starts_with_text(path, "\\\\?\\") {
        without_first(path, 4)
    } else {
        path.to_owned()
    }
}

/// The unit is the first half of a surrogate pair.
pub open spec fn is_high_surrogate(unit: u16) -> bool {
    0xd800 <= unit <= 0xdbff
}

/// The unit is the second half of a surrogate pair.
pub open spec fn is_low_surrogate(unit: u16) -> bool {
    0xdc00 <= unit <= 0xdfff
}

/// The character of a surrogate pair.
pub open spec fn paired(high: u16, low: u16) -> char {
    ((0x10000 + (high - 0xd800) * 0x400 + (low - 0xdc00)) as u32) as char
}

/// The text that UTF-16 code units spell; a surrogate without its other half becomes the
/// replacement character.
pub open spec fn utf16_text(units: Seq<u16>) -> Seq<char>
    decreases units.len(),
{
    if units.len() == 0 {
        Seq::empty()
    } else if is_high_surrogate(units[0]) && units.len() > 1 && is_low_surrogate(units[1]) {
        seq![paired(units[0], units[1])] + utf16_text(units.skip(2))
    } else if is_high_surrogate(units[0]) || is_low_surrogate(units[0]) {
        seq!['\u{fffd}'] + utf16_text(units.skip(1))
    } else {
        seq![(units[0] as u32) as char] + utf16_text(units.skip(1))
    }
}

fn decode_utf16(units: &[u16]) -> (r: String)
    ensures
        r@ == utf16_text(units@),
{
    let mut r = String::new();
    let mut i: usize = 0;
    assert(units@.skip(0) =~= units@);
    assert(r@ + utf16_text(units@) =~= utf16_text(units@));
    while i < units.len()
        invariant
            i <= units@.len(),
            utf16_text(units@) == r@ + utf16_text(units@.skip(i as int)),
        decreases units@.len() - i,
    {
        let ghost before = r@;
        let ghost rest = units@.skip(i as int);
        let unit: u16 = units[i];
        let pair = 0xd800 <= unit && unit <= 0xdbff && units.len() - i > 1 && 0xdc00 <= units[i + 1]
            && units[i + 1] <= 0xdfff;
        let code: u32 = if pair {
            0x10000 + (unit as u32 - 0xd800) * 0x400 + (units[i + 1] as u32 - 0xdc00)
        } else if 0xd800 <= unit && unit <= 0xdfff {
            0xfffd
        } else {
            unit as u32
        };
        let c = match char_with_code(code) {
            Some(c) => c,
            None => '\u{fffd}',
        };
        r.push(c);
        let step: usize = if pair {
            2
        } else {
            1
        };
        i = i + step;
        proof {
            assert(rest[0] == unit);
            assert(rest.skip(step as int) =~= units@.skip(i as int));
            char_u32_cast(c, code);
            if pair {
                assert(rest[1] == units@[i - 1]);
                assert(c == paired(rest[0], rest[1]));
            } else if 0xd800 <= unit <= 0xdfff {
                assert(c == '\u{fffd}');
            } else {
                assert(c == (unit as u32) as char);
            }
            assert(utf16_text(rest) == seq![c] + utf16_text(units@.skip(i as int)));
            assert(r@ + utf16_text(units@.skip(i as int)) =~= before + utf16_text(rest));
        }
    }
    assert(r@ + utf16_text(units@.skip(i as int)) =~= r@);
    r
}

/// The code units before the first zero.
pub open spec fn before_zero(units: Seq<u16>) -> Seq<u16>
    decreases units.len(),
{
    if units.len() == 0 || units[0] == 0 {
        Seq::empty()
    } else {
        seq![units[0]] + before_zero(units.drop_first())
    }
}

proof fn lemma_before_zero(units: Seq<u16>, n: int)
    requires
        0 <= n <= units.len(),
        n < units.len() ==> units[n] == 0,
        forall|i: int| 0 <= i < n ==> units[i] != 0,
    ensures
        before_zero(units) == units.take(n),
    decreases units.len(),
{
    if n == 0 {
        assert(units.take(0) =~= Seq::<u16>::empty());
    } else {
        lemma_before_zero(units.drop_first(), n - 1);
        assert(units.take(n) =~= seq![units[0]] + units.drop_first().take(n - 1));
    }
}

/// The code units before the first zero.
pub fn units_before_zero(units: &Vec<u16>) -> (r: Vec<u16>)
    ensures
        r@ == before_zero(units@),
{
    let mut r: Vec<u16> = Vec::new();
    let mut i: usize = 0;
    while i < units.len() && units[i] != 0
        invariant
            i <= units@.len(),
            r@ =~= units@.take(i as int),
            forall|k: int| 0 <= k < i ==> units@[k] != 0,
        decreases units@.len() - i,
    {
        r.push(units[i]);
        i = i + 1;
    }
    proof {
        lemma_before_zero(units@, i as int);
    }
    r
}

/// The text in a buffer of code units that ends with a zero.
pub fn utf16_z(units: &Vec<u16>) -> (r: String)
    ensures
        r@ == utf16_text(before_zero(units@)),
{
    decode_utf16(units_before_zero(units).as_slice())
}

/// Links of one directory are hashed from different bytes if their names differ.
pub proof fn link_bytes_tell_names_apart(parent: Option<FileKey>, a: Seq<char>, b: Seq<char>)
    ensures
        link_bytes(parent, a) == link_bytes(parent, b) ==> encode_utf8(a) == encode_utf8(b),
{
    let front = match parent {
        Some(key) => big_endian(key.volume_id.value, 16) + big_endian(key.file_id.value, 16),
        None => Seq::<u8>::empty(),
    };
    if link_bytes(parent, a) == link_bytes(parent, b) {
        let n = front.len() as int;
        assert(link_bytes(parent, a).skip(n) =~= encode_utf8(a));
        assert(link_bytes(parent, b).skip(n) =~= encode_utf8(b));
    }
}

} // verus!
