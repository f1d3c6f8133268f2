//! Splitting a database header key into a base path and a file name.

use vstd::prelude::*;
use vstd::string::*;
use vstd::utf8::*;

use crate::error::SearchError;

verus! {

/// Position of the last `/` in `key`, or -1 where `key` holds none.
pub open spec fn last_separator(key: Seq<char>) -> int
    decreases key.len(),
{
    if key.len() == 0 {
        -1
    } else if key.last() == '/' {
        key.len() - 1
    } else {
        last_separator(key.drop_last())
    }
}

/// A header key has a `/` with something on both sides of the last one.
pub open spec fn is_header_key(key: Seq<char>) -> bool {
    0 < last_separator(key) < key.len() - 1
}

/// Everything before the last `/`.
pub open spec fn base_path_of(key: Seq<char>) -> Seq<char> {
    key.subrange(0, last_separator(key))
}

/// Everything after the last `/`.
pub open spec fn file_name_of(key: Seq<char>) -> Seq<char> {
    key.subrange(last_separator(key) + 1, key.len() as int)
}

/// What splitting `key` gives: the base path and the file name, or
/// `MalformedKey`.
pub open spec fn split_key(key: Seq<char>) -> Result<(Seq<char>, Seq<char>), SearchError> {
    if is_header_key(key) {
        Ok((base_path_of(key), file_name_of(key)))
    } else {
        Err(SearchError::MalformedKey)
    }
}

/// The characters of the two parts of a split.
pub open spec fn split_view(r: Result<(&str, &str), SearchError>) -> Result<
    (Seq<char>, Seq<char>),
    SearchError,
> {
    match r {
        Ok((base_path, file_name)) => Ok((base_path@, file_name@)),
        Err(e) => Err(e),
    }
}

proof fn lemma_no_separator(key: Seq<char>)
    requires
        !key.contains('/'),
    ensures
        last_separator(key) == -1,
    decreases key.len(),
{
    if key.len() > 0 {
        assert(key.last() != '/') by {
            if key.last() == '/' {
                assert(key[key.len() - 1] == '/');
            }
        }
        assert(!key.drop_last().contains('/')) by {
            if key.drop_last().contains('/') {
                let k = choose|k: int| 0 <= k < key.len() - 1 && key.drop_last()[k] == '/';
                assert(key[k] == '/');
            }
        }
        lemma_no_separator(key.drop_last());
    }
}

/// Where `key` is a base path, a `/` and a file name free of `/`, the last
/// `/` is the one between them, and the two parts are the base path and the
/// file name.
pub proof fn lemma_separator_between(key: Seq<char>, base: Seq<char>, file: Seq<char>)
    requires
        key == base + seq!['/'] + file,
        !file.contains('/'),
    ensures
        last_separator(key) == base.len(),
        base_path_of(key) == base,
        file_name_of(key) == file,
    decreases file.len(),
{
    if file.len() == 0 {
        assert(key.last() == '/');
    } else {
        assert(key.last() == file.last());
        assert(file.last() != '/') by {
            if file.last() == '/' {
                assert(file[file.len() - 1] == '/');
            }
        }
        let shorter = file.drop_last();
        assert(!shorter.contains('/')) by {
            if shorter.contains('/') {
                let k = choose|k: int| 0 <= k < shorter.len() && shorter[k] == '/';
                assert(file[k] == '/');
            }
        }
        assert(key.drop_last() == base + seq!['/'] + shorter);
        lemma_separator_between(key.drop_last(), base, shorter);
    }
    assert(base_path_of(key) =~= base);
    assert(file_name_of(key) =~= file);
}

/// A key made of a non-empty base path, a `/` and a non-empty file name free
/// of `/` splits into exactly that base path and that file name.
pub proof fn lemma_split_well_formed(key: Seq<char>, base: Seq<char>, file: Seq<char>)
    requires
        key == base + seq!['/'] + file,
        !file.contains('/'),
        base.len() > 0,
        file.len() > 0,
    ensures
        is_header_key(key),
        split_key(key) == Ok::<(Seq<char>, Seq<char>), SearchError>((base, file)),
{
    lemma_separator_between(key, base, file);
}

/// Splitting is a function of the key's characters: two splits of keys with
/// the same characters give the same parts, or the same failure.
pub proof fn lemma_split_deterministic(
    first: Seq<char>,
    second: Seq<char>,
    r1: Result<(&str, &str), SearchError>,
    r2: Result<(&str, &str), SearchError>,
)
    requires
        split_view(r1) == split_key(first),
        split_view(r2) == split_key(second),
        first == second,
    ensures
        split_view(r1) == split_view(r2),
{
}

proof fn lemma_encode_separator()
    ensures
        encode_utf8(seq!['/']) == seq![0x2Fu8],
{
    assert(('/' as u32) == 0x2Fu32);
    assert((0x2Fu32 & 0x7Fu32) as u8 == 0x2Fu8) by (bit_vector);
    let one = seq!['/'];
    assert(one[0] == '/');
    assert(one.drop_first() =~= Seq::<char>::empty());
    assert(encode_utf8(one.drop_first()) =~= Seq::<u8>::empty());
    assert(encode_scalar(0x2Fu32) =~= seq![0x2Fu8]);
    assert(encode_utf8(one) == encode_scalar(one[0] as u32) + encode_utf8(one.drop_first()));
    assert(encode_utf8(one) =~= seq![0x2Fu8]);
}

/// A `/` among the characters gives the byte 0x2F in their encoding.
proof fn lemma_separator_encoded(chars: Seq<char>, i: int)
    requires
        0 <= i < chars.len(),
        chars[i] == '/',
    ensures
        encode_utf8(chars).contains(0x2Fu8),
    decreases chars.len(),
{
    let head = encode_scalar(chars[0] as u32);
    let tail = encode_utf8(chars.drop_first());
    assert(encode_utf8(chars) == head + tail);
    if i == 0 {
        lemma_encode_separator();
        assert(head == seq![0x2Fu8]);
        assert(encode_utf8(chars)[0] == 0x2Fu8);
    } else {
        lemma_separator_encoded(chars.drop_first(), i - 1);
        let k = choose|k: int| 0 <= k < tail.len() && tail[k] == 0x2Fu8;
        assert(encode_utf8(chars)[head.len() + k] == 0x2Fu8);
    }
}

/// Splits a database header key at its last `/` into the base path and the
/// database header file name, in that order.
///
/// Fails with `MalformedKey` where the key holds no `/`, where the base path
/// is empty, or where the file name is empty.
pub fn split_database_header_key<'a>(key: &'a str) -> (r: Result<(&'a str, &'a str), SearchError>)
    ensures
        split_view(r) == split_key(key@),
{
    let bytes = key.as_bytes();
    let mut i: usize = bytes.len();
    while i > 0 && bytes[i - 1] != 0x2Fu8
        invariant
            i <= bytes@.len(),
            bytes@ == key.spec_bytes(),
            forall|j: int| i <= j < bytes@.len() ==> bytes@[j] != 0x2Fu8,
        decreases i,
    {
        i = i - 1;
    }
    proof {
        encode_utf8_valid_utf8(key@);
    }
    if i == 0 {
        proof {
            if key@.contains('/') {
                let k = choose|k: int| 0 <= k < key@.len() && key@[k] == '/';
                lemma_separator_encoded(key@, k);
            }
            lemma_no_separator(key@);
        }
        return Err(SearchError::MalformedKey);
    }
    let pos: usize = i - 1;
    let ghost all = bytes@;
    proof {
        is_char_boundary_iff_not_is_continuation_byte(all, pos as int);
    }
    let (base_path, rest) = key.split_at(pos);
    let ghost rest_bytes = all.subrange(pos as int, all.len() as int);
    proof {
        valid_utf8_split(all, pos as int);
        assert(rest.spec_bytes() =~= rest_bytes);
        assert(rest_bytes[0] == 0x2Fu8);
        reveal_with_fuel(is_char_boundary, 2);
        assert(is_char_boundary(rest.spec_bytes(), 1));
    }
    let (separator, file_name) = rest.split_at(1);
    proof {
        let file_bytes = rest_bytes.subrange(1, rest_bytes.len() as int);
        encode_utf8_decode_utf8(key@);
        encode_utf8_decode_utf8(base_path@);
        encode_utf8_decode_utf8(rest@);
        encode_utf8_decode_utf8(separator@);
        encode_utf8_decode_utf8(file_name@);
        encode_utf8_decode_utf8(seq!['/']);
        decode_utf8_split(all, pos as int);
        decode_utf8_split(rest_bytes, 1);
        lemma_encode_separator();
        assert(separator.spec_bytes() =~= seq![0x2Fu8]);
        assert(separator@ == seq!['/']);
        assert(key@ == base_path@ + rest@);
        assert(rest@ == seq!['/'] + file_name@);
        assert(key@ =~= base_path@ + seq!['/'] + file_name@);
        if file_name@.contains('/') {
            let k = choose|k: int| 0 <= k < file_name@.len() && file_name@[k] == '/';
            lemma_separator_encoded(file_name@, k);
            let m = choose|m: int| 0 <= m < file_bytes.len() && file_name.spec_bytes()[m] == 0x2Fu8;
            assert(all[pos + 1 + m] == 0x2Fu8);
        }
        lemma_separator_between(key@, base_path@, file_name@);
    }
    if base_path.is_empty() || file_name.is_empty() {
        return Err(SearchError::MalformedKey);
    }
    Ok((base_path, file_name))
}

} // verus!
