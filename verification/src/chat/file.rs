//! Uploaded chat files: named by the SHA-1 of their content, stored under
//! `{workspace}/{3 chars}/{3 chars}/{rest}.{ext}` and served at
//! `/chat/files/{that path}`.
use sha1::{Digest, Sha1};
use vstd::prelude::*;
use vstd::string::StringSliceAdditionalSpecFns;
use vstd::utf8::{decode_utf8, encode_utf8, is_char_boundary, valid_utf8};

use crate::chars::{
    after_last, chars_of, extend_chars, extend_str, find_first, lacks, last_piece, lemma_split_join,
    lemma_split_lacking, split_chars, split_on, string_of,
};
use crate::chat::error::AppError;
use crate::numtext::{
    i64_chars, int_text, is_digit, lemma_int_text_chars, lemma_parse_int_text, parse_i64, parse_i64_spec,
};

verus! {

/// The SHA-1 digest of `data` (20 bytes).
pub uninterp spec fn sha1_of(data: Seq<u8>) -> Seq<u8>;

/// `Sha1::digest` from the `sha1` crate: the result is the SHA-1 digest of
/// `data`, 20 bytes long. Which bytes those are is only named, not stated.
#[verifier::external_body]
fn sha1_digest(data: &[u8]) -> (d: Vec<u8>)
    ensures
        d@ == sha1_of(data@),
        d@.len() == 20,
{
    Sha1::digest(data).to_vec()
}

/// The lower-case hexadecimal digit of `n` (for `0 <= n < 16`).
pub open spec fn hex_char(n: int) -> char {
    if n < 10 {
        (48 + n) as char
    } else {
        (87 + n) as char
    }
}

/// Lower-case hexadecimal text of bytes: two digits per byte, high half first.
pub open spec fn hex_lower(b: Seq<u8>) -> Seq<char>
    decreases b.len(),
{
    if b.len() == 0 {
        Seq::empty()
    } else {
        seq![hex_char((b[0] / 16) as int), hex_char((b[0] % 16) as int)] + hex_lower(b.drop_first())
    }
}

/// `hex::encode`: each byte becomes two lower-case hexadecimal digits, the
/// high half first (the crate's `HEX_CHARS_LOWER` table).
#[verifier::external_body]
fn hex_encode(data: &[u8]) -> (s: String)
    ensures
        s@ == hex_lower(data@),
{
    hex::encode(data)
}

/// A stored chat file.
#[derive(Clone, Debug)]
pub struct ChatFile {
    pub workspace_id: i64,
    pub ext: String,
    pub hash: String,
}

/// The hash can be cut after its third and sixth bytes, as `hash_to_path`
/// does (both cuts fall between characters).
pub open spec fn hash_splits(h: Seq<char>) -> bool {
    let b = encode_utf8(h);
    &&& is_char_boundary(b, 3)
    &&& is_char_boundary(b.subrange(3, b.len() as int), 3)
}

/// The characters of the bytes `from..to` of the hash.
pub open spec fn hash_piece(h: Seq<char>, from: int, to: int) -> Seq<char> {
    decode_utf8(encode_utf8(h).subrange(from, to))
}

/// `{workspace_id}/{bytes 0..3}/{bytes 3..6}/{rest}.{ext}`.
pub open spec fn hash_path_of(workspace_id: i64, h: Seq<char>, ext: Seq<char>) -> Seq<char> {
    let n = encode_utf8(h).len() as int;
    int_text(workspace_id as int) + seq!['/'] + hash_piece(h, 0, 3) + seq!['/'] + hash_piece(h, 3, 6)
        + seq!['/'] + hash_piece(h, 6, n) + seq!['.'] + ext
}

pub open spec fn url_prefix() -> Seq<char> {
    seq!['/', 'c', 'h', 'a', 't', '/', 'f', 'i', 'l', 'e', 's', '/']
}

/// `dir` joined with `rel`, as `Path::join` does on Unix: `rel` alone when
/// it starts with `/`; else a `/` between them unless `dir` is empty or
/// already ends with one.
pub open spec fn join_path(dir: Seq<char>, rel: Seq<char>) -> Seq<char> {
    if rel.len() > 0 && rel[0] == '/' {
        rel
    } else if dir.len() == 0 {
        rel
    } else if dir.last() == '/' {
        dir + rel
    } else {
        dir + seq!['/'] + rel
    }
}

/// `s` split at the first `c`: the text before it and the text after it.
pub open spec fn split_once_spec(s: Seq<char>, c: char) -> Option<(Seq<char>, Seq<char>)>
    decreases s.len(),
{
    if s.len() == 0 {
        None
    } else if s[0] == c {
        Some((Seq::empty(), s.drop_first()))
    } else {
        match split_once_spec(s.drop_first(), c) {
            Some((a, b)) => Some((seq![s[0]] + a, b)),
            None => None,
        }
    }
}

/// What a file URL denotes: `Ok((workspace_id, ext, hash))`, or `Err` with
/// the detail of the `InvalidFile` failure.
pub open spec fn parse_url_spec(s: Seq<char>) -> Result<(i64, Seq<char>, Seq<char>), Seq<char>> {
    let p = url_prefix();
    if !(s.len() >= p.len() && s.take(p.len() as int) == p) {
        Err("invalid file path: "@ + s)
    } else {
        let rest = s.skip(p.len() as int);
        let parts = split_on(rest, '/');
        if parts.len() != 4 {
            Err("invalid file path: "@ + rest)
        } else {
            match parse_i64_spec(parts[0]) {
                None => Err("invalid workspace_id: "@ + parts[0]),
                Some(ws) => match split_once_spec(parts[3], '.') {
                    None => Err("invalid filename or ext: "@ + parts[3]),
                    Some((part3, ext)) => Ok((ws, ext, parts[1] + parts[2] + part3)),
                },
            }
        }
    }
}

proof fn lemma_split_once_first(s: Seq<char>, c: char, i: int)
    requires
        0 <= i < s.len(),
        s[i] == c,
        lacks(s.take(i), c),
    ensures
        split_once_spec(s, c) == Some((s.take(i), s.skip(i + 1))),
    decreases i,
{
    if i == 0 {
        assert(s.take(0) =~= Seq::<char>::empty());
        assert(s.skip(1) =~= s.drop_first());
    } else {
        assert(s.take(i)[0] == s[0]);
        let t = s.drop_first();
        assert(t.take(i - 1) =~= s.take(i).drop_first());
        assert forall|j: int| 0 <= j < t.take(i - 1).len() implies #[trigger] t.take(i - 1)[j] != c by {
            assert(t.take(i - 1)[j] == s.take(i)[j + 1]);
        }
        lemma_split_once_first(t, c, i - 1);
        assert(seq![s[0]] + t.take(i - 1) =~= s.take(i));
        assert(t.skip(i) =~= s.skip(i + 1));
    }
}

proof fn lemma_split_once_none(s: Seq<char>, c: char)
    requires
        lacks(s, c),
    ensures
        split_once_spec(s, c) is None,
    decreases s.len(),
{
    if s.len() > 0 {
        assert(s[0] != c);
        lemma_split_once_none(s.drop_first(), c);
    }
}

/// `a` followed by `c` and `b`, split at the first `c`, where `a` lacks `c`.
proof fn lemma_split_once_join(a: Seq<char>, c: char, b: Seq<char>)
    requires
        lacks(a, c),
    ensures
        split_once_spec(a + seq![c] + b, c) == Some((a, b)),
{
    let s = a + seq![c] + b;
    assert(s.take(a.len() as int) =~= a);
    assert(s.skip(a.len() as int + 1) =~= b);
    lemma_split_once_first(s, c, a.len() as int);
}

/// `dir` joined with `rel` (see `join_path`).
pub fn join_chars(dir: &str, rel: &[char]) -> (v: Vec<char>)
    ensures
        v@ == join_path(dir@, rel@),
{
    if rel.len() > 0 && rel[0] == '/' {
        let mut v: Vec<char> = Vec::new();
        extend_chars(&mut v, rel);
        return v;
    }
    let d = chars_of(dir);
    let mut v = chars_of(dir);
    if d.len() > 0 && d[d.len() - 1] != '/' {
        v.push('/');
    }
    extend_chars(&mut v, rel);
    proof {
        if d@.len() > 0 && d@.last() != '/' {
            assert(v@ =~= d@ + seq!['/'] + rel@);
        }
    }
    v
}

/// A copy of `s[from..to]`.
fn slice_copy(s: &[char], from: usize, to: usize) -> (r: Vec<char>)
    requires
        from <= to <= s@.len(),
    ensures
        r@ == s@.subrange(from as int, to as int),
{
    let mut r: Vec<char> = Vec::new();
    let mut i: usize = from;
    while i < to
        invariant
            from <= i <= to,
            to <= s@.len(),
            r@ == s@.subrange(from as int, i as int),
        decreases to - i,
    {
        r.push(s[i]);
        i = i + 1;
        proof {
            assert(r@ =~= s@.subrange(from as int, i as int));
        }
    }
    r
}

fn invalid_file(prefix: &str, detail: &[char]) -> (e: AppError)
    ensures
        e matches AppError::InvalidFile(m) && m@ == prefix@ + detail@,
{
    let mut v = chars_of(prefix);
    extend_chars(&mut v, detail);
    AppError::InvalidFile(string_of(v.as_slice()))
}

proof fn lemma_boundary_len(b: Seq<u8>, i: int)
    requires
        valid_utf8(b),
        i > 0,
        is_char_boundary(b, i),
    ensures
        b.len() >= i,
{
}

proof fn lemma_hash_splits_len(h: Seq<char>)
    requires
        hash_splits(h),
    ensures
        encode_utf8(h).len() >= 6,
        valid_utf8(encode_utf8(h)),
        valid_utf8(encode_utf8(h).subrange(3, encode_utf8(h).len() as int)),
{
    broadcast use vstd::utf8::encode_utf8_valid_utf8, vstd::utf8::valid_utf8_split;

    let b = encode_utf8(h);
    lemma_boundary_len(b, 3);
    let r = b.subrange(3, b.len() as int);
    assert(valid_utf8(r));
    lemma_boundary_len(r, 3);
}


/// The hash is the three pieces `hash_to_path` cuts it into, joined.
proof fn lemma_hash_pieces(h: Seq<char>)
    requires
        hash_splits(h),
    ensures
        h == hash_piece(h, 0, 3) + hash_piece(h, 3, 6) + hash_piece(h, 6, encode_utf8(h).len() as int),
{
    broadcast use vstd::utf8::encode_utf8_valid_utf8, vstd::utf8::encode_utf8_decode_utf8;

    lemma_hash_splits_len(h);
    let b = encode_utf8(h);
    let n = b.len() as int;
    let r = b.subrange(3, n);
    vstd::utf8::decode_utf8_split(b, 3);
    vstd::utf8::decode_utf8_split(r, 3);
    assert(r.subrange(0, 3) =~= b.subrange(3, 6));
    assert(r.subrange(3, r.len() as int) =~= b.subrange(6, n));
    assert(decode_utf8(b) == h);
}

proof fn lemma_piece_lacks(h: Seq<char>, a: Seq<char>, b: Seq<char>, c: Seq<char>, ch: char)
    requires
        h == a + b + c,
        lacks(h, ch),
    ensures
        lacks(a, ch),
        lacks(b, ch),
        lacks(c, ch),
{
    assert forall|j: int| 0 <= j < a.len() implies #[trigger] a[j] != ch by {
        assert(h[j] == a[j]);
    }
    assert forall|j: int| 0 <= j < b.len() implies #[trigger] b[j] != ch by {
        assert(h[a.len() + j] == b[j]);
    }
    assert forall|j: int| 0 <= j < c.len() implies #[trigger] c[j] != ch by {
        assert(h[a.len() + b.len() + j] == c[j]);
    }
}

/// Reading back the URL of a file gives that file again, whenever its hash
/// holds neither `/` nor `.` and its extension holds no `/`.
pub proof fn lemma_url_roundtrip(workspace_id: i64, hash: Seq<char>, ext: Seq<char>)
    requires
        hash_splits(hash),
        lacks(hash, '/'),
        lacks(hash, '.'),
        lacks(ext, '/'),
    ensures
        parse_url_spec(url_prefix() + hash_path_of(workspace_id, hash, ext)) == Ok::<
            (i64, Seq<char>, Seq<char>),
            Seq<char>,
        >((workspace_id, ext, hash)),
{
    lemma_hash_splits_len(hash);
    lemma_hash_pieces(hash);
    let n = encode_utf8(hash).len() as int;
    let t = int_text(workspace_id as int);
    let p1 = hash_piece(hash, 0, 3);
    let p2 = hash_piece(hash, 3, 6);
    let p3 = hash_piece(hash, 6, n);
    lemma_piece_lacks(hash, p1, p2, p3, '/');
    lemma_piece_lacks(hash, p1, p2, p3, '.');
    lemma_int_text_chars(workspace_id as int);
    assert(lacks(t, '/')) by {
        assert forall|j: int| 0 <= j < t.len() implies #[trigger] t[j] != '/' by {
            assert(is_digit(t[j]) || t[j] == '-');
        }
    }
    let last = p3 + seq!['.'] + ext;
    assert(lacks(last, '/')) by {
        assert forall|j: int| 0 <= j < last.len() implies #[trigger] last[j] != '/' by {
            if j < p3.len() {
                assert(last[j] == p3[j]);
            } else if j > p3.len() {
                assert(last[j] == ext[j - p3.len() - 1]);
            }
        }
    }
    let z = p2 + seq!['/'] + last;
    let y = p1 + seq!['/'] + z;
    let path = hash_path_of(workspace_id, hash, ext);
    assert(path =~= t + seq!['/'] + y);
    let s = url_prefix() + path;
    assert(s.take(12) =~= url_prefix());
    assert(s.skip(12) =~= path);
    lemma_split_join(t, '/', y);
    lemma_split_join(p1, '/', z);
    lemma_split_join(p2, '/', last);
    lemma_split_lacking(last, '/');
    let parts = split_on(path, '/');
    assert(parts =~= seq![t, p1, p2, last]);
    lemma_parse_int_text(workspace_id);
    lemma_split_once_join(p3, '.', ext);
}

proof fn lemma_hex_char_ascii(n: int)
    requires
        0 <= n < 16,
    ensures
        ('0' <= hex_char(n) <= '9') || ('a' <= hex_char(n) <= 'f'),
{
    if n < 10 {
        assert(((48 + n) as char) as int == 48 + n);
    } else {
        assert(((87 + n) as char) as int == 87 + n);
    }
}

/// Hexadecimal text holds only digits and the letters `a` to `f`, and has
/// two characters per byte.
proof fn lemma_hex_lower_shape(b: Seq<u8>)
    ensures
        hex_lower(b).len() == 2 * b.len(),
        forall|j: int|
            0 <= j < hex_lower(b).len() ==> ('0' <= #[trigger] hex_lower(b)[j] <= '9') || ('a'
                <= hex_lower(b)[j] <= 'f'),
    decreases b.len(),
{
    if b.len() > 0 {
        lemma_hex_lower_shape(b.drop_first());
        lemma_hex_char_ascii((b[0] / 16) as int);
        lemma_hex_char_ascii((b[0] % 16) as int);
        let h = hex_lower(b);
        let r = hex_lower(b.drop_first());
        assert forall|j: int| 0 <= j < h.len() implies ('0' <= #[trigger] h[j] <= '9') || ('a' <= h[j]
            <= 'f') by {
            if j >= 2 {
                assert(h[j] == r[j - 2]);
            }
        }
    }
}

/// A hexadecimal hash of at least four bytes can be cut as `hash_to_path`
/// cuts it, and holds neither `/` nor `.`.
pub proof fn lemma_hex_hash_shape(d: Seq<u8>)
    requires
        d.len() >= 4,
    ensures
        hex_lower(d).len() == 2 * d.len(),
        hash_splits(hex_lower(d)),
        lacks(hex_lower(d), '/'),
        lacks(hex_lower(d), '.'),
{
    broadcast use vstd::utf8::encode_utf8_valid_utf8, vstd::utf8::valid_utf8_split;

    let h = hex_lower(d);
    lemma_hex_lower_shape(d);
    assert(vstd::utf8::is_ascii_chars(h));
    vstd::utf8::is_ascii_chars_encode_utf8(h);
    let b = encode_utf8(h);
    assert(b.len() >= 8);
    assert(h[3] as u8 == b[3]);
    assert(!vstd::utf8::is_continuation_byte(b[3]));
    vstd::utf8::is_char_boundary_iff_not_is_continuation_byte(b, 3);
    let r = b.subrange(3, b.len() as int);
    assert(valid_utf8(r));
    assert(r[3] == b[6]);
    assert(h[6] as u8 == b[6]);
    assert(!vstd::utf8::is_continuation_byte(r[3]));
    vstd::utf8::is_char_boundary_iff_not_is_continuation_byte(r, 3);
    assert forall|j: int| 0 <= j < h.len() implies #[trigger] h[j] != '/' && h[j] != '.' by {
        assert(('0' <= h[j] <= '9') || ('a' <= h[j] <= 'f'));
    }
}

/// A hash of at least six ASCII characters can be cut as `hash_to_path`
/// cuts it.
pub proof fn lemma_ascii_hash_splits(h: Seq<char>)
    requires
        vstd::utf8::is_ascii_chars(h),
        h.len() >= 6,
    ensures
        hash_splits(h),
{
    broadcast use vstd::utf8::encode_utf8_valid_utf8, vstd::utf8::valid_utf8_split;

    vstd::utf8::is_ascii_chars_encode_utf8(h);
    let b = encode_utf8(h);
    assert(h[3] as u8 == b[3]);
    assert('\0' <= h[3] <= '\u{7f}');
    assert(!vstd::utf8::is_continuation_byte(b[3]));
    vstd::utf8::is_char_boundary_iff_not_is_continuation_byte(b, 3);
    let r = b.subrange(3, b.len() as int);
    assert(valid_utf8(r));
    if r.len() == 3 {
        vstd::utf8::is_char_boundary_start_end_of_seq(r);
    } else {
        assert(r[3] == b[6]);
        assert(h[6] as u8 == b[6]);
        assert('\0' <= h[6] <= '\u{7f}');
        assert(!vstd::utf8::is_continuation_byte(r[3]));
        vstd::utf8::is_char_boundary_iff_not_is_continuation_byte(r, 3);
    }
}

/// Reading back the URL of a file gives that file again, whenever its hash
/// is ASCII text of at least six characters holding neither `/` nor `.`, and
/// its extension holds no `/`.
pub proof fn lemma_file_url_roundtrip(f: ChatFile)
    requires
        vstd::utf8::is_ascii_chars(f.hash@),
        f.hash@.len() >= 6,
        lacks(f.hash@, '/'),
        lacks(f.hash@, '.'),
        lacks(f.ext@, '/'),
    ensures
        hash_splits(f.hash@),
        parse_url_spec(url_prefix() + hash_path_of(f.workspace_id, f.hash@, f.ext@)) == Ok::<
            (i64, Seq<char>, Seq<char>),
            Seq<char>,
        >((f.workspace_id, f.ext@, f.hash@)),
{
    lemma_ascii_hash_splits(f.hash@);
    lemma_url_roundtrip(f.workspace_id, f.hash@, f.ext@);
}

/// The URL of an uploaded file reads back as that file, whenever the
/// extension it was given holds no `/`.
pub proof fn lemma_uploaded_url_roundtrip(workspace_id: i64, data: Seq<u8>, ext: Seq<char>)
    requires
        sha1_of(data).len() == 20,
        lacks(ext, '/'),
    ensures
        hash_splits(hex_lower(sha1_of(data))),
        parse_url_spec(url_prefix() + hash_path_of(workspace_id, hex_lower(sha1_of(data)), ext))
            == Ok::<(i64, Seq<char>, Seq<char>), Seq<char>>(
            (workspace_id, ext, hex_lower(sha1_of(data))),
        ),
{
    lemma_hex_hash_shape(sha1_of(data));
    lemma_url_roundtrip(workspace_id, hex_lower(sha1_of(data)), ext);
}

impl ChatFile {
    /// The file of content `data` uploaded as `filename` into a workspace: its
    /// extension is what follows the last `.` of the name (all of the name
    /// when it has none), its hash the hexadecimal SHA-1 of the content.
    pub fn try_new(workspace_id: i64, filename: &str, data: &[u8]) -> (r: Result<Self, AppError>)
        ensures
            r matches Ok(f) && f.workspace_id == workspace_id && f.ext@ == after_last(filename@, '.')
                && f.hash@ == hex_lower(sha1_of(data@)),
            sha1_of(data@).len() == 20,
            r matches Ok(f) ==> f.hash@.len() == 40 && hash_splits(f.hash@) && lacks(f.hash@, '/')
                && lacks(f.hash@, '.'),
    {
        let name = chars_of(filename);
        let ext = last_piece(name.as_slice(), '.');
        let digest = sha1_digest(data);
        proof {
            lemma_hex_hash_shape(digest@);
        }
        Ok(ChatFile {
            workspace_id,
            ext: string_of(ext.as_slice()),
            hash: hex_encode(digest.as_slice()),
        })
    }

    /// The relative storage path: `{workspace_id}/{bytes 0..3 of the
    /// hash}/{bytes 3..6}/{the rest}.{ext}`.
    pub fn hash_to_path(&self) -> (p: String)
        requires
            hash_splits(self.hash@),
        ensures
            p@ == hash_path_of(self.workspace_id, self.hash@, self.ext@),
    {
        let ghost b = encode_utf8(self.hash@);
        proof {
            lemma_hash_splits_len(self.hash@);
        }
        let h: &str = self.hash.as_str();
        let (part1, rest) = h.split_at(3);
        proof {
            assert(rest.spec_bytes() =~= b.subrange(3, b.len() as int));
        }
        let (part2, part3) = rest.split_at(3);
        proof {
            broadcast use vstd::utf8::encode_utf8_decode_utf8;

            assert(part1@ == decode_utf8(encode_utf8(part1@)));
            assert(part2.spec_bytes() =~= b.subrange(3, 6));
            assert(part3.spec_bytes() =~= b.subrange(6, b.len() as int));
            assert(part2@ == decode_utf8(encode_utf8(part2@)));
            assert(part3@ == decode_utf8(encode_utf8(part3@)));
        }
        let mut v = i64_chars(self.workspace_id);
        extend_str(&mut v, "/");
        extend_str(&mut v, part1);
        extend_str(&mut v, "/");
        extend_str(&mut v, part2);
        extend_str(&mut v, "/");
        extend_str(&mut v, part3);
        extend_str(&mut v, ".");
        extend_str(&mut v, self.ext.as_str());
        proof {
            reveal_strlit("/");
            reveal_strlit(".");
            assert(v@ =~= hash_path_of(self.workspace_id, self.hash@, self.ext@));
        }
        string_of(v.as_slice())
    }

    /// The storage path of this file under the directory `file_dir`.
    pub fn path(&self, file_dir: &str) -> (p: String)
        requires
            hash_splits(self.hash@),
        ensures
            p@ == join_path(file_dir@, hash_path_of(self.workspace_id, self.hash@, self.ext@)),
    {
        let rel = self.hash_to_path();
        let r = chars_of(rel.as_str());
        let v = join_chars(file_dir, r.as_slice());
        string_of(v.as_slice())
    }

    /// The URL the file is served at: `/chat/files/` then its storage path.
    pub fn url(&self) -> (u: String)
        requires
            hash_splits(self.hash@),
        ensures
            u@ == url_prefix() + hash_path_of(self.workspace_id, self.hash@, self.ext@),
    {
        let rel = self.hash_to_path();
        let mut v = chars_of("/chat/files/");
        let r = chars_of(rel.as_str());
        extend_chars(&mut v, r.as_slice());
        proof {
            reveal_strlit("/chat/files/");
        }
        string_of(v.as_slice())
    }

    /// Reads a file URL of the form `/chat/files/{workspace_id}/{a}/{b}/{c}.{ext}`
    /// back into the file it names (hash `a`, `b`, `c` joined; `ext` what
    /// follows the first `.` of the last piece).
    pub fn from_str(s: &str) -> (r: Result<Self, AppError>)
        ensures
            match (r, parse_url_spec(s@)) {
                (Ok(f), Ok((ws, ext, hash))) => f.workspace_id == ws && f.ext@ == ext && f.hash@
                    == hash,
                (Err(AppError::InvalidFile(m)), Err(msg)) => m@ == msg,
                _ => false,
            },
    {
        let v = chars_of(s);
        let prefix = chars_of("/chat/files/");
        proof {
            reveal_strlit("/chat/files/");
            assert(prefix@ =~= url_prefix());
        }
        let plen = prefix.len();
        if v.len() < plen {
            return Err(invalid_file("invalid file path: ", v.as_slice()));
        }
        let mut i: usize = 0;
        while i < plen
            invariant
                plen == prefix@.len(),
                prefix@ == url_prefix(),
                v@ == s@,
                i <= plen,
                v@.len() >= plen,
                forall|j: int| 0 <= j < i ==> v@[j] == prefix@[j],
            decreases plen - i,
        {
            if v[i] != prefix[i] {
                proof {
                    assert(v@.take(plen as int)[i as int] == v@[i as int]);
                    reveal_strlit("invalid file path: ");
                }
                return Err(invalid_file("invalid file path: ", v.as_slice()));
            }
            i = i + 1;
        }
        proof {
            assert(v@.take(plen as int) =~= prefix@);
            reveal_strlit("invalid file path: ");
        }
        let rest = slice_copy(v.as_slice(), plen, v.len());
        proof {
            assert(rest@ =~= v@.skip(plen as int));
        }
        let parts = split_chars(rest.as_slice(), '/');
        if parts.len() != 4 {
            return Err(invalid_file("invalid file path: ", rest.as_slice()));
        }
        let ws = match parse_i64(parts[0].as_slice()) {
            Some(w) => w,
            None => {
                proof {
                    reveal_strlit("invalid workspace_id: ");
                }
                return Err(invalid_file("invalid workspace_id: ", parts[0].as_slice()));
            },
        };
        let last: &Vec<char> = &parts[3];
        match find_first(last.as_slice(), '.') {
            None => {
                proof {
                    lemma_split_once_none(last@, '.');
                    reveal_strlit("invalid filename or ext: ");
                }
                Err(invalid_file("invalid filename or ext: ", last.as_slice()))
            },
            Some(k) => {
                proof {
                    assert(k < last@.len());
                    lemma_split_once_first(last@, '.', k as int);
                }
                let part3 = slice_copy(last.as_slice(), 0, k);
                let n = last.len();
                let ext = slice_copy(last.as_slice(), k + 1, n);
                let mut hash: Vec<char> = Vec::new();
                extend_chars(&mut hash, parts[1].as_slice());
                extend_chars(&mut hash, parts[2].as_slice());
                extend_chars(&mut hash, part3.as_slice());
                proof {
                    assert(part3@ =~= last@.take(k as int));
                    assert(ext@ =~= last@.skip(k + 1));
                }
                Ok(ChatFile {
                    workspace_id: ws,
                    ext: string_of(ext.as_slice()),
                    hash: string_of(hash.as_slice()),
                })
            },
        }
    }
}

} // verus!
