//! Reader for Godot PCK archives: finds the English and Chinese localization tables
//! (`localization/{eng,zhs}/*.json`) of a game archive and checks them.
//!
//! The archive is taken as the bytes of the file; reading and writing files is left to
//! the caller.  Layout (all integers little endian):
//!
//! * header: magic `GDPC` (u32), format version (u32, 2 or 3), engine version
//!   (3 × u32), flags (u32, bit 0 = encrypted), base offset of the file data (u64);
//!   version 3 then gives the offset of the directory (u64), version 2 skips 64 bytes
//!   so that the directory starts at byte 96;
//! * directory: entry count (u32), then per entry the path length (u32), the path,
//!   the data offset relative to the base (u64), the size (u64), the MD5 digest
//!   (16 bytes) and the entry flags (u32).
use md5::Digest;
use vstd::prelude::*;

verus! {

/// `GDPC` read as a little-endian u32.
pub const GODOT_PCK_MAGIC: u32 = 0x43504447;

// ---------------------------------------------------------------------------
// Outside computations
// ---------------------------------------------------------------------------

/// The MD5 digest of `data` as computed by the `md-5` crate.
pub uninterp spec fn md5_digest(data: Seq<u8>) -> Seq<u8>;

/// Whether `serde_json` accepts `data` as one JSON value.
pub uninterp spec fn json_accepts(data: Seq<u8>) -> bool;

/// The text that `String::from_utf8_lossy` makes of `bytes`.
pub uninterp spec fn utf8_lossy(bytes: Seq<u8>) -> Seq<char>;

/// Trusted: `md5::Md5::digest` (the `md-5` crate, through its `Digest` trait) hashes
/// `data`; the result is named `md5_digest(data@)`.
#[verifier::external_body]
fn md5_of(data: &[u8]) -> (r: [u8; 16])
    ensures
        r@ == md5_digest(data@),
{
    md5::Md5::digest(data).into()
}

/// Trusted: `serde_json::from_slice::<serde_json::Value>` is called on `data`; the
/// result tells whether it returned `Ok`, named `json_accepts(data@)`.  The parsed
/// value itself is dropped.
#[verifier::external_body]
fn json_parses(data: &[u8]) -> (r: bool)
    ensures
        r == json_accepts(data@),
{
    serde_json::from_slice::<serde_json::Value>(data).is_ok()
}

/// Trusted: std's `String::from_utf8_lossy` decodes `bytes`, replacing malformed
/// sequences with U+FFFD; the result is named `utf8_lossy(bytes@)`, and for valid UTF-8
/// it is the decoded text, as its documentation says.
#[verifier::external_body]
fn decode_lossy(bytes: &[u8]) -> (r: String)
    ensures
        r@ == utf8_lossy(bytes@),
        vstd::utf8::valid_utf8(bytes@) ==> r@ == vstd::utf8::decode_utf8(bytes@),
{
    String::from_utf8_lossy(bytes).into_owned()
}

// ---------------------------------------------------------------------------
// Model of the format
// ---------------------------------------------------------------------------

/// `n` bytes from position `p` lie inside `b`.
pub open spec fn fits(b: Seq<u8>, p: int, n: int) -> bool {
    0 <= p && 0 <= n && p + n <= b.len()
}

/// The little-endian u32 at position `p`.
pub open spec fn u32_at(b: Seq<u8>, p: int) -> u32 {
    (b[p] as int + b[p + 1] as int * 0x100 + b[p + 2] as int * 0x1_0000 + b[p + 3] as int
        * 0x100_0000) as u32
}

/// The little-endian u64 at position `p`.
pub open spec fn u64_at(b: Seq<u8>, p: int) -> u64 {
    (u32_at(b, p) as int + u32_at(b, p + 4) as int * 0x1_0000_0000) as u64
}

/// `a + b` modulo 2^64.
pub open spec fn wrapping_sum(a: u64, b: u64) -> u64 {
    ((a as int + b as int) % 0x1_0000_0000_0000_0000) as u64
}

/// Why an archive was refused.
#[derive(Debug)]
pub enum PckError {
    /// A read went past the end of the archive.
    Truncated,
    /// The archive does not start with `GDPC`; holds the value found.
    BadMagic(u32),
    /// The format version is neither 2 nor 3.
    UnsupportedVersion(u32),
    /// The archive is encrypted.
    Encrypted,
    /// A localization table has non-zero entry flags.
    UnsupportedEntryFlags { flags: u32, name: String },
    /// No localization table was found.
    NoLocalizationTables,
    /// The MD5 digest of a table differs from the one recorded in the directory.
    ChecksumMismatch { path_parts: Vec<String> },
    /// A table is not valid JSON.
    InvalidJson { path_parts: Vec<String> },
}

/// Model of a [`PckError`].
pub enum PckErrorModel {
    Truncated,
    BadMagic(u32),
    UnsupportedVersion(u32),
    Encrypted,
    UnsupportedEntryFlags { flags: u32, name: Seq<char> },
    NoLocalizationTables,
    ChecksumMismatch { path_parts: Seq<Seq<char>> },
    InvalidJson { path_parts: Seq<Seq<char>> },
}

impl DeepView for PckError {
    type V = PckErrorModel;

    open spec fn deep_view(&self) -> PckErrorModel {
        match self {
            PckError::Truncated => PckErrorModel::Truncated,
            PckError::BadMagic(m) => PckErrorModel::BadMagic(*m),
            PckError::UnsupportedVersion(v) => PckErrorModel::UnsupportedVersion(*v),
            PckError::Encrypted => PckErrorModel::Encrypted,
            PckError::UnsupportedEntryFlags { flags, name } => PckErrorModel::UnsupportedEntryFlags {
                flags: *flags,
                name: name@,
            },
            PckError::NoLocalizationTables => PckErrorModel::NoLocalizationTables,
            PckError::ChecksumMismatch { path_parts } => PckErrorModel::ChecksumMismatch {
                path_parts: path_parts.deep_view(),
            },
            PckError::InvalidJson { path_parts } => PckErrorModel::InvalidJson {
                path_parts: path_parts.deep_view(),
            },
        }
    }
}

/// The header: `Ok((base offset, directory position))`.
pub open spec fn parse_header(b: Seq<u8>) -> Result<(u64, int), PckErrorModel> {
    if !fits(b, 0, 4) {
        Err(PckErrorModel::Truncated)
    } else if u32_at(b, 0) != GODOT_PCK_MAGIC {
        Err(PckErrorModel::BadMagic(u32_at(b, 0)))
    } else if !fits(b, 4, 4) {
        Err(PckErrorModel::Truncated)
    } else if u32_at(b, 4) != 2 && u32_at(b, 4) != 3 {
        Err(PckErrorModel::UnsupportedVersion(u32_at(b, 4)))
    } else if !fits(b, 8, 16) {
        Err(PckErrorModel::Truncated)
    } else if u32_at(b, 20) % 2 == 1 {
        Err(PckErrorModel::Encrypted)
    } else if !fits(b, 24, 8) {
        Err(PckErrorModel::Truncated)
    } else if u32_at(b, 4) == 3 {
        if !fits(b, 32, 8) {
            Err(PckErrorModel::Truncated)
        } else {
            Ok((u64_at(b, 24), u64_at(b, 32) as int))
        }
    } else {
        Ok((u64_at(b, 24), 96))
    }
}

/// A directory entry as stored, and the position just after it.
pub struct RawEntry {
    pub name: Seq<u8>,
    pub offset: u64,
    pub size: u64,
    pub digest: Seq<u8>,
    pub flags: u32,
    pub next: int,
}

/// The directory entry at position `p`, or `None` when it runs past the end.
pub open spec fn entry_at(b: Seq<u8>, p: int) -> Option<RawEntry> {
    if !fits(b, p, 4) {
        None
    } else {
        let q = p + 4 + u32_at(b, p) as int;
        if !fits(b, p + 4, u32_at(b, p) as int) || !fits(b, q, 36) {
            None
        } else {
            Some(
                RawEntry {
                    name: b.subrange(p + 4, q),
                    offset: u64_at(b, q),
                    size: u64_at(b, q + 8),
                    digest: b.subrange(q + 16, q + 32),
                    flags: u32_at(b, q + 32),
                    next: q + 36,
                },
            )
        }
    }
}

/// `s` without its trailing NUL characters.
pub open spec fn trim_nuls(s: Seq<char>) -> Seq<char>
    decreases s.len(),
{
    if s.len() > 0 && s.last() == '\0' {
        trim_nuls(s.drop_last())
    } else {
        s
    }
}

/// `s` without a leading `res://`.
pub open spec fn strip_res(s: Seq<char>) -> Seq<char> {
    if s.len() >= 6 && s.subrange(0, 6) == "res://"@ {
        s.subrange(6, s.len() as int)
    } else {
        s
    }
}

/// The pieces of `s` between slashes (`str::split('/')`): always at least one piece.
pub open spec fn split_slash(s: Seq<char>) -> Seq<Seq<char>>
    decreases s.len(),
{
    if s.len() == 0 {
        seq![Seq::empty()]
    } else {
        let init = split_slash(s.drop_last());
        if s.last() == '/' {
            init.push(Seq::empty())
        } else {
            init.update(init.len() - 1, init.last().push(s.last()))
        }
    }
}

/// The pieces `ps` put back together with a slash between each two.
pub open spec fn join_slash(ps: Seq<Seq<char>>) -> Seq<char>
    decreases ps.len(),
{
    if ps.len() == 0 {
        Seq::empty()
    } else if ps.len() == 1 {
        ps[0]
    } else {
        join_slash(ps.drop_last()) + seq!['/'] + ps.last()
    }
}

/// Splitting at slashes loses nothing and cuts at every slash: there is at least one
/// piece, no piece holds a slash, and the pieces joined with slashes give `s` back.
pub proof fn split_slash_cuts_at_every_slash(s: Seq<char>)
    ensures
        split_slash(s).len() >= 1,
        forall|k: int, j: int|
            0 <= k < split_slash(s).len() && 0 <= j < split_slash(s)[k].len() ==> #[trigger] split_slash(s)[k][j]
                != '/',
        join_slash(split_slash(s)) == s,
    decreases s.len(),
{
    if s.len() > 0 {
        let init = split_slash(s.drop_last());
        split_slash_cuts_at_every_slash(s.drop_last());
        let c = s.last();
        assert(s.drop_last().push(c) =~= s);
        if c == '/' {
            let ps = init.push(Seq::empty());
            assert(ps.drop_last() =~= init);
            assert(join_slash(ps) =~= s);
            assert forall|k: int, j: int| 0 <= k < ps.len() && 0 <= j < ps[k].len() implies #[trigger] ps[k][j]
                != '/' by {
                assert(k < init.len());
            }
        } else {
            let ps = init.update(init.len() - 1, init.last().push(c));
            if init.len() == 1 {
                assert(join_slash(ps) =~= s);
            } else {
                assert(ps.drop_last() =~= init.drop_last());
                assert(join_slash(ps) =~= join_slash(init.drop_last()) + seq!['/'] + init.last() + seq![c]);
                assert(join_slash(ps) =~= s);
            }
            assert forall|k: int, j: int| 0 <= k < ps.len() && 0 <= j < ps[k].len() implies #[trigger] ps[k][j]
                != '/' by {
                if k == init.len() - 1 && j < init.last().len() {
                    assert(ps[k][j] == init[k][j]);
                }
            }
        }
    }
}

/// Trimming NULs removes exactly the NULs at the end: what is left is the start of `s`,
/// it does not end in a NUL, and every character after it is a NUL.
pub proof fn trim_nuls_removes_trailing_nuls(s: Seq<char>)
    ensures
        trim_nuls(s).len() <= s.len(),
        trim_nuls(s) == s.take(trim_nuls(s).len() as int),
        trim_nuls(s).len() == 0 || trim_nuls(s).last() != '\0',
        forall|i: int| trim_nuls(s).len() <= i < s.len() ==> #[trigger] s[i] == '\0',
    decreases s.len(),
{
    if s.len() > 0 && s.last() == '\0' {
        trim_nuls_removes_trailing_nuls(s.drop_last());
        let r = trim_nuls(s.drop_last());
        assert(s.take(r.len() as int) =~= s.drop_last().take(r.len() as int));
        assert forall|i: int| r.len() <= i < s.len() implies #[trigger] s[i] == '\0' by {
            if i < s.len() - 1 {
                assert(s[i] == s.drop_last()[i]);
            }
        }
    } else {
        assert(s.take(s.len() as int) =~= s);
    }
}

/// `s` ends with `t`.
pub open spec fn ends_with(s: Seq<char>, t: Seq<char>) -> bool {
    s.len() >= t.len() && s.subrange(s.len() - t.len(), s.len() as int) == t
}

/// The entry path of a stored name: the lossily decoded name without trailing NULs.
pub open spec fn entry_name(raw: Seq<u8>) -> Seq<char> {
    trim_nuls(utf8_lossy(raw))
}

/// The path pieces of an entry name.
pub open spec fn path_parts(name: Seq<char>) -> Seq<Seq<char>> {
    split_slash(strip_res(name))
}

/// `localization/{eng,zhs}/<file>.json`.
pub open spec fn is_localization_table(parts: Seq<Seq<char>>) -> bool {
    &&& parts.len() == 3
    &&& parts[0] == "localization"@
    &&& (parts[1] == "eng"@ || parts[1] == "zhs"@)
    &&& ends_with(parts[2], ".json"@)
}

/// Model of a [`PckEntry`].
pub struct PckEntryModel {
    pub path_parts: Seq<Seq<char>>,
    pub offset: u64,
    pub size: u64,
    pub digest: Seq<u8>,
}

/// The directory entry built from a stored entry whose name has the pieces `parts`.
pub open spec fn table_entry(parts: Seq<Seq<char>>, e: RawEntry, base: u64) -> PckEntryModel {
    PckEntryModel { path_parts: parts, offset: wrapping_sum(base, e.offset), size: e.size, digest: e.digest }
}

/// `done` followed by the outcome `r` of the rest; an error of the rest wins.
pub open spec fn after<T, E>(done: Seq<T>, r: Result<Seq<T>, E>) -> Result<Seq<T>, E> {
    match r {
        Ok(rest) => Ok(done + rest),
        Err(e) => Err(e),
    }
}

/// What one stored directory entry contributes: the table entry it makes (none when
/// it is not a localization table), or the error it raises.
#[verifier::opaque]
pub open spec fn entry_outcome(e: RawEntry, base: u64) -> Result<Seq<PckEntryModel>, PckErrorModel> {
    let name = entry_name(e.name);
    let parts = path_parts(name);
    if !is_localization_table(parts) {
        Ok(Seq::empty())
    } else if e.flags != 0 {
        Err(PckErrorModel::UnsupportedEntryFlags { flags: e.flags, name })
    } else {
        Ok(seq![table_entry(parts, e, base)])
    }
}

/// The `remaining` directory entries from position `p`: the localization tables among
/// them, with their absolute data offsets, or the first error met.
pub open spec fn scan_entries(b: Seq<u8>, p: int, remaining: nat, base: u64) -> Result<
    Seq<PckEntryModel>,
    PckErrorModel,
>
    decreases remaining,
{
    if remaining == 0 {
        Ok(Seq::empty())
    } else {
        match entry_at(b, p) {
            None => Err(PckErrorModel::Truncated),
            Some(e) => match entry_outcome(e, base) {
                Err(err) => Err(err),
                Ok(mine) => after(mine, scan_entries(b, e.next, (remaining - 1) as nat, base)),
            },
        }
    }
}

/// The localization tables listed in the archive's directory, or the first error met.
pub open spec fn read_directory(b: Seq<u8>) -> Result<Seq<PckEntryModel>, PckErrorModel> {
    match parse_header(b) {
        Err(e) => Err(e),
        Ok((base, dir)) => if !fits(b, dir, 4) {
            Err(PckErrorModel::Truncated)
        } else {
            match scan_entries(b, dir + 4, u32_at(b, dir) as nat, base) {
                Err(e) => Err(e),
                Ok(es) => if es.len() == 0 {
                    Err(PckErrorModel::NoLocalizationTables)
                } else {
                    Ok(es)
                },
            }
        },
    }
}

/// A localization table to be written to `<root>/<dir_name>/<file_name>`.
#[derive(Debug)]
pub struct LocalizationTable {
    pub dir_name: String,
    pub file_name: String,
    pub data: Vec<u8>,
}

/// Model of a [`LocalizationTable`].
pub struct LocalizationTableModel {
    pub dir_name: Seq<char>,
    pub file_name: Seq<char>,
    pub data: Seq<u8>,
}

impl DeepView for LocalizationTable {
    type V = LocalizationTableModel;

    open spec fn deep_view(&self) -> LocalizationTableModel {
        LocalizationTableModel { dir_name: self.dir_name@, file_name: self.file_name@, data: self.data@ }
    }
}

/// The verdict on the data of a table, given its MD5 digest and whether it parses as JSON.
pub open spec fn judge_table(e: PckEntryModel, data: Seq<u8>, digest: Seq<u8>, json_ok: bool) -> Result<
    LocalizationTableModel,
    PckErrorModel,
> {
    if digest != e.digest {
        Err(PckErrorModel::ChecksumMismatch { path_parts: e.path_parts })
    } else if !json_ok {
        Err(PckErrorModel::InvalidJson { path_parts: e.path_parts })
    } else {
        Ok(
            LocalizationTableModel {
                dir_name: "localization_"@ + e.path_parts[1],
                file_name: e.path_parts[2],
                data,
            },
        )
    }
}

/// Reads and checks the data of one table.
pub open spec fn load_table(b: Seq<u8>, e: PckEntryModel) -> Result<LocalizationTableModel, PckErrorModel> {
    if !fits(b, e.offset as int, e.size as int) {
        Err(PckErrorModel::Truncated)
    } else {
        let data = b.subrange(e.offset as int, e.offset + e.size);
        judge_table(e, data, md5_digest(data), json_accepts(data))
    }
}

/// Reads and checks the tables in order; the first error wins.
pub open spec fn load_tables(b: Seq<u8>, es: Seq<PckEntryModel>) -> Result<
    Seq<LocalizationTableModel>,
    PckErrorModel,
>
    decreases es.len(),
{
    if es.len() == 0 {
        Ok(Seq::empty())
    } else {
        match load_table(b, es[0]) {
            Err(e) => Err(e),
            Ok(t) => match load_tables(b, es.drop_first()) {
                Err(e) => Err(e),
                Ok(ts) => Ok(seq![t] + ts),
            },
        }
    }
}

/// The localization tables of an archive, or the first error met.
pub open spec fn extract_tables(b: Seq<u8>) -> Result<Seq<LocalizationTableModel>, PckErrorModel> {
    match read_directory(b) {
        Err(e) => Err(e),
        Ok(es) => load_tables(b, es),
    }
}


// ---------------------------------------------------------------------------
// Reading integers
// ---------------------------------------------------------------------------

fn read_u32(b: &[u8], p: usize) -> (r: Option<u32>)
    ensures
        r == (if fits(b@, p as int, 4) { Some(u32_at(b@, p as int)) } else { None::<u32> }),
{
    if p > b.len() || b.len() - p < 4 {
        None
    } else {
        Some(
            b[p] as u32 + (b[p + 1] as u32) * 0x100 + (b[p + 2] as u32) * 0x1_0000 + (b[p + 3] as u32)
                * 0x100_0000,
        )
    }
}

fn read_u64(b: &[u8], p: usize) -> (r: Option<u64>)
    ensures
        r == (if fits(b@, p as int, 8) { Some(u64_at(b@, p as int)) } else { None::<u64> }),
{
    if p > b.len() || b.len() - p < 8 {
        None
    } else {
        let lo = read_u32(b, p).unwrap();
        let hi = read_u32(b, p + 4).unwrap();
        Some(lo as u64 + (hi as u64) * 0x1_0000_0000)
    }
}

fn add_wrapping(a: u64, b: u64) -> (r: u64)
    ensures
        r == wrapping_sum(a, b),
{
    if b <= u64::MAX - a {
        a + b
    } else {
        b - (u64::MAX - a) - 1
    }
}

// ---------------------------------------------------------------------------
// Header
// ---------------------------------------------------------------------------

/// The archive header: `Ok((base offset, directory position))` as in [`parse_header`].
pub fn read_header(b: &[u8]) -> (r: Result<(u64, u64), PckError>)
    ensures
        match r {
            Ok((base, dir)) => parse_header(b@) == Ok::<(u64, int), PckErrorModel>((base, dir as int)),
            Err(e) => parse_header(b@) == Err::<(u64, int), PckErrorModel>(e.deep_view()),
        },
{
    let magic = match read_u32(b, 0) {
        Some(m) => m,
        None => return Err(PckError::Truncated),
    };
    if magic != GODOT_PCK_MAGIC {
        return Err(PckError::BadMagic(magic));
    }
    let version = match read_u32(b, 4) {
        Some(v) => v,
        None => return Err(PckError::Truncated),
    };
    if version != 2 && version != 3 {
        return Err(PckError::UnsupportedVersion(version));
    }
    // engine major, minor and patch version, then the archive flags
    let flags = match read_u32(b, 20) {
        Some(f) => f,
        None => return Err(PckError::Truncated),
    };
    if flags % 2 == 1 {
        return Err(PckError::Encrypted);
    }
    let base = match read_u64(b, 24) {
        Some(v) => v,
        None => return Err(PckError::Truncated),
    };
    if version == 3 {
        match read_u64(b, 32) {
            Some(dir) => Ok((base, dir)),
            None => Err(PckError::Truncated),
        }
    } else {
        Ok((base, 96))
    }
}

// ---------------------------------------------------------------------------
// Entry names
// ---------------------------------------------------------------------------

fn chars_of(s: &str) -> (r: Vec<char>)
    ensures
        r@ == s@,
{
    let mut out: Vec<char> = Vec::new();
    for c in it: s.chars()
        invariant
            out@ == it.seq().take(it.index() as int),
    {
        out.push(c);
    }
    out
}

/// Whether `chars[from..to]` spells `lit`.
fn chars_match(chars: &Vec<char>, from: usize, to: usize, lit: &str) -> (r: bool)
    requires
        from <= to <= chars@.len(),
    ensures
        r == (chars@.subrange(from as int, to as int) == lit@),
{
    let n = lit.unicode_len();
    if to - from != n {
        return false;
    }
    let mut i: usize = 0;
    while i < n
        invariant
            n == lit@.len(),
            to - from == n,
            from <= to <= chars@.len(),
            i <= n,
            forall|j: int| 0 <= j < i ==> chars@[from + j] == lit@[j],
        decreases n - i,
    {
        if chars[from + i] != lit.get_char(i) {
            assert(chars@.subrange(from as int, to as int)[i as int] != lit@[i as int]);
            return false;
        }
        i += 1;
    }
    assert(chars@.subrange(from as int, to as int) =~= lit@);
    true
}

/// Whether `chars[from..to]` ends with `lit`.
fn chars_end_with(chars: &Vec<char>, from: usize, to: usize, lit: &str) -> (r: bool)
    requires
        from <= to <= chars@.len(),
    ensures
        r == ends_with(chars@.subrange(from as int, to as int), lit@),
{
    let n = lit.unicode_len();
    if to - from < n {
        return false;
    }
    let r = chars_match(chars, to - n, to, lit);
    assert(chars@.subrange(from as int, to as int).subrange((to - from - n) as int, (to - from) as int)
        =~= chars@.subrange((to - n) as int, to as int));
    r
}

proof fn lemma_trim_step(s: Seq<char>, end: int)
    requires
        0 < end <= s.len(),
        s[end - 1] == '\0',
    ensures
        trim_nuls(s.take(end)) == trim_nuls(s.take(end - 1)),
{
    assert(s.take(end).drop_last() =~= s.take(end - 1));
}

proof fn lemma_split_step(t: Seq<char>, c: char)
    ensures
        split_slash(t.push(c)) == (if c == '/' {
            split_slash(t).push(Seq::empty())
        } else {
            split_slash(t).update(split_slash(t).len() - 1, split_slash(t).last().push(c))
        }),
{
    assert(t.push(c).drop_last() =~= t);
}

/// The pieces of `chars` cut out by `ranges`.
pub open spec fn pieces(chars: Seq<char>, ranges: Seq<(usize, usize)>) -> Seq<Seq<char>> {
    Seq::new(ranges.len(), |j: int| chars.subrange(ranges[j].0 as int, ranges[j].1 as int))
}

/// Number of characters left once trailing NULs are dropped.
fn trimmed_len(chars: &Vec<char>) -> (end: usize)
    ensures
        end <= chars@.len(),
        trim_nuls(chars@) == chars@.take(end as int),
{
    let ghost full = chars@;
    let mut end = chars.len();
    assert(full.take(full.len() as int) =~= full);
    while end > 0 && chars[end - 1] == '\0'
        invariant
            chars@ == full,
            end <= full.len(),
            trim_nuls(full) == trim_nuls(full.take(end as int)),
        decreases end,
    {
        proof {
            lemma_trim_step(full, end as int);
        }
        end -= 1;
    }
    end
}

/// The pieces of `chars[start..end]` between slashes, as ranges of `chars`.
fn slash_ranges(chars: &Vec<char>, start: usize, end: usize) -> (ranges: Vec<(usize, usize)>)
    requires
        start <= end <= chars@.len(),
    ensures
        forall|j: int| 0 <= j < ranges@.len() ==> start <= #[trigger] ranges@[j].0 <= ranges@[j].1 <= end,
        pieces(chars@, ranges@) == split_slash(chars@.subrange(start as int, end as int)),
{
    let ghost full = chars@;
    let mut ranges: Vec<(usize, usize)> = Vec::new();
    let mut cur = start;
    let mut k = start;
    assert(full.subrange(start as int, start as int) =~= Seq::<char>::empty());
    assert(split_slash(Seq::<char>::empty()) =~= pieces(full, ranges@).push(
        full.subrange(cur as int, k as int),
    ));
    while k < end
        invariant
            chars@ == full,
            start <= cur <= k <= end <= full.len(),
            forall|j: int| 0 <= j < ranges@.len() ==> start <= #[trigger] ranges@[j].0 <= ranges@[j].1 <= cur,
            split_slash(full.subrange(start as int, k as int)) == pieces(full, ranges@).push(
                full.subrange(cur as int, k as int),
            ),
        decreases end - k,
    {
        proof {
            lemma_split_step(full.subrange(start as int, k as int), full[k as int]);
            assert(full.subrange(start as int, k as int).push(full[k as int]) =~= full.subrange(
                start as int,
                k + 1,
            ));
        }
        if chars[k] == '/' {
            let ghost before = pieces(full, ranges@);
            ranges.push((cur, k));
            assert(pieces(full, ranges@) =~= before.push(full.subrange(cur as int, k as int)));
            assert(full.subrange(k + 1, k + 1) =~= Seq::<char>::empty());
            cur = k + 1;
        } else {
            assert(full.subrange(cur as int, k as int).push(full[k as int]) =~= full.subrange(
                cur as int,
                k + 1,
            ));
        }
        k += 1;
    }
    let ghost before = pieces(full, ranges@);
    ranges.push((cur, end));
    assert(pieces(full, ranges@) =~= before.push(full.subrange(cur as int, end as int)));
    ranges
}

/// For the decoded text of a stored entry name: the name without trailing NULs and its
/// path pieces, when it names a localization table; `None` otherwise.
pub fn classify_entry_name(text: &str) -> (r: Option<(String, Vec<String>)>)
    ensures
        r is Some == is_localization_table(path_parts(trim_nuls(text@))),
        r matches Some((name, parts)) ==> name@ == trim_nuls(text@) && parts.deep_view() == path_parts(
            name@,
        ),
        r matches Some((_, parts)) ==> {
            &&& parts.len() == 3
            &&& parts[0]@ == "localization"@
            &&& (parts[1]@ == "eng"@ || parts[1]@ == "zhs"@)
            &&& parts[2]@.len() >= 5 && parts[2]@.subrange(parts[2]@.len() - 5, parts[2]@.len() as int)
                == ".json"@
        },
        ({
            let parts = path_parts(trim_nuls(text@));
            parts.len() == 3 && parts[0] == "localization"@ && (parts[1] == "eng"@ || parts[1] == "zhs"@)
                && parts[2].len() >= 5 && parts[2].subrange(parts[2].len() - 5, parts[2].len() as int)
                == ".json"@
        }) ==> r is Some,
{
    let chars = chars_of(text);
    let ghost full = chars@;
    let end = trimmed_len(&chars);
    let ghost name = full.take(end as int);
    assert(name == trim_nuls(text@));
    let start: usize = if end >= 6 && chars_match(&chars, 0, 6, "res://") {
        6
    } else {
        0
    };
    assert(end >= 6 ==> name.subrange(0, 6) =~= full.subrange(0, 6));
    assert(strip_res(name) =~= full.subrange(start as int, end as int));
    let ranges = slash_ranges(&chars, start, end);
    let ghost parts_model = pieces(full, ranges@);
    assert(parts_model == path_parts(name));
    if ranges.len() != 3 {
        return None;
    }
    let (a0, b0) = ranges[0];
    let (a1, b1) = ranges[1];
    let (a2, b2) = ranges[2];
    assert(parts_model[0] == full.subrange(a0 as int, b0 as int));
    assert(parts_model[1] == full.subrange(a1 as int, b1 as int));
    assert(parts_model[2] == full.subrange(a2 as int, b2 as int));
    let is_table = chars_match(&chars, a0, b0, "localization") && (chars_match(&chars, a1, b1, "eng")
        || chars_match(&chars, a1, b1, "zhs")) && chars_end_with(&chars, a2, b2, ".json");
    if !is_table {
        return None;
    }
    let name_string = text.substring_char(0, end).to_owned();
    assert(name_string@ =~= name);
    let mut parts: Vec<String> = Vec::new();
    parts.push(text.substring_char(a0, b0).to_owned());
    parts.push(text.substring_char(a1, b1).to_owned());
    parts.push(text.substring_char(a2, b2).to_owned());
    assert(parts.deep_view() =~= parts_model);
    proof {
        reveal_strlit(".json");
        assert(parts.deep_view()[0] == parts[0]@);
        assert(parts.deep_view()[1] == parts[1]@);
        assert(parts.deep_view()[2] == parts[2]@);
    }
    Some((name_string, parts))
}

/// The name (without trailing NULs) and the path pieces of an entry whose stored name is
/// `raw`, when it names a localization table; `None` otherwise.
fn decode_table_name(raw: &[u8]) -> (r: Option<(String, Vec<String>)>)
    ensures
        r is Some == is_localization_table(path_parts(entry_name(raw@))),
        r matches Some((name, parts)) ==> name@ == entry_name(raw@) && parts.deep_view() == path_parts(
            name@,
        ),
{
    let lossy = decode_lossy(raw);
    classify_entry_name(lossy.as_str())
}


// ---------------------------------------------------------------------------
// Directory
// ---------------------------------------------------------------------------

/// A localization table listed in the directory: its path pieces, the absolute offset
/// and size of its data, and its recorded MD5 digest.
#[derive(Debug)]
pub struct PckEntry {
    pub path_parts: Vec<String>,
    pub offset: u64,
    pub size: u64,
    pub digest: [u8; 16],
}

impl DeepView for PckEntry {
    type V = PckEntryModel;

    open spec fn deep_view(&self) -> PckEntryModel {
        PckEntryModel {
            path_parts: self.path_parts.deep_view(),
            offset: self.offset,
            size: self.size,
            digest: self.digest@,
        }
    }
}

proof fn lemma_after_after<T, E>(a: Seq<T>, x: Seq<T>, r: Result<Seq<T>, E>)
    ensures
        after(a, after(x, r)) == after(a + x, r),
{
    match r {
        Ok(rest) => {
            assert(a + (x + rest) =~= (a + x) + rest);
        },
        Err(_) => {},
    }
}

struct EntryAt<'a> {
    name: &'a [u8],
    offset: u64,
    size: u64,
    digest: [u8; 16],
    flags: u32,
    next: usize,
}

fn read_entry<'a>(b: &'a [u8], p: usize) -> (r: Option<EntryAt<'a>>)
    requires
        p <= b@.len(),
    ensures
        match entry_at(b@, p as int) {
            None => r is None,
            Some(e) => r matches Some(x) && x.name@ == e.name && x.offset == e.offset && x.size == e.size
                && x.digest@ == e.digest && x.flags == e.flags && x.next as int == e.next,
        },
{
    let n = match read_u32(b, p) {
        Some(n) => n as usize,
        None => return None,
    };
    if n > b.len() - p - 4 || b.len() - p - 4 - n < 36 {
        return None;
    }
    let q = p + 4 + n;
    let name = &b[p + 4..q];
    let offset = read_u64(b, q).unwrap();
    let size = read_u64(b, q + 8).unwrap();
    let mut digest = [0u8; 16];
    let mut i: usize = 0;
    while i < 16
        invariant
            q + 36 <= b@.len(),
            b@.len() == b.len(),
            i <= 16,
            forall|j: int| 0 <= j < i ==> digest@[j] == b@[q + 16 + j],
        decreases 16 - i,
    {
        digest[i] = b[q + 16 + i];
        i += 1;
    }
    assert(digest@ =~= b@.subrange(q + 16, q + 32));
    let flags = read_u32(b, q + 32).unwrap();
    Some(EntryAt { name, offset, size, digest, flags, next: q + 36 })
}

/// Reads the directory entry at `pos`: the entry it makes when it is a localization
/// table, and the position of the next entry.
fn scan_step(b: &[u8], pos: usize, base: u64) -> (r: Result<(Option<PckEntry>, usize), PckError>)
    requires
        pos <= b@.len(),
    ensures
        match entry_at(b@, pos as int) {
            None => r matches Err(e) && e.deep_view() == PckErrorModel::Truncated,
            Some(x) => match entry_outcome(x, base) {
                Err(err) => r matches Err(e) && e.deep_view() == err,
                Ok(mine) => r matches Ok((opt, next)) && next as int == x.next && next <= b@.len() && (
                match opt {
                    Some(en) => mine == seq![en.deep_view()] && en.path_parts@.len() == 3,
                    None => mine == Seq::<PckEntryModel>::empty(),
                }),
            },
        },
{
    let e = match read_entry(b, pos) {
        Some(e) => e,
        None => return Err(PckError::Truncated),
    };
    proof {
        reveal(entry_outcome);
    }
    let ghost x = entry_at(b@, pos as int).unwrap();
    assert(x.name == e.name@);
    match decode_table_name(e.name) {
        Some((name, parts)) => {
            if e.flags != 0 {
                return Err(PckError::UnsupportedEntryFlags { flags: e.flags, name });
            }
            let entry = PckEntry {
                path_parts: parts,
                offset: add_wrapping(base, e.offset),
                size: e.size,
                digest: e.digest,
            };
            assert(entry.path_parts.deep_view().len() == 3);
            assert(entry.deep_view() == table_entry(path_parts(entry_name(x.name)), x, base));
            Ok((Some(entry), e.next))
        },
        None => Ok((None, e.next)),
    }
}

/// The localization tables listed in the archive's directory: see [`read_directory`].
pub fn read_directory_entries(b: &[u8]) -> (r: Result<Vec<PckEntry>, PckError>)
    ensures
        match r {
            Ok(es) => read_directory(b@) == Ok::<Seq<PckEntryModel>, PckErrorModel>(es.deep_view()),
            Err(e) => read_directory(b@) == Err::<Seq<PckEntryModel>, PckErrorModel>(e.deep_view()),
        },
        r matches Ok(es) ==> forall|i: int| 0 <= i < es@.len() ==> #[trigger] es@[i].path_parts@.len() == 3,
{
    let (base, dir) = match read_header(b) {
        Ok(h) => h,
        Err(e) => return Err(e),
    };
    if dir > b.len() as u64 {
        return Err(PckError::Truncated);
    }
    let dir = dir as usize;
    let count = match read_u32(b, dir) {
        Some(c) => c,
        None => return Err(PckError::Truncated),
    };
    let ghost whole = scan_entries(b@, dir + 4, count as nat, base);
    assert(read_directory(b@) == match whole {
        Err(e) => Err(e),
        Ok(es) => if es.len() == 0 {
            Err(PckErrorModel::NoLocalizationTables)
        } else {
            Ok(es)
        },
    });
    let mut pos = dir + 4;
    let mut i: u32 = 0;
    let mut found: Vec<PckEntry> = Vec::new();
    assert(found.deep_view() + Seq::<PckEntryModel>::empty() =~= found.deep_view());
    while i < count
        invariant
            pos <= b@.len(),
            i <= count,
            whole == after(found.deep_view(), scan_entries(b@, pos as int, (count - i) as nat, base)),
            read_directory(b@) == match whole {
                Err(e) => Err(e),
                Ok(es) => if es.len() == 0 {
                    Err(PckErrorModel::NoLocalizationTables)
                } else {
                    Ok(es)
                },
            },
            forall|j: int| 0 <= j < found@.len() ==> #[trigger] found@[j].path_parts@.len() == 3,
        decreases count - i,
    {
        let (opt, next) = match scan_step(b, pos, base) {
            Ok(step) => step,
            Err(e) => return Err(e),
        };
        let ghost rest = scan_entries(b@, next as int, (count - i - 1) as nat, base);
        let ghost before = found.deep_view();
        match opt {
            Some(entry) => {
                let ghost old_found = found@;
                let ghost em = entry.deep_view();
                found.push(entry);
                assert(forall|j: int| 0 <= j < old_found.len() ==> found@[j] == old_found[j]);
                proof {
                    assert(found.deep_view() =~= before + seq![em]);
                    lemma_after_after(before, seq![em], rest);
                }
            },
            None => {
                proof {
                    lemma_after_after(before, Seq::empty(), rest);
                    assert(before + Seq::<PckEntryModel>::empty() =~= before);
                }
            },
        }
        pos = next;
        i += 1;
    }
    assert(found.deep_view() + Seq::<PckEntryModel>::empty() =~= found.deep_view());
    if found.len() == 0 {
        Err(PckError::NoLocalizationTables)
    } else {
        Ok(found)
    }
}

// ---------------------------------------------------------------------------
// Table data
// ---------------------------------------------------------------------------

fn same_digest(a: &[u8; 16], b: &[u8; 16]) -> (r: bool)
    ensures
        r == (a@ == b@),
{
    let mut i: usize = 0;
    while i < 16
        invariant
            i <= 16,
            a@.len() == 16,
            b@.len() == 16,
            forall|j: int| 0 <= j < i ==> a@[j] == b@[j],
        decreases 16 - i,
    {
        if a[i] != b[i] {
            return false;
        }
        i += 1;
    }
    assert(a@ =~= b@);
    true
}

fn copy_strings(v: &Vec<String>) -> (r: Vec<String>)
    ensures
        r.deep_view() == v.deep_view(),
{
    let mut out: Vec<String> = Vec::new();
    let mut i: usize = 0;
    while i < v.len()
        invariant
            i <= v@.len(),
            out@.len() == i,
            forall|j: int| 0 <= j < i ==> #[trigger] out@[j]@ == v@[j]@,
        decreases v@.len() - i,
    {
        out.push(v[i].clone());
        i += 1;
    }
    assert(out.deep_view() =~= v.deep_view());
    out
}

/// The verdict on the `data` of a directory entry, given the MD5 digest of the data and
/// whether it parses as JSON: see [`judge_table`].
pub fn check_table(entry: &PckEntry, data: Vec<u8>, digest: [u8; 16], json_ok: bool) -> (r: Result<
    LocalizationTable,
    PckError,
>)
    requires
        entry.path_parts@.len() == 3,
    ensures
        match r {
            Ok(t) => judge_table(entry.deep_view(), data@, digest@, json_ok) == Ok::<
                LocalizationTableModel,
                PckErrorModel,
            >(t.deep_view()),
            Err(e) => judge_table(entry.deep_view(), data@, digest@, json_ok) == Err::<
                LocalizationTableModel,
                PckErrorModel,
            >(e.deep_view()),
        },
{
    if !same_digest(&digest, &entry.digest) {
        return Err(PckError::ChecksumMismatch { path_parts: copy_strings(&entry.path_parts) });
    }
    if !json_ok {
        return Err(PckError::InvalidJson { path_parts: copy_strings(&entry.path_parts) });
    }
    let mut dir_name = "localization_".to_owned();
    dir_name.append(entry.path_parts[1].as_str());
    let file_name = entry.path_parts[2].clone();
    Ok(LocalizationTable { dir_name, file_name, data })
}

/// Reads the data of a directory entry and checks it: see [`load_table`].
fn load_entry(b: &[u8], entry: &PckEntry) -> (r: Result<LocalizationTable, PckError>)
    requires
        entry.path_parts@.len() == 3,
    ensures
        match r {
            Ok(t) => load_table(b@, entry.deep_view()) == Ok::<LocalizationTableModel, PckErrorModel>(
                t.deep_view(),
            ),
            Err(e) => load_table(b@, entry.deep_view()) == Err::<LocalizationTableModel, PckErrorModel>(
                e.deep_view(),
            ),
        },
{
    if entry.offset > b.len() as u64 || entry.size > b.len() as u64 - entry.offset {
        return Err(PckError::Truncated);
    }
    let start = entry.offset as usize;
    let end = start + entry.size as usize;
    let slice = &b[start..end];
    let digest = md5_of(slice);
    let json_ok = json_parses(slice);
    let mut data: Vec<u8> = Vec::new();
    data.extend_from_slice(slice);
    assert(data@ =~= b@.subrange(start as int, end as int));
    check_table(entry, data, digest, json_ok)
}

proof fn lemma_load_step(b: Seq<u8>, es: Seq<PckEntryModel>, i: int)
    requires
        0 <= i < es.len(),
    ensures
        load_tables(b, es.skip(i)) == match load_table(b, es[i]) {
            Err(e) => Err(e),
            Ok(t) => after(seq![t], load_tables(b, es.skip(i + 1))),
        },
{
    assert(es.skip(i).drop_first() =~= es.skip(i + 1));
    assert(es.skip(i)[0] == es[i]);
}

/// The localization tables of an archive: see [`extract_tables`].
pub fn extract_localization_tables(b: &[u8]) -> (r: Result<Vec<LocalizationTable>, PckError>)
    ensures
        match r {
            Ok(ts) => extract_tables(b@) == Ok::<Seq<LocalizationTableModel>, PckErrorModel>(
                ts.deep_view(),
            ),
            Err(e) => extract_tables(b@) == Err::<Seq<LocalizationTableModel>, PckErrorModel>(
                e.deep_view(),
            ),
        },
{
    let entries = match read_directory_entries(b) {
        Ok(es) => es,
        Err(e) => return Err(e),
    };
    let ghost es = entries.deep_view();
    let mut tables: Vec<LocalizationTable> = Vec::new();
    let mut i: usize = 0;
    assert(es.skip(0) =~= es);
    assert(Seq::<LocalizationTableModel>::empty() + Seq::<LocalizationTableModel>::empty()
        =~= Seq::<LocalizationTableModel>::empty());
    while i < entries.len()
        invariant
            es == entries.deep_view(),
            extract_tables(b@) == load_tables(b@, es),
            i <= entries@.len(),
            forall|j: int| 0 <= j < entries@.len() ==> #[trigger] entries@[j].path_parts@.len() == 3,
            load_tables(b@, es) == after(tables.deep_view(), load_tables(b@, es.skip(i as int))),
        decreases entries@.len() - i,
    {
        proof {
            lemma_load_step(b@, es, i as int);
        }
        assert(entries@[i as int].deep_view() == es[i as int]);
        let t = match load_entry(b, &entries[i]) {
            Ok(t) => t,
            Err(e) => return Err(e),
        };
        let ghost before = tables.deep_view();
        tables.push(t);
        proof {
            assert(tables.deep_view() =~= before + seq![t.deep_view()]);
            lemma_after_after(before, seq![t.deep_view()], load_tables(b@, es.skip(i + 1)));
        }
        i += 1;
    }
    assert(es.skip(i as int) =~= Seq::<PckEntryModel>::empty());
    assert(tables.deep_view() + Seq::<LocalizationTableModel>::empty() =~= tables.deep_view());
    Ok(tables)
}


// ---------------------------------------------------------------------------
// Laws
// ---------------------------------------------------------------------------

proof fn lemma_scanned_entries_are_tables(b: Seq<u8>, p: int, n: nat, base: u64)
    ensures
        scan_entries(b, p, n, base) matches Ok(es) ==> forall|i: int|
            0 <= i < es.len() ==> is_localization_table(#[trigger] es[i].path_parts),
    decreases n,
{
    reveal(entry_outcome);
    if n > 0 {
        match entry_at(b, p) {
            None => {},
            Some(e) => {
                lemma_scanned_entries_are_tables(b, e.next, (n - 1) as nat, base);
                match entry_outcome(e, base) {
                    Err(_) => {},
                    Ok(mine) => match scan_entries(b, e.next, (n - 1) as nat, base) {
                        Err(_) => {},
                        Ok(rest) => {
                            let es = mine + rest;
                            assert forall|i: int| 0 <= i < es.len() implies is_localization_table(
                                #[trigger] es[i].path_parts,
                            ) by {
                                if i >= mine.len() {
                                    assert(es[i] == rest[i - mine.len()]);
                                }
                            }
                        },
                    },
                }
            },
        }
    }
}

/// The header is accepted only for an unencrypted Godot archive of format version 2 or 3:
/// the archive starts with the bytes `GDPC`, the version is a little-endian 2 or 3, the
/// encryption bit of the flags is clear; the base offset is the u64 at byte 24, and the
/// directory starts at byte 96 in version 2 and where the u64 at byte 32 says in version
/// 3.  An archive whose first four bytes are not `GDPC` is refused as such.
pub proof fn header_is_checked(b: Seq<u8>)
    ensures
        parse_header(b) matches Ok((base, dir)) ==> {
            &&& b.len() >= 32
            &&& b[0] == 0x47 && b[1] == 0x44 && b[2] == 0x50 && b[3] == 0x43
            &&& (b[4] == 2 || b[4] == 3) && b[5] == 0 && b[6] == 0 && b[7] == 0
            &&& b[20] % 2 == 0
            &&& base == u64_at(b, 24)
            &&& b[4] == 2 ==> dir == 96
            &&& b[4] == 3 ==> b.len() >= 40 && dir == u64_at(b, 32)
        },
        b.len() >= 4 && !(b[0] == 0x47 && b[1] == 0x44 && b[2] == 0x50 && b[3] == 0x43) ==> parse_header(
            b,
        ) matches Err(PckErrorModel::BadMagic(_)),
{
    if b.len() >= 4 {
        lemma_u32_bytes(b, 0);
    }
    if b.len() >= 8 {
        lemma_u32_bytes(b, 4);
    }
    if b.len() >= 24 {
        lemma_u32_bytes(b, 20);
    }
}

proof fn lemma_u32_bytes(b: Seq<u8>, p: int)
    requires
        0 <= p && p + 4 <= b.len(),
    ensures
        u32_at(b, p) as int == b[p] as int + b[p + 1] as int * 0x100 + b[p + 2] as int * 0x1_0000 + b[p + 3] as int
            * 0x100_0000,
        u32_at(b, p) % 2 == b[p] % 2,
        u32_at(b, p) == 0x43504447 <==> (b[p] == 0x47 && b[p + 1] == 0x44 && b[p + 2] == 0x50 && b[p + 3] == 0x43),
        u32_at(b, p) == 2 <==> (b[p] == 2 && b[p + 1] == 0 && b[p + 2] == 0 && b[p + 3] == 0),
        u32_at(b, p) == 3 <==> (b[p] == 3 && b[p + 1] == 0 && b[p + 2] == 0 && b[p + 3] == 0),
{
    let (x0, x1, x2, x3) = (b[p], b[p + 1], b[p + 2], b[p + 3]);
    assert(x0 as int + x1 as int * 0x100 + x2 as int * 0x1_0000 + x3 as int * 0x100_0000 < 0x1_0000_0000);
}

/// The directory reader keeps exactly the localization tables: every entry it returns
/// has the three path pieces `localization`, `eng` or `zhs`, and a file name ending in
/// `.json`; any other entry (fonts, scenes, other languages) is passed over.
pub proof fn directory_lists_only_localization_tables(b: Seq<u8>)
    ensures
        read_directory(b) matches Ok(es) ==> forall|i: int|
            0 <= i < es.len() ==> {
                let parts = #[trigger] es[i].path_parts;
                &&& parts.len() == 3
                &&& parts[0] == "localization"@
                &&& (parts[1] == "eng"@ || parts[1] == "zhs"@)
                &&& parts[2].len() >= 5 && parts[2].subrange(parts[2].len() - 5, parts[2].len() as int)
                    == ".json"@
            },
{
    match parse_header(b) {
        Err(_) => {},
        Ok((base, dir)) => {
            lemma_scanned_entries_are_tables(b, dir + 4, u32_at(b, dir) as nat, base);
        },
    }
    reveal_strlit(".json");
}

proof fn lemma_loaded_tables(b: Seq<u8>, es: Seq<PckEntryModel>)
    ensures
        load_tables(b, es) matches Ok(ts) ==> ts.len() == es.len() && forall|i: int|
            0 <= i < es.len() ==> load_table(b, #[trigger] es[i]) == Ok::<
                LocalizationTableModel,
                PckErrorModel,
            >(ts[i]),
    decreases es.len(),
{
    if es.len() > 0 {
        lemma_loaded_tables(b, es.drop_first());
        match load_tables(b, es) {
            Err(_) => {},
            Ok(ts) => {
                assert forall|i: int| 0 <= i < es.len() implies load_table(b, #[trigger] es[i]) == Ok::<
                    LocalizationTableModel,
                    PckErrorModel,
                >(ts[i]) by {
                    if i > 0 {
                        assert(es[i] == es.drop_first()[i - 1]);
                    }
                }
            },
        }
    }
}

/// What is promised of a table `t` extracted for the directory entry `e` of archive
/// `b`: its data are the bytes the entry points at, their MD5 digest is the one
/// recorded, they parse as JSON, and the table goes to `localization_eng` for an English
/// entry and to `localization_zhs` for a Chinese one, under the entry's `.json` file name.
pub open spec fn table_is_checked(b: Seq<u8>, e: PckEntryModel, t: LocalizationTableModel) -> bool {
    &&& fits(b, e.offset as int, e.size as int)
    &&& t.data == b.subrange(e.offset as int, e.offset + e.size)
    &&& md5_digest(t.data) == e.digest
    &&& json_accepts(t.data)
    &&& t.file_name == e.path_parts[2]
    &&& ends_with(t.file_name, ".json"@)
    &&& (t.dir_name == "localization_eng"@ || t.dir_name == "localization_zhs"@)
    &&& e.path_parts[1] == "eng"@ ==> t.dir_name == "localization_eng"@
    &&& e.path_parts[1] == "zhs"@ ==> t.dir_name == "localization_zhs"@
}

/// A successful extraction yields at least one table, one per localization entry of the
/// directory and in its order, each checked against its entry (see [`table_is_checked`]).
pub proof fn extracted_tables_are_checked(b: Seq<u8>)
    ensures
        extract_tables(b) matches Ok(ts) ==> read_directory(b) matches Ok(es) && ts.len() == es.len()
            && ts.len() > 0 && forall|i: int| 0 <= i < ts.len() ==> table_is_checked(b, es[i], #[trigger] ts[i]),
{
    match read_directory(b) {
        Err(_) => {},
        Ok(es) => {
            match parse_header(b) {
                Err(_) => {},
                Ok((base, dir)) => {
                    lemma_scanned_entries_are_tables(b, dir + 4, u32_at(b, dir) as nat, base);
                },
            }
            lemma_loaded_tables(b, es);
            reveal_strlit("localization_");
            reveal_strlit("eng");
            reveal_strlit("zhs");
            reveal_strlit("localization_eng");
            reveal_strlit("localization_zhs");
            match load_tables(b, es) {
                Err(_) => {},
                Ok(ts) => {
                    assert forall|i: int| 0 <= i < ts.len() implies table_is_checked(b, es[i], #[trigger] ts[i]) by {
                        assert(load_table(b, es[i]) == Ok::<LocalizationTableModel, PckErrorModel>(ts[i]));
                        assert(is_localization_table(es[i].path_parts));
                        assert("localization_"@ + "eng"@ =~= "localization_eng"@);
                        assert("localization_"@ + "zhs"@ =~= "localization_zhs"@);
                    }
                },
            }
        },
    }
}

} // verus!
