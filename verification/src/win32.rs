//! The Win32 side of reading the protected `WindowsApps` directory: the token
//! privilege record that enables the backup privilege, UTF-16 text as the wide
//! API functions take and give it, and the walk over the entry records that
//! `GetFileInformationByHandleEx` fills a buffer with.
use vstd::prelude::*;
use crate::text::{chars_of, text_of, starts_with_chars, ends_with_chars, has_prefix, has_suffix};

verus! {

/// A locally unique identifier, as the token functions use it.
#[derive(Clone, Copy, Debug)]
pub struct LUID {
    pub LowPart: u32,
    pub HighPart: i32,
}

/// One privilege and its attribute flags.
#[derive(Clone, Copy, Debug)]
pub struct LUID_AND_ATTRIBUTES {
    pub Luid: LUID,
    pub Attributes: u32,
}

/// A privilege list with room for exactly one entry.
#[derive(Clone, Copy, Debug)]
pub struct TOKEN_PRIVILEGES {
    pub PrivilegeCount: u32,
    pub Privileges: [LUID_AND_ATTRIBUTES; 1],
}

/// The attribute flag that switches a privilege on.
pub const SE_PRIVILEGE_ENABLED: u32 = 2;

impl LUID {
    /// The all-zero identifier a lookup starts from.
    pub fn zero() -> (r: LUID)
        ensures
            r.LowPart == 0,
            r.HighPart == 0,
    {
        LUID { LowPart: 0, HighPart: 0 }
    }
}

impl TOKEN_PRIVILEGES {
    /// The one-entry list that enables the privilege `luid`.
    pub fn enabling(luid: LUID) -> (r: TOKEN_PRIVILEGES)
        ensures
            r.PrivilegeCount == 1,
            r.Privileges@.len() == 1,
            r.Privileges@[0].Luid == luid,
            r.Privileges@[0].Attributes == SE_PRIVILEGE_ENABLED,
    {
        let entry = LUID_AND_ATTRIBUTES { Luid: luid, Attributes: SE_PRIVILEGE_ENABLED };
        let r = TOKEN_PRIVILEGES { PrivilegeCount: 1, Privileges: [entry] };
        assert(r.Privileges@[0] == entry);
        r
    }
}

// ---------------------------------------------------------------------------
// UTF-16
// ---------------------------------------------------------------------------

/// A leading surrogate code unit.
pub open spec fn is_high_surrogate(u: u16) -> bool {
    0xD800 <= u <= 0xDBFF
}

/// A trailing surrogate code unit.
pub open spec fn is_low_surrogate(u: u16) -> bool {
    0xDC00 <= u <= 0xDFFF
}

/// The code point of a surrogate pair.
pub open spec fn pair_code_point(hi: u16, lo: u16) -> int {
    0x10000 + (hi - 0xD800) * 0x400 + (lo - 0xDC00)
}

/// Decoding of UTF-16 code units, as `String::from_utf16` does it: `None` when
/// a surrogate is unpaired.
pub open spec fn utf16_decode(u: Seq<u16>) -> Option<Seq<char>>
    decreases u.len(),
{
    if u.len() == 0 {
        Some(Seq::empty())
    } else if !is_high_surrogate(u[0]) && !is_low_surrogate(u[0]) {
        match utf16_decode(u.drop_first()) {
            Some(r) => Some(seq![(u[0] as u32) as char] + r),
            None => None,
        }
    } else if is_high_surrogate(u[0]) && u.len() >= 2 && is_low_surrogate(u[1]) {
        match utf16_decode(u.subrange(2, u.len() as int)) {
            Some(r) => Some(seq![(pair_code_point(u[0], u[1]) as u32) as char] + r),
            None => None,
        }
    } else {
        None
    }
}

/// The UTF-16 code units of one character.
pub open spec fn utf16_units_of(c: char) -> Seq<u16> {
    let n = c as u32 as int;
    if n < 0x10000 {
        seq![n as u16]
    } else {
        seq![(0xD800 + (n - 0x10000) / 0x400) as u16, (0xDC00 + (n - 0x10000) % 0x400) as u16]
    }
}

/// Encoding of characters as UTF-16 code units, as `str::encode_utf16` does it.
pub open spec fn utf16_encode(s: Seq<char>) -> Seq<u16>
    decreases s.len(),
{
    if s.len() == 0 {
        Seq::empty()
    } else {
        utf16_units_of(s[0]) + utf16_encode(s.drop_first())
    }
}

/// Decoding what encoding produced gives the characters back: UTF-16 text
/// handed to a wide Win32 function and read back loses nothing.
pub proof fn lemma_utf16_round_trip(s: Seq<char>)
    ensures
        utf16_decode(utf16_encode(s)) == Some(s),
    decreases s.len(),
{
    if s.len() > 0 {
        let c = s[0];
        let rest = s.drop_first();
        lemma_utf16_round_trip(rest);
        let e = utf16_encode(s);
        assert(e == utf16_units_of(c) + utf16_encode(rest));
        let n = c as u32 as int;
        vstd::utf8::char_is_scalar(c);
        vstd::utf8::char_u32_cast(c, c as u32);
        assert(0 <= n <= 0xD7FF || 0xE000 <= n <= 0x10FFFF);
        if n < 0x10000 {
            assert(e.drop_first() =~= utf16_encode(rest));
            assert((n as u16) as u32 == c as u32);
        } else {
            let v = n - 0x10000;
            let hi = (0xD800 + v / 0x400) as u16;
            let lo = (0xDC00 + v % 0x400) as u16;
            assert(0 <= v / 0x400 < 0x400 && 0 <= v % 0x400 < 0x400) by (nonlinear_arith)
                requires 0 <= v < 0x100000;
            assert(v == (v / 0x400) * 0x400 + v % 0x400) by (nonlinear_arith)
                requires 0 <= v;
            assert(e[0] == hi && e[1] == lo);
            assert(pair_code_point(hi, lo) == n);
            assert((pair_code_point(hi, lo) as u32) == c as u32);
            assert(e.subrange(2, e.len() as int) =~= utf16_encode(rest));
        }
        assert(seq![c] + rest =~= s);
    }
}

/// The character with the given scalar value, as `char::from_u32` gives it.
#[verifier::external_body]
fn char_from_u32(n: u32) -> (r: Option<char>)
    ensures
        r == (if n <= 0x10FFFF && !(0xD800 <= n <= 0xDFFF) {
            Some(n as char)
        } else {
            None
        }),
{
    char::from_u32(n)
}

spec fn prefixed(acc: Seq<char>, rest: Option<Seq<char>>) -> Option<Seq<char>> {
    match rest {
        Some(r) => Some(acc + r),
        None => None,
    }
}

/// Decodes the first `end` code units of `units`.
pub fn decode_utf16(units: &Vec<u16>, end: usize) -> (r: Option<Vec<char>>)
    requires
        end <= units@.len(),
    ensures
        match r {
            Some(cs) => utf16_decode(units@.take(end as int)) == Some(cs@),
            None => utf16_decode(units@.take(end as int)) is None,
        },
{
    let ghost u = units@.take(end as int);
    let mut acc: Vec<char> = Vec::new();
    let mut i: usize = 0;
    assert(u.skip(0) =~= u);
    while i < end
        invariant
            end <= units@.len(),
            u == units@.take(end as int),
            i <= end,
            utf16_decode(u) == prefixed(acc@, utf16_decode(u.skip(i as int))),
        decreases end - i,
    {
        let w = units[i];
        let ghost t = u.skip(i as int);
        assert(t[0] == w);
        if !(0xD800 <= w && w <= 0xDBFF) && !(0xDC00 <= w && w <= 0xDFFF) {
            assert(t.drop_first() =~= u.skip(i + 1));
            match char_from_u32(w as u32) {
                Some(c) => {
                    proof {
                        match utf16_decode(u.skip(i + 1)) {
                            Some(r) => {
                                assert(acc@.push(c) + r =~= acc@ + (seq![c] + r));
                            },
                            None => {},
                        }
                    }
                    acc.push(c);
                },
                None => {
                    return None;
                },
            }
            i = i + 1;
        } else if 0xD800 <= w && w <= 0xDBFF && i + 1 < end && 0xDC00 <= units[i + 1]
            && units[i + 1] <= 0xDFFF {
            let lo = units[i + 1];
            assert(t[1] == lo);
            assert(t.subrange(2, t.len() as int) =~= u.skip(i + 2));
            let cp: u32 = 0x10000 + ((w - 0xD800) as u32) * 0x400 + ((lo - 0xDC00) as u32);
            assert(cp as int == pair_code_point(w, lo));
            match char_from_u32(cp) {
                Some(c) => {
                    proof {
                        match utf16_decode(u.skip(i + 2)) {
                            Some(r) => {
                                assert(acc@.push(c) + r =~= acc@ + (seq![c] + r));
                            },
                            None => {},
                        }
                    }
                    acc.push(c);
                },
                None => {
                    return None;
                },
            }
            i = i + 2;
        } else {
            return None;
        }
    }
    assert(u.skip(end as int) =~= Seq::<u16>::empty());
    assert(acc@ + Seq::<char>::empty() =~= acc@);
    Some(acc)
}

/// The UTF-16 code units of `s` followed by a terminating zero unit, the form the
/// wide Win32 functions take a path or a privilege name in.
pub fn wide_nul(s: &str) -> (r: Vec<u16>)
    ensures
        r@ == utf16_encode(s@).push(0u16),
{
    let cs = chars_of(s);
    let mut r: Vec<u16> = Vec::new();
    let mut i: usize = 0;
    assert(s@.skip(0) =~= s@);
    assert(r@ + utf16_encode(s@) =~= utf16_encode(s@));
    while i < cs.len()
        invariant
            i <= cs@.len(),
            cs@ == s@,
            utf16_encode(s@) == r@ + utf16_encode(s@.skip(i as int)),
        decreases cs@.len() - i,
    {
        let c = cs[i];
        let n = c as u32;
        let ghost t = s@.skip(i as int);
        assert(t[0] == c);
        assert(t.drop_first() =~= s@.skip(i + 1));
        if n < 0x10000 {
            r.push(n as u16);
            assert(utf16_units_of(c) =~= seq![n as u16]);
        } else {
            let v = n - 0x10000;
            r.push((0xD800 + v / 0x400) as u16);
            r.push((0xDC00 + v % 0x400) as u16);
            assert(utf16_units_of(c) =~= seq![(0xD800 + v / 0x400) as u16, (0xDC00 + v % 0x400) as u16]);
        }
        assert(r@ + utf16_encode(s@.skip(i + 1)) =~= (r@.take(r@.len() - utf16_units_of(c).len())
            + utf16_units_of(c)) + utf16_encode(s@.skip(i + 1)));
        i = i + 1;
    }
    assert(s@.skip(cs@.len() as int) =~= Seq::<char>::empty());
    assert(r@ + Seq::<u16>::empty() =~= r@);
    r.push(0u16);
    r
}


// ---------------------------------------------------------------------------
// Directory entry records
// ---------------------------------------------------------------------------
//
// `GetFileInformationByHandleEx` with `FileIdBothDirectoryInfo` fills a buffer with
// `FILE_ID_BOTH_DIR_INFO` records: `NextEntryOffset` at byte 0 (zero in the last
// record), `FileNameLength` in bytes at byte 60, and the name's UTF-16 code units,
// without a terminator, from byte 104 on.

/// Byte offset of `NextEntryOffset`, the distance to the next record.
pub const NEXT_ENTRY_AT: usize = 0;
/// Byte offset of `FileNameLength`, the name's length in bytes.
pub const NAME_LENGTH_AT: usize = 60;
/// Byte offset of `FileName`, the name's code units; also the size of a record
/// without its name.
pub const NAME_AT: usize = 104;

/// The little-endian 16-bit value at `at`; every Windows target is little-endian.
pub open spec fn le16(b: Seq<u8>, at: int) -> int {
    b[at] + b[at + 1] * 256
}

/// The little-endian 32-bit value at `at`.
pub open spec fn le32(b: Seq<u8>, at: int) -> int {
    b[at] + b[at + 1] * 256 + b[at + 2] * 65536 + b[at + 3] * 16777216
}

fn read_le16(b: &[u8], at: usize) -> (r: u16)
    requires
        at + 2 <= b@.len(),
    ensures
        r == le16(b@, at as int),
{
    (b[at] as u16) + (b[at + 1] as u16) * 256
}

fn read_le32(b: &[u8], at: usize) -> (r: u32)
    requires
        at + 4 <= b@.len(),
    ensures
        r == le32(b@, at as int),
{
    (b[at] as u32) + (b[at + 1] as u32) * 256 + (b[at + 2] as u32) * 65536 + (b[at + 3] as u32)
        * 16777216
}

/// The name length, in bytes, of the record at `off`.
pub open spec fn record_name_len(b: Seq<u8>, off: int) -> int {
    le32(b, off + NAME_LENGTH_AT)
}

/// The distance to the next record, zero for the last one.
pub open spec fn record_next(b: Seq<u8>, off: int) -> int {
    le32(b, off + NEXT_ENTRY_AT)
}

/// The record at `off` has a non-empty name that lies inside the buffer.
pub open spec fn record_has_name(b: Seq<u8>, off: int) -> bool {
    record_name_len(b, off) > 0 && off + NAME_AT + record_name_len(b, off) <= b.len()
}

/// The code units of the name of the record at `off`, two bytes each.
pub open spec fn record_units(b: Seq<u8>, off: int) -> Seq<u16> {
    Seq::new(
        (record_name_len(b, off) / 2) as nat,
        |k: int| le16(b, off + NAME_AT + 2 * k) as u16,
    )
}

/// The name of the record at `off`, decoded; nothing when the record has no name
/// inside the buffer or it is not valid UTF-16.
pub open spec fn record_name(b: Seq<u8>, off: int) -> Option<Seq<char>> {
    if record_has_name(b, off) {
        utf16_decode(record_units(b, off))
    } else {
        None
    }
}

/// A directory name that belongs to an installed Codex package, not to a
/// package file lying beside it.
pub open spec fn is_codex_package(name: Seq<char>) -> bool {
    &&& has_prefix(name, "OpenAI.Codex_"@)
    &&& !has_suffix(name, ".Appx"@)
    &&& !has_suffix(name, ".msix"@)
    &&& !has_suffix(name, ".eappx"@)
}

/// `name` inside the directory `dir`; no separator is added after a backslash.
pub open spec fn child_path(dir: Seq<char>, name: Seq<char>) -> Seq<char> {
    if dir.len() > 0 && dir.last() == '\\' {
        dir + name
    } else {
        dir + "/"@ + name
    }
}

/// After the record at `off`, the walk goes on to another whole record.
pub open spec fn walk_goes_on(b: Seq<u8>, off: int) -> bool {
    record_next(b, off) != 0 && off + record_next(b, off) + NAME_AT <= b.len()
}

/// The paths of the Codex package directories named by the records from `off` on,
/// in the order of the records.
pub open spec fn codex_dirs_from(b: Seq<u8>, dir: Seq<char>, off: int) -> Seq<Seq<char>>
    decreases b.len() - off,
{
    if off < 0 || off + NAME_AT > b.len() {
        Seq::empty()
    } else {
        let rest = if walk_goes_on(b, off) {
            codex_dirs_from(b, dir, off + record_next(b, off))
        } else {
            Seq::empty()
        };
        match record_name(b, off) {
            Some(n) => if is_codex_package(n) {
                seq![child_path(dir, n)] + rest
            } else {
                rest
            },
            None => rest,
        }
    }
}

/// Whether `name` belongs to an installed Codex package.
pub fn codex_package_name(name: &[char]) -> (r: bool)
    ensures
        r == is_codex_package(name@),
{
    let prefix = chars_of("OpenAI.Codex_");
    let appx = chars_of(".Appx");
    let msix = chars_of(".msix");
    let eappx = chars_of(".eappx");
    starts_with_chars(name, prefix.as_slice()) && !ends_with_chars(name, appx.as_slice())
        && !ends_with_chars(name, msix.as_slice()) && !ends_with_chars(name, eappx.as_slice())
}

/// The path of `name` inside `dir`.
pub fn child_path_text(dir: &str, name: &[char]) -> (r: String)
    ensures
        r@ == child_path(dir@, name@),
{
    let d = chars_of(dir);
    let mut r = String::from_str(dir);
    if d.len() > 0 && d[d.len() - 1] == '\\' {
        r.append(text_of(name).as_str());
    } else {
        r.append("/");
        r.append(text_of(name).as_str());
    }
    r
}

/// The name of the record at `off`, decoded.
fn read_record_name(b: &[u8], off: usize) -> (r: Option<Vec<char>>)
    requires
        off + NAME_AT <= b@.len(),
    ensures
        match r {
            Some(cs) => record_name(b@, off as int) == Some(cs@),
            None => record_name(b@, off as int) is None,
        },
{
    let blen = b.len();
    let name_len = read_le32(b, off + NAME_LENGTH_AT) as usize;
    if !(name_len > 0 && name_len <= b.len() - off - NAME_AT) {
        return None;
    }
    let start = off + NAME_AT;
    let count = name_len / 2;
    let mut units: Vec<u16> = Vec::new();
    let mut k: usize = 0;
    while k < count
        invariant
            blen == b@.len(),
            start == off + NAME_AT,
            count == record_name_len(b@, off as int) / 2,
            start + 2 * count <= b@.len(),
            k <= count,
            units@.len() == k,
            forall|j: int| 0 <= j < k ==> units@[j] == record_units(b@, off as int)[j],
        decreases count - k,
    {
        units.push(read_le16(b, start + 2 * k));
        k = k + 1;
    }
    assert(units@ =~= record_units(b@, off as int));
    assert(units@.take(count as int) =~= units@);
    decode_utf16(&units, count)
}

/// The Codex package directories that a buffer of `FILE_ID_BOTH_DIR_INFO` records
/// names, each as a path inside `dir`, in the order of the records.
pub fn codex_package_dirs(b: &[u8], dir: &str) -> (r: Vec<String>)
    ensures
        r.deep_view() == codex_dirs_from(b@, dir@, 0),
{
    let len = b.len();
    let mut r: Vec<String> = Vec::new();
    let mut off: usize = 0;
    loop
        invariant
            len == b@.len(),
            off <= len,
            codex_dirs_from(b@, dir@, 0) == r.deep_view() + codex_dirs_from(b@, dir@, off as int),
        decreases len - off,
    {
        if len < NAME_AT || off > len - NAME_AT {
            assert(r.deep_view() + Seq::<Seq<char>>::empty() =~= r.deep_view());
            return r;
        }
        let ghost before = r.deep_view();
        let ghost rest = if walk_goes_on(b@, off as int) {
            codex_dirs_from(b@, dir@, off + record_next(b@, off as int))
        } else {
            Seq::empty()
        };
        match read_record_name(b, off) {
            Some(name) => {
                if codex_package_name(name.as_slice()) {
                    let p = child_path_text(dir, name.as_slice());
                    r.push(p);
                    assert(r.deep_view() =~= before.push(p@));
                    assert(before + (seq![p@] + rest) =~= r.deep_view() + rest);
                }
            },
            None => {},
        }
        let next = read_le32(b, off + NEXT_ENTRY_AT) as usize;
        if next == 0 || next > len - off - NAME_AT {
            assert(r.deep_view() + Seq::<Seq<char>>::empty() =~= r.deep_view());
            return r;
        }
        off = off + next;
    }
}


/// Every package path the record walk gives lies in the directory it was given:
/// each starts with `dir`.
pub proof fn lemma_package_dirs_within(b: Seq<u8>, dir: Seq<char>, off: int)
    ensures
        forall|i: int| 0 <= i < codex_dirs_from(b, dir, off).len() ==> has_prefix(
            #[trigger] codex_dirs_from(b, dir, off)[i],
            dir,
        ),
    decreases b.len() - off,
{
    if !(off < 0 || off + NAME_AT > b.len()) {
        let rest = if walk_goes_on(b, off) {
            codex_dirs_from(b, dir, off + record_next(b, off))
        } else {
            Seq::empty()
        };
        if walk_goes_on(b, off) {
            lemma_package_dirs_within(b, dir, off + record_next(b, off));
        }
        if let Some(n) = record_name(b, off) {
            let c = child_path(dir, n);
            assert(c.subrange(0, dir.len() as int) =~= dir);
            if is_codex_package(n) {
                let all = seq![c] + rest;
                assert forall|i: int| 0 <= i < all.len() implies has_prefix(#[trigger] all[i], dir) by {
                    if i > 0 {
                        assert(all[i] == rest[i - 1]);
                    }
                }
            }
        }
    }
}

} // verus!
