//! Vorbis comments.

use vstd::prelude::*;
use vstd::utf8::{decode_utf8, valid_utf8};

use crate::error::{Error, ErrorKind};
use crate::id3::string::utf8_decode;
use crate::timestamp::{spec_parse, Fields, Timestamp};
use crate::util::bits::{bit_u8, get_bit_u8, le_u32, spec_le_u32};
use crate::util::limited::{Cursor, Limited};
use crate::util::read_vec_limited;
use crate::util::text::{chars_of, split_at_first, split_once, string_of};

verus! {

/// A Vorbis comment: the name of the vendor, and entries of a key and a
/// value each.
#[derive(Clone, Debug, PartialEq, Eq)]
pub struct Vcomment {
    vendor: String,
    entries: Vec<(String, String)>,
}

pub struct VcommentView {
    pub vendor: Seq<char>,
    pub entries: Seq<(Seq<char>, Seq<char>)>,
}

impl View for Vcomment {
    type V = VcommentView;

    closed spec fn view(&self) -> VcommentView {
        VcommentView {
            vendor: self.vendor@,
            entries: entry_views(self.entries@),
        }
    }
}

/// An ASCII letter in lower case, any other character as it is.
pub open spec fn lower(c: char) -> char {
    if 0x41 <= c as u32 <= 0x5a {
        ((c as u32) + 0x20) as char
    } else {
        c
    }
}

/// Whether two keys are the same but for the case of their ASCII
/// letters.
pub open spec fn same_key(a: Seq<char>, b: Seq<char>) -> bool {
    a.len() == b.len() && forall|i: int| 0 <= i < a.len() ==> lower(#[trigger] a[i]) == lower(b[i])
}

/// The values of the entries with the key `key`, in order.
pub open spec fn spec_get(entries: Seq<(Seq<char>, Seq<char>)>, key: Seq<char>) -> Seq<Seq<char>>
    decreases entries.len(),
{
    if entries.len() == 0 {
        Seq::empty()
    } else if same_key(entries.last().0, key) {
        spec_get(entries.drop_last(), key).push(entries.last().1)
    } else {
        spec_get(entries.drop_last(), key)
    }
}

/// The value of the first entry with the key `key`.
pub open spec fn spec_first(entries: Seq<(Seq<char>, Seq<char>)>, key: Seq<char>) -> Option<
    Seq<char>,
> {
    if spec_get(entries, key).len() > 0 {
        Some(spec_get(entries, key)[0])
    } else {
        None
    }
}

/// A text with its length before it: four bytes of little-endian length,
/// then as many bytes of UTF-8. The text and the number of bytes that it
/// takes.
pub open spec fn spec_read_str(w: Seq<u8>) -> Result<(Seq<char>, nat), ErrorKind> {
    if w.len() < 4 {
        Err(ErrorKind::UnexpectedEof)
    } else {
        let len = spec_le_u32(w) as int;
        if w.len() - 4 < len {
            Err(ErrorKind::UnexpectedEof)
        } else if !valid_utf8(w.subrange(4, 4 + len)) {
            Err(ErrorKind::InvalidEncoding)
        } else {
            Ok((decode_utf8(w.subrange(4, 4 + len)), (4 + len) as nat))
        }
    }
}

/// An entry from its text: the key stands before the first `=`, the value
/// behind it. A text without `=` is a key without a value.
pub open spec fn spec_entry(s: Seq<char>) -> (Seq<char>, Seq<char>) {
    let p = split_once(s, '=');
    (
        p.0,
        match p.1 {
            Some(v) => v,
            None => Seq::empty(),
        },
    )
}

/// `count` entries, one text behind the other, and the number of bytes
/// that they take.
pub open spec fn spec_read_entries(w: Seq<u8>, count: nat) -> Result<
    (Seq<(Seq<char>, Seq<char>)>, nat),
    ErrorKind,
>
    decreases count,
{
    if count == 0 {
        Ok((Seq::empty(), 0))
    } else {
        match spec_read_str(w) {
            Err(e) => Err(e),
            Ok(s) => match spec_read_entries(w.skip(s.1 as int), (count - 1) as nat) {
                Err(e) => Err(e),
                Ok(rest) => Ok((seq![spec_entry(s.0)] + rest.0, s.1 + rest.1)),
            },
        }
    }
}

/// The comment in `w`, and the number of bytes that it takes: the vendor,
/// the number of entries in four bytes, the entries, and where `framing`
/// is asked for, a byte with its top bit set. A number of entries that the
/// data cannot hold is refused before any entry is read.
#[verifier::opaque]
pub open spec fn spec_read_vcomment(w: Seq<u8>, framing: bool) -> Result<
    (VcommentView, nat),
    ErrorKind,
> {
    match spec_read_str(w) {
        Err(e) => Err(e),
        Ok(vendor) => {
            let rest = w.skip(vendor.1 as int);
            if rest.len() < 4 {
                Err(ErrorKind::UnexpectedEof)
            } else if spec_le_u32(rest) * 4 > rest.len() - 4 {
                Err(ErrorKind::InvalidData)
            } else {
                match spec_read_entries(rest.skip(4), spec_le_u32(rest) as nat) {
                    Err(e) => Err(e),
                    Ok(entries) => {
                        let end = rest.skip(4).skip(entries.1 as int);
                        if framing && end.len() < 1 {
                            Err(ErrorKind::UnexpectedEof)
                        } else if framing && !bit_u8(end[0], 7) {
                            Err(ErrorKind::InvalidData)
                        } else {
                            Ok(
                                (
                                    VcommentView { vendor: vendor.0, entries: entries.0 },
                                    vendor.1 + 4 + entries.1 + if framing {
                                        1nat
                                    } else {
                                        0nat
                                    },
                                ),
                            )
                        }
                    },
                }
            }
        },
    }
}

pub open spec fn opt_str(s: Option<&str>) -> Option<Seq<char>> {
    match s {
        Some(t) => Some(t@),
        None => None,
    }
}

pub open spec fn strs_view(v: Seq<&str>) -> Seq<Seq<char>> {
    Seq::new(v.len(), |i: int| v[i]@)
}

fn lower_char(c: char) -> (r: char)
    ensures
        r == lower(c),
{
    let code: u32 = c as u32;
    if code >= 0x41 && code <= 0x5a {
        ((code as u8) + 0x20) as char
    } else {
        c
    }
}

fn keys_match(a: &str, b: &Vec<char>) -> (r: bool)
    ensures
        r == same_key(a@, b@),
{
    let chars: Vec<char> = chars_of(a);
    if chars.len() != b.len() {
        return false;
    }
    let mut i: usize = 0;
    while i < chars.len()
        invariant
            i <= chars@.len(),
            chars@ == a@,
            chars@.len() == b@.len(),
            forall|j: int| 0 <= j < i ==> lower(#[trigger] chars@[j]) == lower(b@[j]),
        decreases chars@.len() - i,
    {
        if lower_char(chars[i]) != lower_char(b[i]) {
            assert(lower(a@[i as int]) != lower(b@[i as int]));
            return false;
        }
        i += 1;
    }
    true
}

fn read_str(rd: &mut Limited<Cursor<'_>>) -> (r: Result<String, Error>)
    requires
        old(rd).backed(),
    ensures
        match r {
            Ok(s) => spec_read_str(old(rd).window()) matches Ok(p) && p.0 == s@
                && final(rd).window() == old(rd).window().skip(p.1 as int) && final(rd).backed()
                && p.1 <= old(rd).window().len(),
            Err(e) => spec_read_str(old(rd).window()) == Err::<(Seq<char>, nat), ErrorKind>(e.kind),
        },
{
    let ghost w = rd.window();
    let ghost start = *rd;
    let len_bytes: &[u8] = match rd.take_exact(4) {
        Ok(b) => b,
        Err(e) => {
            return Err(e);
        },
    };
    assert(len_bytes@[0] == w[0] && len_bytes@[1] == w[1] && len_bytes@[2] == w[2] && len_bytes@[3]
        == w[3]);
    let len: u32 = le_u32(len_bytes);
    proof {
        rd.lemma_advanced_window(&start, 4);
    }
    let ghost mid = *rd;
    let vec: Vec<u8> = match read_vec_limited(rd, len as usize, "string truncated") {
        Ok(v) => v,
        Err(e) => {
            return Err(e);
        },
    };
    proof {
        rd.lemma_advanced_window(&mid, len as int);
        assert(vec@ =~= w.subrange(4, 4 + len));
        assert(w.skip(4).skip(len as int) =~= w.skip(4 + len));
    }
    match utf8_decode(vec.as_slice()) {
        Some(s) => {
            proof {
                vstd::utf8::encode_utf8_decode_utf8(s@);
            }
            Ok(s)
        },
        None => Err(Error::new(ErrorKind::InvalidEncoding, "invalid string")),
    }
}

fn read_entry(rd: &mut Limited<Cursor<'_>>) -> (r: Result<(String, String), Error>)
    requires
        old(rd).backed(),
    ensures
        match r {
            Ok(entry) => spec_read_str(old(rd).window()) matches Ok(p) && spec_entry(p.0) == (
                entry.0@,
                entry.1@,
            ) && final(rd).window() == old(rd).window().skip(p.1 as int) && final(rd).backed()
                && p.1 <= old(rd).window().len(),
            Err(e) => spec_read_str(old(rd).window()) == Err::<(Seq<char>, nat), ErrorKind>(e.kind),
        },
{
    let s: String = match read_str(rd) {
        Ok(s) => s,
        Err(e) => {
            return Err(e);
        },
    };
    let chars: Vec<char> = chars_of(s.as_str());
    let (key, value) = split_at_first(&chars, '=');
    let key: String = string_of(key.as_slice());
    let value: String = match value {
        Some(v) => string_of(v.as_slice()),
        None => String::new(),
    };
    Ok((key, value))
}

fn read_entries(rd: &mut Limited<Cursor<'_>>, count: u32) -> (r: Result<
    Vec<(String, String)>,
    Error,
>)
    requires
        old(rd).backed(),
    ensures
        match r {
            Ok(v) => spec_read_entries(old(rd).window(), count as nat) matches Ok(p) && p.0
                == entry_views(v@) && final(rd).window() == old(rd).window().skip(p.1 as int)
                && final(rd).backed() && p.1 <= old(rd).window().len(),
            Err(e) => spec_read_entries(old(rd).window(), count as nat) == Err::<
                (Seq<(Seq<char>, Seq<char>)>, nat),
                ErrorKind,
            >(e.kind),
        },
{
    let ghost body = rd.window();
    let mut entries: Vec<(String, String)> = Vec::new();
    let ghost mut taken: nat = 0;
    let mut i: u32 = 0;
    assert(body.skip(0) =~= body);
    assert(entry_views(entries@) =~= Seq::empty());
    proof {
        let all = spec_read_entries(body, count as nat);
        if all is Ok {
            assert(entry_views(entries@) + all->Ok_0.0 =~= all->Ok_0.0);
        }
    }
    while i < count
        invariant
            i <= count,
            rd.backed(),
            body == old(rd).window(),
            taken <= body.len(),
            rd.window() == body.skip(taken as int),
            match spec_read_entries(rd.window(), (count - i) as nat) {
                Ok(tail) => spec_read_entries(body, count as nat) == Ok::<
                    (Seq<(Seq<char>, Seq<char>)>, nat),
                    ErrorKind,
                >((entry_views(entries@) + tail.0, taken + tail.1)),
                Err(e) => spec_read_entries(body, count as nat) == Err::<
                    (Seq<(Seq<char>, Seq<char>)>, nat),
                    ErrorKind,
                >(e),
            },
        decreases count - i,
    {
        let ghost here = rd.window();
        let entry: (String, String) = match read_entry(rd) {
            Ok(entry) => entry,
            Err(e) => {
                return Err(e);
            },
        };
        let ghost before = entry_views(entries@);
        let ghost added = (entry.0@, entry.1@);
        entries.push(entry);
        proof {
            let step = spec_read_str(here)->Ok_0;
            assert(entry_views(entries@) =~= before.push(added));
            assert(body.skip(taken as int).skip(step.1 as int) =~= body.skip(
                (taken + step.1) as int,
            ));
            let tail = spec_read_entries(here.skip(step.1 as int), (count - i - 1) as nat);
            if tail is Ok {
                assert(before + (seq![added] + tail->Ok_0.0) =~= entry_views(entries@)
                    + tail->Ok_0.0);
            }
            taken = taken + step.1;
        }
        i += 1;
    }
    proof {
        assert(entry_views(entries@) + Seq::<(Seq<char>, Seq<char>)>::empty() =~= entry_views(
            entries@,
        ));
    }
    Ok(entries)
}

impl Vcomment {
    pub fn vendor(&self) -> (r: &str)
        ensures
            r@ == self@.vendor,
    {
        self.vendor.as_str()
    }

    /// The entries, in order.
    pub fn entries(&self) -> (r: Vec<(&str, &str)>)
        ensures
            r@.len() == self@.entries.len(),
            forall|i: int| 0 <= i < r@.len() ==> (#[trigger] r@[i]).0@ == self@.entries[i].0
                && r@[i].1@
                == self@.entries[i].1,
    {
        let mut r: Vec<(&str, &str)> = Vec::new();
        let mut i: usize = 0;
        while i < self.entries.len()
            invariant
                i <= self.entries@.len(),
                r@.len() == i,
                forall|j: int| 0 <= j < i ==> (#[trigger] r@[j]).0@ == self@.entries[j].0
                    && r@[j].1@
                    == self@.entries[j].1,
            decreases self.entries@.len() - i,
        {
            r.push((self.entries[i].0.as_str(), self.entries[i].1.as_str()));
            i += 1;
        }
        r
    }

    /// The values of the entries with the key `key`, whatever the case of
    /// its ASCII letters, in order.
    pub fn get(&self, key: &str) -> (r: Vec<&str>)
        ensures
            strs_view(r@) == spec_get(self@.entries, key@),
    {
        let key_chars: Vec<char> = chars_of(key);
        let mut r: Vec<&str> = Vec::new();
        let mut i: usize = 0;
        assert(self@.entries.take(0) =~= Seq::empty());
        assert(strs_view(r@) =~= Seq::<Seq<char>>::empty());
        while i < self.entries.len()
            invariant
                i <= self.entries@.len(),
                key_chars@ == key@,
                strs_view(r@) == spec_get(self@.entries.take(i as int), key@),
            decreases self.entries@.len() - i,
        {
            let ghost before = strs_view(r@);
            assert(self@.entries.take(i + 1).drop_last() =~= self@.entries.take(i as int));
            if keys_match(self.entries[i].0.as_str(), &key_chars) {
                r.push(self.entries[i].1.as_str());
                assert(strs_view(r@) =~= before.push(self@.entries[i as int].1));
            }
            i += 1;
        }
        assert(self@.entries.take(self@.entries.len() as int) =~= self@.entries);
        r
    }

    /// The value of the first entry with the key `key`.
    pub fn first(&self, key: &str) -> (r: Option<&str>)
        ensures
            opt_str(r) == spec_first(self@.entries, key@),
    {
        let all: Vec<&str> = self.get(key);
        if all.len() > 0 {
            Some(all[0])
        } else {
            None
        }
    }

    pub fn title(&self) -> (r: Option<&str>)
        ensures
            opt_str(r) == spec_first(self@.entries, "TITLE"@),
    {
        self.first("TITLE")
    }

    pub fn artist(&self) -> (r: Option<&str>)
        ensures
            opt_str(r) == spec_first(self@.entries, "ARTIST"@),
    {
        self.first("ARTIST")
    }

    pub fn album(&self) -> (r: Option<&str>)
        ensures
            opt_str(r) == spec_first(self@.entries, "ALBUM"@),
    {
        self.first("ALBUM")
    }

    pub fn genre(&self) -> (r: Option<&str>)
        ensures
            opt_str(r) == spec_first(self@.entries, "GENRE"@),
    {
        self.first("GENRE")
    }

    /// The timestamp that the first entry with the key `DATE` spells.
    pub fn date(&self) -> (r: Option<Timestamp>)
        ensures
            (match r {
                Some(t) => Some(t@),
                None => None,
            }) == (match spec_first(self@.entries, "DATE"@) {
                Some(s) => spec_parse(s),
                None => None::<Fields>,
            }),
    {
        match self.first("DATE") {
            Some(s) => match Timestamp::parse(s) {
                Ok(t) => Some(t),
                Err(_) => None,
            },
            None => None,
        }
    }

    /// Reads a comment, with the framing bit behind it where `framing` is
    /// set.
    pub fn read_limited(rd: &mut Limited<Cursor<'_>>, framing: bool) -> (r: Result<Vcomment, Error>)
        ensures
            match r {
                Ok(v) => spec_read_vcomment(old(rd).window(), framing) matches Ok(p) && p.0 == v@
                    && p.1 <= old(rd).window().len() && final(rd).window() == old(rd).window().skip(
                    p.1 as int,
                ) && final(rd).backed(),
                Err(e) => spec_read_vcomment(old(rd).window(), framing) == Err::<
                    (VcommentView, nat),
                    ErrorKind,
                >(e.kind),
            },
    {
        rd.limit_to_source();
        reveal(spec_read_vcomment);
        let ghost w = rd.window();
        let vendor: String = match read_str(rd) {
            Ok(s) => s,
            Err(e) => {
                return Err(e);
            },
        };
        let ghost rest = rd.window();
        let ghost at_count = *rd;
        let count_bytes: &[u8] = match rd.take_exact(4) {
            Ok(b) => b,
            Err(e) => {
                return Err(e);
            },
        };
        assert(count_bytes@[0] == rest[0] && count_bytes@[1] == rest[1] && count_bytes@[2]
            == rest[2] && count_bytes@[3] == rest[3]);
        let count: u32 = le_u32(count_bytes);
        proof {
            rd.lemma_advanced_window(&at_count, 4);
        }
        if count as u64 * 4 > rd.max_available() {
            return Err(Error::new(ErrorKind::InvalidData, "vcomment entries truncated"));
        }
        let ghost body = rd.window();
        let entries: Vec<(String, String)> = match read_entries(rd, count) {
            Ok(v) => v,
            Err(e) => {
                return Err(e);
            },
        };
        let ghost end = rd.window();
        let ghost before_framing = *rd;
        if framing {
            match rd.read_u8() {
                Ok(b) => {
                    if !get_bit_u8(b, 7) {
                        return Err(Error::new(ErrorKind::InvalidData, "framing bit is not set"));
                    }
                    proof {
                        rd.lemma_advanced_window(&before_framing, 1);
                    }
                },
                Err(e) => {
                    return Err(e);
                },
            }
        }
        let r = Vcomment { vendor, entries };
        proof {
            assert(r@.entries =~= entry_views(entries@));
            let p = spec_read_vcomment(w, framing)->Ok_0;
            let vendor_len = spec_read_str(w)->Ok_0.1;
            let entries_len = spec_read_entries(body, count as nat)->Ok_0.1;
            assert(body == w.skip(vendor_len as int).skip(4));
            assert(end == body.skip(entries_len as int));
            assert(w.skip(vendor_len as int).skip(4).skip(entries_len as int) =~= w.skip(
                (vendor_len + 4 + entries_len) as int,
            ));
            if framing {
                assert(w.skip((vendor_len + 4 + entries_len) as int).skip(1) =~= w.skip(
                    p.1 as int,
                ));
            }
        }
        Ok(r)
    }
}

pub open spec fn entry_views(v: Seq<(String, String)>) -> Seq<(Seq<char>, Seq<char>)> {
    Seq::new(v.len(), |i: int| (v[i].0@, v[i].1@))
}

} // verus!
