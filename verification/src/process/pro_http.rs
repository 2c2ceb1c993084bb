//! HTTP message reconstruction.
//!
//! The payload of one frame is split at the first blank line into a header
//! section and a body, the header lines are read into a lookup table, the
//! body is unwrapped from a restricted form of chunked transfer encoding
//! and from gzip compression, and the requested sections are assembled
//! into one byte sequence.  Reconstruction never fails: whatever cannot be
//! decoded is passed on, repaired or replaced by an in band note.

use vstd::prelude::*;
use vstd::slice::{slice_subrange, slice_to_vec};
use vstd::string::StrSliceExecFns;
use vstd::utf8::encode_utf8;

use crate::text::{
    find_char_from,
    lines_of,
    spec_split,
    split_str,
    lossy_string,
    lossy_utf8,
    spec_find,
    spec_lines,
    spec_str_starts_with,
    spec_trim,
    str_eq,
    str_starts_with,
    trim_str,
};

verus! {

// ------------------------------------------------------------------
// The header lookup table
// ------------------------------------------------------------------
/// A header line with a colon becomes one table entry: the text before the
/// first colon and the text after it, each with surrounding white space
/// removed.  A line without a colon is dropped.
pub open spec fn spec_split_header_line(line: Seq<char>) -> Option<(Seq<char>, Seq<char>)> {
    let i = spec_find(line, ':', 0);
    if i < line.len() {
        Some((spec_trim(line.take(i as int)), spec_trim(line.skip(i + 1 as int))))
    } else {
        None
    }
}

/// The table entries read from a sequence of header lines, in order.
pub open spec fn spec_header_entries(lines: Seq<Seq<char>>) -> Seq<(Seq<char>, Seq<char>)>
    decreases lines.len(),
{
    if lines.len() == 0 {
        Seq::empty()
    } else {
        let rest = spec_header_entries(lines.drop_last());
        match spec_split_header_line(lines.last()) {
            Some(e) => rest.push(e),
            None => rest,
        }
    }
}

/// Entries folded into a map, a later entry overwriting an earlier one
/// with the same key.
pub open spec fn spec_map_of_entries(entries: Seq<(Seq<char>, Seq<char>)>) -> Map<
    Seq<char>,
    Seq<char>,
>
    decreases entries.len(),
{
    if entries.len() == 0 {
        Map::empty()
    } else {
        spec_map_of_entries(entries.drop_last()).insert(entries.last().0, entries.last().1)
    }
}

/// The header table of a decoded header section: its lines after the
/// first (the request or status line names no header), keyed by header
/// name, a later occurrence winning.
pub open spec fn spec_header_map(s: Seq<char>) -> Map<Seq<char>, Seq<char>> {
    let lines = spec_lines(s);
    if lines.len() == 0 {
        Map::empty()
    } else {
        spec_map_of_entries(spec_header_entries(lines.drop_first()))
    }
}

/// The header lookup table of one message: name to value, the last
/// occurrence of a name winning.  Built fresh for every reconstruction
/// and dropped afterwards.
pub struct HeaderMap {
    entries: Vec<(String, String)>,
}

impl HeaderMap {
    /// The entries in insertion order, as character sequences.
    pub closed spec fn spec_entries(&self) -> Seq<(Seq<char>, Seq<char>)> {
        self.entries@.map_values(|e: (String, String)| (e.0@, e.1@))
    }

    /// The mapping the table stands for.
    pub open spec fn as_map(&self) -> Map<Seq<char>, Seq<char>> {
        spec_map_of_entries(self.spec_entries())
    }

    /// An empty table.
    pub fn new() -> (r: HeaderMap)
        ensures
            r.spec_entries() == Seq::<(Seq<char>, Seq<char>)>::empty(),
            r.as_map() == Map::<Seq<char>, Seq<char>>::empty(),
    {
        let r = HeaderMap { entries: Vec::new() };
        proof {
            assert(r.spec_entries() =~= Seq::<(Seq<char>, Seq<char>)>::empty());
        }
        r
    }

    /// Add one entry, overwriting whatever the key was mapped to before.
    pub fn insert(&mut self, key: String, value: String)
        ensures
            final(self).spec_entries() == old(self).spec_entries().push((key@, value@)),
            final(self).as_map() == old(self).as_map().insert(key@, value@),
    {
        let ghost k = key@;
        let ghost v = value@;
        self.entries.push((key, value));
        proof {
            assert(self.spec_entries() =~= old(self).spec_entries().push((k, v)));
            assert(self.spec_entries().drop_last() =~= old(self).spec_entries());
        }
    }

    /// Look a name up: the value of the last entry with this key, if any.
    pub fn get(&self, key: &str) -> (r: Option<&String>)
        ensures
            r is Some <==> self.as_map().contains_key(key@),
            r matches Some(v) ==> self.as_map().contains_key(key@) && self.as_map()[key@] == v@,
    {
        let n = self.entries.len();
        let mut i: usize = n;
        while i > 0
            invariant
                0 <= i <= n,
                n == self.entries@.len(),
                forall|j: int| i <= j < n ==> self.spec_entries()[j].0 != key@,
            decreases i,
        {
            i -= 1;
            if str_eq(self.entries[i].0.as_str(), key) {
                proof {
                    lemma_map_of_entries_found(self.spec_entries(), key@, i as int);
                }
                return Some(&self.entries[i].1);
            }
        }
        proof {
            lemma_map_of_entries_absent(self.spec_entries(), key@);
        }
        None
    }
}

proof fn lemma_map_of_entries_found(entries: Seq<(Seq<char>, Seq<char>)>, key: Seq<char>, i: int)
    requires
        0 <= i < entries.len(),
        entries[i].0 == key,
        forall|j: int| i < j < entries.len() ==> entries[j].0 != key,
    ensures
        spec_map_of_entries(entries).contains_key(key),
        spec_map_of_entries(entries)[key] == entries[i].1,
    decreases entries.len(),
{
    if i == entries.len() - 1 {
    } else {
        lemma_map_of_entries_found(entries.drop_last(), key, i);
    }
}

proof fn lemma_map_of_entries_absent(entries: Seq<(Seq<char>, Seq<char>)>, key: Seq<char>)
    requires
        forall|j: int| 0 <= j < entries.len() ==> entries[j].0 != key,
    ensures
        !spec_map_of_entries(entries).contains_key(key),
    decreases entries.len(),
{
    if entries.len() > 0 {
        lemma_map_of_entries_absent(entries.drop_last(), key);
    }
}

// ------------------------------------------------------------------
// Finding the header/body separator
// ------------------------------------------------------------------
/// Whether the four bytes at `i` are CR LF CR LF.
pub open spec fn spec_sep_at(data: Seq<u8>, i: int) -> bool {
    &&& 0 <= i
    &&& i + 4 <= data.len()
    &&& data[i] == 13
    &&& data[i + 1] == 10
    &&& data[i + 2] == 13
    &&& data[i + 3] == 10
}

/// The first position at or after `from` where CR LF CR LF begins, or the
/// length of `data` when there is none.
pub open spec fn spec_find_sep_from(data: Seq<u8>, from: nat) -> nat
    decreases data.len() - from,
{
    if from + 4 > data.len() {
        data.len()
    } else if spec_sep_at(data, from as int) {
        from
    } else {
        spec_find_sep_from(data, from + 1)
    }
}

/// Where the header section of `data` ends: the first CR LF CR LF, or the
/// whole length when the separator never occurs.
pub open spec fn spec_find_sep(data: Seq<u8>) -> nat {
    spec_find_sep_from(data, 0)
}

/// What `spec_find_sep` returns: a position no later than the end, the
/// separator itself when one fits, and nothing separator shaped before it.
pub proof fn lemma_find_sep(data: Seq<u8>, from: nat)
    requires
        from <= data.len(),
    ensures
        from <= spec_find_sep_from(data, from) <= data.len(),
        spec_find_sep_from(data, from) + 4 <= data.len() ==> spec_sep_at(
            data,
            spec_find_sep_from(data, from) as int,
        ),
        forall|j: int| from <= j < spec_find_sep_from(data, from) ==> !spec_sep_at(data, j),
    decreases data.len() - from,
{
    if from + 4 <= data.len() && !spec_sep_at(data, from as int) {
        lemma_find_sep(data, from + 1);
    }
}

proof fn lemma_find_sep_is(data: Seq<u8>, from: nat, i: nat)
    requires
        from <= i <= data.len(),
        forall|j: int| from <= j < i ==> !spec_sep_at(data, j),
        i + 4 <= data.len() ==> spec_sep_at(data, i as int),
        i + 4 > data.len() ==> i == data.len(),
    ensures
        spec_find_sep_from(data, from) == i,
    decreases i - from,
{
    if from < i {
        lemma_find_sep_is(data, from + 1, i);
    }
}

// ------------------------------------------------------------------
// Finding the first CR LF pair
// ------------------------------------------------------------------
/// Whether the two bytes at `i` are CR LF.
pub open spec fn spec_crlf_at(data: Seq<u8>, i: int) -> bool {
    &&& 0 <= i
    &&& i + 2 <= data.len()
    &&& data[i] == 13
    &&& data[i + 1] == 10
}

/// The first position at or after `from` where CR LF begins, or the length
/// of `data` when there is none.
pub open spec fn spec_find_crlf_from(data: Seq<u8>, from: nat) -> nat
    decreases data.len() - from,
{
    if from + 2 > data.len() {
        data.len()
    } else if spec_crlf_at(data, from as int) {
        from
    } else {
        spec_find_crlf_from(data, from + 1)
    }
}

proof fn lemma_find_crlf_is(data: Seq<u8>, from: nat, i: nat)
    requires
        from <= i <= data.len(),
        forall|j: int| from <= j < i ==> !spec_crlf_at(data, j),
        i + 2 <= data.len() ==> spec_crlf_at(data, i as int),
        i + 2 > data.len() ==> i == data.len(),
    ensures
        spec_find_crlf_from(data, from) == i,
    decreases i - from,
{
    if from < i {
        lemma_find_crlf_is(data, from + 1, i);
    }
}

proof fn lemma_map_of_entries_push(entries: Seq<(Seq<char>, Seq<char>)>, k: Seq<char>, v: Seq<char>)
    ensures
        spec_map_of_entries(entries.push((k, v))) == spec_map_of_entries(entries).insert(k, v),
{
    assert(entries.push((k, v)).drop_last() =~= entries);
}

// ------------------------------------------------------------------
// Body shaping
// ------------------------------------------------------------------
/// The single chunk read out of a chunked transfer encoded body: whatever
/// follows the first CR LF pair (the chunk size line), or nothing when no
/// such pair occurs.  Later chunk size lines and the stream terminator are
/// left in place: captured bodies are routinely cut short, so only this
/// best effort unwrapping is attempted.
pub open spec fn spec_combin_chunked(data: Seq<u8>) -> Seq<u8> {
    let i = spec_find_crlf_from(data, 0);
    if i + 2 <= data.len() {
        data.skip(i + 2 as int)
    } else {
        Seq::empty()
    }
}

/// The body after transfer encoding normalization: unwrapped when the
/// headers announce exactly `chunked`, untouched for any other
/// announcement or none.
pub open spec fn spec_combin_data(hm: Map<Seq<char>, Seq<char>>, data: Seq<u8>) -> Seq<u8> {
    if hm.contains_key("Transfer-Encoding"@) && hm["Transfer-Encoding"@] == "chunked"@ {
        spec_combin_chunked(data)
    } else {
        data
    }
}

/// What a gzip stream decompresses to, or nothing when it is not a well
/// formed gzip stream.  Decompression is a function of the bytes alone.
pub uninterp spec fn gunzip_of(data: Seq<u8>) -> Option<Seq<u8>>;

/// Relies on `flate2::read::GzDecoder` and `std::io::Read::read_to_end`:
/// reading the decoder to the end yields the whole decompressed stream,
/// a function of the compressed bytes alone, and fails exactly on input
/// that does not decode as gzip.
#[verifier::external_body]
fn gunzip(data: &[u8]) -> (r: Option<Vec<u8>>)
    ensures
        r matches Some(v) ==> gunzip_of(data@) == Some(v@),
        r is None ==> gunzip_of(data@) is None,
{
    let mut decoder = flate2::read::GzDecoder::new(data);
    let mut out: Vec<u8> = Vec::new();
    match std::io::Read::read_to_end(&mut decoder, &mut out) {
        Ok(_) => Some(out),
        Err(_) => None,
    }
}

/// The fixed note that replaces a body compressed with a scheme this
/// crate does not know how to undo.  The text reads "unsupported
/// compression scheme"; its exact bytes are part of the output format,
/// so they must not drift.
pub open spec fn spec_unsupported_note() -> Seq<u8> {
    encode_utf8("不支持的压缩协议"@)
}

fn unsupported_note() -> (r: Vec<u8>)
    ensures
        r@ == spec_unsupported_note(),
{
    "不支持的压缩协议".as_bytes_vec()
}

/// The body after content decoding: untouched when no encoding or
/// `identity` is announced, decompressed when `gzip` is announced and the
/// body decodes (kept compressed when it does not), and replaced by a
/// fixed note for any other announcement.
pub open spec fn spec_decompress(hm: Map<Seq<char>, Seq<char>>, data: Seq<u8>) -> Seq<u8> {
    if !hm.contains_key("Content-Encoding"@) {
        data
    } else if hm["Content-Encoding"@] == "identity"@ {
        data
    } else if hm["Content-Encoding"@] == "gzip"@ {
        match gunzip_of(data) {
            Some(v) => v,
            None => data,
        }
    } else {
        spec_unsupported_note()
    }
}

// ------------------------------------------------------------------
// The reconstructor
// ------------------------------------------------------------------
/// Which parts of an HTTP message to show and whether to show them raw.
#[derive(Debug, Clone, Copy, PartialEq, Eq, Structural)]
pub struct ProArgHttp {
    /// Keep the header section in the output.
    pub head_show: bool,
    /// Keep the body in the output.
    pub body_show: bool,
    /// Pass everything through raw: no body unwrapping, no decompression,
    /// no text repair.
    pub itself: bool,
}

/// The assembled output: the body alone, the header section alone, both
/// joined by a blank line, or (when the body was hidden and came out
/// empty) nothing.
pub open spec fn spec_analyse_target(
    head_show: bool,
    body_show: bool,
    head: Seq<u8>,
    body: Seq<u8>,
) -> Seq<u8> {
    if !head_show {
        body
    } else if !body_show {
        head
    } else {
        head + seq![13u8, 10u8, 13u8, 10u8] + body
    }
}

/// The whole reconstruction of one application payload, step by step: split
/// at the first blank line, read the headers, shape the body, assemble the
/// requested sections, and repair the text unless raw output was asked
/// for.
pub open spec fn spec_reconstruct(data: Seq<u8>, arg: ProArgHttp) -> Seq<u8> {
    let sep = spec_find_sep(data) as int;
    let head = data.take(sep);
    let hm = spec_header_map(lossy_utf8(head));
    let raw_body = if sep + 4 <= data.len() {
        data.skip(sep + 4)
    } else {
        Seq::empty()
    };
    let body = if arg.body_show && arg.itself {
        raw_body
    } else if arg.body_show && raw_body.len() > 0 {
        spec_decompress(hm, spec_combin_data(hm, raw_body))
    } else {
        Seq::empty()
    };
    let target = spec_analyse_target(arg.head_show, arg.body_show, head, body);
    if arg.itself {
        target
    } else {
        encode_utf8(lossy_utf8(target))
    }
}

impl ProArgHttp {
    /// The default reconstruction: show header and body, decoded.
    pub fn new() -> (r: ProArgHttp)
        ensures
            r == (ProArgHttp { head_show: true, body_show: true, itself: false }),
    {
        ProArgHttp { head_show: true, body_show: true, itself: false }
    }

    /// Where the header section of `data` ends: the offset of the first
    /// CR LF CR LF, or the length of `data` when there is none.
    pub fn find_sep_index(data: &[u8]) -> (r: usize)
        ensures
            r == spec_find_sep(data@),
            r <= data@.len(),
    {
        let n = data.len();
        let mut i: usize = 0;
        loop
            invariant
                0 <= i <= n,
                n == data@.len(),
                forall|j: int| 0 <= j < i ==> !spec_sep_at(data@, j),
            decreases n - i,
        {
            if n - i < 4 {
                proof {
                    assert(forall|j: int| 0 <= j < n ==> j >= i ==> !spec_sep_at(data@, j));
                    lemma_find_sep_is(data@, 0, n as nat);
                }
                return n;
            }
            if data[i] == 13 && data[i + 1] == 10 && data[i + 2] == 13 && data[i + 3] == 10 {
                proof {
                    lemma_find_sep_is(data@, 0, i as nat);
                }
                return i;
            }
            i += 1;
        }
    }

    /// Read the header section into a lookup table: every line after the
    /// first that holds a colon becomes an entry, trimmed on both sides of
    /// the first colon, a later occurrence of a name overwriting an
    /// earlier one.  The bytes are decoded as UTF-8 first, invalid
    /// sequences repaired.
    pub fn read_head(head_data: &[u8]) -> (r: HeaderMap)
        ensures
            r.as_map() == spec_header_map(lossy_utf8(head_data@)),
    {
        let s = lossy_string(head_data);
        let ghost sc = s@;
        let lines = lines_of(s.as_str());
        let ghost l = spec_lines(sc);
        let mut map = HeaderMap::new();
        if lines.len() == 0 {
            return map;
        }
        let mut idx: usize = 1;
        while idx < lines.len()
            invariant
                1 <= idx <= lines@.len(),
                lines@.len() == l.len(),
                forall|k: int| 0 <= k < l.len() ==> lines@[k]@ == l[k],
                l == spec_lines(sc),
                l.len() > 0,
                sc == lossy_utf8(head_data@),
                map.as_map() == spec_map_of_entries(spec_header_entries(l.subrange(1, idx as int))),
            decreases lines@.len() - idx,
        {
            let line = &lines[idx];
            let nline = line.as_str().unicode_len();
            let ci = find_char_from(line.as_str(), ':', 0);
            let ghost prev = l.subrange(1, idx as int);
            let ghost cur = l.subrange(1, idx as int + 1);
            proof {
                assert(cur.drop_last() =~= prev);
                assert(cur.last() == l[idx as int]);
            }
            if ci < nline {
                let key = trim_str(line.as_str().substring_char(0, ci));
                let value = trim_str(line.as_str().substring_char(ci + 1, nline));
                proof {
                    assert(line@.subrange(0, ci as int) =~= line@.take(ci as int));
                    assert(line@.subrange(ci as int + 1, nline as int) =~= line@.skip(
                        ci as int + 1,
                    ));
                    assert(spec_split_header_line(l[idx as int]) == Some((key@, value@)));
                }
                let ghost k = key@;
                let ghost v = value@;
                map.insert(key, value);
                proof {
                    lemma_map_of_entries_push(spec_header_entries(prev), k, v);
                    assert(spec_header_entries(cur) == spec_header_entries(prev).push((k, v)));
                }
            } else {
                proof {
                    assert(spec_split_header_line(l[idx as int]) is None);
                    assert(spec_header_entries(cur) == spec_header_entries(prev));
                }
            }
            idx += 1;
        }
        proof {
            assert(l.subrange(1, l.len() as int) =~= l.drop_first());
        }
        map
    }

    /// Unwrap a chunked transfer encoded body as far as a single captured
    /// frame allows: drop the first chunk size line and keep the rest.
    pub fn combin_chunked(data: Vec<u8>) -> (r: Vec<u8>)
        ensures
            r@ == spec_combin_chunked(data@),
    {
        let n = data.len();
        let mut i: usize = 0;
        loop
            invariant
                0 <= i <= n,
                n == data@.len(),
                forall|j: int| 0 <= j < i ==> !spec_crlf_at(data@, j),
            decreases n - i,
        {
            if n - i < 2 {
                proof {
                    assert(forall|j: int| 0 <= j < n ==> j >= i ==> !spec_crlf_at(data@, j));
                    lemma_find_crlf_is(data@, 0, n as nat);
                }
                return Vec::new();
            }
            if data[i] == 13 && data[i + 1] == 10 {
                proof {
                    lemma_find_crlf_is(data@, 0, i as nat);
                }
                return slice_to_vec(slice_subrange(data.as_slice(), i + 2, n));
            }
            i += 1;
        }
    }

    /// Normalize the transfer encoding: unwrap the body when the headers
    /// announce exactly `chunked`, leave it alone otherwise.
    pub fn combin_data(head_map: &HeaderMap, data: Vec<u8>) -> (r: Vec<u8>)
        ensures
            r@ == spec_combin_data(head_map.as_map(), data@),
    {
        match head_map.get("Transfer-Encoding") {
            Some(x) => {
                if str_eq(x.as_str(), "chunked") {
                    Self::combin_chunked(data)
                } else {
                    data
                }
            },
            None => data,
        }
    }

    /// Undo a gzip compressed body; on any decoding failure hand the
    /// still compressed bytes back rather than failing.
    pub fn decompress_gzip(data: Vec<u8>) -> (r: Vec<u8>)
        ensures
            r@ == (match gunzip_of(data@) {
                Some(v) => v,
                None => data@,
            }),
    {
        match gunzip(data.as_slice()) {
            Some(v) => v,
            None => data,
        }
    }

    /// Undo the content encoding: nothing for none or `identity`, gzip
    /// decompression for `gzip`, and a fixed in band note for anything
    /// else.
    pub fn decompress(head_map: &HeaderMap, data: Vec<u8>) -> (r: Vec<u8>)
        ensures
            r@ == spec_decompress(head_map.as_map(), data@),
    {
        match head_map.get("Content-Encoding") {
            None => data,
            Some(x) => {
                if str_eq(x.as_str(), "identity") {
                    data
                } else if str_eq(x.as_str(), "gzip") {
                    Self::decompress_gzip(data)
                } else {
                    unsupported_note()
                }
            },
        }
    }

    /// Assemble the sections the caller asked to see, a blank line between
    /// header and body when both are shown.
    pub fn analyse_target(&self, head: Vec<u8>, body: Vec<u8>) -> (r: Vec<u8>)
        ensures
            r@ == spec_analyse_target(self.head_show, self.body_show, head@, body@),
    {
        let ghost h0 = head@;
        let ghost b0 = body@;
        if !self.head_show {
            return body;
        }
        if !self.body_show {
            return head;
        }
        let mut v = head;
        v.push(13);
        v.push(10);
        v.push(13);
        v.push(10);
        let mut b = body;
        v.append(&mut b);
        proof {
            assert(v@ =~= h0 + seq![13u8, 10u8, 13u8, 10u8] + b0);
        }
        v
    }

    /// Decode bytes to text.  The `charset` parameter of the content type
    /// is looked up, but only UTF-8 is decoded in this version, invalid
    /// sequences repaired with replacement characters.
    pub fn u8_to_str(&self, content_type: Option<&String>, data: &[u8]) -> (r: String)
        ensures
            r@ == lossy_utf8(data@),
    {
        let _encoding = match content_type {
            Some(v) => charset_of(v.as_str()),
            None => None,
        };
        lossy_string(data)
    }

    /// Rebuild one application payload as the flags ask for it: split at
    /// the first blank line, read the headers, shape the body, assemble
    /// the visible sections, and repair the text unless raw output was
    /// asked for.
    pub fn byte_process(&self, data: &[u8]) -> (out: Vec<u8>)
        requires
            data@.len() + 4 <= usize::MAX,
        ensures
            out@ == spec_reconstruct(data@, *self),
    {
        let head_end = Self::find_sep_index(data);
        let head = slice_to_vec(slice_subrange(data, 0, head_end));
        let head_map = Self::read_head(head.as_slice());
        proof {
            assert(data@.subrange(0, head_end as int) =~= data@.take(head_end as int));
        }
        let body: Vec<u8> = if self.body_show && self.itself {
            if head_end + 4 <= data.len() {
                slice_to_vec(slice_subrange(data, head_end + 4, data.len()))
            } else {
                Vec::new()
            }
        } else if self.body_show && data.len() > head_end + 4 {
            let body_data = slice_to_vec(slice_subrange(data, head_end + 4, data.len()));
            let body_data = Self::combin_data(&head_map, body_data);
            Self::decompress(&head_map, body_data)
        } else {
            Vec::new()
        };
        proof {
            if head_end + 4 <= data@.len() {
                assert(data@.subrange(head_end as int + 4, data@.len() as int) =~= data@.skip(
                    head_end as int + 4,
                ));
            }
        }
        let target = self.analyse_target(head, body);
        if self.itself {
            target
        } else {
            let content_type = head_map.get("Content-Type");
            let s = self.u8_to_str(content_type, target.as_slice());
            s.as_str().as_bytes_vec()
        }
    }
}

/// The value of the `charset` parameter of a content type header: in the
/// `;` separated segments, searched from the right, the first one that
/// after trimming begins with `charset=`, with that prefix removed.
pub open spec fn spec_charset_from(segments: Seq<Seq<char>>) -> Option<Seq<char>>
    decreases segments.len(),
{
    if segments.len() == 0 {
        None
    } else {
        let last = spec_trim(segments.last());
        if spec_str_starts_with(last, "charset="@) {
            Some(last.skip("charset="@.len() as int))
        } else {
            spec_charset_from(segments.drop_last())
        }
    }
}

/// The value of the `charset` parameter of a content type header value.
pub open spec fn spec_charset_of(content_type: Seq<char>) -> Option<Seq<char>> {
    spec_charset_from(spec_split(content_type, ';'))
}

/// Read the `charset` parameter out of a content type header value, from
/// its last `;` separated segment that names one.
pub fn charset_of(content_type: &str) -> (r: Option<String>)
    ensures
        r is Some <==> spec_charset_of(content_type@) is Some,
        r matches Some(v) ==> spec_charset_of(content_type@) == Some(v@),
{
    let segments = split_str(content_type, ';');
    let ghost segs = spec_split(content_type@, ';');
    proof {
        assert(segs.take(segs.len() as int) =~= segs);
    }
    let mut i = segments.len();
    while i > 0
        invariant
            0 <= i <= segments@.len(),
            segments@.len() == segs.len(),
            forall|k: int| 0 <= k < segs.len() ==> segments@[k]@ == segs[k],
            segs == spec_split(content_type@, ';'),
            spec_charset_from(segs) == spec_charset_from(segs.take(i as int)),
        decreases i,
    {
        i -= 1;
        let t = trim_str(segments[i].as_str());
        let ghost cur = segs.take(i as int + 1);
        proof {
            assert(cur.drop_last() =~= segs.take(i as int));
            assert(cur.last() == segs[i as int]);
        }
        if str_starts_with(t.as_str(), "charset=") {
            let plen = "charset=".unicode_len();
            let r = t.as_str().substring_char(plen, t.as_str().unicode_len());
            proof {
                assert(t@.subrange("charset="@.len() as int, t@.len() as int) =~= t@.skip(
                    "charset="@.len() as int,
                ));
            }
            return Some(r.to_owned());
        }
    }
    proof {
        assert(segs.take(0) =~= Seq::<Seq<char>>::empty());
    }
    None
}

// ------------------------------------------------------------------
// Laws of the reconstruction
// ------------------------------------------------------------------
/// With raw output and both sections shown, a payload that holds a
/// header/body separator is returned byte for byte.
pub proof fn lemma_reconstruct_itself_identity(data: Seq<u8>)
    requires
        spec_find_sep(data) + 4 <= data.len(),
    ensures
        spec_reconstruct(
            data,
            ProArgHttp { head_show: true, body_show: true, itself: true },
        ) == data,
{
    let sep = spec_find_sep(data) as int;
    lemma_find_sep(data, 0);
    assert(spec_sep_at(data, sep));
    assert(data.take(sep) + seq![13u8, 10u8, 13u8, 10u8] + data.skip(sep + 4) =~= data);
}

/// With raw output and only the body shown, a payload that holds a
/// header/body separator yields exactly what follows the separator.
pub proof fn lemma_reconstruct_body_only(data: Seq<u8>)
    requires
        spec_find_sep(data) + 4 <= data.len(),
    ensures
        spec_reconstruct(
            data,
            ProArgHttp { head_show: false, body_show: true, itself: true },
        ) == data.skip(spec_find_sep(data) + 4 as int),
{
}

/// When the headers announce gzip content encoding and no chunked
/// transfer encoding, the shaped body is the decompressed stream when the
/// body decodes as gzip, and the still compressed body itself when it
/// does not.
pub proof fn lemma_gzip_body(hm: Map<Seq<char>, Seq<char>>, body: Seq<u8>)
    requires
        hm.contains_key("Content-Encoding"@),
        hm["Content-Encoding"@] == "gzip"@,
        !(hm.contains_key("Transfer-Encoding"@) && hm["Transfer-Encoding"@] == "chunked"@),
    ensures
        spec_decompress(hm, spec_combin_data(hm, body)) == (match gunzip_of(body) {
            Some(v) => v,
            None => body,
        }),
{
    proof_strlit_facts();
}

/// When the headers announce a content encoding that is neither
/// `identity` nor `gzip`, the shaped body is the fixed note, whatever the
/// body held.
pub proof fn lemma_unknown_encoding_note(hm: Map<Seq<char>, Seq<char>>, body: Seq<u8>)
    requires
        hm.contains_key("Content-Encoding"@),
        hm["Content-Encoding"@] != "identity"@,
        hm["Content-Encoding"@] != "gzip"@,
    ensures
        spec_decompress(hm, body) == spec_unsupported_note(),
{
}

/// The string literals that the body shaping specification compares
/// against are pairwise distinct.
proof fn proof_strlit_facts()
    ensures
        "gzip"@ != "identity"@,
        "gzip"@ != "chunked"@,
{
    reveal_strlit("gzip");
    reveal_strlit("identity");
    reveal_strlit("chunked");
    assert("gzip"@.len() == 4);
    assert("identity"@.len() == 8);
    assert("chunked"@.len() == 7);
}

} // verus!
