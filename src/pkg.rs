//! The archive container: a version string, an entry table, and the blobs
//! that the entries locate in the data section after the table.
use vstd::prelude::*;
use vstd::string::StrSliceExecFns;
use vstd::utf8::{decode_utf8, valid_utf8};
use crate::bytes::{copy_range, le_u32, read_u32_le, u32_at};
use crate::error::PkgError;
use crate::tex::{parse, tex_image};
use crate::text::utf8_string;

verus! {

/// The archive's header.
pub struct Header {
    pub version: String,
    /// Number of entries in the table.
    pub file_count: u32,
}

/// One stored file: its relative path, and where its blob lies relative to
/// the start of the data section.
pub struct Entry {
    pub path: String,
    pub offset: u32,
    pub size: u32,
}

/// An entry as a mathematical value: path, offset, size.
pub type EntryView = (Seq<char>, u32, u32);

impl Entry {
    pub open spec fn view_entry(&self) -> EntryView {
        (self.path@, self.offset, self.size)
    }
}

/// The UTF-8 string stored at `pos` after its 4-byte length, and the offset
/// after it.
pub open spec fn spec_string_at(d: Seq<u8>, pos: int) -> Result<(Seq<char>, int), PkgError> {
    if pos + 4 > d.len() {
        Err(PkgError::Io)
    } else if pos + 4 + le_u32(d, pos) > d.len() {
        Err(PkgError::Io)
    } else {
        let raw = d.subrange(pos + 4, pos + 4 + le_u32(d, pos));
        if valid_utf8(raw) {
            Ok((decode_utf8(raw), pos + 4 + le_u32(d, pos)))
        } else {
            Err(PkgError::Format)
        }
    }
}

/// The table entry at `pos` (path, offset, size) and the offset after it.
pub open spec fn spec_entry_at(d: Seq<u8>, pos: int) -> Result<(EntryView, int), PkgError> {
    match spec_string_at(d, pos) {
        Err(e) => Err(e),
        Ok((path, p)) => if p + 8 > d.len() {
            Err(PkgError::Io)
        } else {
            Ok(((path, le_u32(d, p), le_u32(d, p + 4)), p + 8))
        },
    }
}

/// The first `n` table entries from `pos`, read one after the other, and the
/// offset after them.
pub open spec fn spec_entries(d: Seq<u8>, pos: int, n: nat) -> Result<(Seq<EntryView>, int), PkgError>
    decreases n,
{
    if n == 0 {
        Ok((seq![], pos))
    } else {
        match spec_entries(d, pos, (n - 1) as nat) {
            Err(e) => Err(e),
            Ok((es, p)) => match spec_entry_at(d, p) {
                Err(e) => Err(e),
                Ok((e, q)) => Ok((es.push(e), q)),
            },
        }
    }
}

/// The version, the entry table, and the start of the data section.
pub open spec fn spec_table(d: Seq<u8>) -> Result<(Seq<char>, Seq<EntryView>, int), PkgError> {
    match spec_string_at(d, 0) {
        Err(e) => Err(e),
        Ok((v, p)) => if p + 4 > d.len() {
            Err(PkgError::Io)
        } else {
            match spec_entries(d, p + 4, le_u32(d, p) as nat) {
                Err(e) => Err(e),
                Ok((es, start)) => Ok((v, es, start)),
            }
        },
    }
}

/// The blob of `e` lies within `d`.
pub open spec fn blob_fits(d: Seq<u8>, start: int, e: EntryView) -> bool {
    start + e.1 + e.2 <= d.len()
}

pub open spec fn spec_blob(d: Seq<u8>, start: int, e: EntryView) -> Seq<u8> {
    d.subrange(start + e.1, start + e.1 + e.2)
}

/// The last component of `p` has the extension `tex`: it ends in `.tex`
/// and has something before the dot.
pub open spec fn has_tex_extension(p: Seq<char>) -> bool {
    &&& p.len() >= 5
    &&& p[p.len() - 5] != '/'
    &&& p[p.len() - 4] == '.'
    &&& p[p.len() - 3] == 't'
    &&& p[p.len() - 2] == 'e'
    &&& p[p.len() - 1] == 'x'
}

/// Tells whether `path`'s last component has the extension `tex`.
pub fn is_tex_path(path: &str) -> (r: bool)
    ensures
        r == has_tex_extension(path@),
{
    let n = path.unicode_len();
    if n < 5 {
        return false;
    }
    path.get_char(n - 5) != '/' && path.get_char(n - 4) == '.' && path.get_char(n - 3) == 't'
        && path.get_char(n - 2) == 'e' && path.get_char(n - 1) == 'x'
}

/// What to write for a stored file: its bytes as they are, or, for a `.tex`
/// path when textures are converted, the converted file and its new
/// extension.
pub open spec fn saved_output(path: Seq<char>, blob: Seq<u8>, parse_tex: bool) -> Result<
    (Seq<u8>, Option<Seq<char>>),
    PkgError,
> {
    if parse_tex && has_tex_extension(path) {
        match tex_image(blob) {
            Ok((b, ext)) => Ok((b, Some(ext))),
            Err(e) => Err(e),
        }
    } else {
        Ok((blob, None))
    }
}

pub open spec fn output_view(r: Result<(Vec<u8>, Option<String>), PkgError>) -> Result<
    (Seq<u8>, Option<Seq<char>>),
    PkgError,
> {
    match r {
        Ok((v, Some(ext))) => Ok((v@, Some(ext@))),
        Ok((v, None)) => Ok((v@, None)),
        Err(e) => Err(e),
    }
}

/// An opened archive, with every blob read.
pub struct Pkg {
    pub header: Header,
    pub entries: Vec<Entry>,
    /// The blob of each entry, in the order of the table.
    pub files: Vec<Vec<u8>>,
    /// Offset of the data section in the archive.
    pub data_start: usize,
}

proof fn lemma_entries_stay_failed(d: Seq<u8>, pos: int, k: nat, n: nat)
    requires
        k <= n,
        spec_entries(d, pos, k) is Err,
    ensures
        spec_entries(d, pos, n) == spec_entries(d, pos, k),
    decreases n - k,
{
    if k < n {
        lemma_entries_stay_failed(d, pos, k, (n - 1) as nat);
    }
}

proof fn lemma_entries_len(d: Seq<u8>, pos: int, n: nat)
    requires
        spec_entries(d, pos, n) is Ok,
    ensures
        spec_entries(d, pos, n)->Ok_0.0.len() == n,
    decreases n,
{
    if n > 0 {
        lemma_entries_len(d, pos, (n - 1) as nat);
    }
}

/// Every blob of `es` lies within `d`.
pub open spec fn all_blobs_fit(d: Seq<u8>, start: int, es: Seq<EntryView>) -> bool {
    forall|i: int| 0 <= i < es.len() ==> #[trigger] blob_fits(d, start, es[i])
}

pub open spec fn entries_view(entries: Seq<Entry>) -> Seq<EntryView> {
    entries.map_values(|e: Entry| e.view_entry())
}

impl Pkg {
    /// One entry per blob.
    pub open spec fn wf(&self) -> bool {
        self.files@.len() == self.entries@.len()
    }

    /// This archive is what archive bytes `d` describe: version `v`, entries
    /// `es`, data section at `start`.
    pub open spec fn read_from(&self, d: Seq<u8>, v: Seq<char>, es: Seq<EntryView>, start: int) -> bool {
        &&& self.header.version@ == v
        &&& self.header.file_count == es.len()
        &&& self.entries@.len() == es.len()
        &&& forall|i: int| 0 <= i < es.len() ==> #[trigger] self.entries@[i].view_entry() == es[i]
        &&& self.data_start == start
        &&& self.files@.len() == es.len()
        &&& forall|i: int| 0 <= i < es.len() ==> #[trigger] self.files@[i]@ == spec_blob(d, start, es[i])
    }

    /// Opens archive bytes `data`: reads the header and the entry table, then
    /// every blob. A field or blob cut short fails with `Io`; a version or
    /// path that is not UTF-8 fails with `Format`.
    pub fn new(data: &[u8]) -> (r: Result<Pkg, PkgError>)
        ensures
            match spec_table(data@) {
                Err(e) => r == Err::<Pkg, PkgError>(e),
                Ok((v, es, start)) => if all_blobs_fit(data@, start, es) {
                    r matches Ok(p) && p.read_from(data@, v, es, start)
                } else {
                    r == Err::<Pkg, PkgError>(PkgError::Io)
                },
            },
            r matches Ok(p) ==> p.wf(),
            r matches Ok(p) ==> forall|i: int|
                0 <= i < p.entries@.len() ==> p.data_start + (#[trigger] p.entries@[i]).offset
                    + p.entries@[i].size <= data@.len(),
            r matches Ok(p) ==> forall|i: int|
                0 <= i < p.entries@.len() ==> #[trigger] p.files@[i]@ == data@.subrange(
                    p.data_start + p.entries@[i].offset,
                    p.data_start + p.entries@[i].offset + p.entries@[i].size,
                ),
    {
        let (header, pos) = match Self::read_header(data) {
            Ok(h) => h,
            Err(e) => {
                return Err(e);
            },
        };
        let (entries, data_start) = match Self::read_entries(data, pos, header.file_count) {
            Ok(t) => t,
            Err(e) => {
                return Err(e);
            },
        };
        let ghost es = entries_view(entries@);
        proof {
            lemma_entries_len(data@, pos as int, header.file_count as nat);
        }
        assert(spec_table(data@) == Ok::<(Seq<char>, Seq<EntryView>, int), PkgError>(
            (header.version@, es, data_start as int),
        ));
        assert forall|i: int| 0 <= i < es.len() implies es[i] == #[trigger] entries@[i].view_entry() by {}
        let files = match Self::read_files(data, data_start, &entries) {
            Ok(f) => f,
            Err(e) => {
                return Err(e);
            },
        };
        let p = Pkg { header, entries, files, data_start };
        assert forall|i: int| 0 <= i < p.entries@.len() implies p.data_start + (
        #[trigger] p.entries@[i]).offset + p.entries@[i].size <= data@.len() by {
            assert(blob_fits(data@, data_start as int, es[i]));
        }
        Ok(p)
    }

    /// What to write for each entry, in table order: the blob as it is, or,
    /// for a `.tex` path when `parse_tex` is set, the converted texture and
    /// the extension that replaces `tex`. One entry's failure leaves the
    /// others alone.
    pub fn save_pkg(&self, parse_tex: bool) -> (r: Vec<Result<(Vec<u8>, Option<String>), PkgError>>)
        requires
            self.wf(),
        ensures
            r@.len() == self.entries@.len(),
            forall|i: int|
                0 <= i < r@.len() ==> output_view(#[trigger] r@[i]) == saved_output(
                    self.entries@[i].path@,
                    self.files@[i]@,
                    parse_tex,
                ),
    {
        let mut out: Vec<Result<(Vec<u8>, Option<String>), PkgError>> = Vec::new();
        let mut i: usize = 0;
        while i < self.entries.len()
            invariant
                self.wf(),
                i <= self.entries@.len(),
                out@.len() == i,
                forall|j: int|
                    0 <= j < i ==> output_view(#[trigger] out@[j]) == saved_output(
                        self.entries@[j].path@,
                        self.files@[j]@,
                        parse_tex,
                    ),
            decreases self.entries@.len() - i,
        {
            let blob = &self.files[i];
            let item = if parse_tex && is_tex_path(self.entries[i].path.as_str()) {
                match parse(blob.as_slice()) {
                    Ok((bytes, ext)) => Ok((bytes, Some(ext))),
                    Err(e) => Err(e),
                }
            } else {
                Ok((blob.clone(), None))
            };
            out.push(item);
            i = i + 1;
        }
        out
    }

    /// The length-prefixed UTF-8 string at `pos`.
    fn read_string(data: &[u8], pos: usize) -> (r: Result<(String, usize), PkgError>)
        requires
            pos <= data@.len(),
        ensures
            match spec_string_at(data@, pos as int) {
                Ok((s, p)) => r matches Ok((x, q)) && x@ == s && q == p,
                Err(e) => r == Err::<(String, usize), PkgError>(e),
            },
    {
        let n = match read_u32_le(data, pos) {
            Some(n) => n,
            None => {
                return Err(PkgError::Io);
            },
        };
        if data.len() - pos - 4 < n as usize {
            return Err(PkgError::Io);
        }
        let end = pos + 4 + n as usize;
        let raw = copy_range(data, pos + 4, end);
        match utf8_string(raw) {
            Some(s) => Ok((s, end)),
            None => Err(PkgError::Format),
        }
    }

    /// The header, and the offset where the entry table starts.
    fn read_header(data: &[u8]) -> (r: Result<(Header, usize), PkgError>)
        ensures
            match spec_string_at(data@, 0) {
                Err(e) => r == Err::<(Header, usize), PkgError>(e),
                Ok((v, p)) => if p + 4 > data@.len() {
                    r == Err::<(Header, usize), PkgError>(PkgError::Io)
                } else {
                    r matches Ok((h, q)) && h.version@ == v && h.file_count == le_u32(data@, p) && q
                        == p + 4
                },
            },
    {
        let (version, pos) = match Self::read_string(data, 0) {
            Ok(t) => t,
            Err(e) => {
                return Err(e);
            },
        };
        if data.len() - pos < 4 {
            return Err(PkgError::Io);
        }
        let file_count = u32_at(data, pos);
        Ok((Header { version, file_count }, pos + 4))
    }

    /// `count` table entries from `pos`, and the offset after them: the
    /// start of the data section.
    fn read_entries(data: &[u8], pos: usize, count: u32) -> (r: Result<(Vec<Entry>, usize), PkgError>)
        requires
            pos <= data@.len(),
        ensures
            match spec_entries(data@, pos as int, count as nat) {
                Err(e) => r == Err::<(Vec<Entry>, usize), PkgError>(e),
                Ok((es, p)) => r matches Ok((v, q)) && entries_view(v@) == es && q == p,
            },
    {
        let mut entries: Vec<Entry> = Vec::new();
        let mut at: usize = pos;
        let mut i: u32 = 0;
        assert(entries_view(entries@) =~= seq![]);
        while i < count
            invariant
                i <= count,
                pos <= data@.len(),
                at <= data@.len(),
                spec_entries(data@, pos as int, i as nat) == Ok::<(Seq<EntryView>, int), PkgError>(
                    (entries_view(entries@), at as int),
                ),
            decreases count - i,
        {
            let (path, after) = match Self::read_string(data, at) {
                Ok(t) => t,
                Err(e) => {
                    proof {
                        lemma_entries_stay_failed(data@, pos as int, (i + 1) as nat, count as nat);
                    }
                    return Err(e);
                },
            };
            if data.len() - after < 8 {
                proof {
                    lemma_entries_stay_failed(data@, pos as int, (i + 1) as nat, count as nat);
                }
                return Err(PkgError::Io);
            }
            let offset = u32_at(data, after);
            let size = u32_at(data, after + 4);
            let ghost before = entries@;
            entries.push(Entry { path, offset, size });
            assert(entries_view(entries@) =~= entries_view(before).push((path@, offset, size)));
            at = after + 8;
            i = i + 1;
        }
        Ok((entries, at))
    }

    /// Reads the blob of `entry` from archive bytes `data` whose data
    /// section starts at `data_start`; `Io` where it runs past the end.
    pub fn read_blob(data: &[u8], data_start: usize, entry: &Entry) -> (r: Result<Vec<u8>, PkgError>)
        ensures
            r is Ok <==> blob_fits(data@, data_start as int, entry.view_entry()),
            r matches Ok(v) ==> v@ == spec_blob(data@, data_start as int, entry.view_entry()),
            r matches Err(e) ==> e == PkgError::Io,
    {
        if data_start > data.len() {
            return Err(PkgError::Io);
        }
        let rest = data.len() - data_start;
        if (entry.offset as usize) > rest || (entry.size as usize) > rest - entry.offset as usize {
            return Err(PkgError::Io);
        }
        let begin = data_start + entry.offset as usize;
        Ok(copy_range(data, begin, begin + entry.size as usize))
    }

    /// The blob of every entry, in table order; `Io` where one runs past the
    /// end.
    fn read_files(data: &[u8], data_start: usize, entries: &Vec<Entry>) -> (r: Result<
        Vec<Vec<u8>>,
        PkgError,
    >)
        ensures
            r is Ok <==> all_blobs_fit(data@, data_start as int, entries_view(entries@)),
            r matches Err(e) ==> e == PkgError::Io,
            r matches Ok(fs) ==> fs@.len() == entries@.len() && forall|i: int|
                0 <= i < entries@.len() ==> #[trigger] fs@[i]@ == spec_blob(
                    data@,
                    data_start as int,
                    entries@[i].view_entry(),
                ),
    {
        let mut files: Vec<Vec<u8>> = Vec::new();
        let mut i: usize = 0;
        while i < entries.len()
            invariant
                i <= entries@.len(),
                files@.len() == i,
                forall|j: int|
                    0 <= j < i ==> #[trigger] blob_fits(
                        data@,
                        data_start as int,
                        entries@[j].view_entry(),
                    ),
                forall|j: int|
                    0 <= j < i ==> #[trigger] files@[j]@ == spec_blob(
                        data@,
                        data_start as int,
                        entries@[j].view_entry(),
                    ),
            decreases entries@.len() - i,
        {
            match Self::read_blob(data, data_start, &entries[i]) {
                Ok(blob) => {
                    files.push(blob);
                },
                Err(e) => {
                    assert(!blob_fits(data@, data_start as int, entries_view(entries@)[i as int]));
                    return Err(e);
                },
            }
            i = i + 1;
        }
        assert forall|j: int| 0 <= j < entries@.len() implies #[trigger] blob_fits(
            data@,
            data_start as int,
            entries_view(entries@)[j],
        ) by {
            assert(blob_fits(data@, data_start as int, entries@[j].view_entry()));
        }
        Ok(files)
    }
}

} // verus!
