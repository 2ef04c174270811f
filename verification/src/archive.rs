//! Archive installation: a fetched artifact is a gzip-compressed tar
//! stream. Decompression is delegated to flate2 behind a trusted
//! wrapper; the tar structure itself — headers in 512-byte blocks,
//! octal size fields, NUL-terminated names, zero-block terminator —
//! is parsed here and verified against a recursive specification of
//! the format.

use vstd::prelude::*;
use crate::errors::LauncherError;

verus! {

/// Mathematical model of one unpacked entry.
pub struct EntryModel {
    pub path: Seq<u8>,
    pub is_dir: bool,
    pub data: Seq<u8>,
}

/// One entry of an unpacked archive: its path inside the archive,
/// whether it is a directory, and its file contents (empty for a
/// directory).
#[derive(Debug, PartialEq, Eq)]
pub struct ArchiveEntry {
    pub path: Vec<u8>,
    pub is_dir: bool,
    pub data: Vec<u8>,
}

impl View for ArchiveEntry {
    type V = EntryModel;

    open spec fn view(&self) -> EntryModel {
        EntryModel { path: self.path@, is_dir: self.is_dir, data: self.data@ }
    }
}

/// Value of the octal digits of `b[i..end]`, accumulated onto `acc`;
/// a NUL or space ends the field, any other byte is malformed.
pub open spec fn octal_from(b: Seq<u8>, i: int, end: int, acc: nat) -> Option<nat>
    decreases end - i,
{
    if i >= end {
        Some(acc)
    } else if 48 <= b[i] <= 55 {
        octal_from(b, i + 1, end, acc * 8 + (b[i] - 48) as nat)
    } else if b[i] == 0 || b[i] == 32 {
        Some(acc)
    } else {
        None
    }
}

/// Length of the NUL-terminated name starting at `pos + k` within
/// the 100-byte name field of the header at `pos`.
pub open spec fn name_end(b: Seq<u8>, pos: int, k: int) -> int
    decreases 100 - k,
{
    if k < 100 && b[pos + k] != 0 {
        name_end(b, pos, k + 1)
    } else {
        k
    }
}

/// The entry name of the header block at `pos`.
pub open spec fn header_name(b: Seq<u8>, pos: int) -> Seq<u8> {
    b.subrange(pos, pos + name_end(b, pos, 0))
}

/// The size field of the header block at `pos`: twelve octal bytes.
pub open spec fn header_size(b: Seq<u8>, pos: int) -> Option<nat> {
    octal_from(b, pos + 124, pos + 136, 0)
}

/// An all-zero 512-byte block at `pos` ends the archive.
pub open spec fn is_zero_block(b: Seq<u8>, pos: int) -> bool {
    forall|k: int| 0 <= k < 512 ==> #[trigger] b[pos + k] == 0
}

/// `size` rounded up to the 512-byte block grid.
pub open spec fn padded_size(size: nat) -> nat {
    (size + ((512 - size % 512) % 512)) as nat
}

/// The entries of the tar stream `b` from offset `pos` on: `None`
/// when the stream is truncated or a size field is malformed.
/// Regular files carry their data; directories carry none; entries
/// of any other type are consumed without being reported.
pub open spec fn tar_from(b: Seq<u8>, pos: int) -> Option<Seq<EntryModel>>
    recommends
        0 <= pos <= b.len(),
    decreases b.len() - pos,
{
    if pos == b.len() {
        Some(Seq::empty())
    } else if pos + 512 > b.len() {
        None
    } else if is_zero_block(b, pos) {
        Some(Seq::empty())
    } else {
        match header_size(b, pos) {
            None => None,
            Some(sz) => {
                let data_start = pos + 512;
                let padded = padded_size(sz);
                if data_start + padded > b.len() {
                    None
                } else {
                    match tar_from(b, data_start + padded) {
                        None => None,
                        Some(rest) => {
                            let tf = b[pos + 156];
                            if tf == 48 || tf == 0 {
                                Some(
                                    seq![
                                        EntryModel {
                                            path: header_name(b, pos),
                                            is_dir: false,
                                            data: b.subrange(
                                                data_start,
                                                data_start + sz,
                                            ),
                                        },
                                    ] + rest,
                                )
                            } else if tf == 53 {
                                Some(
                                    seq![
                                        EntryModel {
                                            path: header_name(b, pos),
                                            is_dir: true,
                                            data: Seq::empty(),
                                        },
                                    ] + rest,
                                )
                            } else {
                                Some(rest)
                            }
                        },
                    }
                }
            },
        }
    }
}

/// Powers of eight, to bound the value of a twelve-digit octal field.
pub open spec fn pow8(k: nat) -> nat
    decreases k,
{
    if k == 0 {
        1
    } else {
        8 * pow8((k - 1) as nat)
    }
}

proof fn lemma_pow8_12()
    ensures
        pow8(12) == 68719476736,
{
    reveal_with_fuel(pow8, 13);
}

/// Read the twelve-byte octal size field at `start`.
fn parse_octal_field(b: &Vec<u8>, start: usize) -> (r: Option<u64>)
    requires
        start + 12 <= b@.len(),
    ensures
        match r {
            Some(v) => octal_from(b@, start as int, start as int + 12, 0) == Some(
                v as nat,
            ) && v < 68719476736,
            None => octal_from(b@, start as int, start as int + 12, 0) is None,
        },
{
    let blen: usize = b.len();
    let end: usize = start + 12;
    let mut i: usize = start;
    let mut acc: u64 = 0;
    proof {
        lemma_pow8_12();
    }
    while i < end
        invariant
            start <= i <= end,
            end == start + 12,
            end <= b@.len(),
            acc < pow8((i - start) as nat),
            pow8(12) == 68719476736,
            octal_from(b@, start as int, end as int, 0) == octal_from(
                b@, i as int, end as int, acc as nat),
        decreases end - i,
    {
        let c = b[i];
        if 48 <= c && c <= 55 {
            proof {
                assert(pow8(((i + 1) - start) as nat) == 8 * pow8((i - start) as nat));
                assert(acc < pow8((i - start) as nat) <= pow8(11)) by {
                    lemma_pow8_monotone((i - start) as nat, 11);
                };
            }
            acc = acc * 8 + ((c - 48) as u64);
            i += 1;
        } else if c == 0 || c == 32 {
            proof {
                lemma_pow8_monotone((i - start) as nat, 12);
            }
            return Some(acc);
        } else {
            return None;
        }
    }
    Some(acc)
}

proof fn lemma_pow8_monotone(a: nat, b: nat)
    requires
        a <= b,
    ensures
        pow8(a) <= pow8(b),
    decreases b,
{
    if a < b {
        lemma_pow8_monotone(a, (b - 1) as nat);
    }
}

/// Copy `b[start..start + n]` out as a fresh vector.
fn copy_range(b: &Vec<u8>, start: usize, n: usize) -> (r: Vec<u8>)
    requires
        start + n <= b@.len(),
    ensures
        r@ == b@.subrange(start as int, start as int + n as int),
{
    let blen: usize = b.len();
    let mut r: Vec<u8> = Vec::new();
    let mut i: usize = 0;
    while i < n
        invariant
            blen == b@.len(),
            0 <= i <= n,
            start + n <= b@.len(),
            r@.len() == i,
            forall|j: int| 0 <= j < i ==> r@[j] == b@[start + j],
        decreases n - i,
    {
        r.push(b[start + i]);
        i += 1;
    }
    proof {
        assert(r@ =~= b@.subrange(start as int, start as int + n as int));
    }
    r
}

/// Is the 512-byte block at `pos` all zero?
fn check_zero_block(b: &Vec<u8>, pos: usize) -> (r: bool)
    requires
        pos + 512 <= b@.len(),
    ensures
        r == is_zero_block(b@, pos as int),
{
    let blen: usize = b.len();
    let mut k: usize = 0;
    while k < 512
        invariant
            blen == b@.len(),
            0 <= k <= 512,
            pos + 512 <= b@.len(),
            forall|j: int| 0 <= j < k ==> #[trigger] b@[pos + j] == 0,
        decreases 512 - k,
    {
        if b[pos + k] != 0 {
            return false;
        }
        k += 1;
    }
    true
}

/// Extract the NUL-terminated name of the header at `pos`.
fn read_header_name(b: &Vec<u8>, pos: usize) -> (r: Vec<u8>)
    requires
        pos + 512 <= b@.len(),
    ensures
        r@ == header_name(b@, pos as int),
{
    let blen: usize = b.len();
    let mut k: usize = 0;
    while k < 100 && b[pos + k] != 0
        invariant
            blen == b@.len(),
            0 <= k <= 100,
            pos + 512 <= b@.len(),
            name_end(b@, pos as int, 0) == name_end(b@, pos as int, k as int),
            forall|j: int| 0 <= j < k ==> #[trigger] b@[pos + j] != 0,
        decreases 100 - k,
    {
        k += 1;
    }
    assert(name_end(b@, pos as int, k as int) == k);
    copy_range(b, pos, k)
}

/// `t` with `es` prepended when `t` parsed at all.
pub open spec fn prepend_entries(es: Seq<EntryModel>, t: Option<Seq<EntryModel>>) -> Option<
    Seq<EntryModel>,
> {
    match t {
        Option::None => Option::None,
        Option::Some(rest) => Option::Some(es + rest),
    }
}

/// Parse a complete tar stream into its entry list.
///
/// The result is exactly the recursive specification `tar_from` of
/// the bytes: `Some` of every regular-file and directory entry in
/// stream order, or `None` when a header is truncated, a size field
/// is malformed, or an entry's data runs past the end of the stream.
pub fn parse_tar(bytes: &Vec<u8>) -> (r: Option<Vec<ArchiveEntry>>)
    ensures
        match r {
            Some(es) => tar_from(bytes@, 0) == Some(
                es@.map_values(|e: ArchiveEntry| e@),
            ),
            None => tar_from(bytes@, 0) is None,
        },
{
    let mut entries: Vec<ArchiveEntry> = Vec::new();
    let mut pos: usize = 0;
    proof {
        match tar_from(bytes@, 0) {
            Option::Some(r) => {
                assert(entries@.map_values(|e: ArchiveEntry| e@) + r =~= r);
            },
            Option::None => {},
        }
    }
    loop
        invariant
            0 <= pos <= bytes@.len(),
            tar_from(bytes@, 0) == prepend_entries(
                entries@.map_values(|e: ArchiveEntry| e@),
                tar_from(bytes@, pos as int),
            ),
        decreases bytes@.len() - pos,
    {
        if pos == bytes.len() {
            proof {
                assert(entries@.map_values(|e: ArchiveEntry| e@) + Seq::<
                    EntryModel,
                >::empty() =~= entries@.map_values(|e: ArchiveEntry| e@));
            }
            return Some(entries);
        }
        if bytes.len() - pos < 512 {
            return None;
        }
        if check_zero_block(bytes, pos) {
            proof {
                assert(entries@.map_values(|e: ArchiveEntry| e@) + Seq::<
                    EntryModel,
                >::empty() =~= entries@.map_values(|e: ArchiveEntry| e@));
            }
            return Some(entries);
        }
        let sz64 = match parse_octal_field(bytes, pos + 124) {
            Some(v) => v,
            None => {
                return None;
            },
        };
        let rem: usize = bytes.len() - pos - 512;
        let r512: u64 = sz64 % 512;
        let pad: u64 = if r512 == 0 {
            0
        } else {
            512 - r512
        };
        let padded: u64 = sz64 + pad;
        proof {
            assert(padded as nat == padded_size(sz64 as nat));
        }
        if padded > rem as u64 {
            return None;
        }
        let sz: usize = sz64 as usize;
        let data_start: usize = pos + 512;
        let next: usize = data_start + (padded as usize);
        let tf = bytes[pos + 156];
        let ghost old_entries = entries@;
        if tf == 48 || tf == 0 {
            let path = read_header_name(bytes, pos);
            let data = copy_range(bytes, data_start, sz);
            entries.push(ArchiveEntry { path, is_dir: false, data });
        } else if tf == 53 {
            let path = read_header_name(bytes, pos);
            entries.push(ArchiveEntry { path, is_dir: true, data: Vec::new() });
        }
        proof {
            let f = |e: ArchiveEntry| e@;
            match tar_from(bytes@, next as int) {
                Option::None => {
                    assert(tar_from(bytes@, pos as int) is None);
                },
                Option::Some(rest) => {
                    if tf == 48 || tf == 0 {
                        let em = EntryModel {
                            path: header_name(bytes@, pos as int),
                            is_dir: false,
                            data: bytes@.subrange(
                                data_start as int,
                                data_start as int + sz64 as int,
                            ),
                        };
                        assert(tar_from(bytes@, pos as int) == Some(seq![em] + rest));
                        assert(entries@.map_values(f) =~= old_entries.map_values(
                            f,
                        ).push(em));
                        assert(old_entries.map_values(f) + (seq![em] + rest)
                            =~= entries@.map_values(f) + rest);
                    } else if tf == 53 {
                        let em = EntryModel {
                            path: header_name(bytes@, pos as int),
                            is_dir: true,
                            data: Seq::empty(),
                        };
                        assert(tar_from(bytes@, pos as int) == Some(seq![em] + rest));
                        assert(entries@.map_values(f) =~= old_entries.map_values(
                            f,
                        ).push(em));
                        assert(old_entries.map_values(f) + (seq![em] + rest)
                            =~= entries@.map_values(f) + rest);
                    } else {
                        assert(tar_from(bytes@, pos as int) == Some(rest));
                    }
                },
            }
        }
        pos = next;
    }
}

/// What flate2 computes for a given gzip stream.
pub uninterp spec fn gunzip_of(z: Seq<u8>) -> Option<Seq<u8>>;

/// Relies on flate2's `read::GzDecoder` (read to end): whether a
/// gzip stream decompresses, and to what bytes, is a function of the
/// input bytes alone.
#[verifier::external_body]
fn gunzip(z: &Vec<u8>) -> (r: Option<Vec<u8>>)
    ensures
        match r {
            Some(d) => gunzip_of(z@) == Some(d@),
            None => gunzip_of(z@) is None,
        },
{
    let mut out: Vec<u8> = Vec::new();
    let mut dec = flate2::read::GzDecoder::new(z.as_slice());
    match std::io::Read::read_to_end(&mut dec, &mut out) {
        Ok(_) => Some(out),
        Err(_) => None,
    }
}

/// Decompress one fetched artifact and unpack its entry list.
///
/// On failure the error identifies which archive failed and the
/// destination it was meant for. On success the entries are exactly
/// the tar parse of the decompressed bytes; writing them under the
/// destination directory is the caller's (unverified) I/O step.
pub fn extract_archive(archive: &Vec<u8>, archive_path: &Vec<u8>, dest: &Vec<u8>) -> (r:
    Result<Vec<ArchiveEntry>, LauncherError>)
    ensures
        match gunzip_of(archive@) {
            None => r matches Err(e) && e matches LauncherError::ExtractionError {
                archive: a,
                dest: d,
            } && a@ == archive_path@ && d@ == dest@,
            Some(t) => match r {
                Ok(es) => tar_from(t, 0) == Some(es@.map_values(|e: ArchiveEntry| e@)),
                Err(e) => tar_from(t, 0) is None && (e
                    matches LauncherError::ExtractionError {
                        archive: a,
                        dest: d,
                    } && a@ == archive_path@ && d@ == dest@),
            },
        },
{
    let failure = LauncherError::ExtractionError {
        archive: crate::text::clone_vec(archive_path),
        dest: crate::text::clone_vec(dest),
    };
    let tar_bytes = match gunzip(archive) {
        Some(t) => t,
        None => {
            return Err(failure);
        },
    };
    match parse_tar(&tar_bytes) {
        Some(es) => Ok(es),
        None => Err(failure),
    }
}

} // verus!
