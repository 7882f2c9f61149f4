//! Mount table decoding and the physical-filesystem allowlist.

use vstd::prelude::*;
use crate::text::{c_field_text, fields_of, read_c_text, split_fields, str_equal};

verus! {

/// The filesystem types backed by persistent block storage.
pub open spec fn is_physical_type(t: Seq<char>) -> bool {
    t == "ext2"@ || t == "ext3"@ || t == "ext4"@ || t == "vfat"@ || t == "ntfs"@
        || t == "zfs"@ || t == "hfs"@ || t == "reiserfs"@ || t == "reiser4"@
        || t == "exfat"@ || t == "f2fs"@ || t == "hfsplus"@ || t == "jfs"@
        || t == "btrfs"@ || t == "minix"@ || t == "nilfs"@ || t == "xfs"@
        || t == "apfs"@ || t == "fuseblk"@
}

/// Whether a filesystem type names a physical (block-backed) filesystem.
pub fn is_physical_filesys(filesysteme: &str) -> (r: bool)
    ensures
        r == is_physical_type(filesysteme@),
{
    str_equal(filesysteme, "ext2") || str_equal(filesysteme, "ext3")
        || str_equal(filesysteme, "ext4") || str_equal(filesysteme, "vfat")
        || str_equal(filesysteme, "ntfs") || str_equal(filesysteme, "zfs")
        || str_equal(filesysteme, "hfs") || str_equal(filesysteme, "reiserfs")
        || str_equal(filesysteme, "reiser4") || str_equal(filesysteme, "exfat")
        || str_equal(filesysteme, "f2fs") || str_equal(filesysteme, "hfsplus")
        || str_equal(filesysteme, "jfs") || str_equal(filesysteme, "btrfs")
        || str_equal(filesysteme, "minix") || str_equal(filesysteme, "nilfs")
        || str_equal(filesysteme, "xfs") || str_equal(filesysteme, "apfs")
        || str_equal(filesysteme, "fuseblk")
}

/// One mount-table row that survived the allowlist.
pub struct MountEntry {
    pub device: String,
    pub mount_point: String,
    pub fs_type: String,
}

impl View for MountEntry {
    type V = (Seq<char>, Seq<char>, Seq<char>);

    open spec fn view(&self) -> Self::V {
        (self.device@, self.mount_point@, self.fs_type@)
    }
}

/// What `unescape::unescape` returns for a text with backslash escapes.
pub uninterp spec fn unescaped(s: Seq<char>) -> Option<Seq<char>>;

/// Relies on `unescape::unescape`: decodes backslash escapes (octal ones
/// such as `\040` among them), `None` on a malformed escape; text without a
/// backslash comes back unchanged.
#[verifier::external_body]
fn unescape_field(s: &str) -> (r: Option<String>)
    ensures
        r is Some <==> unescaped(s@) is Some,
        r is Some ==> r->0@ == unescaped(s@)->0,
        !s@.contains('\\') ==> (r is Some && r->0@ == s@),
{
    unescape::unescape(s)
}

/// The row a mount-table line describes, if it has at least three fields,
/// a physical filesystem type and a well-formed mount point. A mount point
/// without a backslash is taken as it stands.
pub open spec fn mount_row(line: Seq<char>) -> Option<(Seq<char>, Seq<char>, Seq<char>)> {
    let f = fields_of(line);
    if f.len() < 3 || !is_physical_type(f[2]) {
        None
    } else if !f[1].contains('\\') {
        Some((f[0], f[1], f[2]))
    } else {
        match unescaped(f[1]) {
            Some(mp) => Some((f[0], mp, f[2])),
            None => None,
        }
    }
}

/// The rows kept from a whole mount table, in order.
pub open spec fn physical_rows(lines: Seq<Seq<char>>) -> Seq<(Seq<char>, Seq<char>, Seq<char>)>
    decreases lines.len(),
{
    if lines.len() == 0 {
        Seq::empty()
    } else {
        let rest = physical_rows(lines.drop_last());
        match mount_row(lines.last()) {
            Some(e) => rest.push(e),
            None => rest,
        }
    }
}

/// Decodes one line of the mount table (device, mount point, type, flags...),
/// keeping it only if its filesystem is physical.
pub fn parse_mount_line(line: &str) -> (r: Option<MountEntry>)
    ensures
        r is Some <==> mount_row(line@) is Some,
        r is Some ==> r->0@ == mount_row(line@)->0,
{
    let fields = split_fields(line);
    proof {
        assert(fields@.len() == fields_of(line@).len());
    }
    if fields.len() < 3 {
        return None;
    }
    proof {
        assert(fields@[2]@ == fields_of(line@)[2]);
        assert(fields@[1]@ == fields_of(line@)[1]);
        assert(fields@[0]@ == fields_of(line@)[0]);
    }
    if !is_physical_filesys(fields[2].as_str()) {
        return None;
    }
    match unescape_field(fields[1].as_str()) {
        Some(mp) => Some(MountEntry {
            device: fields[0].clone(),
            mount_point: mp,
            fs_type: fields[2].clone(),
        }),
        None => None,
    }
}

/// Keeps, in order, the physical-filesystem rows of a mount table given line
/// by line; short lines and other filesystem types are skipped.
pub fn select_physical_mounts(lines: &Vec<String>) -> (r: Vec<MountEntry>)
    ensures
        r@.map_values(|e: MountEntry| e@) == physical_rows(lines@.map_values(|l: String| l@)),
{
    let mut out: Vec<MountEntry> = Vec::new();
    let mut i: usize = 0;
    while i < lines.len()
        invariant
            i <= lines@.len(),
            out@.map_values(|e: MountEntry| e@) == physical_rows(
                lines@.subrange(0, i as int).map_values(|l: String| l@),
            ),
        decreases lines@.len() - i,
    {
        let ghost before = out@.map_values(|e: MountEntry| e@);
        proof {
            let pre = lines@.subrange(0, i as int + 1).map_values(|l: String| l@);
            assert(pre.drop_last() =~= lines@.subrange(0, i as int).map_values(|l: String| l@));
            assert(pre.last() == lines@[i as int]@);
        }
        match parse_mount_line(lines[i].as_str()) {
            Some(e) => {
                out.push(e);
                assert(out@.map_values(|e: MountEntry| e@) =~= before.push(e@));
            },
            None => {},
        }
        i = i + 1;
    }
    assert(lines@.subrange(0, lines@.len() as int) =~= lines@);
    out
}

/// The row a native mount record describes, from its fixed-length,
/// NUL-padded source, mount-point and type fields: kept if all three are
/// valid text and the type is physical.
pub open spec fn native_row(mount_from: Seq<u8>, mount_on: Seq<u8>, fs_type: Seq<u8>) -> Option<
    (Seq<char>, Seq<char>, Seq<char>),
> {
    match (c_field_text(mount_from), c_field_text(mount_on), c_field_text(fs_type)) {
        (Some(d), Some(m), Some(t)) => if is_physical_type(t) { Some((d, m, t)) } else { None },
        _ => None,
    }
}

/// Decodes one record of the native mount enumeration given its three
/// fixed-length fields, keeping it only if its filesystem is physical. A
/// record whose text is not valid UTF-8 is treated as malformed and skipped,
/// rather than decoded with replacement characters, so that a mount point is
/// never reported under a name that does not exist.
pub fn native_mount_entry(mount_from: &Vec<u8>, mount_on: &Vec<u8>, fs_type: &Vec<u8>) -> (r: Option<MountEntry>)
    ensures
        r is Some <==> native_row(mount_from@, mount_on@, fs_type@) is Some,
        r is Some ==> r->0@ == native_row(mount_from@, mount_on@, fs_type@)->0,
{
    proof {
        assert(mount_from@.subrange(0, mount_from@.len() as int) =~= mount_from@);
        assert(mount_on@.subrange(0, mount_on@.len() as int) =~= mount_on@);
        assert(fs_type@.subrange(0, fs_type@.len() as int) =~= fs_type@);
    }
    let d = read_c_text(mount_from, 0, mount_from.len());
    let m = read_c_text(mount_on, 0, mount_on.len());
    let t = read_c_text(fs_type, 0, fs_type.len());
    match (d, m, t) {
        (Some(d), Some(m), Some(t)) => {
            if is_physical_filesys(t.as_str()) {
                Some(MountEntry { device: d, mount_point: m, fs_type: t })
            } else {
                None
            }
        },
        _ => None,
    }
}

/// Bytes per unit of the space figures in `DiskInfo`.
pub const SPACE_UNIT: u64 = 100000;

/// Block counts of one mounted filesystem, as a filesystem-statistics call
/// reports them.
pub struct FsStats {
    pub blocks: u64,
    pub blocks_available: u64,
    pub fragment_size: u64,
}

/// A physical mount point and its space, in units of `SPACE_UNIT` bytes.
pub struct DiskInfo {
    pub name: String,
    pub mount_point: String,
    pub total_space: u64,
    pub avail_space: u64,
}

/// `blocks * block_size` bytes expressed in `SPACE_UNIT`s, capped at the
/// largest representable figure.
pub open spec fn space_units(blocks: u64, block_size: u64) -> u64 {
    let v = (blocks as int) * (block_size as int) / (SPACE_UNIT as int);
    if v > u64::MAX { u64::MAX } else { v as u64 }
}

/// Converts a byte count given as blocks times block size into `SPACE_UNIT`s.
pub fn scaled_space(blocks: u64, block_size: u64) -> (r: u64)
    ensures
        r == space_units(blocks, block_size),
{
    proof {
        assert((blocks as int) * (block_size as int) <= (u64::MAX as int) * (u64::MAX as int)) by (nonlinear_arith);
    }
    let bytes: u128 = (blocks as u128) * (block_size as u128);
    let v: u128 = bytes / (SPACE_UNIT as u128);
    if v > u64::MAX as u128 {
        u64::MAX
    } else {
        v as u64
    }
}

/// Pairs a mount with its usage; a failed usage query (`None`) yields zero
/// space rather than dropping the mount.
pub fn disk_info(entry: MountEntry, stats: Option<FsStats>) -> (r: DiskInfo)
    ensures
        r.name@ == entry.device@,
        r.mount_point@ == entry.mount_point@,
        match stats {
            Some(st) => r.total_space == space_units(st.blocks, st.fragment_size)
                && r.avail_space == space_units(st.blocks_available, st.fragment_size),
            None => r.total_space == 0 && r.avail_space == 0,
        },
{
    let (total, avail) = match stats {
        Some(st) => (scaled_space(st.blocks, st.fragment_size), scaled_space(st.blocks_available, st.fragment_size)),
        None => (0, 0),
    };
    DiskInfo { name: entry.device, mount_point: entry.mount_point, total_space: total, avail_space: avail }
}

} // verus!
