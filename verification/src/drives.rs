//! The drives the user can benchmark, and how they are found in the mount table.

use vstd::prelude::*;
use crate::text::collect_chars;

verus! {

/// A drive that can be benchmarked.
pub struct Drive {
    /// The name shown in the list.
    pub name: String,
    /// Where the drive is mounted.
    pub mount: String,
    /// The directory in which the test file is created.
    pub test_path: String,
    /// The capacity in bytes, when known.
    pub size: Option<u64>,
}


/// The unit in which a drive's capacity is shown.
#[derive(Debug, Clone, Copy, PartialEq, Eq, Structural)]
pub enum SizeUnit {
    /// Terabytes (10^12 bytes), with one decimal.
    TB,
    /// Gigabytes (10^9 bytes), whole.
    GB,
    /// Megabytes (10^6 bytes), whole.
    MB,
}

impl Drive {
    /// The unit of the capacity label: terabytes from 10^12 bytes on,
    /// gigabytes from 10^9 bytes on, megabytes below; no label when the
    /// capacity is unknown.
    pub open spec fn spec_size_unit(&self) -> Option<SizeUnit> {
        match self.size {
            None => None,
            Some(b) => if b >= 1_000_000_000_000 {
                Some(SizeUnit::TB)
            } else if b >= 1_000_000_000 {
                Some(SizeUnit::GB)
            } else {
                Some(SizeUnit::MB)
            },
        }
    }

    pub fn size_unit(&self) -> (res: Option<SizeUnit>)
        ensures
            res == self.spec_size_unit(),
    {
        match self.size {
            None => None,
            Some(b) => if b >= 1_000_000_000_000 {
                Some(SizeUnit::TB)
            } else if b >= 1_000_000_000 {
                Some(SizeUnit::GB)
            } else {
                Some(SizeUnit::MB)
            },
        }
    }
}

/// What `std::path::Path::file_name` gives for a path written as `path`:
/// its last component, unless the path ends in `..` or has no component.
pub uninterp spec fn path_file_name(path: Seq<char>) -> Option<Seq<char>>;

/// A path written with `/` alone: no backslash, no colon, and not starting
/// with two slashes, so that no platform reads a drive or network prefix
/// into it.
pub open spec fn plain_path(p: Seq<char>) -> bool {
    &&& !p.contains('\\')
    &&& !p.contains(':')
    &&& !(p.len() >= 2 && p[0] == '/' && p[1] == '/')
}

/// Where the last `/`-separated piece of a path starts.
pub open spec fn last_piece_start(p: Seq<char>) -> nat
    decreases p.len(),
{
    if p.len() == 0 {
        0
    } else if p.last() == '/' {
        p.len()
    } else {
        last_piece_start(p.drop_last())
    }
}

/// The start of the last piece lies within the path, after a slash unless
/// it is the start of the path.
pub proof fn lemma_last_piece_start(p: Seq<char>)
    ensures
        last_piece_start(p) <= p.len(),
        last_piece_start(p) > 0 ==> p[last_piece_start(p) - 1] == '/',
    decreases p.len(),
{
    if p.len() > 0 && p.last() != '/' {
        lemma_last_piece_start(p.drop_last());
    }
}

/// The name of a plain path, by the rule `Path::components` documents:
/// the last `/`-separated piece once empty pieces and `.` pieces are
/// dropped; none when no piece is left or the last one is `..`.
pub open spec fn plain_file_name(p: Seq<char>) -> Option<Seq<char>>
    decreases p.len(),
{
    let i = last_piece_start(p);
    proof {
        lemma_last_piece_start(p);
    }
    let piece = p.skip(i as int);
    if piece.len() == 0 || piece == seq!['.'] {
        if i == 0 { None } else { plain_file_name(p.take(i - 1)) }
    } else if piece == seq!['.', '.'] {
        None
    } else {
        Some(piece)
    }
}

/// The last component of a path: by the rule above for plain paths, by
/// std's own rules otherwise.
pub open spec fn file_name_of(p: Seq<char>) -> Option<Seq<char>> {
    if plain_path(p) { plain_file_name(p) } else { path_file_name(p) }
}

/// The last component of a path, through `std::path::Path::file_name`,
/// turned into text with `OsStr::to_string_lossy` (lossless here: the input
/// is UTF-8). Claimed: the result is the named function of the path's text,
/// and for a plain path it is the piece that `Path::components` documents
/// as last: repeated separators and `.` are normalised away, `..` is kept,
/// and `file_name` gives the last component only when it is a normal one.
/// For paths with a Windows prefix the rule is left to the name.
#[verifier::external_body]
pub(crate) fn file_name(path: &str) -> (res: Option<String>)
    ensures
        match res {
            Some(n) => path_file_name(path@) == Some(n@),
            None => path_file_name(path@) is None,
        },
        plain_path(path@) ==> match res {
            Some(n) => plain_file_name(path@) == Some(n@),
            None => plain_file_name(path@) is None,
        },
{
    match std::path::Path::new(path).file_name() {
        Some(n) => Some(n.to_string_lossy().to_string()),
        None => None,
    }
}

/// The component found for a path, or the whole path when it has none.
pub open spec fn name_or_whole(name: Option<Seq<char>>, path: Seq<char>) -> Seq<char> {
    match name {
        Some(n) => n,
        None => path,
    }
}

/// The name a path is shown under, given what `file_name` found for it: the
/// component found, else the whole path.
pub fn name_or_path(name: Option<String>, path: &str) -> (res: String)
    ensures
        res@ == name_or_whole(match name { Some(n) => Some(n@), None => None }, path@),
{
    match name {
        Some(n) => n,
        None => String::from_str(path),
    }
}

/// The name a path is shown under: its last component, else the whole path.
pub fn path_display_name(path: &str) -> (res: String)
    ensures
        res@ == name_or_whole(file_name_of(path@), path@),
{
    let found = file_name(path);
    name_or_path(found, path)
}

// ---------------------------------------------------------------------------
// The mount table (`/proc/mounts`): one mount per line, fields separated by
// white space: device, mount point, file system type, options, ...

/// The white-space characters of Unicode, as `char::is_whitespace` has them.
pub open spec fn is_space(c: char) -> bool {
    let u = c as u32;
    ||| 0x9 <= u <= 0xd
    ||| u == 0x20
    ||| u == 0x85
    ||| u == 0xa0
    ||| u == 0x1680
    ||| 0x2000 <= u <= 0x200a
    ||| u == 0x2028
    ||| u == 0x2029
    ||| u == 0x202f
    ||| u == 0x205f
    ||| u == 0x3000
}

fn space(c: char) -> (res: bool)
    ensures
        res == is_space(c),
{
    let u = c as u32;
    (0x9 <= u && u <= 0xd) || u == 0x20 || u == 0x85 || u == 0xa0 || u == 0x1680
        || (0x2000 <= u && u <= 0x200a) || u == 0x2028 || u == 0x2029 || u == 0x202f
        || u == 0x205f || u == 0x3000
}

/// The length of the text before the first line feed.
pub open spec fn line_end(s: Seq<char>) -> nat
    decreases s.len(),
{
    if s.len() == 0 || s[0] == '\n' {
        0
    } else {
        1 + line_end(s.drop_first())
    }
}

/// A line without its ending: the line feed, and a carriage return before it.
pub open spec fn strip_cr(line: Seq<char>, ended: bool) -> Seq<char> {
    if ended && line.len() > 0 && line.last() == '\r' {
        line.drop_last()
    } else {
        line
    }
}

/// The lines of a text, as `str::lines` splits them: at each line feed,
/// dropping a carriage return before it; a final line feed ends the last
/// line rather than starting an empty one.
pub open spec fn lines(s: Seq<char>) -> Seq<Seq<char>>
    decreases s.len(),
{
    if s.len() == 0 {
        seq![]
    } else {
        let e = line_end(s);
        if e < s.len() {
            seq![strip_cr(s.take(e as int), true)] + lines(s.skip(e + 1 as int))
        } else {
            seq![s]
        }
    }
}

/// The length of the run of non-space characters at the start.
pub open spec fn word_len(s: Seq<char>) -> nat
    decreases s.len(),
{
    if s.len() == 0 || is_space(s[0]) {
        0
    } else {
        1 + word_len(s.drop_first())
    }
}

/// The fields of a line: its maximal runs of non-space characters, as
/// `str::split_whitespace` gives them.
pub open spec fn fields(s: Seq<char>) -> Seq<Seq<char>>
    decreases s.len(),
{
    if s.len() == 0 {
        seq![]
    } else if is_space(s[0]) {
        fields(s.drop_first())
    } else {
        let n = word_len(s);
        proof {
            lemma_word_len_bounds(s);
        }
        seq![s.take(n as int)] + fields(s.skip(n as int))
    }
}

/// A word is never longer than the text, and a text that starts with a
/// non-space character starts with a word.
pub proof fn lemma_word_len_bounds(s: Seq<char>)
    ensures
        word_len(s) <= s.len(),
        s.len() > 0 && !is_space(s[0]) ==> word_len(s) > 0,
    decreases s.len(),
{
    if s.len() > 0 && !is_space(s[0]) {
        lemma_word_len_bounds(s.drop_first());
    }
}

pub open spec fn starts_with(s: Seq<char>, prefix: Seq<char>) -> bool {
    prefix.len() <= s.len() && s.take(prefix.len() as int) == prefix
}

/// The file systems of real disks.
pub open spec fn is_disk_fs(fs: Seq<char>) -> bool {
    ||| fs == "ext4"@
    ||| fs == "ext3"@
    ||| fs == "ext2"@
    ||| fs == "xfs"@
    ||| fs == "btrfs"@
    ||| fs == "f2fs"@
    ||| fs == "vfat"@
    ||| fs == "exfat"@
    ||| fs == "ntfs"@
    ||| fs == "ntfs3"@
}

/// A mount is listed when a device file backs it, its file system is a real
/// disk's, and it is not the boot partition or a snap package.
pub open spec fn is_listed_mount(device: Seq<char>, mount: Seq<char>, fs: Seq<char>) -> bool {
    &&& starts_with(device, "/dev/"@)
    &&& is_disk_fs(fs)
    &&& !starts_with(mount, "/boot"@)
    &&& !starts_with(mount, "/snap"@)
}

/// The name a mount is listed under: "Root" for the root file system, else
/// the last component of the mount point, else the whole mount point.
pub open spec fn mount_name(mount: Seq<char>) -> Seq<char> {
    if mount == "/"@ {
        "Root"@
    } else {
        name_or_whole(file_name_of(mount), mount)
    }
}

/// Where the test file of a mount goes: the home directory for the root file
/// system, the mount point itself otherwise.
pub open spec fn mount_test_path(mount: Seq<char>, home: Seq<char>) -> Seq<char> {
    if mount == "/"@ { home } else { mount }
}

/// A drive as name, mount point and test directory.
pub open spec fn drive_text(d: Drive) -> (Seq<char>, Seq<char>, Seq<char>) {
    (d.name@, d.mount@, d.test_path@)
}

/// The drive one line of the mount table lists, if any.
pub open spec fn line_drive(line: Seq<char>, home: Seq<char>) -> Seq<(Seq<char>, Seq<char>, Seq<char>)> {
    let f = fields(line);
    if f.len() >= 3 && is_listed_mount(f[0], f[1], f[2]) {
        seq![(mount_name(f[1]), f[1], mount_test_path(f[1], home))]
    } else {
        seq![]
    }
}

pub open spec fn lines_drives(ls: Seq<Seq<char>>, home: Seq<char>) -> Seq<(Seq<char>, Seq<char>, Seq<char>)>
    decreases ls.len(),
{
    if ls.len() == 0 {
        seq![]
    } else {
        line_drive(ls[0], home) + lines_drives(ls.drop_first(), home)
    }
}

/// A line of the mount table lists a drive exactly when it has at least
/// three fields, its device is a `/dev/` file, its mount point is not under
/// `/boot` or `/snap`, and its file system is one of ext4, ext3, ext2, xfs,
/// btrfs, f2fs, vfat, exfat, ntfs and ntfs3. The drive is the mount point,
/// named "Root" for `/` and after the mount point's last component otherwise,
/// and tested in the home directory for `/` and in the mount point otherwise.
pub proof fn lemma_line_lists_drive(line: Seq<char>, home: Seq<char>)
    ensures
        ({
            let f = fields(line);
            let listed = f.len() >= 3
                && starts_with(f[0], "/dev/"@)
                && !starts_with(f[1], "/boot"@)
                && !starts_with(f[1], "/snap"@)
                && (f[2] == "ext4"@ || f[2] == "ext3"@ || f[2] == "ext2"@ || f[2] == "xfs"@
                    || f[2] == "btrfs"@ || f[2] == "f2fs"@ || f[2] == "vfat"@ || f[2] == "exfat"@
                    || f[2] == "ntfs"@ || f[2] == "ntfs3"@);
            &&& listed ==> line_drive(line, home) == seq![(
                if f[1] == "/"@ { "Root"@ } else { name_or_whole(file_name_of(f[1]), f[1]) },
                f[1],
                if f[1] == "/"@ { home } else { f[1] },
            )]
            &&& !listed ==> line_drive(line, home).len() == 0
        }),
{
}

/// The drives a mount table lists, in the order of its lines.
pub open spec fn spec_mount_drives(table: Seq<char>, home: Seq<char>) -> Seq<(Seq<char>, Seq<char>, Seq<char>)> {
    lines_drives(lines(table), home)
}

proof fn lemma_line_end(s: Seq<char>, m: int)
    requires
        0 <= m <= s.len(),
        forall|k: int| 0 <= k < m ==> s[k] != '\n',
        m == s.len() || s[m] == '\n',
    ensures
        line_end(s) == m,
    decreases m,
{
    if m > 0 {
        lemma_line_end(s.drop_first(), m - 1);
    }
}

proof fn lemma_word_len(s: Seq<char>, m: int)
    requires
        0 <= m <= s.len(),
        forall|k: int| 0 <= k < m ==> !is_space(s[k]),
        m == s.len() || is_space(s[m]),
    ensures
        word_len(s) == m,
    decreases m,
{
    if m > 0 {
        lemma_word_len(s.drop_first(), m - 1);
    }
}

/// Whether `chars[from..to]` is the text `lit`.
fn range_is(chars: &Vec<char>, from: usize, to: usize, lit: &str) -> (res: bool)
    requires
        from <= to <= chars@.len(),
    ensures
        res == (chars@.subrange(from as int, to as int) == lit@),
{
    let n = lit.unicode_len();
    if to - from != n {
        return false;
    }
    let mut i: usize = 0;
    while i < n
        invariant
            i <= n,
            n == lit@.len(),
            to - from == n,
            from <= to <= chars@.len(),
            forall|k: int| 0 <= k < i ==> chars@[from + k] == lit@[k],
        decreases n - i,
    {
        if chars[from + i] != lit.get_char(i) {
            assert(chars@.subrange(from as int, to as int)[i as int] != lit@[i as int]);
            return false;
        }
        i = i + 1;
    }
    assert(chars@.subrange(from as int, to as int) =~= lit@);
    true
}

/// Whether `chars[from..to]` starts with the text `lit`.
fn range_starts_with(chars: &Vec<char>, from: usize, to: usize, lit: &str) -> (res: bool)
    requires
        from <= to <= chars@.len(),
    ensures
        res == starts_with(chars@.subrange(from as int, to as int), lit@),
{
    let n = lit.unicode_len();
    if to - from < n {
        return false;
    }
    let r = range_is(chars, from, from + n, lit);
    assert(chars@.subrange(from as int, to as int).take(n as int) =~= chars@.subrange(from as int, (from + n) as int));
    r
}

fn range_is_disk_fs(chars: &Vec<char>, from: usize, to: usize) -> (res: bool)
    requires
        from <= to <= chars@.len(),
    ensures
        res == is_disk_fs(chars@.subrange(from as int, to as int)),
{
    range_is(chars, from, to, "ext4") || range_is(chars, from, to, "ext3") || range_is(chars, from, to, "ext2")
        || range_is(chars, from, to, "xfs") || range_is(chars, from, to, "btrfs")
        || range_is(chars, from, to, "f2fs") || range_is(chars, from, to, "vfat")
        || range_is(chars, from, to, "exfat") || range_is(chars, from, to, "ntfs")
        || range_is(chars, from, to, "ntfs3")
}

/// The first three fields of `chars[from..to]`, as ranges, when it has three.
fn first_three_fields(chars: &Vec<char>, from: usize, to: usize) -> (res: Option<[(usize, usize); 3]>)
    requires
        from <= to <= chars@.len(),
    ensures
        match res {
            None => fields(chars@.subrange(from as int, to as int)).len() < 3,
            Some(r) => {
                let f = fields(chars@.subrange(from as int, to as int));
                &&& f.len() >= 3
                &&& forall|i: int| 0 <= i < 3 ==> from <= #[trigger] r@[i].0 <= r@[i].1 <= to
                    && f[i] == chars@.subrange(r@[i].0 as int, r@[i].1 as int)
            },
        },
{
    let ghost line = chars@.subrange(from as int, to as int);
    let mut found: Vec<(usize, usize)> = Vec::new();
    let mut k: usize = from;
    while k < to && found.len() < 3
        invariant
            from <= k <= to <= chars@.len(),
            line == chars@.subrange(from as int, to as int),
            found@.len() <= 3,
            forall|i: int| 0 <= i < found@.len() ==> from <= #[trigger] found@[i].0 <= found@[i].1 <= k,
            fields(line) == found@.map_values(|r: (usize, usize)| chars@.subrange(r.0 as int, r.1 as int))
                + fields(chars@.subrange(k as int, to as int)),
        decreases to - k,
    {
        let ghost rest = chars@.subrange(k as int, to as int);
        if space(chars[k]) {
            assert(rest.drop_first() =~= chars@.subrange(k + 1, to as int));
            k = k + 1;
        } else {
            let mut j: usize = k + 1;
            while j < to && !space(chars[j])
                invariant
                    k < j <= to <= chars@.len(),
                    forall|i: int| k <= i < j ==> !is_space(chars@[i]),
                decreases to - j,
            {
                j = j + 1;
            }
            proof {
                lemma_word_len(rest, j - k);
                assert(rest.take(j - k) =~= chars@.subrange(k as int, j as int));
                assert(rest.skip(j - k) =~= chars@.subrange(j as int, to as int));
            }
            let ghost before = found@;
            found.push((k, j));
            assert(found@.map_values(|r: (usize, usize)| chars@.subrange(r.0 as int, r.1 as int))
                =~= before.map_values(|r: (usize, usize)| chars@.subrange(r.0 as int, r.1 as int))
                    .push(chars@.subrange(k as int, j as int)));
            k = j;
        }
    }
    let ghost views = found@.map_values(|r: (usize, usize)| chars@.subrange(r.0 as int, r.1 as int));
    if found.len() < 3 {
        assert(chars@.subrange(k as int, to as int).len() == 0);
        assert(fields(line) =~= views);
        None
    } else {
        let r = [found[0], found[1], found[2]];
        assert(views[0] == fields(line)[0]);
        assert(views[1] == fields(line)[1]);
        assert(views[2] == fields(line)[2]);
        Some(r)
    }
}

/// The drive listed by the line `chars[from..to]` of `table`, if any; its
/// size is left unknown.
fn line_to_drive(table: &str, chars: &Vec<char>, from: usize, to: usize, home: &str) -> (res: Option<Drive>)
    requires
        chars@ == table@,
        from <= to <= chars@.len(),
    ensures
        match res {
            None => line_drive(chars@.subrange(from as int, to as int), home@).len() == 0,
            Some(d) => line_drive(chars@.subrange(from as int, to as int), home@) == seq![drive_text(d)]
                && d.size is None,
        },
{
    let ghost f = fields(chars@.subrange(from as int, to as int));
    let r = match first_three_fields(chars, from, to) {
        None => return None,
        Some(r) => r,
    };
    let (d0, d1) = r[0];
    let (m0, m1) = r[1];
    let (t0, t1) = r[2];
    assert(f[0] == chars@.subrange(d0 as int, d1 as int));
    assert(f[1] == chars@.subrange(m0 as int, m1 as int));
    assert(f[2] == chars@.subrange(t0 as int, t1 as int));
    if !range_starts_with(chars, d0, d1, "/dev/") {
        return None;
    }
    if !range_is_disk_fs(chars, t0, t1) {
        return None;
    }
    if range_starts_with(chars, m0, m1, "/boot") || range_starts_with(chars, m0, m1, "/snap") {
        return None;
    }
    let mount_str = table.substring_char(m0, m1);
    let mount = String::from_str(mount_str);
    let is_root = range_is(chars, m0, m1, "/");
    let name = if is_root {
        proof {
            reveal_strlit("Root");
        }
        String::from_str("Root")
    } else {
        path_display_name(mount_str)
    };
    let test_path = if is_root { String::from_str(home) } else { mount.clone() };
    let d = Drive { name, mount, test_path, size: None };
    assert(line_drive(chars@.subrange(from as int, to as int), home@) =~= seq![drive_text(d)]);
    Some(d)
}

/// The drives that the mount table `table` lists, in order, with their test
/// directories; `home` is the test directory of the root file system. The
/// sizes are left unknown: the caller asks the file system for them.
pub fn detect_drives(table: &str, home: &str) -> (drives: Vec<Drive>)
    ensures
        drives@.map_values(|d: Drive| drive_text(d)) == spec_mount_drives(table@, home@),
        forall|i: int| 0 <= i < drives@.len() ==> (#[trigger] drives@[i]).size is None,
{
    let chars = collect_chars(table);
    let n = chars.len();
    let mut drives: Vec<Drive> = Vec::new();
    let mut pos: usize = 0;
    assert(chars@.skip(0) =~= table@);
    while pos < n
        invariant
            pos <= n,
            n == chars@.len(),
            chars@ == table@,
            spec_mount_drives(table@, home@) == drives@.map_values(|d: Drive| drive_text(d))
                + lines_drives(lines(chars@.skip(pos as int)), home@),
            forall|i: int| 0 <= i < drives@.len() ==> (#[trigger] drives@[i]).size is None,
        decreases n - pos,
    {
        let ghost rest = chars@.skip(pos as int);
        let mut e: usize = pos;
        while e < n && chars[e] != '\n'
            invariant
                pos <= e <= n,
                n == chars@.len(),
                forall|k: int| pos <= k < e ==> chars@[k] != '\n',
            decreases n - e,
        {
            e = e + 1;
        }
        proof {
            lemma_line_end(rest, e - pos);
        }
        let le: usize = if e < n && e > pos && chars[e - 1] == '\r' { e - 1 } else { e };
        let ghost line = if e < n { strip_cr(rest.take(e - pos), true) } else { rest };
        assert(line =~= chars@.subrange(pos as int, le as int));
        let ghost next_pos: int = if e < n { e + 1 } else { n as int };
        proof {
            if e < n {
                assert(rest.skip(e - pos + 1) =~= chars@.skip(e + 1));
                assert(lines(rest) == seq![line] + lines(chars@.skip(next_pos)));
            } else {
                assert(chars@.skip(next_pos).len() == 0);
                assert(lines(rest) =~= seq![line] + lines(chars@.skip(next_pos)));
            }
            assert((seq![line] + lines(chars@.skip(next_pos))).drop_first() =~= lines(chars@.skip(next_pos)));
        }
        let ghost before = drives@;
        match line_to_drive(table, &chars, pos, le, home) {
            Some(d) => {
                drives.push(d);
                assert(drives@.map_values(|d: Drive| drive_text(d)) =~= before.map_values(|d: Drive| drive_text(d))
                    + line_drive(line, home@));
            },
            None => {
                assert(before.map_values(|d: Drive| drive_text(d)) + line_drive(line, home@)
                    =~= before.map_values(|d: Drive| drive_text(d)));
            },
        }
        assert(spec_mount_drives(table@, home@) =~= drives@.map_values(|d: Drive| drive_text(d))
            + lines_drives(lines(chars@.skip(next_pos)), home@));
        pos = if e < n { e + 1 } else { n };
    }
    assert(chars@.skip(pos as int).len() == 0);
    assert(drives@.map_values(|d: Drive| drive_text(d)) =~= spec_mount_drives(table@, home@));
    drives
}

// ---------------------------------------------------------------------------
// Mounted volumes on macOS, found by name under /Volumes.

/// Whether `part` occurs in `s`.
pub open spec fn contains_text(s: Seq<char>, part: Seq<char>) -> bool {
    exists|i: int| 0 <= i && i + part.len() <= s.len() && #[trigger] s.subrange(i, i + part.len()) == part
}

/// A volume is listed unless it is the system volume, which also appears
/// under its own name, or a hidden one, whose name starts with a dot.
pub open spec fn is_listed_volume_name(name: Seq<char>) -> bool {
    !contains_text(name, "Macintosh HD"@) && !starts_with(name, "."@)
}

pub fn is_listed_volume(name: &str) -> (res: bool)
    ensures
        res == is_listed_volume_name(name@),
{
    let chars = collect_chars(name);
    let n = chars.len();
    if range_starts_with(&chars, 0, n, ".") {
        assert(chars@.subrange(0, n as int) =~= name@);
        return false;
    }
    assert(chars@.subrange(0, n as int) =~= name@);
    let part = "Macintosh HD";
    proof {
        reveal_strlit("Macintosh HD");
    }
    let m = part.unicode_len();
    assert(part@ == "Macintosh HD"@);
    if m > n {
        assert forall|i: int| 0 <= i && i + part@.len() <= name@.len() implies
            #[trigger] name@.subrange(i, i + part@.len()) != part@ by {}
        return true;
    }
    let mut i: usize = 0;
    while i <= n - m
        invariant
            0 < m <= n,
            i <= n - m + 1,
            !starts_with(name@, "."@),
            n == chars@.len(),
            m == part@.len(),
            part@ == "Macintosh HD"@,
            chars@ == name@,
            forall|j: int| 0 <= j < i ==> #[trigger] name@.subrange(j, j + part@.len()) != part@,
        decreases n - i,
    {
        if range_is(&chars, i, i + m, part) {
            assert(name@.subrange(i as int, i + part@.len()) == part@);
            assert(contains_text(name@, part@));
            return false;
        }
        i = i + 1;
    }
    true
}

/// The mount flag of a read-only file system.
pub const MNT_RDONLY: u32 = 0x00000001;
/// The mount flag of a volume hidden from the user.
pub const MNT_DONTBROWSE: u32 = 0x00100000;

/// The file systems of real disks on macOS.
pub open spec fn is_mac_disk_fs(fs: Seq<char>) -> bool {
    ||| fs == "apfs"@
    ||| fs == "hfs"@
    ||| fs == "msdos"@
    ||| fs == "exfat"@
    ||| fs == "ntfs"@
}

/// Whether a volume can be benchmarked, given its file system's name and
/// mount flags: a real disk's file system, neither read-only nor hidden.
pub fn is_real_writable(fstype: &str, flags: u32) -> (res: bool)
    ensures
        res == (is_mac_disk_fs(fstype@) && flags & (MNT_RDONLY | MNT_DONTBROWSE) == 0),
{
    let chars = collect_chars(fstype);
    let n = chars.len();
    assert(chars@.subrange(0, n as int) =~= fstype@);
    let real_fs = range_is(&chars, 0, n, "apfs") || range_is(&chars, 0, n, "hfs")
        || range_is(&chars, 0, n, "msdos") || range_is(&chars, 0, n, "exfat")
        || range_is(&chars, 0, n, "ntfs");
    let hidden = flags & (MNT_RDONLY | MNT_DONTBROWSE) != 0;
    real_fs && !hidden
}

} // verus!
