use vstd::prelude::*;
use crate::text::{text_eq, find_last, find_first, first_index_of, push_text};

verus! {

/// A storage device that can be browsed.
#[derive(Debug, Clone, PartialEq, Eq)]
pub struct Device {
    pub name: String,
    pub path: String,
    pub device_type: String,
    pub removable: bool,
}

/// Whether `s` starts with `p`.
pub open spec fn starts_with_text(s: Seq<char>, p: Seq<char>) -> bool {
    s.len() >= p.len() && s.subrange(0, p.len() as int) == p
}

/// Whether `t` occurs in `s`.
pub open spec fn contains_text(s: Seq<char>, t: Seq<char>) -> bool {
    exists|i: int| 0 <= i && i + t.len() <= s.len() && #[trigger] s.subrange(i, i + t.len()) == t
}

/// What follows the last '/' of `s`, or all of `s` when it has none.
pub open spec fn last_segment_of(s: Seq<char>) -> Seq<char> {
    s.subrange(crate::text::last_index_of(s, '/') + 1, s.len() as int)
}

fn text_starts_with(s: &str, p: &str) -> (r: bool)
    ensures
        r == starts_with_text(s@, p@),
{
    let n = s.unicode_len();
    let m = p.unicode_len();
    n >= m && text_eq(s.substring_char(0, m), p)
}

fn text_contains(s: &str, t: &str) -> (r: bool)
    ensures
        r == contains_text(s@, t@),
{
    let n = s.unicode_len();
    let m = t.unicode_len();
    if m > n {
        return false;
    }
    if m == 0 {
        assert(s@.subrange(0, 0 + t@.len() as int) =~= t@);
        return true;
    }
    let mut i: usize = 0;
    while i <= n - m
        invariant
            0 < m <= n == s@.len(),
            i <= n - m + 1,
            m == t@.len(),
            forall|j: int| 0 <= j < i ==> #[trigger] s@.subrange(j, j + m) != t@,
        decreases n - m + 1 - i,
    {
        if text_eq(s.substring_char(i, i + m), t) {
            return true;
        }
        i += 1;
    }
    proof {
        assert forall|j: int| 0 <= j && j + t@.len() <= s@.len() implies #[trigger] s@.subrange(j, j + t@.len())
            != t@ by {
            assert(j < i);
        }
    }
    false
}

/// What follows the last '/' of `s`, or all of `s` when it has none.
pub fn last_segment(s: &str) -> (r: String)
    ensures
        r@ == last_segment_of(s@),
{
    let n = s.unicode_len();
    match find_last(s, '/') {
        Some(i) => String::from_str(s.substring_char(i + 1, n)),
        None => {
            proof {
                assert(s@.subrange(0, s@.len() as int) =~= s@);
            }
            String::from_str(s)
        },
    }
}

/// The kind of a device, by whether it is removable.
pub open spec fn kind_label(removable: bool) -> Seq<char> {
    if removable {
        "removable"@
    } else {
        "fixed"@
    }
}

/// Whether a mount point belongs to the system rather than to a device.
pub open spec fn is_system_mount(mount_point: Seq<char>) -> bool {
    starts_with_text(mount_point, "/dev"@) || starts_with_text(mount_point, "/sys"@) || starts_with_text(
        mount_point,
        "/proc"@,
    )
}

/// The device mounted at `mount_point` from `device_path`, unless the mount
/// belongs to the system. It is removable when its device path mentions
/// "usb" or the system flags its disk as removable (`flagged_removable`); it
/// is named after the last segment of its mount point.
pub fn mounted_device(device_path: &str, mount_point: &str, flagged_removable: bool) -> (r: Option<Device>)
    ensures
        r is None <==> is_system_mount(mount_point@),
        r is Some ==> {
            let d = r->0;
            &&& d.name@ == last_segment_of(mount_point@)
            &&& d.path@ == mount_point@
            &&& d.removable == (contains_text(device_path@, "usb"@) || flagged_removable)
            &&& d.device_type@ == kind_label(d.removable)
        },
{
    if text_starts_with(mount_point, "/dev") || text_starts_with(mount_point, "/sys") || text_starts_with(
        mount_point,
        "/proc",
    ) {
        return None;
    }
    let removable = text_contains(device_path, "usb") || flagged_removable;
    let device_type = if removable {
        String::from_str("removable")
    } else {
        String::from_str("fixed")
    };
    Some(Device { name: last_segment(mount_point), path: String::from_str(mount_point), device_type, removable })
}

/// The indices, below 26 and ascending, of the bits set in a mask of drives.
pub open spec fn drives_of_mask(mask: u32, n: nat) -> Seq<u32>
    decreases n,
{
    if n == 0 {
        Seq::empty()
    } else {
        let prev = drives_of_mask(mask, (n - 1) as nat);
        if mask & (1u32 << ((n - 1) as u32)) != 0 {
            prev.push((n - 1) as u32)
        } else {
            prev
        }
    }
}

/// The drive indices (0 for A, up to 25 for Z) whose bits are set in `mask`.
pub fn drives_in_mask(mask: u32) -> (r: Vec<u32>)
    ensures
        r@ == drives_of_mask(mask, 26),
{
    let mut r: Vec<u32> = Vec::new();
    let mut i: u32 = 0;
    while i < 26
        invariant
            i <= 26,
            r@ == drives_of_mask(mask, i as nat),
        decreases 26 - i,
    {
        if mask & (1u32 << i) != 0 {
            r.push(i);
        }
        i += 1;
    }
    r
}

/// The kind of a drive by its drive-type code.
pub open spec fn drive_kind(code: u32) -> Seq<char> {
    if code == 2 {
        "removable"@
    } else if code == 3 {
        "fixed"@
    } else if code == 4 {
        "network"@
    } else if code == 5 {
        "cdrom"@
    } else if code == 6 {
        "ramdisk"@
    } else {
        "unknown"@
    }
}

/// The device of drive `index` (0 for A) with drive-type code `code`; none
/// for the codes 0 and 1, which mark an unknown or absent root.
pub fn lettered_drive(index: u32, code: u32) -> (r: Option<Device>)
    requires
        index < 26,
    ensures
        r is None <==> code <= 1,
        r is Some ==> {
            let d = r->0;
            let letter = ((65 + index) as u8) as char;
            &&& d.name@ == "Drive ("@ + seq![letter] + ":)"@
            &&& d.path@ == seq![letter] + ":\\"@
            &&& d.device_type@ == drive_kind(code)
            &&& d.removable == (code == 2)
        },
{
    if code <= 1 {
        return None;
    }
    let letter = (65u8 + index as u8) as char;
    let mut name = String::from_str("Drive (");
    name.push(letter);
    push_text(&mut name, ":)");
    let mut path = String::new();
    path.push(letter);
    push_text(&mut path, ":\\");
    proof {
        assert(path@ =~= seq![letter] + ":\\"@);
    }
    let device_type = if code == 2 {
        String::from_str("removable")
    } else if code == 3 {
        String::from_str("fixed")
    } else if code == 4 {
        String::from_str("network")
    } else if code == 5 {
        String::from_str("cdrom")
    } else if code == 6 {
        String::from_str("ramdisk")
    } else {
        String::from_str("unknown")
    };
    Some(Device { name, path, device_type, removable: code == 2 })
}

/// Whether `c` is white space (the Unicode White_Space property, as
/// `char::is_whitespace` documents it).
pub open spec fn is_white(c: char) -> bool {
    ('\u{9}' <= c && c <= '\u{d}') || c == ' ' || c == '\u{85}' || c == '\u{a0}' || c == '\u{1680}' || (
    '\u{2000}' <= c && c <= '\u{200a}') || c == '\u{2028}' || c == '\u{2029}' || c == '\u{202f}' || c
        == '\u{205f}' || c == '\u{3000}'
}

fn is_white_exec(c: char) -> (r: bool)
    ensures
        r == is_white(c),
{
    ('\u{9}' <= c && c <= '\u{d}') || c == ' ' || c == '\u{85}' || c == '\u{a0}' || c == '\u{1680}' || (
    '\u{2000}' <= c && c <= '\u{200a}') || c == '\u{2028}' || c == '\u{2029}' || c == '\u{202f}' || c
        == '\u{205f}' || c == '\u{3000}'
}

/// The text without its leading white space.
pub open spec fn trim_start_of(s: Seq<char>) -> Seq<char>
    decreases s.len(),
{
    if s.len() > 0 && is_white(s[0]) {
        trim_start_of(s.drop_first())
    } else {
        s
    }
}

/// The text without its trailing white space.
pub open spec fn trim_end_of(s: Seq<char>) -> Seq<char>
    decreases s.len(),
{
    if s.len() > 0 && is_white(s.last()) {
        trim_end_of(s.drop_last())
    } else {
        s
    }
}

/// The text without white space at either end.
pub open spec fn trimmed(s: Seq<char>) -> Seq<char> {
    trim_end_of(trim_start_of(s))
}

/// The index of the first white space character in `s`, or its length.
pub open spec fn word_end(s: Seq<char>) -> nat
    decreases s.len(),
{
    if s.len() == 0 || is_white(s[0]) {
        0
    } else {
        word_end(s.drop_first()) + 1
    }
}

fn trim_bounds(s: &str) -> (r: (usize, usize))
    ensures
        r.0 <= r.1 <= s@.len(),
        s@.subrange(r.0 as int, r.1 as int) == trimmed(s@),
{
    let n = s.unicode_len();
    let mut a: usize = 0;
    assert(s@.skip(0) =~= s@);
    while a < n && is_white_exec(s.get_char(a))
        invariant
            a <= n == s@.len(),
            trim_start_of(s@) == trim_start_of(s@.skip(a as int)),
        decreases n - a,
    {
        assert(s@.skip(a as int).drop_first() =~= s@.skip(a + 1));
        a += 1;
    }
    assert(trim_start_of(s@) == s@.subrange(a as int, n as int)) by {
        assert(s@.skip(a as int) =~= s@.subrange(a as int, n as int));
    }
    let mut b: usize = n;
    while b > a && is_white_exec(s.get_char(b - 1))
        invariant
            a <= b <= n == s@.len(),
            trimmed(s@) == trim_end_of(s@.subrange(a as int, b as int)),
        decreases b,
    {
        assert(s@.subrange(a as int, b as int).drop_last() =~= s@.subrange(a as int, b - 1));
        b -= 1;
    }
    (a, b)
}

/// The text between the first ':' and the next ':' (or the end), if `s`
/// has a ':'.
pub open spec fn second_field(s: Seq<char>) -> Option<Seq<char>> {
    let i = first_index_of(s, ':');
    if i < 0 {
        None
    } else {
        let rest = s.subrange(i + 1, s.len() as int);
        let j = first_index_of(rest, ':');
        Some(
            if j < 0 {
                rest
            } else {
                rest.subrange(0, j)
            },
        )
    }
}

/// The mount point that a line of a disk's description gives: on a line
/// that mentions "Mount Point:", its second ':'-separated field, trimmed.
pub open spec fn mount_point_in(line: Seq<char>) -> Option<Seq<char>> {
    if contains_text(line, "Mount Point:"@) && second_field(line) is Some {
        Some(trimmed(second_field(line)->0))
    } else {
        None
    }
}

/// The mount point that a line of a disk's description gives, as
/// `mount_point_in` says.
pub fn mount_point_in_line(line: &str) -> (r: Option<String>)
    ensures
        r is Some <==> mount_point_in(line@) is Some,
        r is Some ==> r->0@ == mount_point_in(line@)->0,
{
    if !text_contains(line, "Mount Point:") {
        return None;
    }
    let n = line.unicode_len();
    let i = match find_first(line, ':') {
        Some(i) => i,
        None => return None,
    };
    let rest = line.substring_char(i + 1, n);
    let m = rest.unicode_len();
    let field = match find_first(rest, ':') {
        Some(j) => rest.substring_char(0, j),
        None => {
            assert(rest@.subrange(0, m as int) =~= rest@);
            rest.substring_char(0, m)
        },
    };
    let (a, b) = trim_bounds(field);
    Some(String::from_str(field.substring_char(a, b)))
}

/// Whether a disk's description reports removable media.
pub fn reports_removable(info: &str) -> (r: bool)
    ensures
        r == contains_text(info@, "Removable Media: Yes"@),
{
    text_contains(info, "Removable Media: Yes")
}

/// The disk identifier that a line of a disk list names: its first word, on
/// a line that mentions "/dev/disk".
pub open spec fn disk_named_in(line: Seq<char>) -> Option<Seq<char>> {
    if contains_text(line, "/dev/disk"@) {
        let t = trim_start_of(line);
        Some(t.subrange(0, word_end(t) as int))
    } else {
        None
    }
}

/// The disk identifier that a line of a disk list names, as `disk_named_in`
/// says.
pub fn disk_in_line(line: &str) -> (r: Option<String>)
    ensures
        r is Some <==> disk_named_in(line@) is Some,
        r is Some ==> r->0@ == disk_named_in(line@)->0,
{
    if !text_contains(line, "/dev/disk") {
        return None;
    }
    let n = line.unicode_len();
    let mut a: usize = 0;
    assert(line@.skip(0) =~= line@);
    while a < n && is_white_exec(line.get_char(a))
        invariant
            a <= n == line@.len(),
            trim_start_of(line@) == trim_start_of(line@.skip(a as int)),
        decreases n - a,
    {
        assert(line@.skip(a as int).drop_first() =~= line@.skip(a + 1));
        a += 1;
    }
    let ghost t = line@.skip(a as int);
    assert(trim_start_of(line@) == t);
    let mut b: usize = a;
    assert(line@.skip(b as int) =~= t.skip(0));
    while b < n && !is_white_exec(line.get_char(b))
        invariant
            a <= b <= n == line@.len(),
            t == line@.skip(a as int),
            word_end(t) == (b - a) + word_end(line@.skip(b as int)),
        decreases n - b,
    {
        assert(line@.skip(b as int).drop_first() =~= line@.skip(b + 1));
        b += 1;
    }
    assert(t.subrange(0, word_end(t) as int) =~= line@.subrange(a as int, b as int));
    Some(String::from_str(line.substring_char(a, b)))
}

/// The device of a volume mounted at `mount_point`, named after the last
/// segment of its mount point; none when the mount point is empty.
pub fn volume_device(mount_point: &str, removable: bool) -> (r: Option<Device>)
    ensures
        r is None <==> mount_point@.len() == 0,
        r is Some ==> {
            let d = r->0;
            &&& d.name@ == last_segment_of(mount_point@)
            &&& d.path@ == mount_point@
            &&& d.removable == removable
            &&& d.device_type@ == kind_label(removable)
        },
{
    if mount_point.unicode_len() == 0 {
        return None;
    }
    let device_type = if removable {
        String::from_str("removable")
    } else {
        String::from_str("fixed")
    };
    Some(Device { name: last_segment(mount_point), path: String::from_str(mount_point), device_type, removable })
}

} // verus!
