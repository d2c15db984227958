//! The parts of a path, by the rules of each platform.
//!
//! A path is text. On Windows both slashes separate names, and a path may begin
//! with a prefix: a drive, a share, a device, or a verbatim form of one of these
//! (`\\?\`), behind which only the backslash separates and no name is skipped.
use crate::platform::Platform;
use crate::text::{chars_of, join_texts, joined, string_of, texts};
use vstd::prelude::*;

verus! {

/// What a path of Windows begins with.
#[derive(Debug, Clone, Copy, PartialEq, Eq, Structural)]
pub enum PrefixKind {
    /// No prefix.
    Bare,
    /// `C:`
    Disk,
    /// `\\server\share`
    Share,
    /// `\\.\device`
    Device,
    /// `\\?\name`
    Verbatim,
    /// `\\?\C:`
    VerbatimDisk,
    /// `\\?\UNC\server\share`
    VerbatimShare,
}

/// What stands in front of the names of a path.
#[derive(Debug, Clone, Copy, PartialEq, Eq, Structural)]
pub struct Front {
    pub kind: PrefixKind,
    /// The length of the prefix.
    pub prefix_len: usize,
    /// Whether a separator follows the prefix.
    pub rooted: bool,
    /// Whether the path begins with a dot that stands for the current directory.
    pub dotted: bool,
}

// ---------------------------------------------------------------------------
// What a path consists of

/// Whether `c` separates names.
pub open spec fn is_separator(platform: Platform, c: char) -> bool {
    c == '/' || (platform == Platform::Windows && c == '\\')
}

/// Whether `c` ends a name, in a verbatim path or in another one.
pub open spec fn cuts(platform: Platform, verbatim: bool, c: char) -> bool {
    if verbatim {
        c == '\\'
    } else {
        is_separator(platform, c)
    }
}

pub open spec fn is_letter(c: char) -> bool {
    65 <= c as int <= 90 || 97 <= c as int <= 122
}

/// Where the name that begins at `from` ends.
pub open spec fn name_end(platform: Platform, verbatim: bool, s: Seq<char>, from: int) -> int
    decreases s.len() - from,
{
    if from >= s.len() {
        s.len() as int
    } else if cuts(platform, verbatim, s[from]) {
        from
    } else {
        name_end(platform, verbatim, s, from + 1)
    }
}

pub open spec fn is_drive(s: Seq<char>, at: int) -> bool {
    s.len() >= at + 2 && is_letter(s[at]) && s[at + 1] == ':'
}

/// `\\?\` in front, with no slash in it.
pub open spec fn begins_verbatim(s: Seq<char>) -> bool {
    s.len() >= 4 && s[0] == '\\' && s[1] == '\\' && s[2] == '?' && s[3] == '\\'
}

/// Two separators, a server and a share.
pub open spec fn names_share(s: Seq<char>) -> bool {
    let server_end = name_end(Platform::Windows, false, s, 2);
    server_end > 2 && server_end < s.len() && name_end(
        Platform::Windows,
        false,
        s,
        server_end + 1,
    ) > server_end + 1
}

/// The prefix that a path begins with.
pub open spec fn prefix_kind(platform: Platform, s: Seq<char>) -> PrefixKind {
    let sep = |i: int| is_separator(Platform::Windows, s[i]);
    if platform != Platform::Windows {
        PrefixKind::Bare
    } else if begins_verbatim(s) {
        if s.len() >= 8 && s[4] == 'U' && s[5] == 'N' && s[6] == 'C' && sep(7) {
            PrefixKind::VerbatimShare
        } else if is_drive(s, 4) && (s.len() == 6 || sep(6)) {
            PrefixKind::VerbatimDisk
        } else {
            PrefixKind::Verbatim
        }
    } else if s.len() >= 2 && sep(0) && sep(1) {
        if s.len() >= 4 && s[2] == '.' && sep(3) {
            PrefixKind::Device
        } else if names_share(s) {
            PrefixKind::Share
        } else {
            PrefixKind::Bare
        }
    } else if is_drive(s, 0) {
        PrefixKind::Disk
    } else {
        PrefixKind::Bare
    }
}

pub open spec fn is_verbatim(kind: PrefixKind) -> bool {
    kind == PrefixKind::Verbatim || kind == PrefixKind::VerbatimDisk || kind
        == PrefixKind::VerbatimShare
}

/// Every prefix but a drive is followed by a root, written or not.
pub open spec fn implies_root(kind: PrefixKind) -> bool {
    kind != PrefixKind::Bare && kind != PrefixKind::Disk
}

pub open spec fn prefix_len(platform: Platform, s: Seq<char>) -> int {
    let w = Platform::Windows;
    match prefix_kind(platform, s) {
        PrefixKind::Bare => 0,
        PrefixKind::Disk => 2,
        PrefixKind::Share => name_end(w, false, s, name_end(w, false, s, 2) + 1),
        PrefixKind::Device => name_end(w, false, s, 4),
        PrefixKind::Verbatim => name_end(w, true, s, 4),
        PrefixKind::VerbatimDisk => 6,
        PrefixKind::VerbatimShare => {
            let server_end = name_end(w, true, s, 8);
            let share_end = name_end(w, true, s, server_end + 1);
            if share_end > server_end + 1 {
                share_end
            } else {
                server_end
            }
        },
    }
}

/// Whether a separator follows the prefix.
pub open spec fn is_rooted(platform: Platform, s: Seq<char>) -> bool {
    let n = prefix_len(platform, s);
    n < s.len() && is_separator(platform, s[n])
}

/// Whether a lone dot follows the prefix, where there is no root.
pub open spec fn is_dotted(platform: Platform, s: Seq<char>) -> bool {
    let n = prefix_len(platform, s);
    &&& !is_rooted(platform, s)
    &&& !implies_root(prefix_kind(platform, s))
    &&& n < s.len()
    &&& s[n] == '.'
    &&& n + 1 == s.len() || is_separator(platform, s[n + 1])
}

/// Whether only a backslash separates the names of the path.
pub open spec fn path_is_verbatim(platform: Platform, s: Seq<char>) -> bool {
    is_verbatim(prefix_kind(platform, s))
}

/// Where the names of a path begin.
pub open spec fn names_start(platform: Platform, s: Seq<char>) -> int {
    prefix_len(platform, s) + (if is_rooted(platform, s) {
        1int
    } else {
        0
    }) + (if is_dotted(platform, s) {
        1int
    } else {
        0
    })
}

/// Where the last name before `end` ends: separators, and lone dots outside
/// verbatim paths, are passed over.
pub open spec fn last_name_end(
    platform: Platform,
    verbatim: bool,
    s: Seq<char>,
    floor: int,
    end: int,
) -> int
    decreases end,
{
    if end <= floor || end <= 0 {
        floor
    } else if cuts(platform, verbatim, s[end - 1]) {
        last_name_end(platform, verbatim, s, floor, end - 1)
    } else if !verbatim && s[end - 1] == '.' && (end - 1 == floor || cuts(
        platform,
        verbatim,
        s[end - 2],
    )) {
        last_name_end(platform, verbatim, s, floor, end - 1)
    } else {
        end
    }
}

/// Where the name that ends at `end` begins.
pub open spec fn name_start(
    platform: Platform,
    verbatim: bool,
    s: Seq<char>,
    floor: int,
    end: int,
) -> int
    decreases end,
{
    if end <= floor || end <= 0 {
        floor
    } else if cuts(platform, verbatim, s[end - 1]) {
        end
    } else {
        name_start(platform, verbatim, s, floor, end - 1)
    }
}

proof fn lemma_bounds(platform: Platform, verbatim: bool, s: Seq<char>, floor: int, end: int)
    requires
        0 <= floor,
    ensures
        floor <= last_name_end(platform, verbatim, s, floor, end),
        end >= floor ==> last_name_end(platform, verbatim, s, floor, end) <= end,
        floor <= name_start(platform, verbatim, s, floor, end),
        end >= floor ==> name_start(platform, verbatim, s, floor, end) <= end,
        ({
            let e = last_name_end(platform, verbatim, s, floor, end);
            e > floor ==> name_start(platform, verbatim, s, floor, e) < e
        }),
    decreases end,
{
    if end > floor {
        lemma_bounds(platform, verbatim, s, floor, end - 1);
    }
}

/// The names between `floor` and `end`.
pub open spec fn names_between(
    platform: Platform,
    verbatim: bool,
    s: Seq<char>,
    floor: int,
    end: int,
) -> Seq<Seq<char>>
    decreases end,
    when 0 <= floor <= end
    via names_between_ends
{
    let e = last_name_end(platform, verbatim, s, floor, end);
    let start = name_start(platform, verbatim, s, floor, e);
    if e > floor {
        names_between(platform, verbatim, s, floor, start).push(s.subrange(start, e))
    } else {
        seq![]
    }
}

#[via_fn]
proof fn names_between_ends(
    platform: Platform,
    verbatim: bool,
    s: Seq<char>,
    floor: int,
    end: int,
) {
    lemma_bounds(platform, verbatim, s, floor, end);
    lemma_bounds(
        platform,
        verbatim,
        s,
        floor,
        last_name_end(platform, verbatim, s, floor, end),
    );
}

/// The names of a path, behind its prefix and root.
pub open spec fn names(platform: Platform, s: Seq<char>) -> Seq<Seq<char>> {
    names_between(
        platform,
        path_is_verbatim(platform, s),
        s,
        names_start(platform, s),
        s.len() as int,
    )
}

/// Where the last name of a path ends.
pub open spec fn end_of_names(platform: Platform, s: Seq<char>) -> int {
    last_name_end(
        platform,
        path_is_verbatim(platform, s),
        s,
        names_start(platform, s),
        s.len() as int,
    )
}

/// Where the last name of a path begins.
pub open spec fn start_of_last_name(platform: Platform, s: Seq<char>) -> int {
    name_start(
        platform,
        path_is_verbatim(platform, s),
        s,
        names_start(platform, s),
        end_of_names(platform, s),
    )
}

/// Whether a name is neither `.` nor `..`.
pub open spec fn is_plain(name: Seq<char>) -> bool {
    name != seq!['.'] && name != seq!['.', '.']
}

/// The last name of a path, unless it is a dot or two.
pub open spec fn file_name_of(platform: Platform, s: Seq<char>) -> Option<Seq<char>> {
    let end = end_of_names(platform, s);
    if end > names_start(platform, s) {
        let name = s.subrange(start_of_last_name(platform, s), end);
        if is_plain(name) {
            Some(name)
        } else {
            None
        }
    } else {
        None
    }
}

/// The path without its last name.
pub open spec fn parent_of(platform: Platform, s: Seq<char>) -> Option<Seq<char>> {
    if end_of_names(platform, s) > names_start(platform, s) {
        Some(
            s.take(
                last_name_end(
                    platform,
                    path_is_verbatim(platform, s),
                    s,
                    names_start(platform, s),
                    start_of_last_name(platform, s),
                ),
            ),
        )
    } else if is_dotted(platform, s) && prefix_kind(platform, s) == PrefixKind::Bare {
        Some(seq![])
    } else {
        None
    }
}

/// Whether a path says by itself where it leads.
pub open spec fn absolute(platform: Platform, s: Seq<char>) -> bool {
    let kind = prefix_kind(platform, s);
    if platform == Platform::Windows {
        kind != PrefixKind::Bare && (is_rooted(platform, s) || implies_root(kind))
    } else {
        is_rooted(platform, s)
    }
}

// ---------------------------------------------------------------------------
// Reading a path

fn is_sep(platform: Platform, c: char) -> (yes: bool)
    ensures
        yes == is_separator(platform, c),
{
    match platform {
        Platform::Windows => c == '/' || c == '\\',
        _ => c == '/',
    }
}

fn ends_name(platform: Platform, verbatim: bool, c: char) -> (yes: bool)
    ensures
        yes == cuts(platform, verbatim, c),
{
    if verbatim {
        c == '\\'
    } else {
        is_sep(platform, c)
    }
}

fn is_ascii_letter(c: char) -> (yes: bool)
    ensures
        yes == is_letter(c),
{
    let u: u32 = c as u32;
    (65 <= u && u <= 90) || (97 <= u && u <= 122)
}

fn find_name_end(verbatim: bool, s: &Vec<char>, from: usize) -> (end: usize)
    requires
        from <= s.len(),
    ensures
        end == name_end(Platform::Windows, verbatim, s@, from as int),
        from <= end <= s.len(),
{
    let mut i: usize = from;
    while i < s.len() && !ends_name(Platform::Windows, verbatim, s[i])
        invariant
            from <= i <= s.len(),
            name_end(Platform::Windows, verbatim, s@, i as int) == name_end(
                Platform::Windows,
                verbatim,
                s@,
                from as int,
            ),
        decreases s.len() - i,
    {
        i += 1;
    }
    i
}

fn drive_at(s: &Vec<char>, at: usize) -> (yes: bool)
    requires
        at <= 4,
    ensures
        yes == is_drive(s@, at as int),
{
    s.len() >= at + 2 && is_ascii_letter(s[at]) && s[at + 1] == ':'
}

fn sep_at(s: &Vec<char>, at: usize) -> (yes: bool)
    requires
        at < s.len(),
    ensures
        yes == is_separator(Platform::Windows, s@[at as int]),
{
    is_sep(Platform::Windows, s[at])
}

fn read_prefix(platform: Platform, s: &Vec<char>) -> (prefix: (PrefixKind, usize))
    ensures
        prefix.0 == prefix_kind(platform, s@),
        prefix.1 == prefix_len(platform, s@),
        prefix.1 <= s.len(),
{
    match platform {
        Platform::Windows => {},
        _ => {
            return (PrefixKind::Bare, 0);
        },
    }
    if s.len() >= 4 && s[0] == '\\' && s[1] == '\\' && s[2] == '?' && s[3] == '\\' {
        if s.len() >= 8 && s[4] == 'U' && s[5] == 'N' && s[6] == 'C' && sep_at(s, 7) {
            let server_end: usize = find_name_end(true, s, 8);
            if server_end == s.len() {
                return (PrefixKind::VerbatimShare, server_end);
            }
            let share_end: usize = find_name_end(true, s, server_end + 1);
            if share_end > server_end + 1 {
                return (PrefixKind::VerbatimShare, share_end);
            }
            return (PrefixKind::VerbatimShare, server_end);
        }
        if drive_at(s, 4) && (s.len() == 6 || sep_at(s, 6)) {
            return (PrefixKind::VerbatimDisk, 6);
        }
        return (PrefixKind::Verbatim, find_name_end(true, s, 4));
    }
    if s.len() >= 2 && sep_at(s, 0) && sep_at(s, 1) {
        if s.len() >= 4 && s[2] == '.' && sep_at(s, 3) {
            return (PrefixKind::Device, find_name_end(false, s, 4));
        }
        let server_end: usize = find_name_end(false, s, 2);
        if server_end > 2 && server_end < s.len() {
            let share_end: usize = find_name_end(false, s, server_end + 1);
            if share_end > server_end + 1 {
                return (PrefixKind::Share, share_end);
            }
        }
        return (PrefixKind::Bare, 0);
    }
    if drive_at(s, 0) {
        return (PrefixKind::Disk, 2);
    }
    (PrefixKind::Bare, 0)
}

fn is_verbatim_kind(kind: PrefixKind) -> (yes: bool)
    ensures
        yes == is_verbatim(kind),
{
    match kind {
        PrefixKind::Verbatim => true,
        PrefixKind::VerbatimDisk => true,
        PrefixKind::VerbatimShare => true,
        _ => false,
    }
}

fn has_implied_root(kind: PrefixKind) -> (yes: bool)
    ensures
        yes == implies_root(kind),
{
    match kind {
        PrefixKind::Bare => false,
        PrefixKind::Disk => false,
        _ => true,
    }
}

impl Front {
    /// Whether this is what stands in front of the names of `s`.
    pub open spec fn fits(self, platform: Platform, s: Seq<char>) -> bool {
        &&& self.kind == prefix_kind(platform, s)
        &&& self.prefix_len == prefix_len(platform, s)
        &&& self.rooted == is_rooted(platform, s)
        &&& self.dotted == is_dotted(platform, s)
        &&& names_start(platform, s) <= s.len()
    }

    fn names_start(&self, Ghost(platform): Ghost<Platform>, s: &Vec<char>) -> (start: usize)
        requires
            self.fits(platform, s@),
        ensures
            start == names_start(platform, s@),
            start <= s.len(),
    {
        assert(s@.len() == s.len());
        if self.rooted || self.dotted {
            self.prefix_len + 1
        } else {
            self.prefix_len
        }
    }
}

fn read_front(platform: Platform, s: &Vec<char>) -> (front: Front)
    ensures
        front.fits(platform, s@),
{
    let (kind, prefix_len) = read_prefix(platform, s);
    let rooted = prefix_len < s.len() && is_sep(platform, s[prefix_len]);
    let dotted = !rooted && !has_implied_root(kind) && prefix_len < s.len() && s[prefix_len] == '.'
        && (prefix_len + 1 == s.len() || is_sep(platform, s[prefix_len + 1]));
    Front { kind, prefix_len, rooted, dotted }
}

fn find_last_name_end(
    platform: Platform,
    verbatim: bool,
    s: &Vec<char>,
    floor: usize,
    end: usize,
) -> (at: usize)
    requires
        floor <= end <= s.len(),
    ensures
        at == last_name_end(platform, verbatim, s@, floor as int, end as int),
        floor <= at <= end,
{
    let mut i: usize = end;
    while i > floor && (ends_name(platform, verbatim, s[i - 1]) || (!verbatim && s[i - 1] == '.'
        && (i - 1 == floor || ends_name(platform, verbatim, s[i - 2]))))
        invariant
            floor <= i <= end <= s.len(),
            last_name_end(platform, verbatim, s@, floor as int, i as int) == last_name_end(
                platform,
                verbatim,
                s@,
                floor as int,
                end as int,
            ),
        decreases i,
    {
        i -= 1;
    }
    i
}

fn find_name_start(
    platform: Platform,
    verbatim: bool,
    s: &Vec<char>,
    floor: usize,
    end: usize,
) -> (at: usize)
    requires
        floor <= end <= s.len(),
    ensures
        at == name_start(platform, verbatim, s@, floor as int, end as int),
        floor <= at <= end,
{
    let mut i: usize = end;
    while i > floor && !ends_name(platform, verbatim, s[i - 1])
        invariant
            floor <= i <= end <= s.len(),
            name_start(platform, verbatim, s@, floor as int, i as int) == name_start(
                platform,
                verbatim,
                s@,
                floor as int,
                end as int,
            ),
        decreases i,
    {
        i -= 1;
    }
    i
}

fn is_plain_name(s: &Vec<char>, from: usize, to: usize) -> (yes: bool)
    requires
        from <= to <= s.len(),
    ensures
        yes == is_plain(s@.subrange(from as int, to as int)),
{
    let ghost name = s@.subrange(from as int, to as int);
    let n: usize = to - from;
    if n == 1 && s[from] == '.' {
        assert(name =~= seq!['.']);
        return false;
    }
    if n == 2 && s[from] == '.' && s[from + 1] == '.' {
        assert(name =~= seq!['.', '.']);
        return false;
    }
    assert(name.len() == n);
    proof {
        if name == seq!['.'] {
            assert(name[0] == '.');
        }
        if name == seq!['.', '.'] {
            assert(name[0] == '.' && name[1] == '.');
        }
    }
    true
}

/// The last name of a path.
pub fn file_name(platform: Platform, path: &str) -> (name: Option<String>)
    ensures
        match file_name_of(platform, path@) {
            Some(expected) => name matches Some(text) && text@ == expected,
            None => name is None,
        },
{
    let s = chars_of(path);
    let front = read_front(platform, &s);
    let verbatim = is_verbatim_kind(front.kind);
    let floor: usize = front.names_start(Ghost(platform), &s);
    let end: usize = find_last_name_end(platform, verbatim, &s, floor, s.len());
    if end == floor {
        return None;
    }
    let start: usize = find_name_start(platform, verbatim, &s, floor, end);
    if is_plain_name(&s, start, end) {
        Some(string_of(&s, start, end))
    } else {
        None
    }
}

/// The path without its last name.
pub fn parent(platform: Platform, path: &str) -> (outer: Option<String>)
    ensures
        match parent_of(platform, path@) {
            Some(expected) => outer matches Some(text) && text@ == expected,
            None => outer is None,
        },
{
    let s = chars_of(path);
    let front = read_front(platform, &s);
    let verbatim = is_verbatim_kind(front.kind);
    let floor: usize = front.names_start(Ghost(platform), &s);
    let end: usize = find_last_name_end(platform, verbatim, &s, floor, s.len());
    if end > floor {
        let start: usize = find_name_start(platform, verbatim, &s, floor, end);
        let cut: usize = find_last_name_end(platform, verbatim, &s, floor, start);
        assert(s@.subrange(0, cut as int) =~= path@.take(cut as int));
        Some(string_of(&s, 0, cut))
    } else {
        match front.kind {
            PrefixKind::Bare => {
                if front.dotted {
                    Some(String::new())
                } else {
                    None
                }
            },
            _ => None,
        }
    }
}

/// Whether a path says by itself where it leads.
pub fn is_absolute(platform: Platform, path: &str) -> (yes: bool)
    ensures
        yes == absolute(platform, path@),
{
    let s = chars_of(path);
    let front = read_front(platform, &s);
    match platform {
        Platform::Windows => match front.kind {
            PrefixKind::Bare => false,
            _ => front.rooted || has_implied_root(front.kind),
        },
        _ => front.rooted,
    }
}

// ---------------------------------------------------------------------------
// Lists of names

fn names_before(
    platform: Platform,
    verbatim: bool,
    s: &Vec<char>,
    floor: usize,
    end: usize,
) -> (list: Vec<String>)
    requires
        floor <= end <= s.len(),
    ensures
        texts(list@) == names_between(platform, verbatim, s@, floor as int, end as int),
    decreases end,
{
    let e: usize = find_last_name_end(platform, verbatim, s, floor, end);
    if e == floor {
        let list: Vec<String> = Vec::new();
        assert(texts(list@) =~= seq![]);
        return list;
    }
    let start: usize = find_name_start(platform, verbatim, s, floor, e);
    proof {
        lemma_bounds(platform, verbatim, s@, floor as int, end as int);
    }
    let mut list = names_before(platform, verbatim, s, floor, start);
    let ghost shorter = texts(list@);
    let name = string_of(s, start, e);
    list.push(name);
    assert(texts(list@) =~= shorter.push(s@.subrange(start as int, e as int)));
    list
}

fn read_names(platform: Platform, s: &Vec<char>, front: &Front) -> (list: Vec<String>)
    requires
        front.fits(platform, s@),
    ensures
        texts(list@) == names(platform, s@),
{
    let floor: usize = front.names_start(Ghost(platform), s);
    names_before(platform, is_verbatim_kind(front.kind), s, floor, s.len())
}

fn same_names(left: &Vec<String>, right: &Vec<String>) -> (same: bool)
    ensures
        same == (texts(left@) == texts(right@)),
{
    let ghost l = texts(left@);
    let ghost r = texts(right@);
    if left.len() != right.len() {
        assert(l.len() != r.len());
        return false;
    }
    let mut i: usize = 0;
    while i < left.len()
        invariant
            i <= left.len() == right.len(),
            l == texts(left@),
            r == texts(right@),
            forall|k: int| 0 <= k < i ==> l[k] == r[k],
        decreases left.len() - i,
    {
        if left[i] != right[i] {
            assert(l[i as int] != r[i as int]);
            return false;
        }
        i += 1;
    }
    assert(l =~= r);
    true
}

// ---------------------------------------------------------------------------
// Sameness

/// `c` as a capital, where it is a letter of the Latin alphabet.
pub open spec fn capital(c: char) -> char {
    if 97 <= c as int <= 122 {
        (c as int - 32) as char
    } else {
        c
    }
}

/// The same text, whichever separators it uses.
pub open spec fn same_but_for_separators(s: Seq<char>, t: Seq<char>) -> bool {
    &&& s.len() == t.len()
    &&& forall|i: int|
        0 <= i < s.len() ==> #[trigger] s[i] == t[i] || (is_separator(Platform::Windows, s[i])
            && is_separator(Platform::Windows, t[i]))
}

/// Whether two paths begin with the same prefix: a drive in either case, a share
/// with either separator, and everything else letter for letter.
pub open spec fn same_prefix(platform: Platform, s: Seq<char>, t: Seq<char>) -> bool {
    let n = prefix_len(platform, s);
    let m = prefix_len(platform, t);
    &&& prefix_kind(platform, s) == prefix_kind(platform, t)
    &&& match prefix_kind(platform, s) {
        PrefixKind::Bare => true,
        PrefixKind::Disk => capital(s[0]) == capital(t[0]),
        PrefixKind::VerbatimDisk => capital(s[4]) == capital(t[4]),
        PrefixKind::Share => same_but_for_separators(s.subrange(2, n), t.subrange(2, m)),
        PrefixKind::Device => s.subrange(4, n) == t.subrange(4, m),
        PrefixKind::Verbatim => s.subrange(4, n) == t.subrange(4, m),
        PrefixKind::VerbatimShare => s.subrange(8, n) == t.subrange(8, m),
    }
}

/// Whether a path has a root, written or implied by its prefix.
pub open spec fn shows_root(platform: Platform, s: Seq<char>) -> bool {
    let kind = prefix_kind(platform, s);
    is_rooted(platform, s) || (implies_root(kind) && !is_verbatim(kind))
}

/// Whether a path begins with the current directory.
pub open spec fn shows_dot(platform: Platform, s: Seq<char>) -> bool {
    is_dotted(platform, s) && prefix_kind(platform, s) == PrefixKind::Bare
}

/// Whether two paths consist of the same parts.
pub open spec fn same_parts(platform: Platform, s: Seq<char>, t: Seq<char>) -> bool {
    &&& same_prefix(platform, s, t)
    &&& shows_root(platform, s) == shows_root(platform, t)
    &&& shows_dot(platform, s) == shows_dot(platform, t)
    &&& names(platform, s) == names(platform, t)
}

fn same_capital(c: char, d: char) -> (same: bool)
    ensures
        same == (capital(c) == capital(d)),
{
    let u: u32 = c as u32;
    let v: u32 = d as u32;
    let cu: u32 = if 97 <= u && u <= 122 {
        u - 32
    } else {
        u
    };
    let cv: u32 = if 97 <= v && v <= 122 {
        v - 32
    } else {
        v
    };
    cu == cv
}

fn same_range(s: &Vec<char>, n: usize, t: &Vec<char>, m: usize, from: usize) -> (same: bool)
    requires
        from <= n <= s.len(),
        from <= m <= t.len(),
    ensures
        same == (s@.subrange(from as int, n as int) == t@.subrange(from as int, m as int)),
{
    let ghost l = s@.subrange(from as int, n as int);
    let ghost r = t@.subrange(from as int, m as int);
    if n != m {
        assert(l.len() != r.len());
        return false;
    }
    let mut i: usize = from;
    while i < n
        invariant
            from <= i <= n == m,
            n <= s.len(),
            m <= t.len(),
            l == s@.subrange(from as int, n as int),
            r == t@.subrange(from as int, m as int),
            forall|k: int| 0 <= k < i - from ==> l[k] == r[k],
        decreases n - i,
    {
        if s[i] != t[i] {
            assert(l[i - from] != r[i - from]);
            return false;
        }
        i += 1;
    }
    assert(l =~= r);
    true
}

fn same_share(s: &Vec<char>, n: usize, t: &Vec<char>, m: usize) -> (same: bool)
    requires
        2 <= n <= s.len(),
        2 <= m <= t.len(),
    ensures
        same == same_but_for_separators(s@.subrange(2, n as int), t@.subrange(2, m as int)),
{
    let ghost l = s@.subrange(2, n as int);
    let ghost r = t@.subrange(2, m as int);
    if n != m {
        return false;
    }
    let mut i: usize = 2;
    while i < n
        invariant
            2 <= i <= n == m,
            n <= s.len(),
            m <= t.len(),
            l == s@.subrange(2, n as int),
            r == t@.subrange(2, m as int),
            forall|k: int|
                0 <= k < i - 2 ==> #[trigger] l[k] == r[k] || (is_separator(
                    Platform::Windows,
                    l[k],
                ) && is_separator(Platform::Windows, r[k])),
        decreases n - i,
    {
        assert(l[i - 2] == s@[i as int] && r[i - 2] == t@[i as int]);
        if s[i] != t[i] && !(sep_at(s, i) && sep_at(t, i)) {
            return false;
        }
        i += 1;
    }
    true
}

proof fn lemma_name_end(platform: Platform, verbatim: bool, s: Seq<char>, from: int)
    ensures
        from <= s.len() ==> from <= name_end(platform, verbatim, s, from) <= s.len(),
    decreases s.len() - from,
{
    if from < s.len() && !cuts(platform, verbatim, s[from]) {
        lemma_name_end(platform, verbatim, s, from + 1);
    }
}

proof fn lemma_prefix_len(platform: Platform, s: Seq<char>)
    ensures
        0 <= prefix_len(platform, s) <= s.len(),
        prefix_kind(platform, s) == PrefixKind::Share ==> prefix_len(platform, s) >= 2,
        prefix_kind(platform, s) == PrefixKind::Device ==> prefix_len(platform, s) >= 4,
        prefix_kind(platform, s) == PrefixKind::Verbatim ==> prefix_len(platform, s) >= 4,
        prefix_kind(platform, s) == PrefixKind::VerbatimShare ==> prefix_len(platform, s) >= 8,
{
    let w = Platform::Windows;
    lemma_name_end(w, false, s, 2);
    lemma_name_end(w, false, s, name_end(w, false, s, 2) + 1);
    lemma_name_end(w, false, s, 4);
    lemma_name_end(w, true, s, 4);
    lemma_name_end(w, true, s, 8);
    lemma_name_end(w, true, s, name_end(w, true, s, 8) + 1);
}

fn same_fronts(platform: Platform, s: &Vec<char>, f: &Front, t: &Vec<char>, g: &Front) -> (same:
    bool)
    requires
        f.fits(platform, s@),
        g.fits(platform, t@),
    ensures
        same == same_prefix(platform, s@, t@),
{
    proof {
        lemma_prefix_len(platform, s@);
        lemma_prefix_len(platform, t@);
    }
    if f.kind != g.kind {
        return false;
    }
    match f.kind {
        PrefixKind::Bare => true,
        PrefixKind::Disk => same_capital(s[0], t[0]),
        PrefixKind::VerbatimDisk => same_capital(s[4], t[4]),
        PrefixKind::Share => same_share(s, f.prefix_len, t, g.prefix_len),
        PrefixKind::Device => same_range(s, f.prefix_len, t, g.prefix_len, 4),
        PrefixKind::Verbatim => same_range(s, f.prefix_len, t, g.prefix_len, 4),
        PrefixKind::VerbatimShare => same_range(s, f.prefix_len, t, g.prefix_len, 8),
    }
}

/// Whether two paths consist of the same parts.
pub fn same_path(platform: Platform, left: &str, right: &str) -> (same: bool)
    ensures
        same == same_parts(platform, left@, right@),
{
    let s = chars_of(left);
    let t = chars_of(right);
    let f = read_front(platform, &s);
    let g = read_front(platform, &t);
    if !same_fronts(platform, &s, &f, &t, &g) {
        return false;
    }
    let f_root = f.rooted || (has_implied_root(f.kind) && !is_verbatim_kind(f.kind));
    let g_root = g.rooted || (has_implied_root(g.kind) && !is_verbatim_kind(g.kind));
    let f_dot = f.dotted && f.kind == PrefixKind::Bare;
    let g_dot = g.dotted && g.kind == PrefixKind::Bare;
    if f_root != g_root || f_dot != g_dot {
        return false;
    }
    let f_names = read_names(platform, &s, &f);
    let g_names = read_names(platform, &t, &g);
    same_names(&f_names, &g_names)
}

// ---------------------------------------------------------------------------
// Joining

/// `list` after one more name: two dots take the last plain name off.
pub open spec fn stepped(list: Seq<Seq<char>>, name: Seq<char>) -> Seq<Seq<char>> {
    if name == seq!['.', '.'] {
        if list.len() > 0 && is_plain(list.last()) {
            list.drop_last()
        } else {
            list
        }
    } else {
        list.push(name)
    }
}

/// `list` after each name of `more`.
pub open spec fn stepped_through(list: Seq<Seq<char>>, more: Seq<Seq<char>>) -> Seq<Seq<char>>
    decreases more.len(),
{
    if more.len() == 0 {
        list
    } else {
        stepped(stepped_through(list, more.drop_last()), more.last())
    }
}

/// The names of the verbatim path `s` with those of `t` behind them.
pub open spec fn verbatim_names(s: Seq<char>, t: Seq<char>) -> Seq<Seq<char>> {
    let w = Platform::Windows;
    stepped_through(
        if is_rooted(w, t) {
            seq![]
        } else {
            names(w, s)
        },
        names(w, t),
    )
}

/// The verbatim path `s` with `t` behind it, in which dots have been resolved.
pub open spec fn verbatim_joined(s: Seq<char>, t: Seq<char>) -> Seq<char> {
    let w = Platform::Windows;
    let prefix = s.take(prefix_len(w, s));
    let list = verbatim_names(s, t);
    if list.len() == 0 && !is_rooted(w, s) && !is_rooted(w, t) {
        prefix
    } else {
        prefix + seq!['\\'] + joined(list, seq!['\\'])
    }
}

/// The path `t`, taken from the directory `s`.
pub open spec fn joined_path(platform: Platform, s: Seq<char>, t: Seq<char>) -> Seq<char> {
    let needs_separator = s.len() > 0 && !is_separator(platform, s.last()) && !(prefix_kind(
        platform,
        s,
    ) == PrefixKind::Disk && s.len() == 2);
    if platform == Platform::Windows {
        if prefix_kind(platform, t) != PrefixKind::Bare {
            t
        } else if path_is_verbatim(platform, s) && t.len() > 0 {
            verbatim_joined(s, t)
        } else if is_rooted(platform, t) {
            s.take(prefix_len(platform, s)) + t
        } else if needs_separator {
            s + seq!['\\'] + t
        } else {
            s + t
        }
    } else if is_rooted(platform, t) {
        t
    } else if needs_separator {
        s + seq!['/'] + t
    } else {
        s + t
    }
}

fn text_is_plain(name: &str) -> (plain: bool)
    ensures
        plain == is_plain(name@),
{
    let list = chars_of(name);
    assert(list@.subrange(0, list.len() as int) =~= name@);
    is_plain_name(&list, 0, list.len())
}

fn step(list: &mut Vec<String>, name: &String)
    ensures
        texts(final(list)@) == stepped(texts(old(list)@), name@),
{
    let ghost before = texts(list@);
    let letters = chars_of(name.as_str());
    if letters.len() == 2 && letters[0] == '.' && letters[1] == '.' {
        assert(name@ =~= seq!['.', '.']);
        if list.len() > 0 && text_is_plain(list[list.len() - 1].as_str()) {
            assert(before.last() == list@.last()@);
            list.pop();
            assert(texts(list@) =~= before.drop_last());
        } else {
            assert(before.len() > 0 ==> before.last() == list@.last()@);
        }
    } else {
        proof {
            if name@ == seq!['.', '.'] {
                assert(letters@[0] == '.' && letters@[1] == '.');
            }
        }
        list.push(name.clone());
        assert(texts(list@) =~= before.push(name@));
    }
}

fn step_through(list: &mut Vec<String>, more: &Vec<String>)
    ensures
        texts(final(list)@) == stepped_through(texts(old(list)@), texts(more@)),
{
    let ghost start = texts(list@);
    let ghost rest = texts(more@);
    let mut i: usize = 0;
    assert(rest.take(0) =~= seq![]);
    while i < more.len()
        invariant
            i <= more.len(),
            rest == texts(more@),
            texts(list@) == stepped_through(start, rest.take(i as int)),
        decreases more.len() - i,
    {
        assert(rest.take(i as int + 1).drop_last() =~= rest.take(i as int));
        assert(rest.take(i as int + 1).last() == more@[i as int]@);
        step(list, &more[i]);
        i += 1;
    }
    assert(rest.take(i as int) =~= rest);
}

fn join_verbatim(s: &Vec<char>, f: &Front, t: &Vec<char>, g: &Front) -> (out: String)
    requires
        f.fits(Platform::Windows, s@),
        g.fits(Platform::Windows, t@),
    ensures
        out@ == verbatim_joined(s@, t@),
{
    let w = Platform::Windows;
    proof {
        lemma_prefix_len(w, s@);
    }
    let mut list: Vec<String> = if g.rooted {
        Vec::new()
    } else {
        read_names(w, s, f)
    };
    assert(g.rooted ==> texts(list@) =~= seq![]);
    let more = read_names(w, t, g);
    step_through(&mut list, &more);
    let mut out = string_of(s, 0, f.prefix_len);
    assert(out@ =~= s@.take(f.prefix_len as int));
    if list.len() == 0 && !f.rooted && !g.rooted {
        return out;
    }
    let mut separator = String::new();
    separator.push('\\');
    assert(separator@ =~= seq!['\\']);
    out.append(separator.as_str());
    let tail = join_texts(&list, separator.as_str());
    out.append(tail.as_str());
    out
}

/// The path `path`, taken from the directory `dir`.
pub fn join(platform: Platform, dir: &str, path: &str) -> (out: String)
    ensures
        out@ == joined_path(platform, dir@, path@),
{
    let s = chars_of(dir);
    let t = chars_of(path);
    let f = read_front(platform, &s);
    let g = read_front(platform, &t);
    proof {
        lemma_prefix_len(platform, s@);
    }
    let needs_separator = s.len() > 0 && !is_sep(platform, s[s.len() - 1]) && !(f.kind
        == PrefixKind::Disk && s.len() == 2);
    let separator = match platform {
        Platform::Windows => {
            if g.kind != PrefixKind::Bare {
                return path.to_owned();
            }
            if is_verbatim_kind(f.kind) && t.len() > 0 {
                return join_verbatim(&s, &f, &t, &g);
            }
            if g.rooted {
                let mut out = string_of(&s, 0, f.prefix_len);
                assert(out@ =~= s@.take(f.prefix_len as int));
                out.append(path);
                return out;
            }
            '\\'
        },
        _ => {
            if g.rooted {
                return path.to_owned();
            }
            '/'
        },
    };
    let mut out = dir.to_owned();
    if needs_separator {
        out.push(separator);
        assert(out@ =~= dir@ + seq![separator]);
    }
    out.append(path);
    out
}

// ---------------------------------------------------------------------------
// What holds of joined paths

/// A name that a directory can hold: not empty, without separators, no dots
/// alone, and not to be taken for a drive.
pub open spec fn is_name(platform: Platform, name: Seq<char>) -> bool {
    &&& name.len() > 0
    &&& forall|i: int| 0 <= i < name.len() ==> !is_separator(platform, #[trigger] name[i])
    &&& is_plain(name)
    &&& prefix_kind(platform, name) == PrefixKind::Bare
}

/// A part of a path: not empty, without separators, no lone dot, and not to be
/// taken for a drive.
pub open spec fn is_part(platform: Platform, name: Seq<char>) -> bool {
    &&& name.len() > 0
    &&& forall|i: int| 0 <= i < name.len() ==> !is_separator(platform, #[trigger] name[i])
    &&& name != seq!['.']
    &&& prefix_kind(platform, name) == PrefixKind::Bare
}

proof fn lemma_start_within_name(
    platform: Platform,
    verbatim: bool,
    head: Seq<char>,
    name: Seq<char>,
    floor: int,
    end: int,
)
    requires
        is_part(platform, name),
        verbatim ==> platform == Platform::Windows,
        0 <= floor <= head.len() <= end <= head.len() + name.len(),
        floor == head.len() || cuts(platform, verbatim, head.last()),
    ensures
        name_start(platform, verbatim, head + name, floor, end) == head.len(),
    decreases end,
{
    let s = head + name;
    if end > head.len() {
        assert(s[end - 1] == name[end - 1 - head.len()]);
        lemma_start_within_name(platform, verbatim, head, name, floor, end - 1);
    } else if end > floor {
        assert(s[end - 1] == head.last());
    }
}

proof fn lemma_name_behind(platform: Platform, head: Seq<char>, name: Seq<char>)
    requires
        is_part(platform, name),
        prefix_len(platform, head + name) <= head.len(),
        names_start(platform, head + name) == head.len() || (head.len() > 0 && cuts(
            platform,
            path_is_verbatim(platform, head + name),
            head.last(),
        )),
    ensures
        names_start(platform, head + name) <= head.len(),
        end_of_names(platform, head + name) == head.len() + name.len(),
        start_of_last_name(platform, head + name) == head.len(),
        (head + name).subrange(head.len() as int, (head.len() + name.len()) as int) == name,
        is_plain(name) ==> file_name_of(platform, head + name) == Some(name),
        !is_plain(name) ==> file_name_of(platform, head + name) is None,
{
    let s = head + name;
    let n = head.len() as int;
    let len = s.len() as int;
    let p = prefix_len(platform, s);
    let verbatim = path_is_verbatim(platform, s);
    lemma_prefix_len(platform, s);
    assert(s.subrange(n, len) =~= name);
    if p == n {
        assert(s[p] == name[0]);
        if s[p] == '.' {
            if name.len() == 1 {
                assert(name =~= seq!['.']);
            } else {
                assert(s[p + 1] == name[1]);
            }
        }
    }
    let floor = names_start(platform, s);
    assert(floor <= n);
    assert(s[len - 1] == name.last());
    if s[len - 1] == '.' {
        if name.len() == 1 {
            assert(name =~= seq!['.']);
        } else {
            assert(s[len - 2] == name[name.len() - 2]);
        }
    }
    assert(last_name_end(platform, verbatim, s, floor, len) == len);
    lemma_start_within_name(platform, verbatim, head, name, floor, len);
}

proof fn lemma_name_alone(platform: Platform, name: Seq<char>)
    requires
        is_part(platform, name),
    ensures
        !is_rooted(platform, name),
        names(platform, name) == seq![name],
{
    let empty = Seq::<char>::empty();
    assert(empty + name =~= name);
    assert(!is_separator(platform, name[0]));
    if name[0] == '.' {
        if name.len() == 1 {
            assert(name =~= seq!['.']);
        } else {
            assert(!is_separator(platform, name[1]));
        }
    }
    assert(names_start(platform, name) == 0);
    lemma_name_behind(platform, empty, name);
    reveal_with_fuel(names_between, 2);
    assert(name.subrange(0, name.len() as int) =~= name);
    assert(names(platform, name) =~= seq![name]);
}

/// A name taken from a directory is the file name of the result, unless the two
/// together read as a longer prefix, as `\\server` and a name do.
pub proof fn law_joined_path_keeps_the_name(platform: Platform, dir: Seq<char>, name: Seq<char>)
    requires
        is_name(platform, name),
        prefix_kind(platform, joined_path(platform, dir, name)) == prefix_kind(platform, dir),
        prefix_len(platform, joined_path(platform, dir, name)) == prefix_len(platform, dir),
    ensures
        file_name_of(platform, joined_path(platform, dir, name)) == Some(name),
{
    let w = Platform::Windows;
    let whole = joined_path(platform, dir, name);
    lemma_name_alone(platform, name);
    lemma_prefix_len(platform, dir);
    if platform == w && path_is_verbatim(platform, dir) {
        let prefix = dir.take(prefix_len(w, dir));
        let back = seq!['\\'];
        let list = names(w, dir);
        assert(seq![name].drop_last() =~= seq![]);
        reveal_with_fuel(stepped_through, 2);
        assert(verbatim_names(dir, name) == list.push(name));
        assert(list.push(name).drop_last() =~= list);
        let head = if list.len() == 0 {
            prefix + back
        } else {
            prefix + back + (joined(list, back) + back)
        };
        assert(whole =~= head + name);
        assert(head.last() == '\\');
        lemma_name_behind(platform, head, name);
    } else {
        let needs_separator = dir.len() > 0 && !is_separator(platform, dir.last()) && !(prefix_kind(
            platform,
            dir,
        ) == PrefixKind::Disk && dir.len() == 2);
        let separator = if platform == w {
            '\\'
        } else {
            '/'
        };
        let head = if needs_separator {
            dir + seq![separator]
        } else {
            dir
        };
        assert(whole =~= head + name);
        if head.len() == prefix_len(platform, whole) {
            assert(whole[head.len() as int] == name[0]);
            if name[0] == '.' {
                if name.len() == 1 {
                    assert(name =~= seq!['.']);
                } else {
                    assert(whole[head.len() as int + 1] == name[1]);
                }
            }
        }
        lemma_name_behind(platform, head, name);
    }
}

// ---------------------------------------------------------------------------
// Paths without a share, a device or a verbatim prefix

/// A path that does not begin with two separators on Windows.
pub open spec fn is_ordinary(platform: Platform, s: Seq<char>) -> bool {
    platform is Windows ==> !(s.len() >= 2 && (s[0] == '/' || s[0] == '\\') && (s[1] == '/' || s[1]
        == '\\'))
}

/// A name that stands alone in a path: not empty, without a separator, no lone
/// dot, and on Windows not a letter with a colon behind it.
pub open spec fn stands_alone(platform: Platform, name: Seq<char>) -> bool {
    &&& name.len() > 0
    &&& forall|i: int|
        0 <= i < name.len() ==> #[trigger] name[i] != '/' && !(platform is Windows && name[i]
            == '\\')
    &&& name != seq!['.']
    &&& platform is Windows && name.len() >= 2 && name[1] == ':' ==> !(65 <= name[0] as int <= 90
        || 97 <= name[0] as int <= 122)
}

proof fn lemma_stands_alone(platform: Platform, name: Seq<char>)
    requires
        stands_alone(platform, name),
    ensures
        is_part(platform, name),
        is_ordinary(platform, name),
{
    assert forall|i: int| 0 <= i < name.len() implies !is_separator(
        platform,
        #[trigger] name[i],
    ) by {}
    if name.len() >= 2 {
        assert(name[0] != '/' && name[1] != '/');
    }
}

/// Where two texts agree, they have the same names.
proof fn lemma_agreeing_texts(
    platform: Platform,
    verbatim: bool,
    s: Seq<char>,
    t: Seq<char>,
    floor: int,
    end: int,
)
    requires
        0 <= floor <= end <= s.len(),
        end <= t.len(),
        forall|i: int| floor <= i < end ==> #[trigger] s[i] == t[i],
    ensures
        last_name_end(platform, verbatim, s, floor, end) == last_name_end(
            platform,
            verbatim,
            t,
            floor,
            end,
        ),
        name_start(platform, verbatim, s, floor, end) == name_start(
            platform,
            verbatim,
            t,
            floor,
            end,
        ),
        names_between(platform, verbatim, s, floor, end) == names_between(
            platform,
            verbatim,
            t,
            floor,
            end,
        ),
    decreases end,
{
    lemma_agreeing_ends(platform, verbatim, s, t, floor, end);
    lemma_bounds(platform, verbatim, s, floor, end);
    let e = last_name_end(platform, verbatim, s, floor, end);
    lemma_bounds(platform, verbatim, s, floor, e);
    if e > floor {
        lemma_agreeing_ends(platform, verbatim, s, t, floor, e);
        let start = name_start(platform, verbatim, s, floor, e);
        lemma_agreeing_texts(platform, verbatim, s, t, floor, start);
        assert(s.subrange(start, e) =~= t.subrange(start, e));
    }
}

proof fn lemma_agreeing_ends(
    platform: Platform,
    verbatim: bool,
    s: Seq<char>,
    t: Seq<char>,
    floor: int,
    end: int,
)
    requires
        0 <= floor <= end <= s.len(),
        end <= t.len(),
        forall|i: int| floor <= i < end ==> #[trigger] s[i] == t[i],
    ensures
        last_name_end(platform, verbatim, s, floor, end) == last_name_end(
            platform,
            verbatim,
            t,
            floor,
            end,
        ),
        name_start(platform, verbatim, s, floor, end) == name_start(
            platform,
            verbatim,
            t,
            floor,
            end,
        ),
    decreases end,
{
    if end > floor {
        assert(s[end - 1] == t[end - 1]);
        if end - 1 > floor {
            assert(s[end - 2] == t[end - 2]);
        }
        lemma_agreeing_ends(platform, verbatim, s, t, floor, end - 1);
    }
}

/// What stands in front of a name that is taken from an ordinary directory.
pub open spec fn in_front(platform: Platform, dir: Seq<char>) -> Seq<char> {
    let bare_drive = platform is Windows && dir.len() == 2 && dir[1] == ':' && (65 <= dir[0] as int
        <= 90 || 97 <= dir[0] as int <= 122);
    let separated = dir.len() > 0 && (dir.last() == '/' || (platform is Windows && dir.last()
        == '\\'));
    if dir.len() == 0 || separated || bare_drive {
        dir
    } else if platform is Windows {
        dir.push('\\')
    } else {
        dir.push('/')
    }
}

proof fn lemma_ordinary(platform: Platform, s: Seq<char>)
    requires
        is_ordinary(platform, s),
    ensures
        ({
            let drive = platform is Windows && s.len() >= 2 && s[1] == ':' && (65 <= s[0] as int
                <= 90 || 97 <= s[0] as int <= 122);
            &&& prefix_kind(platform, s) == if drive {
                PrefixKind::Disk
            } else {
                PrefixKind::Bare
            }
            &&& prefix_len(platform, s) == if drive {
                2int
            } else {
                0
            }
        }),
{
}

/// What becomes of a directory and a part that is taken from it, where the prefix
/// stays what it is.
#[verifier::rlimit(60)]
#[verifier::spinoff_prover]
proof fn lemma_part_behind(platform: Platform, dir: Seq<char>, name: Seq<char>)
    requires
        stands_alone(platform, name),
        !path_is_verbatim(platform, dir),
        joined_path(platform, dir, name) == in_front(platform, dir) + name,
        ({
            let whole = joined_path(platform, dir, name);
            &&& prefix_kind(platform, whole) == prefix_kind(platform, dir)
            &&& prefix_len(platform, whole) == prefix_len(platform, dir)
        }),
        prefix_len(platform, dir) < dir.len() || in_front(platform, dir) == dir || implies_root(
            prefix_kind(platform, dir),
        ),
    ensures
        ({
            let head = in_front(platform, dir);
            let whole = joined_path(platform, dir, name);
            &&& is_dotted(platform, whole) == is_dotted(platform, dir)
            &&& shows_root(platform, whole) == shows_root(platform, dir)
            &&& names_start(platform, dir) <= dir.len()
            &&& end_of_names(platform, whole) == whole.len()
            &&& start_of_last_name(platform, whole) == head.len()
            &&& names_start(platform, whole) <= head.len()
            &&& is_rooted(platform, whole) == is_rooted(platform, dir) && names_start(
                platform,
                whole,
            ) == names_start(platform, dir) || (names_start(platform, dir) == dir.len()
                && names_start(platform, whole) == head.len() && head.len() == dir.len() + 1)
            &&& names(platform, whole) == names(platform, dir).push(name)
            &&& is_plain(name) ==> file_name_of(platform, whole) == Some(name)
            &&& !is_plain(name) ==> file_name_of(platform, whole) is None
        }),
{
    let head = in_front(platform, dir);
    let whole = joined_path(platform, dir, name);
    lemma_stands_alone(platform, name);
    lemma_prefix_len(platform, dir);
    assert(whole[head.len() as int] == name[0]);
    assert forall|i: int| 0 <= i < dir.len() implies #[trigger] whole[i] == dir[i] by {}
    let n = prefix_len(platform, dir);
    let d = dir.len() as int;
    let h = head.len() as int;
    if h != d {
        assert(whole[d] == head[d]);
    }
    if n < d {
        assert(whole[n] == dir[n]);
        if n + 1 < d {
            assert(whole[n + 1] == dir[n + 1]);
        }
    }
    if name.len() == 1 {
        assert(name =~= seq![name[0]]);
    } else {
        assert(whole[h + 1] == name[1]);
    }
    let floor = names_start(platform, dir);
    let start = names_start(platform, whole);
    assert(floor <= d);
    lemma_name_behind(platform, head, name);
    assert(names_between(platform, false, whole, start, whole.len() as int) == names_between(
        platform,
        false,
        whole,
        start,
        h,
    ).push(name));
    if start == floor {
        lemma_agreeing_texts(platform, false, whole, dir, floor, d);
        if h != d {
            assert(cuts(platform, false, whole[d]));
            assert(last_name_end(platform, false, whole, floor, h) == last_name_end(
                platform,
                false,
                whole,
                floor,
                d,
            ));
        }
    } else {
        assert(start == h && floor == d);
        assert(names_between(platform, false, whole, h, h) =~= seq![]);
        assert(names_between(platform, false, dir, d, d) =~= seq![]);
    }
}

/// What becomes of an ordinary directory and a part that is taken from it.
#[verifier::rlimit(60)]
#[verifier::spinoff_prover]
proof fn lemma_part_of_directory(platform: Platform, dir: Seq<char>, name: Seq<char>)
    requires
        is_ordinary(platform, dir),
        stands_alone(platform, name),
    ensures
        ({
            let head = in_front(platform, dir);
            let whole = joined_path(platform, dir, name);
            &&& whole == head + name
            &&& is_ordinary(platform, whole)
            &&& prefix_kind(platform, whole) == prefix_kind(platform, dir)
            &&& prefix_len(platform, whole) == prefix_len(platform, dir)
            &&& names_start(platform, whole) == names_start(platform, dir)
            &&& is_rooted(platform, whole) == is_rooted(platform, dir)
            &&& is_dotted(platform, whole) == is_dotted(platform, dir)
            &&& names_start(platform, dir) <= dir.len()
            &&& end_of_names(platform, whole) == whole.len()
            &&& start_of_last_name(platform, whole) == head.len()
            &&& names(platform, whole) == names(platform, dir).push(name)
            &&& is_plain(name) ==> file_name_of(platform, whole) == Some(name)
            &&& !is_plain(name) ==> file_name_of(platform, whole) is None
        }),
{
    let head = in_front(platform, dir);
    let whole = joined_path(platform, dir, name);
    lemma_stands_alone(platform, name);
    lemma_name_alone(platform, name);
    lemma_ordinary(platform, dir);
    lemma_ordinary(platform, name);
    assert(whole =~= head + name);
    assert(whole[head.len() as int] == name[0]);
    if dir.len() >= 1 {
        assert(whole[0] == dir[0]);
    }
    if dir.len() >= 2 {
        assert(whole[1] == dir[1]);
    }
    if dir.len() == 0 {
        assert(whole =~= name);
    }
    assert(is_ordinary(platform, whole));
    lemma_ordinary(platform, whole);
    lemma_part_behind(platform, dir, name);
    let n = prefix_len(platform, dir);
    if n < dir.len() {
        assert(whole[n] == dir[n]);
    }
}

/// Whatever directory it is taken from, an entry keeps its name: any name that is
/// not empty, holds no separator, is neither one dot nor two, and on Windows does
/// not begin with a drive. It may begin with a dot. Directories that begin with two
/// separators on Windows are left out here.
pub proof fn law_entry_keeps_its_name(platform: Platform, dir: Seq<char>, name: Seq<char>)
    requires
        platform is Windows ==> !(dir.len() >= 2 && (dir[0] == '/' || dir[0] == '\\') && (dir[1]
            == '/' || dir[1] == '\\')),
        name.len() > 0,
        forall|i: int|
            0 <= i < name.len() ==> #[trigger] name[i] != '/' && !(platform is Windows && name[i]
                == '\\'),
        name != seq!['.'],
        name != seq!['.', '.'],
        platform is Windows && name.len() >= 2 && name[1] == ':' ==> !(65 <= name[0] as int <= 90
            || 97 <= name[0] as int <= 122),
    ensures
        file_name_of(platform, joined_path(platform, dir, name)) == Some(name),
{
    lemma_part_of_directory(platform, dir, name);
}

/// Two dots are no file name, and neither is nothing.
pub proof fn law_dots_are_no_file_name(platform: Platform, dir: Seq<char>)
    requires
        is_ordinary(platform, dir),
    ensures
        file_name_of(platform, joined_path(platform, dir, seq!['.', '.'])) is None,
        file_name_of(platform, seq![]) is None,
        file_name_of(platform, seq!['/']) is None,
        file_name_of(platform, seq!['.']) is None,
{
    let dots = seq!['.', '.'];
    assert(dots.len() != seq!['.'].len());
    lemma_part_of_directory(platform, dir, dots);
    reveal_with_fuel(last_name_end, 2);
}

/// A name is put behind a directory with one separator between them: none is added
/// behind nothing, behind a separator, or behind a drive alone.
pub proof fn law_names_are_joined_by_one_separator(
    platform: Platform,
    dir: Seq<char>,
    name: Seq<char>,
)
    requires
        is_ordinary(platform, dir),
        stands_alone(platform, name),
    ensures
        ({
            let whole = joined_path(platform, dir, name);
            let separated = dir.last() == '/' || (platform is Windows && dir.last() == '\\');
            let drive = platform is Windows && dir.len() == 2 && dir[1] == ':' && (65
                <= dir[0] as int <= 90 || 97 <= dir[0] as int <= 122);
            &&& dir.len() == 0 || separated || drive ==> whole == dir + name
            &&& dir.len() > 0 && !separated && !drive && platform is Windows ==> whole == dir + seq![
                '\\',
            ] + name
            &&& dir.len() > 0 && !separated && !drive && !(platform is Windows) ==> whole == dir
                + seq!['/'] + name
        }),
{
    lemma_part_of_directory(platform, dir, name);
    assert(dir.push('/') =~= dir + seq!['/']);
    assert(dir.push('\\') =~= dir + seq!['\\']);
}

/// What says by itself where it leads takes the place of the directory: on Unix
/// what begins with a slash, on Windows what begins with a drive. On Windows what
/// begins with one separator starts at the drive of the directory.
pub proof fn law_absolute_paths_replace_the_directory(
    platform: Platform,
    dir: Seq<char>,
    path: Seq<char>,
)
    requires
        is_ordinary(platform, dir),
        is_ordinary(platform, path),
        path.len() > 0,
    ensures
        ({
            let whole = joined_path(platform, dir, path);
            let begins_drive = |s: Seq<char>|
                s.len() >= 2 && s[1] == ':' && (65 <= s[0] as int <= 90 || 97 <= s[0] as int
                    <= 122);
            let begins_separator = path[0] == '/' || (platform is Windows && path[0] == '\\');
            &&& !(platform is Windows) && begins_separator ==> whole == path
            &&& platform is Windows && begins_drive(path) ==> whole == path
            &&& platform is Windows && begins_separator ==> whole == if begins_drive(dir) {
                dir.take(2) + path
            } else {
                path
            }
        }),
{
    lemma_ordinary(platform, dir);
    lemma_ordinary(platform, path);
    assert(dir.take(0) + path =~= path);
}

/// Without the name, the path is the directory again: as it was where it ends with
/// a letter of a name, and with its separator where it is a root.
pub proof fn law_parent_is_the_directory(platform: Platform, dir: Seq<char>, name: Seq<char>)
    requires
        is_ordinary(platform, dir),
        stands_alone(platform, name),
    ensures
        ({
            let around = parent_of(platform, joined_path(platform, dir, name));
            let drive = platform is Windows && dir.len() >= 2 && dir[1] == ':' && (65
                <= dir[0] as int <= 90 || 97 <= dir[0] as int <= 122);
            let separator = |c: char| c == '/' || (platform is Windows && c == '\\');
            &&& dir.len() == 0 ==> around == Some(dir)
            &&& dir.len() > 0 && !separator(dir.last()) && dir.last() != '.' && !(drive && dir.len()
                == 2) ==> around == Some(dir)
            &&& dir.len() == 1 && separator(dir[0]) ==> around == Some(dir)
            &&& drive && dir.len() == 2 ==> around == Some(dir)
            &&& drive && dir.len() == 3 && separator(dir[2]) ==> around == Some(dir)
        }),
{
    lemma_part_of_directory(platform, dir, name);
    lemma_ordinary(platform, dir);
    reveal_with_fuel(last_name_end, 3);
    let whole = joined_path(platform, dir, name);
    let head = in_front(platform, dir);
    let floor = names_start(platform, dir);
    let cut = last_name_end(platform, false, whole, floor, head.len() as int);
    assert forall|i: int| 0 <= i < dir.len() implies #[trigger] whole[i] == dir[i] by {}
    if head.len() != dir.len() {
        assert(cuts(platform, false, whole[dir.len() as int]));
    }
    if cut == dir.len() {
        assert(whole.take(cut) =~= dir);
    }
}

/// Nothing is around nothing, and nothing around a root. Around the dot of the
/// current directory is the empty path.
pub proof fn law_roots_have_no_parent(platform: Platform, drive: char)
    ensures
        parent_of(platform, seq![]) is None,
        parent_of(platform, seq!['/']) is None,
        parent_of(platform, seq!['.']) == Some(Seq::<char>::empty()),
        parent_of(platform, seq!['.', '/']) == Some(Seq::<char>::empty()),
        platform is Windows && (65 <= drive as int <= 90 || 97 <= drive as int <= 122) ==> {
            &&& parent_of(platform, seq![drive, ':']) is None
            &&& parent_of(platform, seq![drive, ':', '\\']) is None
        },
{
    reveal_with_fuel(last_name_end, 3);
    lemma_ordinary(platform, seq![]);
    lemma_ordinary(platform, seq!['/']);
    lemma_ordinary(platform, seq!['.']);
    lemma_ordinary(platform, seq!['.', '/']);
    if platform is Windows && (65 <= drive as int <= 90 || 97 <= drive as int <= 122) {
        lemma_ordinary(platform, seq![drive, ':']);
        lemma_ordinary(platform, seq![drive, ':', '\\']);
    }
}

/// A path says by itself where it leads: on Unix, and wherever there are no drives,
/// if it begins with a slash; on Windows if a separator follows its drive.
pub proof fn law_absolute_paths_begin_at_a_root(platform: Platform, s: Seq<char>)
    requires
        is_ordinary(platform, s),
    ensures
        !(platform is Windows) ==> (absolute(platform, s) <==> s.len() > 0 && s[0] == '/'),
        platform is Windows ==> (absolute(platform, s) <==> s.len() >= 3 && s[1] == ':' && (65
            <= s[0] as int <= 90 || 97 <= s[0] as int <= 122) && (s[2] == '/' || s[2] == '\\')),
{
    lemma_ordinary(platform, s);
}

/// The names of a path are those of its directory and its own, in this order.
pub proof fn law_names_add_up(platform: Platform, dir: Seq<char>, name: Seq<char>)
    requires
        is_ordinary(platform, dir),
        stands_alone(platform, name),
    ensures
        names(platform, joined_path(platform, dir, name)) == names(platform, dir).push(name),
        names(platform, seq![]).len() == 0,
        names(platform, seq!['/']).len() == 0,
{
    lemma_part_of_directory(platform, dir, name);
    reveal_with_fuel(last_name_end, 2);
}

/// Two paths in one directory are the same exactly if their names are.
pub proof fn law_different_names_are_different_paths(
    platform: Platform,
    dir: Seq<char>,
    name: Seq<char>,
    other: Seq<char>,
)
    requires
        is_ordinary(platform, dir),
        stands_alone(platform, name),
        stands_alone(platform, other),
    ensures
        same_parts(
            platform,
            joined_path(platform, dir, name),
            joined_path(platform, dir, other),
        ) <==> name == other,
{
    lemma_part_of_directory(platform, dir, name);
    lemma_part_of_directory(platform, dir, other);
    lemma_ordinary(platform, dir);
    let list = names(platform, dir);
    if list.push(name) == list.push(other) {
        assert(list.push(name).last() == list.push(other).last());
    }
    if dir.len() > 0 {
        assert(joined_path(platform, dir, name)[0] == dir[0]);
        assert(joined_path(platform, dir, other)[0] == dir[0]);
    }
}

proof fn lemma_names_start(platform: Platform, s: Seq<char>)
    ensures
        0 <= prefix_len(platform, s) <= names_start(platform, s) <= s.len(),
{
    lemma_prefix_len(platform, s);
}

/// The file name of a path is the last of its names, unless that is a dot or two.
pub proof fn law_file_name_is_the_last_name(platform: Platform, s: Seq<char>)
    ensures
        file_name_of(platform, s) == (if names(platform, s).len() == 0 || names(platform, s).last()
            == seq!['.'] || names(platform, s).last() == seq!['.', '.'] {
            None
        } else {
            Some(names(platform, s).last())
        }),
{
    lemma_names_start(platform, s);
}

/// A text behind a path that holds no name changes nothing of it.
#[verifier::rlimit(60)]
#[verifier::spinoff_prover]
proof fn lemma_nothing_behind(platform: Platform, s: Seq<char>, t: Seq<char>)
    requires
        is_ordinary(platform, s),
        is_ordinary(platform, t),
        s.len() <= t.len(),
        forall|i: int| 0 <= i < s.len() ==> #[trigger] s[i] == t[i],
        prefix_kind(platform, s) == prefix_kind(platform, t),
        is_rooted(platform, s) == is_rooted(platform, t),
        is_dotted(platform, s) == is_dotted(platform, t),
        last_name_end(
            platform,
            false,
            t,
            names_start(platform, s),
            t.len() as int,
        ) == last_name_end(platform, false, t, names_start(platform, s), s.len() as int),
    ensures
        names(platform, s) == names(platform, t),
        file_name_of(platform, t) == file_name_of(platform, s),
        parent_of(platform, t) == parent_of(platform, s),
        same_parts(platform, s, t),
{
    lemma_ordinary(platform, s);
    lemma_ordinary(platform, t);
    lemma_names_start(platform, s);
    let floor = names_start(platform, s);
    let len = s.len() as int;
    assert(names_start(platform, t) == floor);
    lemma_agreeing_texts(platform, false, t, s, floor, len);
    let e = last_name_end(platform, false, s, floor, len);
    lemma_bounds(platform, false, s, floor, len);
    lemma_bounds(platform, false, s, floor, e);
    assert(end_of_names(platform, t) == e);
    if e > floor {
        lemma_agreeing_texts(platform, false, t, s, floor, e);
        let start = name_start(platform, false, s, floor, e);
        assert(t.subrange(start, e) =~= s.subrange(start, e));
        lemma_agreeing_texts(platform, false, t, s, floor, start);
        let cut = last_name_end(platform, false, s, floor, start);
        lemma_bounds(platform, false, s, floor, start);
        assert(t.take(cut) =~= s.take(cut));
    }
    assert(names_between(platform, false, t, floor, t.len() as int) == names_between(
        platform,
        false,
        t,
        floor,
        len,
    ));
}

proof fn lemma_separator_behind(platform: Platform, s: Seq<char>, t: Seq<char>)
    requires
        is_ordinary(platform, s),
        0 < s.len() < t.len(),
        is_ordinary(platform, t),
        forall|i: int| 0 <= i < s.len() ==> #[trigger] s[i] == t[i],
        is_separator(platform, t[s.len() as int]),
        !(platform is Windows && s.len() == 2 && s[1] == ':'),
    ensures
        prefix_kind(platform, s) == prefix_kind(platform, t),
        is_rooted(platform, s) == is_rooted(platform, t),
        is_dotted(platform, s) == is_dotted(platform, t),
        names_start(platform, s) <= s.len(),
{
    assert(t[0] == s[0]);
    if s.len() >= 2 {
        assert(t[1] == s[1]);
    }
    lemma_ordinary(platform, s);
    lemma_ordinary(platform, t);
    let n = prefix_len(platform, s);
    assert(n < s.len());
    assert(t[n] == s[n]);
    if n + 1 < s.len() {
        assert(t[n + 1] == s[n + 1]);
    }
}

/// A separator behind a path changes nothing of it.
pub proof fn law_trailing_separators_do_not_count(platform: Platform, s: Seq<char>, c: char)
    requires
        s.len() > 0,
        c == '/' || (platform is Windows && c == '\\'),
        is_ordinary(platform, s.push(c)),
        !(platform is Windows && s.len() == 2 && s[1] == ':'),
    ensures
        same_parts(platform, s, s.push(c)),
        file_name_of(platform, s.push(c)) == file_name_of(platform, s),
        parent_of(platform, s.push(c)) == parent_of(platform, s),
{
    let t = s.push(c);
    assert(t[0] == s[0]);
    if s.len() >= 2 {
        assert(t[1] == s[1]);
    }
    lemma_separator_behind(platform, s, t);
    assert(t[t.len() - 1] == c);
    lemma_nothing_behind(platform, s, t);
}

/// A lone dot behind a path changes nothing of it.
pub proof fn law_trailing_dots_do_not_count(platform: Platform, s: Seq<char>, c: char)
    requires
        s.len() > 0,
        c == '/' || (platform is Windows && c == '\\'),
        is_ordinary(platform, s.push(c)),
        !(platform is Windows && s.len() == 2 && s[1] == ':'),
    ensures
        same_parts(platform, s, s.push(c).push('.')),
        file_name_of(platform, s.push(c).push('.')) == file_name_of(platform, s),
        parent_of(platform, s.push(c).push('.')) == parent_of(platform, s),
{
    let t = s.push(c).push('.');
    assert(s.push(c)[0] == s[0] && t[0] == s[0]);
    assert(t[1] == s.push(c)[1]);
    if s.len() >= 2 {
        assert(s.push(c)[1] == s[1]);
    }
    assert(t[s.len() as int] == c);
    assert forall|i: int| 0 <= i < s.len() implies #[trigger] s[i] == t[i] by {}
    lemma_separator_behind(platform, s, t);
    let len = s.len() as int;
    let floor = names_start(platform, s);
    assert(t[len + 1] == '.');
    assert(last_name_end(platform, false, t, floor, len + 2) == last_name_end(
        platform,
        false,
        t,
        floor,
        len + 1,
    ));
    assert(last_name_end(platform, false, t, floor, len + 1) == last_name_end(
        platform,
        false,
        t,
        floor,
        len,
    ));
    lemma_nothing_behind(platform, s, t);
}

/// To be the same path is an equivalence.
pub proof fn law_sameness_is_an_equivalence(
    platform: Platform,
    s: Seq<char>,
    t: Seq<char>,
    u: Seq<char>,
)
    ensures
        same_parts(platform, s, s),
        same_parts(platform, s, t) <==> same_parts(platform, t, s),
        same_parts(platform, s, t) && same_parts(platform, t, u) ==> same_parts(platform, s, u),
{
    lemma_same_prefix(platform, s, t);
    lemma_same_prefix(platform, t, s);
    if same_parts(platform, s, t) && same_parts(platform, t, u) {
        let n = prefix_len(platform, s);
        let m = prefix_len(platform, t);
        let l = prefix_len(platform, u);
        if prefix_kind(platform, s) == PrefixKind::Share {
            let a = s.subrange(2, n);
            let b = t.subrange(2, m);
            let c = u.subrange(2, l);
            assert forall|i: int| 0 <= i < a.len() implies #[trigger] a[i] == c[i] || (is_separator(
                Platform::Windows,
                a[i],
            ) && is_separator(Platform::Windows, c[i])) by {
                assert(a[i] == b[i] || (is_separator(Platform::Windows, a[i]) && is_separator(
                    Platform::Windows,
                    b[i],
                )));
                assert(b[i] == c[i] || (is_separator(Platform::Windows, b[i]) && is_separator(
                    Platform::Windows,
                    c[i],
                )));
            }
        }
    }
}

proof fn lemma_same_prefix(platform: Platform, s: Seq<char>, t: Seq<char>)
    ensures
        same_prefix(platform, s, t) ==> same_prefix(platform, t, s),
{
    if same_prefix(platform, s, t) && prefix_kind(platform, s) == PrefixKind::Share {
        let a = s.subrange(2, prefix_len(platform, s));
        let b = t.subrange(2, prefix_len(platform, t));
        assert forall|i: int| 0 <= i < b.len() implies #[trigger] b[i] == a[i] || (is_separator(
            Platform::Windows,
            b[i],
        ) && is_separator(Platform::Windows, a[i])) by {
            assert(a[i] == b[i] || (is_separator(Platform::Windows, a[i]) && is_separator(
                Platform::Windows,
                b[i],
            )));
        }
    }
}

/// The same path has the same names, and so the same file name; and ordinary paths
/// that are the same say alike by themselves where they lead.
pub proof fn law_same_paths_have_the_same_names(platform: Platform, s: Seq<char>, t: Seq<char>)
    requires
        same_parts(platform, s, t),
    ensures
        names(platform, s) == names(platform, t),
        file_name_of(platform, s) == file_name_of(platform, t),
        is_ordinary(platform, s) && is_ordinary(platform, t) ==> absolute(platform, s) == absolute(
            platform,
            t,
        ),
{
    law_file_name_is_the_last_name(platform, s);
    law_file_name_is_the_last_name(platform, t);
    if is_ordinary(platform, s) && is_ordinary(platform, t) {
        lemma_ordinary(platform, s);
        lemma_ordinary(platform, t);
    }
}

/// Drives are the same in either case of their letter.
pub proof fn law_drive_letters_have_no_case(upper: char, lower: char, other: char, rest: Seq<char>)
    requires
        65 <= upper as int <= 90,
        lower as int == upper as int + 32,
    ensures
        same_parts(Platform::Windows, seq![upper, ':'] + rest, seq![lower, ':'] + rest),
        other != upper && other != lower && (65 <= other as int <= 90 || 97 <= other as int <= 122)
            ==> !same_parts(Platform::Windows, seq![upper, ':'] + rest, seq![other, ':'] + rest),
{
    let w = Platform::Windows;
    let s = seq![upper, ':'] + rest;
    let t = seq![lower, ':'] + rest;
    assert(s[0] == upper && s[1] == ':' && t[0] == lower && t[1] == ':');
    lemma_ordinary(w, s);
    lemma_ordinary(w, t);
    assert forall|i: int| 2 <= i < s.len() implies #[trigger] s[i] == t[i] by {}
    assert(is_rooted(w, s) == is_rooted(w, t));
    assert(is_dotted(w, s) == is_dotted(w, t));
    lemma_names_start(w, s);
    lemma_agreeing_texts(w, false, s, t, names_start(w, s), s.len() as int);
    assert(capital(upper) == capital(lower)) by {
        assert((lower as int - 32) as char == upper);
    }
    if other != upper && other != lower && (65 <= other as int <= 90 || 97 <= other as int <= 122) {
        let u = seq![other, ':'] + rest;
        assert(u[0] == other && u[1] == ':');
        lemma_ordinary(w, u);
        if 97 <= other as int <= 122 {
            assert(capital(other) as int == other as int - 32);
        }
    }
}

/// Where two texts differ in their separators alone, they have the same names.
proof fn lemma_similar_texts(s: Seq<char>, t: Seq<char>, floor: int, end: int)
    requires
        0 <= floor <= end <= s.len(),
        s.len() == t.len(),
        same_but_for_separators(s, t),
    ensures
        last_name_end(Platform::Windows, false, s, floor, end) == last_name_end(
            Platform::Windows,
            false,
            t,
            floor,
            end,
        ),
        name_start(Platform::Windows, false, s, floor, end) == name_start(
            Platform::Windows,
            false,
            t,
            floor,
            end,
        ),
        forall|i: int|
            name_start(Platform::Windows, false, s, floor, end) <= i < end ==> !is_separator(
                Platform::Windows,
                #[trigger] s[i],
            ),
    decreases end,
{
    if end > floor {
        assert(s[end - 1] == t[end - 1] || (is_separator(Platform::Windows, s[end - 1])
            && is_separator(Platform::Windows, t[end - 1])));
        if end - 1 > floor {
            assert(s[end - 2] == t[end - 2] || (is_separator(Platform::Windows, s[end - 2])
                && is_separator(Platform::Windows, t[end - 2])));
        }
        lemma_similar_texts(s, t, floor, end - 1);
    }
}

proof fn lemma_similar_names(s: Seq<char>, t: Seq<char>, floor: int, end: int)
    requires
        0 <= floor <= end <= s.len(),
        s.len() == t.len(),
        same_but_for_separators(s, t),
    ensures
        names_between(Platform::Windows, false, s, floor, end) == names_between(
            Platform::Windows,
            false,
            t,
            floor,
            end,
        ),
    decreases end,
{
    let w = Platform::Windows;
    lemma_similar_texts(s, t, floor, end);
    lemma_bounds(w, false, s, floor, end);
    let e = last_name_end(w, false, s, floor, end);
    lemma_bounds(w, false, s, floor, e);
    if e > floor {
        lemma_similar_texts(s, t, floor, e);
        let start = name_start(w, false, s, floor, e);
        lemma_similar_names(s, t, floor, start);
        assert forall|i: int| start <= i < e implies #[trigger] s[i] == t[i] by {
            assert(!is_separator(w, s[i]));
        }
        assert(s.subrange(start, e) =~= t.subrange(start, e));
    }
}

/// On Windows it does not matter which of the two separators an ordinary path uses.
pub proof fn law_either_separator_will_do(s: Seq<char>, t: Seq<char>)
    requires
        is_ordinary(Platform::Windows, s),
        s.len() == t.len(),
        forall|i: int|
            0 <= i < s.len() ==> #[trigger] s[i] == t[i] || ((s[i] == '/' || s[i] == '\\') && (t[i]
                == '/' || t[i] == '\\')),
    ensures
        same_parts(Platform::Windows, s, t),
{
    let w = Platform::Windows;
    assert(same_but_for_separators(s, t));
    if s.len() >= 1 {
        assert(s[0] == t[0] || (is_separator(w, s[0]) && is_separator(w, t[0])));
    }
    if s.len() >= 2 {
        assert(s[1] == t[1] || (is_separator(w, s[1]) && is_separator(w, t[1])));
    }
    lemma_ordinary(w, s);
    lemma_ordinary(w, t);
    let n = prefix_len(w, s);
    if n < s.len() {
        assert(s[n] == t[n] || (is_separator(w, s[n]) && is_separator(w, t[n])));
    }
    if n + 1 < s.len() {
        assert(s[n + 1] == t[n + 1] || (is_separator(w, s[n + 1]) && is_separator(w, t[n + 1])));
    }
    lemma_names_start(w, s);
    lemma_similar_names(s, t, names_start(w, s), s.len() as int);
}

// ---------------------------------------------------------------------------
// Prefixes

/// A path that does not begin with two separators has a drive in front or nothing:
/// on Windows a drive is a letter with a colon behind it, and no other platform has
/// any.
pub proof fn law_drives_are_letters_with_a_colon(platform: Platform, s: Seq<char>)
    ensures
        !(platform is Windows) ==> prefix_kind(platform, s) is Bare && prefix_len(platform, s) == 0,
        platform is Windows && is_ordinary(platform, s) ==> {
            let drive = s.len() >= 2 && s[1] == ':' && (65 <= s[0] as int <= 90 || 97 <= s[0] as int
                <= 122);
            &&& drive ==> prefix_kind(platform, s) is Disk && prefix_len(platform, s) == 2
            &&& !drive ==> prefix_kind(platform, s) is Bare && prefix_len(platform, s) == 0
        },
{
    if is_ordinary(platform, s) {
        lemma_ordinary(platform, s);
    }
}

proof fn lemma_name_ends_at(verbatim: bool, s: Seq<char>, from: int, end: int)
    requires
        0 <= from <= end <= s.len(),
        forall|i: int| from <= i < end ==> !cuts(Platform::Windows, verbatim, #[trigger] s[i]),
        end == s.len() || cuts(Platform::Windows, verbatim, s[end]),
    ensures
        name_end(Platform::Windows, verbatim, s, from) == end,
    decreases end - from,
{
    if from < end {
        lemma_name_ends_at(verbatim, s, from + 1, end);
    }
}

/// The path of a share: two separators, a server, a separator, the share, and the
/// rest, which is empty or begins with a separator.
pub open spec fn share_path(
    a: char,
    b: char,
    server: Seq<char>,
    c: char,
    share: Seq<char>,
    rest: Seq<char>,
) -> Seq<char> {
    seq![a, b] + server + seq![c] + share + rest
}

/// Whether these are the pieces of the path of a share: the separators are
/// separators, the names are names, and the server is not the dot of a device or
/// the question mark of a verbatim path.
pub open spec fn are_share_pieces(
    a: char,
    b: char,
    server: Seq<char>,
    c: char,
    share: Seq<char>,
    rest: Seq<char>,
) -> bool {
    let sep = |x: char| x == '/' || x == '\\';
    &&& sep(a) && sep(b) && sep(c)
    &&& server.len() > 0 && server != seq!['.']
    &&& !(server == seq!['?'] && a == '\\' && b == '\\' && c == '\\')
    &&& share.len() > 0
    &&& forall|i: int| 0 <= i < server.len() ==> #[trigger] server[i] != '/' && server[i] != '\\'
    &&& forall|i: int| 0 <= i < share.len() ==> #[trigger] share[i] != '/' && share[i] != '\\'
    &&& rest.len() > 0 ==> sep(rest[0])
}

/// Two separators, a server and a share are a prefix, and where it leads is clear.
pub proof fn law_shares_are_prefixes(
    a: char,
    b: char,
    server: Seq<char>,
    c: char,
    share: Seq<char>,
    rest: Seq<char>,
)
    requires
        are_share_pieces(a, b, server, c, share, rest),
    ensures
        ({
            let s = share_path(a, b, server, c, share, rest);
            &&& prefix_kind(Platform::Windows, s) is Share
            &&& prefix_len(Platform::Windows, s) == 3 + server.len() + share.len()
            &&& absolute(Platform::Windows, s)
        }),
{
    let w = Platform::Windows;
    let s = share_path(a, b, server, c, share, rest);
    let server_end = 2 + server.len() as int;
    let share_end = server_end + 1 + share.len();
    assert(s[0] == a && s[1] == b && s[server_end] == c);
    assert forall|i: int| 2 <= i < server_end implies !cuts(w, false, #[trigger] s[i]) by {
        assert(s[i] == server[i - 2]);
    }
    assert forall|i: int| server_end + 1 <= i < share_end implies !cuts(
        w,
        false,
        #[trigger] s[i],
    ) by {
        assert(s[i] == share[i - server_end - 1]);
    }
    if rest.len() > 0 {
        assert(s[share_end] == rest[0]);
    }
    lemma_name_ends_at(false, s, 2, server_end);
    lemma_name_ends_at(false, s, server_end + 1, share_end);
    assert(s[2] == server[0]);
    if server.len() == 1 {
        assert(server =~= seq![server[0]]);
        assert(s[3] == c);
    } else {
        assert(s[3] == server[1]);
    }
}

/// An entry of a share keeps its name.
pub proof fn law_entry_of_a_share_keeps_its_name(
    a: char,
    b: char,
    server: Seq<char>,
    c: char,
    share: Seq<char>,
    rest: Seq<char>,
    name: Seq<char>,
)
    requires
        are_share_pieces(a, b, server, c, share, rest),
        stands_alone(Platform::Windows, name),
        name != seq!['.', '.'],
    ensures
        ({
            let dir = share_path(a, b, server, c, share, rest);
            let whole = joined_path(Platform::Windows, dir, name);
            let separated = rest.len() > 0 && (rest.last() == '/' || rest.last() == '\\');
            &&& file_name_of(Platform::Windows, whole) == Some(name)
            &&& whole == if separated {
                dir + name
            } else {
                dir + seq!['\\'] + name
            }
        }),
{
    let w = Platform::Windows;
    let dir = share_path(a, b, server, c, share, rest);
    let whole = joined_path(w, dir, name);
    lemma_stands_alone(w, name);
    lemma_name_alone(w, name);
    law_shares_are_prefixes(a, b, server, c, share, rest);
    let separated = rest.len() > 0 && (rest.last() == '/' || rest.last() == '\\');
    if rest.len() > 0 {
        assert(dir.last() == rest.last());
    } else {
        assert(dir.last() == share.last());
        assert(share[share.len() - 1] != '/');
    }
    let longer = if separated {
        rest + name
    } else {
        rest + seq!['\\'] + name
    };
    if rest.len() > 0 {
        assert(longer[0] == rest[0]);
    }
    assert(whole =~= share_path(a, b, server, c, share, longer));
    law_shares_are_prefixes(a, b, server, c, share, longer);
    law_joined_path_keeps_the_name(w, dir, name);
}

/// The other prefixes of Windows: a device behind `\\.\`, and behind `\\?\` a
/// drive, or a share behind `UNC`, or any other name. All of them say where they
/// lead.
#[verifier::rlimit(60)]
#[verifier::spinoff_prover]
pub proof fn law_devices_and_verbatim_prefixes(
    a: char,
    b: char,
    c: char,
    drive: char,
    name: Seq<char>,
    share: Seq<char>,
    rest: Seq<char>,
)
    requires
        (a == '/' || a == '\\') && (b == '/' || b == '\\') && (c == '/' || c == '\\'),
        65 <= drive as int <= 90 || 97 <= drive as int <= 122,
        name.len() > 0,
        share.len() > 0,
        forall|i: int| 0 <= i < name.len() ==> #[trigger] name[i] != '/' && name[i] != '\\',
        forall|i: int| 0 <= i < share.len() ==> #[trigger] share[i] != '/' && share[i] != '\\',
        rest.len() > 0 ==> rest[0] == '\\',
    ensures
        ({
            let w = Platform::Windows;
            let verbatim = seq!['\\', '\\', '?', '\\'];
            let device = seq![a, b, '.', c] + name + rest;
            let disk = verbatim + seq![drive, ':'] + rest;
            let unc = verbatim + seq!['U', 'N', 'C', c] + name + seq!['\\'] + share + rest;
            let other = verbatim + name + rest;
            &&& prefix_kind(w, device) is Device && prefix_len(w, device) == 4 + name.len()
                && absolute(w, device)
            &&& prefix_kind(w, disk) is VerbatimDisk && prefix_len(w, disk) == 6 && absolute(w, disk)
            &&& prefix_kind(w, unc) is VerbatimShare && prefix_len(w, unc) == 9 + name.len()
                + share.len() && absolute(w, unc)
            &&& !(name.len() == 2 && name[1] == ':') && name != seq!['U', 'N', 'C'] ==> prefix_kind(
                w,
                other,
            ) is Verbatim && prefix_len(w, other) == 4 + name.len() && absolute(w, other)
        }),
{
    let w = Platform::Windows;
    let verbatim = seq!['\\', '\\', '?', '\\'];
    let n = name.len() as int;
    let m = share.len() as int;
    let device = seq![a, b, '.', c] + name + rest;
    assert forall|i: int| 4 <= i < 4 + n implies !cuts(w, false, #[trigger] device[i]) by {
        assert(device[i] == name[i - 4]);
    }
    if rest.len() > 0 {
        assert(device[4 + n] == rest[0]);
    }
    lemma_name_ends_at(false, device, 4, 4 + n);
    assert(device[0] == a && device[1] == b && device[2] == '.' && device[3] == c);

    let disk = verbatim + seq![drive, ':'] + rest;
    assert(disk[0] == '\\' && disk[1] == '\\' && disk[2] == '?' && disk[3] == '\\');
    assert(disk[4] == drive && disk[5] == ':');
    if rest.len() > 0 {
        assert(disk[6] == rest[0]);
    }

    let unc = verbatim + seq!['U', 'N', 'C', c] + name + seq!['\\'] + share + rest;
    assert(unc[0] == '\\' && unc[1] == '\\' && unc[2] == '?' && unc[3] == '\\');
    assert(unc[4] == 'U' && unc[5] == 'N' && unc[6] == 'C' && unc[7] == c);
    assert forall|i: int| 8 <= i < 8 + n implies !cuts(w, true, #[trigger] unc[i]) by {
        assert(unc[i] == name[i - 8]);
    }
    assert(unc[8 + n] == '\\');
    assert forall|i: int| 9 + n <= i < 9 + n + m implies !cuts(w, true, #[trigger] unc[i]) by {
        assert(unc[i] == share[i - 9 - n]);
    }
    if rest.len() > 0 {
        assert(unc[9 + n + m] == rest[0]);
    }
    lemma_name_ends_at(true, unc, 8, 8 + n);
    lemma_name_ends_at(true, unc, 9 + n, 9 + n + m);

    let other = verbatim + name + rest;
    assert(other[0] == '\\' && other[1] == '\\' && other[2] == '?' && other[3] == '\\');
    assert forall|i: int| 4 <= i < 4 + n implies !cuts(w, true, #[trigger] other[i]) by {
        assert(other[i] == name[i - 4]);
    }
    if rest.len() > 0 {
        assert(other[4 + n] == rest[0]);
    }
    lemma_name_ends_at(true, other, 4, 4 + n);
    assert(other[4] == name[0]);
    if n >= 2 {
        assert(other[5] == name[1]);
    }
    if n >= 3 {
        assert(other[6] == name[2]);
    }
    if n >= 4 {
        assert(other[7] == name[3]);
    }
    if n == 3 && other.len() >= 8 && other[4] == 'U' && other[5] == 'N' && other[6] == 'C' {
        assert(name =~= seq!['U', 'N', 'C']);
    }
}

/// Behind a verbatim drive a name is put after the others, and two dots take the
/// last of them off; backslashes separate them.
#[verifier::rlimit(60)]
#[verifier::spinoff_prover]
pub proof fn law_verbatim_paths_are_resolved(drive: char, rest: Seq<char>, name: Seq<char>)
    requires
        65 <= drive as int <= 90 || 97 <= drive as int <= 122,
        rest.len() > 0 ==> rest[0] == '\\',
        stands_alone(Platform::Windows, name),
        name != seq!['.', '.'],
    ensures
        ({
            let w = Platform::Windows;
            let front = seq!['\\', '\\', '?', '\\', drive, ':'];
            let dir = front + rest;
            let list = names(w, dir);
            let back = seq!['\\'];
            &&& joined_path(w, dir, name) == front + back + joined(list.push(name), back)
            &&& file_name_of(w, joined_path(w, dir, name)) == Some(name)
            &&& list.len() > 0 && rest.len() > 0 && list.last() != seq!['.'] && list.last() != seq![
                '.',
                '.',
            ] ==> joined_path(w, dir, seq!['.', '.']) == front + back + joined(
                list.drop_last(),
                back,
            )
        }),
{
    let w = Platform::Windows;
    let front = seq!['\\', '\\', '?', '\\', drive, ':'];
    let dir = front + rest;
    let list = names(w, dir);
    let back = seq!['\\'];
    let dots = seq!['.', '.'];
    assert(front =~= seq!['\\', '\\', '?', '\\'] + seq![drive, ':']);
    law_devices_and_verbatim_prefixes('\\', '\\', '\\', drive, seq!['x'], seq!['x'], rest);
    lemma_stands_alone(w, name);
    lemma_name_alone(w, name);
    assert(dots.len() != seq!['.'].len());
    lemma_stands_alone(w, dots);
    lemma_name_alone(w, dots);
    assert(dir.take(6) =~= front);
    reveal_with_fuel(stepped_through, 2);
    assert(seq![name].drop_last() =~= seq![]);
    assert(seq![dots].drop_last() =~= seq![]);
    let whole = joined_path(w, dir, name);
    assert(whole == front + back + joined(list.push(name), back));
    let longer = back + joined(list.push(name), back);
    assert(whole =~= front + longer);
    law_devices_and_verbatim_prefixes('\\', '\\', '\\', drive, seq!['x'], seq!['x'], longer);
    law_joined_path_keeps_the_name(w, dir, name);
    if rest.len() > 0 {
        assert(dir[6] == rest[0]);
    }
}

/// Without the name, a path in a share is the directory again, where that ends with
/// a letter of a name or is the root of the share.
#[verifier::rlimit(60)]
#[verifier::spinoff_prover]
pub proof fn law_parent_in_a_share_is_the_directory(
    a: char,
    b: char,
    server: Seq<char>,
    c: char,
    share: Seq<char>,
    rest: Seq<char>,
    name: Seq<char>,
)
    requires
        are_share_pieces(a, b, server, c, share, rest),
        stands_alone(Platform::Windows, name),
    ensures
        ({
            let w = Platform::Windows;
            let dir = share_path(a, b, server, c, share, rest);
            let around = parent_of(w, joined_path(w, dir, name));
            &&& names(w, joined_path(w, dir, name)) == names(w, dir).push(name)
            &&& rest.len() > 0 && rest.last() != '/' && rest.last() != '\\' && rest.last() != '.'
                ==> around == Some(dir)
            &&& rest.len() == 1 ==> around == Some(dir)
        }),
{
    let w = Platform::Windows;
    let dir = share_path(a, b, server, c, share, rest);
    let whole = joined_path(w, dir, name);
    lemma_stands_alone(w, name);
    lemma_name_alone(w, name);
    law_shares_are_prefixes(a, b, server, c, share, rest);
    let separated = rest.len() > 0 && (rest.last() == '/' || rest.last() == '\\');
    if rest.len() > 0 {
        assert(dir.last() == rest.last());
        assert(dir[3 + server.len() as int + share.len()] == rest[0]);
    } else {
        assert(dir.last() == share.last());
        assert(share[share.len() - 1] != '/');
    }
    let longer = if separated {
        rest + name
    } else {
        rest + seq!['\\'] + name
    };
    if rest.len() > 0 {
        assert(longer[0] == rest[0]);
    }
    assert(whole =~= share_path(a, b, server, c, share, longer));
    assert(whole =~= in_front(w, dir) + name);
    law_shares_are_prefixes(a, b, server, c, share, longer);
    lemma_part_behind(w, dir, name);
    let head = in_front(w, dir);
    let d = dir.len() as int;
    let floor = names_start(w, whole);
    assert forall|i: int| 0 <= i < d implies #[trigger] whole[i] == dir[i] by {}
    reveal_with_fuel(last_name_end, 3);
    if head.len() != d {
        assert(cuts(w, false, whole[d]));
    }
    let cut = last_name_end(w, false, whole, floor, head.len() as int);
    if cut == d {
        assert(whole.take(cut) =~= dir);
    }
}

/// Two shares begin alike exactly if their servers and their shares are the same,
/// letter for letter, whichever separators they use.
#[verifier::rlimit(60)]
#[verifier::spinoff_prover]
pub proof fn law_shares_are_told_apart_by_their_names(
    a: char,
    b: char,
    server: Seq<char>,
    c: char,
    share: Seq<char>,
    rest: Seq<char>,
    d: char,
    e: char,
    other_server: Seq<char>,
    f: char,
    other_share: Seq<char>,
    other_rest: Seq<char>,
)
    requires
        are_share_pieces(a, b, server, c, share, rest),
        are_share_pieces(d, e, other_server, f, other_share, other_rest),
    ensures
        same_prefix(
            Platform::Windows,
            share_path(a, b, server, c, share, rest),
            share_path(d, e, other_server, f, other_share, other_rest),
        ) <==> server == other_server && share == other_share,
{
    let w = Platform::Windows;
    let s = share_path(a, b, server, c, share, rest);
    let t = share_path(d, e, other_server, f, other_share, other_rest);
    law_shares_are_prefixes(a, b, server, c, share, rest);
    law_shares_are_prefixes(d, e, other_server, f, other_share, other_rest);
    let x = server + seq![c] + share;
    let y = other_server + seq![f] + other_share;
    assert(s.subrange(2, prefix_len(w, s)) =~= x);
    assert(t.subrange(2, prefix_len(w, t)) =~= y);
    let n = server.len() as int;
    let m = other_server.len() as int;
    if same_but_for_separators(x, y) {
        assert(x[n] == c && y[m] == f);
        if n < m {
            assert(y[n] == other_server[n]);
            assert(x[n] == y[n] || (is_separator(w, x[n]) && is_separator(w, y[n])));
        } else if m < n {
            assert(x[m] == server[m]);
            assert(x[m] == y[m] || (is_separator(w, x[m]) && is_separator(w, y[m])));
        } else {
            assert forall|i: int| 0 <= i < n implies server[i] == other_server[i] by {
                assert(x[i] == server[i] && y[i] == other_server[i]);
            }
            assert forall|i: int| 0 <= i < share.len() implies share[i] == other_share[i] by {
                assert(x[n + 1 + i] == share[i] && y[n + 1 + i] == other_share[i]);
            }
            assert(server =~= other_server);
            assert(share =~= other_share);
        }
    }
    if server == other_server && share == other_share {
        assert forall|i: int| 0 <= i < x.len() implies #[trigger] x[i] == y[i] || (is_separator(
            w,
            x[i],
        ) && is_separator(w, y[i])) by {}
    }
}

/// A path that begins otherwise is another path: with a different prefix or none,
/// with a root or without one.
pub proof fn law_different_beginnings_are_different_paths(
    platform: Platform,
    s: Seq<char>,
    t: Seq<char>,
)
    requires
        same_parts(platform, s, t),
    ensures
        prefix_kind(platform, s) == prefix_kind(platform, t),
        prefix_kind(platform, s) is Device || prefix_kind(platform, s) is Verbatim ==> s.subrange(
            4,
            prefix_len(platform, s),
        ) == t.subrange(4, prefix_len(platform, t)),
        prefix_kind(platform, s) is VerbatimShare ==> s.subrange(8, prefix_len(platform, s))
            == t.subrange(8, prefix_len(platform, t)),
        is_ordinary(platform, s) && is_ordinary(platform, t) && !(platform is Windows) ==> (s.len()
            > 0 && s[0] == '/' <==> t.len() > 0 && t[0] == '/'),
{
}

/// A path that begins neither with a separator nor with a drive goes behind the
/// directory, whatever it holds, with one separator between them as for a name.
pub proof fn law_relative_paths_go_behind_the_directory(
    platform: Platform,
    dir: Seq<char>,
    path: Seq<char>,
)
    requires
        is_ordinary(platform, dir),
        path.len() > 0 ==> path[0] != '/' && !(platform is Windows && path[0] == '\\'),
        platform is Windows && path.len() >= 2 && path[1] == ':' ==> !(65 <= path[0] as int <= 90
            || 97 <= path[0] as int <= 122),
    ensures
        ({
            let separated = dir.len() > 0 && (dir.last() == '/' || (platform is Windows
                && dir.last() == '\\'));
            let drive = platform is Windows && dir.len() == 2 && dir[1] == ':' && (65
                <= dir[0] as int <= 90 || 97 <= dir[0] as int <= 122);
            joined_path(platform, dir, path) == if dir.len() == 0 || separated || drive {
                dir + path
            } else if platform is Windows {
                dir + seq!['\\'] + path
            } else {
                dir + seq!['/'] + path
            }
        }),
{
    lemma_ordinary(platform, dir);
    lemma_ordinary(platform, path);
}

/// Ordinary paths that are the same begin alike behind their drive: both with a
/// root or neither, and without a drive both with a lone dot or neither.
pub proof fn law_same_paths_begin_alike(platform: Platform, s: Seq<char>, t: Seq<char>)
    requires
        same_parts(platform, s, t),
        is_ordinary(platform, s),
        is_ordinary(platform, t),
    ensures
        ({
            let separator = |c: char| c == '/' || (platform is Windows && c == '\\');
            let drive = |p: Seq<char>|
                platform is Windows && p.len() >= 2 && p[1] == ':' && (65 <= p[0] as int <= 90 || 97
                    <= p[0] as int <= 122);
            let dotted = |p: Seq<char>|
                p.len() > 0 && p[0] == '.' && (p.len() == 1 || separator(p[1]));
            &&& drive(s) == drive(t)
            &&& drive(s) ==> (s.len() > 2 && separator(s[2])) == (t.len() > 2 && separator(t[2]))
            &&& !drive(s) ==> (s.len() > 0 && separator(s[0])) == (t.len() > 0 && separator(t[0]))
            &&& !drive(s) ==> dotted(s) == dotted(t)
        }),
{
    lemma_ordinary(platform, s);
    lemma_ordinary(platform, t);
}

proof fn lemma_verbatim_start(head: Seq<char>, name: Seq<char>, floor: int, end: int)
    requires
        0 <= floor <= head.len() <= end <= head.len() + name.len(),
        head.len() > 0 && head.last() == '\\',
        forall|i: int| 0 <= i < name.len() ==> #[trigger] name[i] != '\\',
    ensures
        name_start(Platform::Windows, true, head + name, floor, end) == head.len(),
    decreases end,
{
    let s = head + name;
    if end > head.len() {
        assert(s[end - 1] == name[end - 1 - head.len()]);
        lemma_verbatim_start(head, name, floor, end - 1);
    } else if end > floor {
        assert(s[end - 1] == head.last());
    }
}

/// Behind a verbatim drive only the backslash separates names, and every name
/// counts: one that holds a slash, and a lone dot too.
#[verifier::rlimit(60)]
#[verifier::spinoff_prover]
pub proof fn law_verbatim_names_are_taken_as_they_are(
    drive: char,
    rest: Seq<char>,
    name: Seq<char>,
)
    requires
        65 <= drive as int <= 90 || 97 <= drive as int <= 122,
        rest.len() > 0 ==> rest[0] == '\\',
        name.len() > 0,
        forall|i: int| 0 <= i < name.len() ==> #[trigger] name[i] != '\\',
    ensures
        ({
            let w = Platform::Windows;
            let dir = seq!['\\', '\\', '?', '\\', drive, ':'] + rest;
            let whole = dir + seq!['\\'] + name;
            &&& names(w, whole) == names(w, dir).push(name)
            &&& name != seq!['.'] && name != seq!['.', '.'] ==> file_name_of(w, whole) == Some(name)
        }),
{
    let w = Platform::Windows;
    let front = seq!['\\', '\\', '?', '\\', drive, ':'];
    let dir = front + rest;
    let head = dir + seq!['\\'];
    let whole = head + name;
    let longer = rest + seq!['\\'] + name;
    assert(front =~= seq!['\\', '\\', '?', '\\'] + seq![drive, ':']);
    assert(whole =~= front + longer);
    if rest.len() > 0 {
        assert(longer[0] == rest[0]);
        assert(dir[6] == rest[0]);
    }
    law_devices_and_verbatim_prefixes('\\', '\\', '\\', drive, seq!['x'], seq!['x'], rest);
    law_devices_and_verbatim_prefixes('\\', '\\', '\\', drive, seq!['x'], seq!['x'], longer);
    assert(whole[6] == longer[0]);
    let d = dir.len() as int;
    let h = head.len() as int;
    let len = whole.len() as int;
    assert(whole[len - 1] == name.last());
    assert(whole[d] == '\\');
    lemma_verbatim_start(head, name, 7, len);
    assert(whole.subrange(h, len) =~= name);
    assert(names_start(w, whole) == 7);
    assert(names_between(w, true, whole, 7, len) == names_between(w, true, whole, 7, h).push(name));
    if rest.len() > 0 {
        assert(names_start(w, dir) == 7);
        assert forall|i: int| 0 <= i < d implies #[trigger] whole[i] == dir[i] by {}
        lemma_agreeing_texts(w, true, whole, dir, 7, d);
        assert(last_name_end(w, true, whole, 7, h) == last_name_end(w, true, whole, 7, d));
    } else {
        assert(names_start(w, dir) == 6 && d == 6);
    }
}

} // verus!
