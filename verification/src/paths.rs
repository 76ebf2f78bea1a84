//! File names: the last component of a path, its stem, whether one path lies
//! under another, and a name put behind a directory.
//!
//! How a path falls into components depends on the platform: there is the rule
//! of Unix and that of Windows, which also takes `\` for a separator, a leading
//! `C:` for a drive and a leading `\\server\share` for a network share. What is
//! stated here of the standard library's paths is that it follows one of the
//! two, so that the answer is fixed wherever they agree.

use vstd::prelude::*;

use crate::text::{chars_of, lower, lower_char, occurs, owned, string_of, text_view};

verus! {

/// A character that separates the components of a path.
pub open spec fn separator(c: char, windows: bool) -> bool {
    c == '/' || (windows && c == '\\')
}

/// The path starts with two separators, as a network or device path may.
pub open spec fn two_separators(path: Seq<char>) -> bool {
    path.len() >= 2 && separator(path[0], true) && separator(path[1], true)
}

/// The path starts with a letter and a colon, as on a drive of Windows.
pub open spec fn has_drive(path: Seq<char>) -> bool {
    path.len() >= 2 && path[1] == ':' && ('a' <= path[0] <= 'z' || 'A' <= path[0] <= 'Z')
}

/// The first place of a separator in `s` from a place on, or the end.
pub open spec fn next_separator(s: Seq<char>, from: int) -> int
    decreases s.len() - from,
{
    if from < 0 || from >= s.len() {
        s.len() as int
    } else if separator(s[from], true) {
        from
    } else {
        next_separator(s, from + 1)
    }
}

/// The server of a network path: what is between its first two separators and
/// the next one.
pub open spec fn server_name(path: Seq<char>) -> Seq<char> {
    path.subrange(2, next_separator(path, 2))
}

/// Where the share of a network path ends.
pub open spec fn share_end(path: Seq<char>) -> int {
    next_separator(path, next_separator(path, 2) + 1)
}

/// The share of a network path: what is behind the separator after the server,
/// up to the next one.
pub open spec fn share_name(path: Seq<char>) -> Seq<char> {
    let from = next_separator(path, 2) + 1;
    if from < path.len() {
        path.subrange(from, share_end(path))
    } else {
        Seq::empty()
    }
}

/// The path starts with two separators and a mark, as device paths and literal
/// paths of Windows do.
pub open spec fn marked(path: Seq<char>) -> bool {
    two_separators(path) && path.len() > 2 && (path[2] == '?' || path[2] == '.')
}

/// The path starts with a server and a share, as on a network of Windows.
pub open spec fn has_share(path: Seq<char>) -> bool {
    &&& two_separators(path)
    &&& !marked(path)
    &&& path.len() > 2
    &&& !separator(path[2], true)
    &&& share_name(path).len() > 0
    &&& share_name(path) != seq!['.']
    &&& share_name(path) != seq!['.', '.']
}

/// A path on a drive, on a whole share, or on neither.
pub open spec fn ordinary(path: Seq<char>) -> bool {
    !two_separators(path) || has_share(path)
}

/// A path without its drive or share, where the rule knows them.
pub open spec fn without_prefix(path: Seq<char>, windows: bool) -> Seq<char> {
    if windows && has_drive(path) {
        path.skip(2)
    } else if windows && has_share(path) {
        path.skip(share_end(path))
    } else {
        path
    }
}

/// The last place of a separator in `s`, or -1 when there is none.
pub open spec fn last_separator(s: Seq<char>, windows: bool) -> int
    decreases s.len(),
{
    if s.len() == 0 {
        -1
    } else if separator(s.last(), windows) {
        s.len() - 1
    } else {
        last_separator(s.drop_last(), windows)
    }
}

/// The components of a path without its drive or share, in order: what is between the
/// separators, without what is empty or a single dot.
pub open spec fn components(s: Seq<char>, windows: bool) -> Seq<Seq<char>>
    decreases s.len(),
{
    let k = last_separator(s, windows);
    let last = s.skip(k + 1);
    let before = if 0 <= k < s.len() {
        components(s.take(k), windows)
    } else {
        Seq::empty()
    };
    if last.len() == 0 || last == seq!['.'] {
        before
    } else {
        before.push(last)
    }
}

/// The name that a path ends with: its last component, unless that is `..`.
pub open spec fn last_part(path: Seq<char>, windows: bool) -> Option<Seq<char>> {
    let all = components(without_prefix(path, windows), windows);
    if all.len() == 0 || all.last() == seq!['.', '.'] {
        None
    } else {
        Some(all.last())
    }
}

/// The last place of `c` in `s`, or -1 when `c` is not there.
pub open spec fn last_index(s: Seq<char>, c: char) -> int
    decreases s.len(),
{
    if s.len() == 0 {
        -1
    } else if s.last() == c {
        s.len() - 1
    } else {
        last_index(s.drop_last(), c)
    }
}

/// What holds of the name that a path ends with on every platform: it is a
/// non-empty part of the path other than `..`, and it is the name by one of the
/// two rules. A path of one or two components behind two separators that is no
/// whole share may have no name, and of one with a mark behind the separators
/// nothing more is said.
pub open spec fn last_component(path: Seq<char>, name: Option<Seq<char>>) -> bool {
    let by_rule = name == last_part(path, false) || name == last_part(path, true);
    &&& name matches Some(n) ==> n.len() > 0 && n != seq!['.', '.'] && occurs(path, n)
    &&& ordinary(path) ==> by_rule
    &&& !marked(path) ==> by_rule || (name is None && components(path, true).len() < 3)
}

/// `std::path::Path::file_name`: the final component of a path, if it has one
/// and that is a name. Which of the two rules is followed depends on the
/// platform, and is not claimed.
#[verifier::external_body]
pub(crate) fn file_name(path: &str) -> (name: Option<String>)
    ensures
        last_component(path@, text_view(name)),
{
    match std::path::Path::new(path).file_name() {
        Some(name) => Some(name.to_string_lossy().into_owned()),
        None => None,
    }
}

/// The stem of a file name: what is before its last dot, or the whole name
/// where it has no dot but perhaps a leading one.
pub open spec fn stem(name: Seq<char>) -> Seq<char> {
    let dot = last_index(name, '.');
    if dot <= 0 {
        name
    } else {
        name.take(dot)
    }
}

/// The stem of a file name.
pub fn stem_of(name: &str) -> (r: String)
    ensures
        r@ == stem(name@),
{
    let v = chars_of(name);
    let mut end: usize = v.len();
    assert(v@.take(end as int) =~= v@);
    while end > 0 && v[end - 1] != '.'
        invariant
            end <= v.len(),
            last_index(v@.take(end as int), '.') == last_index(v@, '.'),
        decreases end,
    {
        assert(v@.take(end as int).drop_last() =~= v@.take(end - 1));
        end -= 1;
    }
    if end <= 1 {
        owned(name)
    } else {
        let r = string_of(&v, 0, end - 1);
        assert(r@ =~= v@.take(end - 1));
        r
    }
}

/// One step of a path from its start: a drive, a share with its server, the
/// root, the directory that a leading dot stands for, or a component.
pub enum PathStep {
    Drive(char),
    Share(Seq<char>, Seq<char>),
    Root,
    Here,
    Component(Seq<char>),
}

/// What a path starts with before its components: the drive or the share, where
/// the rule knows them, and the root or a leading dot. A share has a root.
pub open spec fn path_start(path: Seq<char>, windows: bool) -> Seq<PathStep> {
    let rest = without_prefix(path, windows);
    let drive = if windows && has_drive(path) {
        seq![PathStep::Drive(path[0])]
    } else {
        Seq::empty()
    };
    if windows && has_share(path) {
        seq![PathStep::Share(server_name(path), share_name(path)), PathStep::Root]
    } else if rest.len() > 0 && separator(rest[0], windows) {
        drive.push(PathStep::Root)
    } else if rest.len() > 0 && rest[0] == '.' && (rest.len() == 1 || separator(rest[1], windows)) {
        drive.push(PathStep::Here)
    } else {
        drive
    }
}

/// A path as the steps that it takes.
pub open spec fn path_steps(path: Seq<char>, windows: bool) -> Seq<PathStep> {
    path_start(path, windows) + components(without_prefix(path, windows), windows).map_values(
        |c: Seq<char>| PathStep::Component(c),
    )
}

/// `path` starts with the steps of `base`.
pub open spec fn continues(path: Seq<char>, base: Seq<char>, windows: bool) -> bool {
    path_steps(base, windows).is_prefix_of(path_steps(path, windows))
}

/// The two paths name a drive by one letter in different case.
pub open spec fn drives_differ_in_case(path: Seq<char>, base: Seq<char>) -> bool {
    has_drive(path) && has_drive(base) && path[0] != base[0] && lower_char(path[0]) == lower_char(
        base[0],
    )
}

/// The two paths name a server and a share by one name in different case.
pub open spec fn shares_differ_in_case(path: Seq<char>, base: Seq<char>) -> bool {
    &&& has_share(path) && has_share(base)
    &&& server_name(path) != server_name(base) || share_name(path) != share_name(base)
    &&& lower(server_name(path)) == lower(server_name(base))
    &&& lower(share_name(path)) == lower(share_name(base))
}

/// What holds on every platform of whether `path` lies under `base`: every
/// path lies under itself and under the empty path, and the answer is that of
/// one of the two rules. Of a path with two leading separators but no whole
/// share no more is said.
pub open spec fn lies_under(path: Seq<char>, base: Seq<char>, under: bool) -> bool {
    &&& base.len() == 0 || path == base ==> under
    &&& ordinary(path) && ordinary(base) && !drives_differ_in_case(path, base)
        && !shares_differ_in_case(path, base) ==> under == continues(path, base, false) || under
        == continues(path, base, true)
}

/// `std::path::Path::starts_with`: whether `base` is a prefix of `path`, where
/// only whole components count. Which of the two rules is followed depends on
/// the platform, and is not claimed; nor is whether the case of a drive's
/// letter, or of a server's or a share's name, counts.
#[verifier::external_body]
pub(crate) fn starts_with(path: &str, base: &str) -> (under: bool)
    ensures
        lies_under(path@, base@, under),
{
    std::path::Path::new(path).starts_with(std::path::Path::new(base))
}

/// A directory with a name behind it: between them stands a separator, unless
/// the directory is empty or ends with one. A name with a drive replaces the
/// directory where the rule knows drives.
pub open spec fn behind(dir: Seq<char>, name: Seq<char>, windows: bool) -> Seq<char> {
    if windows && has_drive(name) {
        name
    } else if dir.len() == 0 || separator(dir.last(), windows) {
        dir + name
    } else if windows {
        dir + seq!['\\'] + name
    } else {
        dir + seq!['/'] + name
    }
}

/// What holds on every platform of a name put behind a directory: it is done
/// by one of the two rules. Nothing is said of a name that starts with a
/// separator, nor of a directory that is only a drive or starts with two
/// separators and a mark.
pub open spec fn joined(dir: Seq<char>, name: Seq<char>, path: Seq<char>) -> bool {
    name.len() > 0 && !separator(name[0], true) && !marked(dir) && !(has_drive(dir) && dir.len()
        == 2) ==> path == behind(dir, name, false) || path == behind(dir, name, true)
}

/// `std::path::Path::join`: a path with another one behind it. Which of the two
/// rules is followed depends on the platform, and is not claimed.
#[verifier::external_body]
pub(crate) fn join(dir: &str, name: &str) -> (path: String)
    ensures
        joined(dir@, name@, path@),
{
    std::path::Path::new(dir).join(name).to_string_lossy().into_owned()
}

// ---------------------------------------------------------------------------
// Laws
// ---------------------------------------------------------------------------

/// A stem is a non-empty start of its name, and what is cut off is a dot and a
/// dotless extension.
pub proof fn a_stem_starts_its_name(name: Seq<char>)
    requires
        name.len() > 0,
    ensures
        stem(name).len() > 0,
        stem(name).is_prefix_of(name),
        stem(name) != name ==> name[stem(name).len() as int] == '.' && !name.skip(
            stem(name).len() as int + 1,
        ).contains('.'),
{
    last_index_props(name, '.');
    let dot = last_index(name, '.');
    if dot > 0 {
        assert(name.take(dot) =~= name.subrange(0, dot));
        let ext = name.skip(dot + 1);
        if ext.contains('.') {
            let i = choose|i: int| 0 <= i < ext.len() && ext[i] == '.';
            assert(name[dot + 1 + i] == '.');
        }
    } else {
        assert(name =~= name.subrange(0, name.len() as int));
    }
}

/// The stem of a name with a dotless extension is what is before the dot.
pub proof fn the_stem_is_before_the_extension(base: Seq<char>, ext: Seq<char>)
    requires
        base.len() > 0,
        !ext.contains('.'),
    ensures
        stem(base + seq!['.'] + ext) == base,
{
    let file = base + seq!['.'] + ext;
    let dot = base.len() as int;
    assert forall|j: int| dot < j < file.len() implies file[j] != '.' by {
        assert(file[j] == ext[j - dot - 1]);
        assert(ext.contains(ext[j - dot - 1]));
    }
    last_index_is(file, '.', dot);
    assert(file.take(dot) =~= base);
}

/// What `last_index` gives back: a `c` is there, and none is behind it.
pub proof fn last_index_props(s: Seq<char>, c: char)
    ensures
        -1 <= last_index(s, c) < s.len(),
        last_index(s, c) >= 0 ==> s[last_index(s, c)] == c,
        forall|j: int| last_index(s, c) < j < s.len() ==> s[j] != c,
    decreases s.len(),
{
    if s.len() > 0 && s.last() != c {
        last_index_props(s.drop_last(), c);
        assert forall|j: int| last_index(s, c) < j < s.len() implies s[j] != c by {
            if j < s.len() - 1 {
                assert(s.drop_last()[j] == s[j]);
            }
        }
    }
}

/// `last_index` is the one place of a `c` with none behind it.
pub proof fn last_index_is(s: Seq<char>, c: char, p: int)
    requires
        0 <= p < s.len(),
        s[p] == c,
        forall|j: int| p < j < s.len() ==> s[j] != c,
    ensures
        last_index(s, c) == p,
    decreases s.len(),
{
    if s.last() != c {
        last_index_is(s.drop_last(), c, p);
    }
}

/// `last_separator` is the one place of a separator with none behind it.
proof fn last_separator_is(s: Seq<char>, windows: bool, p: int)
    requires
        -1 <= p < s.len(),
        p >= 0 ==> separator(s[p], windows),
        forall|j: int| p < j < s.len() ==> !separator(#[trigger] s[j], windows),
    ensures
        last_separator(s, windows) == p,
    decreases s.len(),
{
    if s.len() > 0 && !separator(s.last(), windows) {
        assert forall|j: int| p < j < s.len() - 1 implies !separator(
            #[trigger] s.drop_last()[j],
            windows,
        ) by {
            assert(s.drop_last()[j] == s[j]);
        }
        last_separator_is(s.drop_last(), windows, p);
    }
}

proof fn last_separator_props(s: Seq<char>, windows: bool)
    ensures
        -1 <= last_separator(s, windows) < s.len(),
        last_separator(s, windows) >= 0 ==> separator(s[last_separator(s, windows)], windows),
        forall|j: int|
            last_separator(s, windows) < j < s.len() ==> !separator(#[trigger] s[j], windows),
    decreases s.len(),
{
    if s.len() > 0 && !separator(s.last(), windows) {
        last_separator_props(s.drop_last(), windows);
        assert forall|j: int| last_separator(s, windows) < j < s.len() implies !separator(
            #[trigger] s[j],
            windows,
        ) by {
            if j < s.len() - 1 {
                assert(s.drop_last()[j] == s[j]);
            }
        }
    }
}

/// Around a separator a path falls apart: its components are those before it
/// and then those behind it.
pub proof fn components_around_a_separator(
    before: Seq<char>,
    c: char,
    behind: Seq<char>,
    windows: bool,
)
    requires
        separator(c, windows),
    ensures
        components(before + seq![c] + behind, windows) == components(before, windows) + components(
            behind,
            windows,
        ),
    decreases behind.len(),
{
    let whole = before + seq![c] + behind;
    last_separator_props(behind, windows);
    let kb = last_separator(behind, windows);
    let k = before.len() + 1 + kb;
    assert forall|j: int| k < j < whole.len() implies !separator(#[trigger] whole[j], windows) by {
        assert(whole[j] == behind[j - before.len() - 1]);
    }
    if kb >= 0 {
        assert(whole[k] == behind[kb]);
    }
    last_separator_is(whole, windows, k);
    assert(whole.skip(k + 1) =~= behind.skip(kb + 1));
    if kb >= 0 {
        assert(whole.take(k) =~= before + seq![c] + behind.take(kb));
        components_around_a_separator(before, c, behind.take(kb), windows);
    } else {
        assert(whole.take(k) =~= before);
    }
    assert(components(whole, windows) =~= components(before, windows) + components(behind, windows));
}

/// The next separator of a longer path is that of the path before a slash.
proof fn next_separator_before_a_slash(base: Seq<char>, rest: Seq<char>, from: int)
    requires
        0 <= from <= base.len(),
    ensures
        next_separator(base + seq!['/'] + rest, from) == next_separator(base, from),
        from <= next_separator(base, from) <= base.len(),
    decreases base.len() - from,
{
    let path = base + seq!['/'] + rest;
    if from < base.len() {
        assert(path[from] == base[from]);
        next_separator_before_a_slash(base, rest, from + 1);
    } else {
        assert(path[from] == '/');
    }
}

/// What follows a path on a share is on the same share.
pub proof fn the_share_stays(base: Seq<char>, rest: Seq<char>)
    requires
        has_share(base),
    ensures
        ({
            let path = base + seq!['/'] + rest;
            &&& has_share(path)
            &&& server_name(path) == server_name(base)
            &&& share_name(path) == share_name(base)
            &&& share_end(path) == share_end(base)
            &&& 2 <= share_end(base) <= base.len()
        }),
{
    let path = base + seq!['/'] + rest;
    assert(path[0] == base[0] && path[1] == base[1] && path[2] == base[2]);
    next_separator_before_a_slash(base, rest, 2);
    let from = next_separator(base, 2) + 1;
    next_separator_before_a_slash(base, rest, from);
    assert(server_name(path) =~= server_name(base));
    assert(share_name(path) =~= share_name(base));
}

/// A name that stands behind the last separator of a path is what the path
/// ends with, by either rule, unless it is the share of a network path.
pub proof fn a_path_ends_with_the_name_behind_its_slash(
    dir: Seq<char>,
    name: Seq<char>,
    windows: bool,
)
    requires
        name.len() > 0,
        name != seq!['.'],
        name != seq!['.', '.'],
        forall|i: int| 0 <= i < name.len() ==> !separator(#[trigger] name[i], true),
        has_share(dir + seq!['/'] + name) ==> has_share(dir),
    ensures
        last_part(dir + seq!['/'] + name, windows) == Some(name),
{
    let path = dir + seq!['/'] + name;
    let rest = without_prefix(path, windows);
    if has_share(dir) {
        the_share_stays(dir, name);
    }
    let kept = if windows && has_drive(path) {
        dir.skip(2)
    } else if windows && has_share(path) {
        dir.skip(share_end(path))
    } else {
        dir
    };
    if has_drive(path) {
        assert(dir.len() >= 2) by {
            if dir.len() == 0 {
                assert(path[0] == '/');
            } else if dir.len() == 1 {
                assert(path[1] == '/');
            }
        }
    }
    assert(rest =~= kept + seq!['/'] + name);
    components_around_a_separator(kept, '/', name, windows);
    last_separator_is(name, windows, -1);
    assert(name.skip(0) =~= name);
    assert(components(name, windows) =~= seq![name]);
}

/// Whatever follows a directory behind a slash lies under it: slashes at the
/// end or in a row do not matter.
pub proof fn what_follows_a_directory_lies_under_it(
    base: Seq<char>,
    rest: Seq<char>,
    under: bool,
)
    requires
        base.len() > 0,
        !two_separators(base + seq!['/'] + rest) || has_share(base),
        lies_under(base + seq!['/'] + rest, base, under),
    ensures
        under,
{
    let path = base + seq!['/'] + rest;
    assert(path[0] == base[0]);
    assert(base.len() >= 2 ==> path[1] == base[1]);
    assert(base.len() == 1 ==> path[1] == '/');
    if has_share(base) {
        the_share_stays(base, rest);
    }
    continues_behind_a_slash(base, rest, false);
    continues_behind_a_slash(base, rest, true);
}

proof fn continues_behind_a_slash(base: Seq<char>, rest: Seq<char>, windows: bool)
    requires
        base.len() > 0,
        !two_separators(base + seq!['/'] + rest) || has_share(base),
    ensures
        continues(base + seq!['/'] + rest, base, windows),
{
    let path = base + seq!['/'] + rest;
    let b = without_prefix(base, windows);
    let p = without_prefix(path, windows);
    assert(path[0] == base[0]);
    assert(base.len() >= 2 ==> path[1] == base[1]);
    assert(base.len() == 1 ==> path[1] == '/');
    assert(has_drive(path) == has_drive(base));
    if has_share(base) {
        the_share_stays(base, rest);
    }
    assert(has_share(path) == has_share(base));
    assert(p =~= b + seq!['/'] + rest);
    starts_alike(base, rest, windows);
    components_around_a_separator(b, '/', rest, windows);
    let component = |c: Seq<char>| PathStep::Component(c);
    let bc = components(b, windows);
    let pc = components(p, windows);
    let bs = path_steps(base, windows);
    let ps = path_steps(path, windows);
    let n = path_start(base, windows).len();
    if b.len() == 0 {
        last_separator_is(b, windows, -1);
        assert(b.skip(0) =~= b);
        assert(bc =~= Seq::empty());
    }
    assert forall|i: int| 0 <= i < bs.len() implies bs[i] == ps[i] by {
        if i >= n {
            assert(bs[i] == component(bc[i - n]));
            assert(ps[i] == component(pc[i - n]));
        } else {
            assert(bs[i] == path_start(base, windows)[i]);
            assert(ps[i] == path_start(path, windows)[i]);
        }
    }
    assert(bs =~= ps.subrange(0, bs.len() as int));
}

/// A path starts as what is before one of its slashes does, and as long where
/// that has more than a drive.
proof fn starts_alike(base: Seq<char>, rest: Seq<char>, windows: bool)
    requires
        base.len() > 0,
        !two_separators(base + seq!['/'] + rest) || has_share(base),
    ensures
        path_start(base, windows).is_prefix_of(path_start(base + seq!['/'] + rest, windows)),
        without_prefix(base, windows).len() > 0 ==> path_start(base, windows) == path_start(
            base + seq!['/'] + rest,
            windows,
        ),
{
    let path = base + seq!['/'] + rest;
    assert(path[0] == base[0]);
    assert(base.len() >= 2 ==> path[1] == base[1]);
    assert(base.len() == 1 ==> path[1] == '/');
    let short = path_start(base, windows);
    let long = path_start(path, windows);
    if has_share(base) {
        the_share_stays(base, rest);
        assert(long =~= short);
    } else {
        let b = without_prefix(base, windows);
        let p = without_prefix(path, windows);
        assert(p =~= b + seq!['/'] + rest);
        if b.len() > 0 {
            assert(p[0] == b[0]);
            assert(b.len() >= 2 ==> p[1] == b[1]);
            assert(b.len() == 1 ==> p[1] == '/');
            assert(long =~= short);
        }
    }
    assert(short =~= long.subrange(0, short.len() as int));
}

/// A name without a drive stands behind its directory as it is, with at most
/// one separator between them.
pub proof fn a_name_stands_behind_its_directory(dir: Seq<char>, name: Seq<char>, path: Seq<char>)
    requires
        joined(dir, name, path),
        name.len() > 0,
        !separator(name[0], true),
        !has_drive(name),
        !marked(dir),
        !(has_drive(dir) && dir.len() == 2),
    ensures
        dir.is_prefix_of(path),
        name.is_suffix_of(path),
        path.len() <= dir.len() + 1 + name.len(),
{
    assert(dir =~= path.subrange(0, dir.len() as int));
    assert(name =~= path.subrange(path.len() - name.len(), path.len() as int));
}

/// A name in which no dot stands behind the first character is its own stem.
pub proof fn a_name_without_an_extension_is_its_stem(name: Seq<char>)
    requires
        forall|i: int| 1 <= i < name.len() ==> #[trigger] name[i] != '.',
    ensures
        stem(name) == name,
{
    last_index_props(name, '.');
}

/// What a path is named, on every platform: by the name behind its last slash.
pub proof fn a_file_is_named_by_what_is_behind_the_slash(
    dir: Seq<char>,
    file: Seq<char>,
    name: Option<Seq<char>>,
)
    requires
        file.len() > 0,
        file != seq!['.'],
        file != seq!['.', '.'],
        forall|i: int| 0 <= i < file.len() ==> !separator(#[trigger] file[i], true),
        !two_separators(dir + seq!['/'] + file) || has_share(dir),
        last_component(dir + seq!['/'] + file, name),
    ensures
        name == Some(file),
{
    if has_share(dir) {
        the_share_stays(dir, file);
    }
    a_path_ends_with_the_name_behind_its_slash(dir, file, false);
    a_path_ends_with_the_name_behind_its_slash(dir, file, true);
}

/// Slashes at the end of a path, or a slash and a single dot, do not change its
/// name.
pub proof fn a_slash_at_the_end_does_not_matter(
    dir: Seq<char>,
    file: Seq<char>,
    end: Seq<char>,
    name: Option<Seq<char>>,
)
    requires
        file.len() > 0,
        file != seq!['.'],
        file != seq!['.', '.'],
        forall|i: int| 0 <= i < file.len() ==> !separator(#[trigger] file[i], true),
        end == seq!['.'] || forall|i: int| 0 <= i < end.len() ==> #[trigger] end[i] == '/',
        !two_separators(dir + seq!['/'] + file) || has_share(dir),
        last_component(dir + seq!['/'] + file + seq!['/'] + end, name),
    ensures
        name == Some(file),
{
    let path = dir + seq!['/'] + file;
    if has_share(dir) {
        the_share_stays(dir, file);
        the_share_stays(path, end);
    }
    ordinary_behind_a_slash(path, end);
    a_path_ends_with_the_name_behind_its_slash(dir, file, false);
    a_path_ends_with_the_name_behind_its_slash(dir, file, true);
    nothing_more_behind_a_slash(path, end, false);
    nothing_more_behind_a_slash(path, end, true);
}

proof fn ordinary_behind_a_slash(path: Seq<char>, end: Seq<char>)
    requires
        path.len() >= 2,
    ensures
        two_separators(path + seq!['/'] + end) == two_separators(path),
{
    let longer = path + seq!['/'] + end;
    assert(longer[0] == path[0] && longer[1] == path[1]);
}

/// Slashes have no components.
proof fn slashes_have_no_components(s: Seq<char>, windows: bool)
    requires
        forall|i: int| 0 <= i < s.len() ==> #[trigger] s[i] == '/',
    ensures
        components(s, windows) == Seq::<Seq<char>>::empty(),
    decreases s.len(),
{
    if s.len() > 0 {
        assert(s.last() == '/');
        assert(s.skip(s.len() as int) =~= Seq::empty());
        slashes_have_no_components(s.take(s.len() - 1), windows);
    } else {
        assert(s.skip(0) =~= Seq::empty());
    }
}

/// More slashes or a single dot behind a slash add nothing to a path.
proof fn nothing_more_behind_a_slash(path: Seq<char>, end: Seq<char>, windows: bool)
    requires
        path.len() > 0,
        end == seq!['.'] || forall|i: int| 0 <= i < end.len() ==> #[trigger] end[i] == '/',
        !two_separators(path + seq!['/'] + end) || has_share(path),
    ensures
        last_part(path + seq!['/'] + end, windows) == last_part(path, windows),
{
    let longer = path + seq!['/'] + end;
    assert(longer[0] == path[0]);
    assert(path.len() >= 2 ==> longer[1] == path[1]);
    assert(path.len() == 1 ==> longer[1] == '/');
    if has_share(path) {
        the_share_stays(path, end);
    }
    let p = without_prefix(path, windows);
    assert(without_prefix(longer, windows) =~= p + seq!['/'] + end);
    components_around_a_separator(p, '/', end, windows);
    if end == seq!['.'] {
        last_separator_is(end, windows, -1);
        assert(end.skip(0) =~= end);
        assert(components(end, windows) =~= Seq::empty());
    } else {
        slashes_have_no_components(end, windows);
    }
    assert(components(p, windows) + Seq::<Seq<char>>::empty() =~= components(p, windows));
}

/// A path that ends with `..` behind a slash has no name.
pub proof fn the_parent_directory_has_no_name(dir: Seq<char>, name: Option<Seq<char>>)
    requires
        !two_separators(dir + seq!['/', '.', '.']) || has_share(dir),
        last_component(dir + seq!['/', '.', '.'], name),
    ensures
        name is None,
{
    let up = seq!['.', '.'];
    let path = dir + seq!['/'] + up;
    assert(dir + seq!['/', '.', '.'] =~= path);
    if has_share(dir) {
        the_share_stays(dir, up);
    }
    ends_in_the_parent(dir, false);
    ends_in_the_parent(dir, true);
}

proof fn ends_in_the_parent(dir: Seq<char>, windows: bool)
    requires
        !two_separators(dir + seq!['/'] + seq!['.', '.']) || has_share(dir),
    ensures
        last_part(dir + seq!['/'] + seq!['.', '.'], windows) is None,
{
    let up = seq!['.', '.'];
    let path = dir + seq!['/'] + up;
    if dir.len() > 0 {
        assert(path[0] == dir[0]);
        assert(dir.len() >= 2 ==> path[1] == dir[1]);
        assert(dir.len() == 1 ==> path[1] == '/');
        if has_share(dir) {
            the_share_stays(dir, up);
        }
        assert(without_prefix(path, windows) =~= without_prefix(dir, windows) + seq!['/'] + up);
        components_around_a_separator(without_prefix(dir, windows), '/', up, windows);
    } else {
        assert(path[0] == '/');
        assert(without_prefix(path, windows) =~= dir + seq!['/'] + up);
        components_around_a_separator(dir, '/', up, windows);
    }
    last_separator_is(up, windows, -1);
    assert(up.skip(0) =~= up);
    assert(up.len() == 2 && seq!['.'].len() == 1);
    assert(components(up, windows) =~= seq![up]);
}

/// A name behind a directory is one step more than the directory takes, by
/// either rule; behind nothing but a slash it is one step from the root.
pub proof fn a_child_is_one_step_more(dir: Seq<char>, name: Seq<char>, windows: bool)
    requires
        !two_separators(dir + seq!['/'] + name),
        name.len() > 0,
        name != seq!['.'],
        forall|i: int| 0 <= i < name.len() ==> !separator(#[trigger] name[i], true),
    ensures
        path_steps(dir + seq!['/'] + name, windows) == path_steps(dir + seq!['/'], windows).push(
            PathStep::Component(name),
        ),
        path_steps(seq!['/'], windows) == seq![PathStep::Root],
{
    let path = dir + seq!['/'] + name;
    let short = dir + seq!['/'];
    let none = Seq::<char>::empty();
    let d = without_prefix(dir, windows);
    if dir.len() > 0 {
        assert(path[0] == dir[0] && short[0] == dir[0]);
        assert(dir.len() >= 2 ==> path[1] == dir[1] && short[1] == dir[1]);
        assert(dir.len() == 1 ==> path[1] == '/' && short[1] == '/');
    } else {
        assert(path[0] == '/' && short[0] == '/');
    }
    let w = without_prefix(path, windows);
    let v = without_prefix(short, windows);
    assert(w =~= d + seq!['/'] + name);
    assert(v =~= d + seq!['/'] + none);
    components_around_a_separator(d, '/', name, windows);
    components_around_a_separator(d, '/', none, windows);
    slashes_have_no_components(none, windows);
    last_separator_is(name, windows, -1);
    assert(name.skip(0) =~= name);
    assert(components(name, windows) =~= seq![name]);
    assert(w[0] == v[0]);
    if d.len() > 0 {
        assert(w[1] == v[1]);
    }
    assert(path_start(path, windows) =~= path_start(short, windows));
    assert(components(w, windows) =~= components(v, windows).push(name));
    assert(path_steps(path, windows) =~= path_steps(short, windows).push(
        PathStep::Component(name),
    ));
    slashes_have_no_components(seq!['/'], windows);
    assert(path_steps(seq!['/'], windows) =~= seq![PathStep::Root]);
}

/// Two directories beside each other do not lie under one another, even where
/// the name of one starts with that of the other.
pub proof fn a_sibling_does_not_lie_under(
    dir: Seq<char>,
    name: Seq<char>,
    other: Seq<char>,
    under: bool,
)
    requires
        !two_separators(dir + seq!['/'] + name),
        !two_separators(dir + seq!['/'] + other),
        name != other,
        name.len() > 0 && other.len() > 0,
        name != seq!['.'] && other != seq!['.'],
        forall|i: int| 0 <= i < name.len() ==> !separator(#[trigger] name[i], true),
        forall|i: int| 0 <= i < other.len() ==> !separator(#[trigger] other[i], true),
        lies_under(dir + seq!['/'] + other, dir + seq!['/'] + name, under),
    ensures
        !under,
{
    let path = dir + seq!['/'] + other;
    let base = dir + seq!['/'] + name;
    siblings_differ(dir, name, other, false);
    siblings_differ(dir, name, other, true);
    if dir.len() > 0 {
        assert(path[0] == dir[0] && base[0] == dir[0]);
    } else {
        assert(path[0] == '/' && base[0] == '/');
    }
    assert(path != base) by {
        if path == base {
            assert(path.skip(dir.len() as int + 1) =~= other);
            assert(base.skip(dir.len() as int + 1) =~= name);
        }
    }
}

proof fn siblings_differ(dir: Seq<char>, name: Seq<char>, other: Seq<char>, windows: bool)
    requires
        !two_separators(dir + seq!['/'] + name),
        !two_separators(dir + seq!['/'] + other),
        name != other,
        name.len() > 0 && other.len() > 0,
        name != seq!['.'] && other != seq!['.'],
        forall|i: int| 0 <= i < name.len() ==> !separator(#[trigger] name[i], true),
        forall|i: int| 0 <= i < other.len() ==> !separator(#[trigger] other[i], true),
    ensures
        !continues(dir + seq!['/'] + other, dir + seq!['/'] + name, windows),
{
    a_child_is_one_step_more(dir, name, windows);
    a_child_is_one_step_more(dir, other, windows);
    let bs = path_steps(dir + seq!['/'] + name, windows);
    let ps = path_steps(dir + seq!['/'] + other, windows);
    if bs.is_prefix_of(ps) {
        assert(bs =~= ps);
        assert(bs.last() == ps.last());
    }
}

/// Where the two rules agree on the steps of two paths, a path lies under a
/// base exactly when it takes the steps of the base and perhaps more.
pub proof fn a_path_lies_under_its_first_steps(path: Seq<char>, base: Seq<char>, under: bool)
    requires
        !two_separators(path),
        !two_separators(base),
        !(has_drive(path) && has_drive(base)),
        path_steps(path, false) == path_steps(path, true),
        path_steps(base, false) == path_steps(base, true),
        lies_under(path, base, under),
    ensures
        under <==> ({
            let steps = path_steps(path, false);
            let first = path_steps(base, false);
            &&& first.len() <= steps.len()
            &&& forall|i: int| 0 <= i < first.len() ==> steps[i] == #[trigger] first[i]
        }),
{
    let steps = path_steps(path, false);
    let first = path_steps(base, false);
    if under {
        assert(first =~= steps.subrange(0, first.len() as int));
        assert forall|i: int| 0 <= i < first.len() implies steps[i] == #[trigger] first[i] by {
            assert(steps.subrange(0, first.len() as int)[i] == steps[i]);
        }
    } else if first.len() <= steps.len() && (forall|i: int|
        0 <= i < first.len() ==> steps[i] == #[trigger] first[i]) {
        assert(first =~= steps.subrange(0, first.len() as int));
    }
}

/// Neither nothing nor the root has a name.
pub proof fn the_root_has_no_name(name: Option<Seq<char>>, of_nothing: Option<Seq<char>>)
    requires
        last_component(seq!['/'], name),
        last_component(Seq::<char>::empty(), of_nothing),
    ensures
        name is None,
        of_nothing is None,
{
    slashes_have_no_components(seq!['/'], false);
    slashes_have_no_components(seq!['/'], true);
    slashes_have_no_components(Seq::empty(), false);
    slashes_have_no_components(Seq::empty(), true);
}

/// A path of Windows without a slash is named by what is behind its last
/// backslash, or, where backslashes do not count, by the whole of it.
pub proof fn a_path_of_windows_is_named(
    dir: Seq<char>,
    file: Seq<char>,
    name: Option<Seq<char>>,
)
    requires
        dir.len() > 0,
        file.len() > 0,
        file != seq!['.'],
        file != seq!['.', '.'],
        forall|i: int| 0 <= i < dir.len() ==> #[trigger] dir[i] != '/',
        forall|i: int| 0 <= i < file.len() ==> !separator(#[trigger] file[i], true),
        !two_separators(dir + seq!['\\'] + file),
        last_component(dir + seq!['\\'] + file, name),
    ensures
        name == Some(file) || name == Some(dir + seq!['\\'] + file),
{
    let path = dir + seq!['\\'] + file;
    assert forall|j: int| 0 <= j < path.len() implies #[trigger] path[j] != '/' by {
        if j < dir.len() {
            assert(path[j] == dir[j]);
        } else if j > dir.len() {
            assert(!separator(file[j - dir.len() - 1], true));
        }
    }
    assert(path[dir.len() as int] == '\\');
    without_slashes(path, dir.len() as int);
    behind_the_last_backslash(dir, file);
}

proof fn without_slashes(path: Seq<char>, i: int)
    requires
        0 <= i < path.len(),
        path[i] == '\\',
        forall|j: int| 0 <= j < path.len() ==> #[trigger] path[j] != '/',
    ensures
        last_part(path, false) == Some(path),
{
    last_separator_is(path, false, -1);
    assert(path.skip(0) =~= path);
    assert(path != seq!['.'] && path != seq!['.', '.']) by {
        if path == seq!['.'] {
            assert(seq!['.'][i] == '.');
        }
        if path == seq!['.', '.'] {
            assert(seq!['.', '.'][i] == '.');
        }
    }
    assert(components(path, false) =~= seq![path]);
}

proof fn behind_the_last_backslash(dir: Seq<char>, file: Seq<char>)
    requires
        dir.len() > 0,
        file.len() > 0,
        file != seq!['.'],
        file != seq!['.', '.'],
        forall|i: int| 0 <= i < file.len() ==> !separator(#[trigger] file[i], true),
        !two_separators(dir + seq!['\\'] + file),
    ensures
        last_part(dir + seq!['\\'] + file, true) == Some(file),
{
    let path = dir + seq!['\\'] + file;
    assert(path[0] == dir[0]);
    assert(dir.len() >= 2 ==> path[1] == dir[1]);
    assert(dir.len() == 1 ==> path[1] == '\\');
    let d = without_prefix(dir, true);
    assert(without_prefix(path, true) =~= d + seq!['\\'] + file);
    components_around_a_separator(d, '\\', file, true);
    last_separator_is(file, true, -1);
    assert(file.skip(0) =~= file);
    assert(components(file, true) =~= seq![file]);
}

/// Between a directory and a name behind it stands one separator, or none where
/// the directory is empty or ends with a slash.
pub proof fn what_stands_between(dir: Seq<char>, name: Seq<char>, path: Seq<char>)
    requires
        joined(dir, name, path),
        name.len() > 0,
        !separator(name[0], true),
        !has_drive(name),
        !marked(dir),
        !(has_drive(dir) && dir.len() == 2),
    ensures
        dir.len() == 0 || dir.last() == '/' ==> path == dir + name,
        dir.len() > 0 && dir.last() != '/' && dir.last() != '\\' ==> path == dir + seq!['/'] + name
            || path == dir + seq!['\\'] + name,
{
}

/// A path without a separator and without a drive is its own name.
pub proof fn a_bare_name_is_its_own_name(file: Seq<char>, name: Option<Seq<char>>)
    requires
        file.len() > 0,
        file != seq!['.'],
        file != seq!['.', '.'],
        forall|i: int| 0 <= i < file.len() ==> !separator(#[trigger] file[i], true),
        !has_drive(file),
        last_component(file, name),
    ensures
        name == Some(file),
{
    assert(!separator(file[0], true));
    last_separator_is(file, false, -1);
    last_separator_is(file, true, -1);
    assert(file.skip(0) =~= file);
    assert(components(file, false) =~= seq![file]);
    assert(components(file, true) =~= seq![file]);
}

} // verus!
