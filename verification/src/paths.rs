//! Paths on disk: where a download goes below its base directory, whether it stays there, and the
//! name it has until it is complete.
use crate::text::{
    char_views, chars_of, dots_at, has_dots, law_slashes_part_segments, lemma_segment_end_stops, segment_end, segments,
    split_segments, text_between,
};
use crate::validate::path_refusal;
#[allow(unused_imports)]
use vstd::string::StringExecFns;
use vstd::prelude::*;
use vstd::utf8::encode_utf8;

verus! {

/// One part of a path, as the platform takes it apart.
#[derive(Debug)]
pub enum PathPart {
    /// A drive or share on Windows.
    Prefix(String),
    /// The root directory.
    Root,
    /// A leading `.`
    Current,
    /// `..`
    Parent,
    /// A name.
    Name(String),
}

/// What a part of a path says.
pub enum PartView {
    Prefix(Seq<char>),
    Root,
    Current,
    Parent,
    Name(Seq<char>),
}

impl View for PathPart {
    type V = PartView;

    open spec fn view(&self) -> PartView {
        match self {
            PathPart::Prefix(text) => PartView::Prefix(text@),
            PathPart::Root => PartView::Root,
            PathPart::Current => PartView::Current,
            PathPart::Parent => PartView::Parent,
            PathPart::Name(text) => PartView::Name(text@),
        }
    }
}

/// What the parts of a path say.
pub open spec fn part_views(parts: Seq<PathPart>) -> Seq<PartView> {
    parts.map_values(|part: PathPart| part@)
}

/// The same part again.
fn copy_part(part: &PathPart) -> (copy: PathPart)
    ensures
        copy@ == part@,
{
    match part {
        PathPart::Prefix(text) => PathPart::Prefix(text.clone()),
        PathPart::Root => PathPart::Root,
        PathPart::Current => PathPart::Current,
        PathPart::Parent => PathPart::Parent,
        PathPart::Name(text) => PathPart::Name(text.clone()),
    }
}

/// The first `n` parts again.
pub fn copy_parts(parts: &Vec<PathPart>, n: usize) -> (copy: Vec<PathPart>)
    requires
        n <= parts.len(),
    ensures
        part_views(copy@) == part_views(parts@).take(n as int),
{
    let mut copy: Vec<PathPart> = Vec::new();
    let mut i: usize = 0;
    while i < n
        invariant
            i <= n <= parts.len(),
            part_views(copy@) == part_views(parts@).take(i as int),
        decreases n - i,
    {
        let ghost before = copy@;
        copy.push(copy_part(&parts[i]));
        proof {
            assert(part_views(copy@) =~= part_views(before).push(parts@[i as int]@));
        }
        i += 1;
    }
    copy
}

/// A base directory: the path as it was given, and the parts that the platform takes it apart into.
#[derive(Debug)]
pub struct BasePath {
    pub text: String,
    pub parts: Vec<PathPart>,
}

/// What a base directory's path says.
#[verifier::ext_equal]
pub struct BaseView {
    pub text: Seq<char>,
    pub parts: Seq<PartView>,
}

impl View for BasePath {
    type V = BaseView;

    open spec fn view(&self) -> BaseView {
        BaseView { text: self.text@, parts: part_views(self.parts@) }
    }
}

/// The same base directory again.
pub fn copy_base(base: &BasePath) -> (copy: BasePath)
    ensures
        copy@ == base@,
{
    proof {
        assert(part_views(base.parts@).take(base.parts@.len() as int) =~= part_views(base.parts@));
    }
    BasePath { text: base.text.clone(), parts: copy_parts(&base.parts, base.parts.len()) }
}

/// Whether a segment of a relative path names something: not empty, and not `.`, which both
/// stand for the directory they are in.
pub open spec fn names_something(segment: Seq<char>) -> bool {
    segment.len() > 0 && segment != seq!['.']
}

/// The parts that the segments of a relative path add.
pub open spec fn segment_parts(segs: Seq<Seq<char>>) -> Seq<PartView>
    decreases segs.len(),
{
    if segs.len() == 0 {
        seq![]
    } else if names_something(segs.last()) {
        segment_parts(segs.drop_last()).push(PartView::Name(segs.last()))
    } else {
        segment_parts(segs.drop_last())
    }
}

/// The path that a plain relative path leads to from a base directory.
pub open spec fn joined(base: Seq<PartView>, path: Seq<char>) -> Seq<PartView> {
    base + segment_parts(segments(path))
}

/// Follows a plain relative path from a base directory.
pub fn join(base: &Vec<PathPart>, path: &str) -> (target: Vec<PathPart>)
    requires
        path_refusal(path@) is None,
    ensures
        part_views(target@) == joined(part_views(base@), path@),
{
    let segs: Vec<Vec<char>> = split_segments(&chars_of(path));
    let ghost views = segments(path@);
    let mut target: Vec<PathPart> = copy_parts(base, base.len());
    let mut i: usize = 0;
    proof {
        assert(part_views(base@).take(base@.len() as int) =~= part_views(base@));
        assert(part_views(target@) =~= part_views(base@) + segment_parts(views.take(0)));
    }
    while i < segs.len()
        invariant
            i <= segs.len(),
            views == char_views(segs@),
            part_views(target@) == part_views(base@) + segment_parts(views.take(i as int)),
        decreases segs.len() - i,
    {
        let seg: &Vec<char> = &segs[i];
        let ghost before = target@;
        proof {
            assert(views[i as int] == seg@);
            assert(views.take(i + 1).drop_last() =~= views.take(i as int));
            assert(views.take(i + 1).last() == seg@);
        }
        let dot: bool = seg.len() == 1 && seg[0] == '.';
        assert(dot == (seg@ =~= seq!['.']));
        if seg.len() > 0 && !dot {
            target.push(PathPart::Name(text_between(seg, 0, seg.len())));
            proof {
                assert(seg@.subrange(0, seg@.len() as int) =~= seg@);
                assert(part_views(target@) =~= part_views(before).push(PartView::Name(seg@)));
                assert(part_views(target@) =~= part_views(base@) + segment_parts(
                    views.take(i + 1),
                ));
            }
        }
        i += 1;
    }
    proof {
        assert(views.take(views.len() as int) =~= views);
    }
    target
}

pub(crate) proof fn lemma_segment_of(path: Seq<char>, k: int, c: char)
    requires
        0 <= k < segments(path).len(),
    ensures
        !segments(path)[k].contains('/'),
        has_dots(segments(path)[k]) ==> has_dots(path),
        segments(path)[k].contains(c) ==> path.contains(c),
    decreases path.len(),
{
    lemma_segment_end_stops(path);
    let e = segment_end(path) as int;
    let seg = segments(path)[k];
    if e >= path.len() || k == 0 {
        assert(seg =~= path.take(e));
        if has_dots(seg) {
            let i = choose|i: int| dots_at(seg, i);
            assert(dots_at(path, i));
        }
        if seg.contains(c) {
            let i = choose|i: int| 0 <= i < seg.len() && seg[i] == c;
            assert(path[i] == c);
        }
    } else {
        let rest = path.skip(e + 1);
        assert(seg == segments(rest)[k - 1]);
        lemma_segment_of(rest, k - 1, c);
        if has_dots(seg) {
            let i = choose|i: int| dots_at(rest, i);
            assert(dots_at(path, e + 1 + i));
        }
        if seg.contains(c) {
            let i = choose|i: int| 0 <= i < rest.len() && rest[i] == c;
            assert(path[e + 1 + i] == c);
        }
    }
}

/// Whether a name stands for one entry of a directory, on any platform: it is not empty, holds
/// nothing that separates parts or marks a drive, and is neither `.` nor `..`.
pub open spec fn plain_name(name: Seq<char>) -> bool {
    name.len() > 0 && name != seq!['.'] && !has_dots(name) && !name.contains('/')
        && !name.contains('\\') && !name.contains(':')
}

proof fn lemma_segment_parts(path: Seq<char>, n: int, i: int)
    requires
        path_refusal(path) is None,
        0 <= n <= segments(path).len(),
        0 <= i < segment_parts(segments(path).take(n)).len(),
    ensures
        segment_parts(segments(path).take(n))[i] is Name,
        plain_name(segment_parts(segments(path).take(n))[i]->Name_0),
    decreases n,
{
    let segs = segments(path).take(n);
    assert(segs.drop_last() =~= segments(path).take(n - 1));
    lemma_segment_of(path, n - 1, '\\');
    lemma_segment_of(path, n - 1, ':');
    if i < segment_parts(segs.drop_last()).len() {
        lemma_segment_parts(path, n - 1, i);
    }
}

/// A path that passes the check leads from the base directory downwards only: it keeps every part
/// of the base and adds plain names behind them.
pub proof fn law_join_stays_below_base(base: Seq<PartView>, path: Seq<char>)
    requires
        path_refusal(path) is None,
    ensures
        base.is_prefix_of(joined(base, path)),
        forall|i: int|
            base.len() <= i < joined(base, path).len() ==> (#[trigger] joined(base, path)[i]) is Name
                && plain_name(joined(base, path)[i]->Name_0),
{
    let target = joined(base, path);
    let n = segments(path).len() as int;
    assert(segments(path).take(n) =~= segments(path));
    assert(target.take(base.len() as int) =~= base);
    assert forall|i: int| base.len() <= i < target.len() implies (#[trigger] target[i]) is Name
        && plain_name(target[i]->Name_0) by {
        lemma_segment_parts(path, n, i - base.len());
    }
}

/// The directory that a path lies in, if it lies in one.
pub open spec fn parent_of(parts: Seq<PartView>) -> Option<Seq<PartView>> {
    if parts.len() > 0 && (parts.last() is Name || parts.last() is Current
        || parts.last() is Parent) {
        Some(parts.drop_last())
    } else {
        None
    }
}

/// The directory that a path lies in, if it lies in one.
pub fn parent(parts: &Vec<PathPart>) -> (dir: Option<Vec<PathPart>>)
    ensures
        match dir {
            Some(d) => parent_of(part_views(parts@)) == Some(part_views(d@)),
            None => parent_of(part_views(parts@)) is None,
        },
{
    let n: usize = parts.len();
    if n == 0 {
        return None;
    }
    proof {
        assert(part_views(parts@).last() == parts@[n - 1]@);
        assert(part_views(parts@).take(n - 1) =~= part_views(parts@).drop_last());
    }
    match &parts[n - 1] {
        PathPart::Name(_) | PathPart::Current | PathPart::Parent => Some(copy_parts(parts, n - 1)),
        PathPart::Root | PathPart::Prefix(_) => None,
    }
}

/// The name that a path ends in, if it ends in one.
pub open spec fn name_of(parts: Seq<PartView>) -> Option<Seq<char>> {
    if parts.len() > 0 {
        match parts.last() {
            PartView::Name(name) => Some(name),
            _ => None,
        }
    } else {
        None
    }
}

/// The name that a path ends in, if it ends in one.
pub fn file_name(parts: &Vec<PathPart>) -> (name: Option<String>)
    ensures
        match name {
            Some(n) => name_of(part_views(parts@)) == Some(n@),
            None => name_of(part_views(parts@)) is None,
        },
{
    let n: usize = parts.len();
    if n == 0 {
        return None;
    }
    proof {
        assert(part_views(parts@).last() == parts@[n - 1]@);
    }
    match &parts[n - 1] {
        PathPart::Name(name) => Some(name.clone()),
        _ => None,
    }
}

/// A checked path that names anything leads to a file with a plain name, in the base directory or
/// in one below it.
pub proof fn law_named_paths_have_a_place(base: Seq<PartView>, path: Seq<char>)
    requires
        path_refusal(path) is None,
        exists|i: int| 0 <= i < segments(path).len() && names_something(#[trigger] segments(path)[i]),
    ensures
        parent_of(joined(base, path)) is Some,
        base.is_prefix_of(parent_of(joined(base, path))->0),
        name_of(joined(base, path)) is Some,
        plain_name(name_of(joined(base, path))->0),
{
    let target = joined(base, path);
    let i = choose|i: int|
        0 <= i < segments(path).len() && names_something(#[trigger] segments(path)[i]);
    lemma_named_segment_adds_part(segments(path), i);
    law_join_stays_below_base(base, path);
    assert(target[target.len() - 1] is Name);
    assert(target.drop_last().take(base.len() as int) =~= base);
}

proof fn lemma_named_segment_adds_part(segs: Seq<Seq<char>>, i: int)
    requires
        0 <= i < segs.len(),
        names_something(segs[i]),
    ensures
        segment_parts(segs).len() > 0,
    decreases segs.len(),
{
    if i < segs.len() - 1 {
        lemma_named_segment_adds_part(segs.drop_last(), i);
    }
}

/// The bytes of each part of a resolved path.
pub open spec fn byte_views(parts: Seq<Vec<u8>>) -> Seq<Seq<u8>> {
    parts.map_values(|part: Vec<u8>| part@)
}

/// A file of this name in a resolved directory.
pub open spec fn entry_of(dir: Seq<Seq<u8>>, name: Seq<char>) -> Seq<Seq<u8>> {
    dir.push(encode_utf8(name))
}

/// Whether a resolved path is the base directory or lies below it. Whole parts are compared: `/a/bc`
/// does not lie below `/a/b`.
pub open spec fn within(base: Seq<Seq<u8>>, path: Seq<Seq<u8>>) -> bool {
    base.is_prefix_of(path)
}

fn same_bytes(a: &Vec<u8>, b: &[u8]) -> (same: bool)
    ensures
        same == (a@ == b@),
{
    if a.len() != b.len() {
        return false;
    }
    let mut i: usize = 0;
    while i < a.len()
        invariant
            i <= a.len(),
            a@.len() == b@.len(),
            forall|j: int| 0 <= j < i ==> a@[j] == b@[j],
        decreases a.len() - i,
    {
        if a[i] != b[i] {
            return false;
        }
        i += 1;
    }
    assert(a@ =~= b@);
    true
}

/// Whether a resolved path is the base directory or lies below it.
pub fn path_within(base: &Vec<Vec<u8>>, path: &Vec<Vec<u8>>) -> (yes: bool)
    ensures
        yes == within(byte_views(base@), byte_views(path@)),
{
    let ghost b = byte_views(base@);
    let ghost p = byte_views(path@);
    if base.len() > path.len() {
        return false;
    }
    let mut i: usize = 0;
    while i < base.len()
        invariant
            i <= base.len() <= path.len(),
            b == byte_views(base@),
            p == byte_views(path@),
            forall|j: int| 0 <= j < i ==> b[j] == p[j],
        decreases base.len() - i,
    {
        assert(b[i as int] == base@[i as int]@);
        assert(p[i as int] == path@[i as int]@);
        if !same_bytes(&base[i], path[i].as_slice()) {
            assert(p.take(b.len() as int)[i as int] != b[i as int]);
            return false;
        }
        i += 1;
    }
    assert(b =~= p.take(b.len() as int));
    true
}

/// An entry of a directory lies within the base directory exactly if its directory does, or if the
/// entry is the base directory itself.
pub proof fn law_entries_lie_where_their_directory_lies(
    base: Seq<Seq<u8>>,
    dir: Seq<Seq<u8>>,
    name: Seq<char>,
)
    ensures
        within(base, entry_of(dir, name)) <==> within(base, dir) || entry_of(dir, name) == base,
{
    let path = entry_of(dir, name);
    let n = base.len() as int;
    if n <= dir.len() {
        assert(path.take(n) =~= dir.take(n));
    } else if n == path.len() {
        assert(path.take(n) =~= path);
    }
}

/// Whether a file of this name in a resolved directory lies within the resolved base directory.
pub fn entry_within(base: &Vec<Vec<u8>>, dir: &Vec<Vec<u8>>, name: &str) -> (yes: bool)
    ensures
        yes == within(byte_views(base@), entry_of(byte_views(dir@), name@)),
{
    let ghost b = byte_views(base@);
    let ghost d = byte_views(dir@);
    proof {
        law_entries_lie_where_their_directory_lies(b, d, name@);
    }
    if path_within(base, dir) {
        return true;
    }
    let n: usize = dir.len();
    if base.len() <= n || base.len() - n != 1 || !path_within(dir, base) {
        proof {
            assert(b == entry_of(d, name@) ==> b.take(n as int) =~= d);
        }
        return false;
    }
    let same: bool = same_bytes(&base[n], name.as_bytes());
    proof {
        assert(b.take(n as int) == d);
        assert(b[n as int] == base@[n as int]@);
        assert(same ==> b =~= entry_of(d, name@));
    }
    same
}

/// The names of parts, as the bytes that a resolved path has for them.
pub open spec fn name_bytes(parts: Seq<PartView>) -> Seq<Seq<u8>> {
    parts.map_values(|part: PartView| encode_utf8(part->Name_0))
}

/// What the parts of each of several paths say.
pub open spec fn path_views(paths: Seq<Vec<PathPart>>) -> Seq<Seq<PartView>> {
    paths.map_values(|path: Vec<PathPart>| part_views(path@))
}

/// A directory and those above it, the lowest first, as far up as the one with `top` parts; where
/// the directory has no more parts than that, it alone.
pub open spec fn way_up(dir: Seq<PartView>, top: nat) -> Seq<Seq<PartView>> {
    Seq::new(
        if dir.len() > top {
            (dir.len() - top + 1) as nat
        } else {
            1
        },
        |i: int| dir.take(dir.len() - i),
    )
}

/// A directory and those above it, the lowest first, as far up as the one with `top` parts.
pub fn directories_up(dir: &Vec<PathPart>, top: usize) -> (dirs: Vec<Vec<PathPart>>)
    ensures
        path_views(dirs@) == way_up(part_views(dir@), top as nat),
{
    let ghost parts = part_views(dir@);
    let ghost way = way_up(parts, top as nat);
    let mut n: usize = dir.len();
    let mut dirs: Vec<Vec<PathPart>> = Vec::new();
    dirs.push(copy_parts(dir, n));
    assert(path_views(dirs@) =~= way.take(1));
    while n > top
        invariant
            n <= dir.len(),
            n >= top || n == dir.len(),
            parts == part_views(dir@),
            way == way_up(parts, top as nat),
            path_views(dirs@) == way.take(dir.len() - n + 1),
        decreases n,
    {
        n -= 1;
        let ghost before = dirs@;
        dirs.push(copy_parts(dir, n));
        proof {
            assert(path_views(dirs@) =~= path_views(before).push(parts.take(n as int)));
            assert(way[dir@.len() - n] == parts.take(n as int));
            assert(path_views(dirs@) =~= way.take(dir@.len() - n + 1));
        }
    }
    assert(way.take(dir@.len() - n + 1) =~= way);
    dirs
}

/// The position of the last dot of a name, or -1.
pub open spec fn last_dot(name: Seq<char>) -> int
    decreases name.len(),
{
    if name.len() == 0 {
        -1
    } else if name.last() == '.' {
        name.len() - 1
    } else {
        last_dot(name.drop_last())
    }
}

/// What stands before the extension of a name. A dot at the very beginning starts no extension.
pub open spec fn stem(name: Seq<char>) -> Seq<char> {
    if last_dot(name) > 0 {
        name.take(last_dot(name))
    } else {
        name
    }
}

/// The extension of a name; empty if it has none.
pub open spec fn extension(name: Seq<char>) -> Seq<char> {
    if last_dot(name) > 0 {
        name.skip(last_dot(name) + 1)
    } else {
        seq![]
    }
}

/// The name that a file has until it is complete: its extension is followed by `.tmp`.
pub open spec fn temp_name_of(name: Seq<char>) -> Seq<char> {
    stem(name) + "."@ + extension(name) + ".tmp"@
}

proof fn lemma_last_dot(name: Seq<char>, k: int)
    requires
        -1 <= k < name.len(),
        k >= 0 ==> name[k] == '.',
        forall|j: int| k < j < name.len() ==> name[j] != '.',
    ensures
        last_dot(name) == k,
    decreases name.len(),
{
    if name.len() > 0 && k < name.len() - 1 {
        lemma_last_dot(name.drop_last(), k);
    }
}

/// The name that a file has until it is complete.
pub fn temp_name(name: &str) -> (temp: String)
    ensures
        temp@ == temp_name_of(name@),
{
    let chars: Vec<char> = chars_of(name);
    let mut end: usize = chars.len();
    while end > 0 && chars[end - 1] != '.'
        invariant
            end <= chars.len(),
            forall|j: int| end <= j < chars.len() ==> chars@[j] != '.',
        decreases end,
    {
        end -= 1;
    }
    proof {
        lemma_last_dot(chars@, end - 1);
    }
    let n: usize = chars.len();
    let mut temp: String = String::new();
    if end > 1 {
        temp = text_between(&chars, 0, end - 1);
        temp.append(".");
        let ext: String = text_between(&chars, end, n);
        temp.append(ext.as_str());
        proof {
            assert(chars@.subrange(0, end - 1) =~= stem(chars@));
            assert(chars@.subrange(end as int, n as int) =~= extension(chars@));
        }
    } else {
        temp.append(name);
        temp.append(".");
        proof {
            assert(temp@ =~= stem(chars@) + "."@ + extension(chars@));
        }
    }
    temp.append(".tmp");
    temp
}

/// The temporary name differs from the name, ends in `.tmp`, and stands for an entry of the same
/// directory whenever the name does.
pub proof fn law_temp_name_is_another_entry(name: Seq<char>)
    ensures
        temp_name_of(name) != name,
        ".tmp"@.is_suffix_of(temp_name_of(name)),
        !name.contains('/') ==> !temp_name_of(name).contains('/'),
        !name.contains('\\') ==> !temp_name_of(name).contains('\\'),
{
    reveal_strlit(".");
    reveal_strlit(".tmp");
    let temp = temp_name_of(name);
    lemma_last_dot_in_range(name);
    assert(temp.len() > name.len());
    assert(temp.skip(temp.len() - 4) =~= ".tmp"@);
    assert forall|c: char| temp.contains(c) && c != '.' && c != 't' && c != 'm' && c
        != 'p' implies name.contains(c) by {
        let i = choose|i: int| 0 <= i < temp.len() && temp[i] == c;
        let head = stem(name).len() as int;
        let tail = extension(name).len() as int;
        if i < head {
            assert(name[i] == c);
        } else if i == head {
            assert(temp[i] == "."@[0]);
        } else if i < head + 1 + tail {
            assert(temp[i] == extension(name)[i - head - 1]);
            assert(name[i] == c);
        } else {
            assert(temp[i] == ".tmp"@[i - head - 1 - tail]);
        }
    }
}

proof fn lemma_last_dot_in_range(name: Seq<char>)
    ensures
        -1 <= last_dot(name) < name.len(),
    decreases name.len(),
{
    if name.len() > 0 {
        lemma_last_dot_in_range(name.drop_last());
    }
}

/// What is said of a part of a path is said of the whole part.
pub proof fn law_parts_are_seen_whole(text: String)
    ensures
        PathPart::Prefix(text)@ == PartView::Prefix(text@),
        PathPart::Root@ == PartView::Root,
        PathPart::Current@ == PartView::Current,
        PathPart::Parent@ == PartView::Parent,
        PathPart::Name(text)@ == PartView::Name(text@),
{
}

/// What is said of paths is said of all their parts, in order.
pub proof fn law_paths_are_seen_whole(
    base: BasePath,
    parts: Seq<PathPart>,
    paths: Seq<Vec<PathPart>>,
    resolved: Seq<Vec<u8>>,
    i: int,
)
    ensures
        base@.text == base.text@,
        base@.parts == part_views(base.parts@),
        part_views(parts).len() == parts.len(),
        0 <= i < parts.len() ==> part_views(parts)[i] == parts[i]@,
        path_views(paths).len() == paths.len(),
        0 <= i < paths.len() ==> path_views(paths)[i] == part_views(paths[i]@),
        byte_views(resolved).len() == resolved.len(),
        0 <= i < resolved.len() ==> byte_views(resolved)[i] == resolved[i]@,
{
}

proof fn lemma_segment_parts_join(a: Seq<Seq<char>>, b: Seq<Seq<char>>)
    ensures
        segment_parts(a + b) == segment_parts(a) + segment_parts(b),
    decreases b.len(),
{
    if b.len() == 0 {
        assert(a + b =~= a);
    } else {
        assert((a + b).drop_last() =~= a + b.drop_last());
        lemma_segment_parts_join(a, b.drop_last());
        assert(segment_parts(a + b) =~= segment_parts(a) + segment_parts(b));
    }
}

/// Following a path is following what stands before a slash and then, from there, what stands
/// behind it.
pub proof fn law_paths_are_followed_step_by_step(base: Seq<PartView>, a: Seq<char>, b: Seq<char>)
    ensures
        joined(base, a + seq!['/'] + b) == joined(joined(base, a), b),
{
    law_slashes_part_segments(a, b);
    lemma_segment_parts_join(segments(a), segments(b));
    assert(joined(base, a + seq!['/'] + b) =~= joined(joined(base, a), b));
}

/// One step leads to the entry of that name in the directory, except that an empty step and `.` lead
/// nowhere else.
pub proof fn law_a_step_leads_to_its_name(base: Seq<PartView>, step: Seq<char>)
    requires
        !step.contains('/'),
    ensures
        step.len() > 0 && step != seq!['.'] ==> joined(base, step) == base.push(
            PartView::Name(step),
        ),
        step.len() == 0 || step == seq!['.'] ==> joined(base, step) == base,
{
    law_slashes_part_segments(step, Seq::empty());
    assert(seq![step].drop_last() =~= Seq::<Seq<char>>::empty());
    assert(segment_parts(seq![step].drop_last()) =~= Seq::<PartView>::empty());
    if step.len() > 0 && step != seq!['.'] {
        assert(joined(base, step) =~= base.push(PartView::Name(step)));
    } else {
        assert(joined(base, step) =~= base);
    }
}

proof fn lemma_kept_segments(segs: Seq<Seq<char>>, named: spec_fn(Seq<char>) -> bool)
    requires
        forall|s: Seq<char>| #[trigger] named(s) <==> s.len() > 0 && s != seq!['.'],
    ensures
        segment_parts(segs) == segs.filter(named).map_values(|s: Seq<char>| PartView::Name(s)),
    decreases segs.len(),
{
    reveal(Seq::filter);
    if segs.len() > 0 {
        lemma_kept_segments(segs.drop_last(), named);
        assert(segment_parts(segs) =~= segs.filter(named).map_values(
            |s: Seq<char>| PartView::Name(s),
        ));
    } else {
        assert(segment_parts(segs) =~= segs.filter(named).map_values(
            |s: Seq<char>| PartView::Name(s),
        ));
    }
}

/// A path leads from the base directory through every segment that names something, in order, and
/// through nothing else.
pub proof fn law_every_named_segment_is_kept(base: Seq<PartView>, path: Seq<char>)
    ensures
        joined(base, path) == base + segments(path).filter(
            |s: Seq<char>| s.len() > 0 && s != seq!['.'],
        ).map_values(|s: Seq<char>| PartView::Name(s)),
{
    lemma_kept_segments(segments(path), |s: Seq<char>| s.len() > 0 && s != seq!['.']);
}

/// An entry of a directory lies in that directory and is called by its name. `.` and `..` lie in
/// the directory before them and are no names; a root and a drive lie in none.
pub proof fn law_entries_lie_in_their_directory(dir: Seq<PartView>, text: Seq<char>)
    ensures
        parent_of(dir.push(PartView::Name(text))) == Some(dir),
        name_of(dir.push(PartView::Name(text))) == Some(text),
        parent_of(dir.push(PartView::Current)) == Some(dir),
        name_of(dir.push(PartView::Current)) is None,
        parent_of(dir.push(PartView::Parent)) == Some(dir),
        name_of(dir.push(PartView::Parent)) is None,
        parent_of(dir.push(PartView::Root)) is None,
        name_of(dir.push(PartView::Root)) is None,
        parent_of(dir.push(PartView::Prefix(text))) is None,
        name_of(dir.push(PartView::Prefix(text))) is None,
        parent_of(Seq::empty()) is None,
        name_of(Seq::empty()) is None,
{
    assert(dir.push(PartView::Name(text)).drop_last() =~= dir);
    assert(dir.push(PartView::Current).drop_last() =~= dir);
    assert(dir.push(PartView::Parent).drop_last() =~= dir);
}

/// A resolved path lies within the base directory exactly if it is made of the base directory's
/// parts and any others behind them.
pub proof fn law_within_is_a_longer_path(
    base: Seq<Seq<u8>>,
    more: Seq<Seq<u8>>,
    path: Seq<Seq<u8>>,
)
    ensures
        within(base, base + more),
        within(base, path) ==> base.len() <= path.len() && path == base + path.skip(
            base.len() as int,
        ),
{
    assert((base + more).take(base.len() as int) =~= base);
    if within(base, path) {
        assert(path =~= base + path.skip(base.len() as int));
    }
}

/// A file of a resolved directory has the parts of the directory and the bytes of its name behind
/// them.
pub proof fn law_entries_have_their_name_behind_the_directory(
    dir: Seq<Seq<u8>>,
    name: Seq<char>,
    parts: Seq<PartView>,
    i: int,
)
    ensures
        entry_of(dir, name).drop_last() == dir,
        entry_of(dir, name).last() == encode_utf8(name),
        name_bytes(parts).len() == parts.len(),
        0 <= i < parts.len() && parts[i] is Name ==> name_bytes(parts)[i] == encode_utf8(
            parts[i]->Name_0,
        ),
{
    assert(entry_of(dir, name).drop_last() =~= dir);
}

/// The way up from an entry begins with it and goes on as the way up from its directory, as far as
/// the top, where it ends.
pub proof fn law_the_way_up_goes_through_every_directory(
    dir: Seq<PartView>,
    part: PartView,
    top: nat,
)
    ensures
        dir.len() >= top ==> way_up(dir.push(part), top) == seq![dir.push(part)] + way_up(dir, top),
        dir.len() <= top ==> way_up(dir, top) == seq![dir],
{
    if dir.len() >= top {
        let longer = dir.push(part);
        let way = way_up(longer, top);
        let rest = seq![longer] + way_up(dir, top);
        assert forall|i: int| 0 <= i < way.len() implies way[i] == rest[i] by {
            if i == 0 {
                assert(longer.take(longer.len() as int) =~= longer);
            } else {
                assert(longer.take(longer.len() - i) =~= dir.take(dir.len() - (i - 1)));
            }
        }
        assert(way =~= rest);
    }
    if dir.len() <= top {
        assert(dir.take(dir.len() as int) =~= dir);
        assert(way_up(dir, top) =~= seq![dir]);
    }
}

/// The temporary name of a name with an extension has `.tmp` behind that extension.
pub proof fn law_temp_names_keep_the_extension(front: Seq<char>, back: Seq<char>)
    requires
        front.len() > 0,
        !back.contains('.'),
    ensures
        temp_name_of(front + seq!['.'] + back) == front + seq!['.'] + back + ".tmp"@,
{
    reveal_strlit(".");
    let name = front + seq!['.'] + back;
    assert forall|j: int| front.len() < j < name.len() implies name[j] != '.' by {
        assert(back.contains(back[j - front.len() - 1]));
    }
    lemma_last_dot(name, front.len() as int);
    assert(stem(name) =~= front);
    assert(extension(name) =~= back);
    assert("."@ =~= seq!['.']);
}

/// The temporary name of a name without an extension, that is, without a dot behind its first
/// character, has an empty extension and `.tmp` behind it.
pub proof fn law_temp_names_without_extension(name: Seq<char>)
    requires
        forall|i: int| 0 < i < name.len() ==> name[i] != '.',
    ensures
        temp_name_of(name) == name + "..tmp"@,
{
    reveal_strlit(".");
    reveal_strlit(".tmp");
    reveal_strlit("..tmp");
    if name.len() > 0 && name[0] == '.' {
        lemma_last_dot(name, 0);
    } else {
        lemma_last_dot(name, -1);
    }
    assert(temp_name_of(name) =~= name + "..tmp"@);
}

} // verus!
