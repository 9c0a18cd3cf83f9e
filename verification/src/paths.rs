//! Where the files of an archive go: joined paths, names that stay inside
//! their directory, directory markers and file extensions, all on
//! `/`-separated text.

use crate::text::chars_of;
use vstd::prelude::*;

verus! {

/// The path of `name` under `base`: the name put behind the base, with one
/// `/` between the two unless the base is empty or ends with one. The name
/// never takes the place of the base.
pub open spec fn joined(base: Seq<char>, name: Seq<char>) -> Seq<char> {
    if base.len() == 0 || base.last() == '/' {
        base + name
    } else {
        base + seq!['/'] + name
    }
}

/// The path of `name` under `base`.
pub fn join(base: &str, name: &str) -> (path: String)
    ensures
        path@ == joined(base@, name@),
{
    let head: Vec<char> = chars_of(base);
    if head.len() == 0 || head[head.len() - 1] == '/' {
        let mut path: String = base.to_owned();
        path.append(name);
        path
    } else {
        proof {
            reveal_strlit("/");
        }
        let mut path: String = base.to_owned();
        path.append("/");
        path.append(name);
        assert(path@ =~= base@ + seq!['/'] + name@);
        path
    }
}

/// How one segment of a path moves the place that the path names: `..`
/// climbs one directory up, an empty segment and `.` stay, and any other
/// segment goes one directory down.
pub open spec fn segment_step(segment: Seq<char>) -> int {
    if segment == seq!['.', '.'] {
        -1
    } else if segment.len() == 0 || segment == seq!['.'] {
        0
    } else {
        1
    }
}

/// Whether the rest of `name` stays at or below the directory it starts
/// from, where the segment that began at `start` is read up to `at` and the
/// segments before it have led `depth` directories down.
pub open spec fn stays_inside_from(name: Seq<char>, start: int, at: int, depth: int) -> bool
    decreases name.len() - at,
{
    if at >= name.len() {
        depth + segment_step(name.subrange(start, name.len() as int)) >= 0
    } else if name[at] == '/' {
        let below = depth + segment_step(name.subrange(start, at));
        below >= 0 && stays_inside_from(name, at + 1, at + 1, below)
    } else {
        stays_inside_from(name, start, at + 1, depth)
    }
}

/// Whether a name, read segment by segment, never leaves the directory it
/// is put under: it does not start with `/`, and at no segment has it
/// climbed more directories up than it went down.
pub open spec fn stays_inside(name: Seq<char>) -> bool {
    !(name.len() > 0 && name[0] == '/') && stays_inside_from(name, 0, 0, 0)
}

/// Whether `path` lies under `directory`: it is the directory joined with a
/// name that stays inside.
pub open spec fn lies_under(path: Seq<char>, directory: Seq<char>) -> bool {
    exists|name: Seq<char>| stays_inside(name) && path == #[trigger] joined(directory, name)
}

/// How a segment moves the place that a path names.
#[derive(Clone, Copy, PartialEq, Eq)]
enum Step {
    Up,
    Stay,
    Down,
}

/// How the segment of `chars` from `start` to `end` moves the place.
fn step_of_segment(chars: &Vec<char>, start: usize, end: usize) -> (step: Step)
    requires
        start <= end <= chars.len(),
    ensures
        segment_step(chars@.subrange(start as int, end as int)) == match step {
            Step::Up => -1int,
            Step::Stay => 0int,
            Step::Down => 1int,
        },
{
    let ghost segment = chars@.subrange(start as int, end as int);
    let length: usize = end - start;
    proof {
        let up = seq!['.', '.'];
        let stay = seq!['.'];
        assert(up.len() == 2 && up[0] == '.' && up[1] == '.');
        assert(stay.len() == 1 && stay[0] == '.');
        assert(segment.len() == length);
        if length >= 1 {
            assert(segment[0] == chars@[start as int]);
        }
        if length >= 2 {
            assert(segment[1] == chars@[start + 1]);
        }
    }
    if length == 0 {
        Step::Stay
    } else if length == 1 {
        if chars[start] == '.' {
            assert(segment =~= seq!['.']);
            Step::Stay
        } else {
            assert(segment[0] != '.');
            Step::Down
        }
    } else if length == 2 && chars[start] == '.' && chars[start + 1] == '.' {
        assert(segment =~= seq!['.', '.']);
        Step::Up
    } else {
        if length == 2 {
            assert(segment[0] != '.' || segment[1] != '.');
        }
        Step::Down
    }
}

/// Whether `name` stays inside the directory it is put under.
pub fn is_contained(name: &str) -> (yes: bool)
    ensures
        yes == stays_inside(name@),
{
    let chars: Vec<char> = chars_of(name);
    if chars.len() > 0 && chars[0] == '/' {
        return false;
    }
    let mut depth: usize = 0;
    let mut start: usize = 0;
    let mut at: usize = 0;
    while at < chars.len()
        invariant
            chars@ == name@,
            start <= at <= chars.len(),
            depth <= at,
            stays_inside_from(name@, 0, 0, 0) == stays_inside_from(
                name@,
                start as int,
                at as int,
                depth as int,
            ),
        decreases chars.len() - at,
    {
        if chars[at] == '/' {
            match step_of_segment(&chars, start, at) {
                Step::Up => {
                    if depth == 0 {
                        return false;
                    }
                    depth -= 1;
                },
                Step::Stay => {},
                Step::Down => {
                    depth += 1;
                },
            }
            start = at + 1;
        }
        at += 1;
    }
    match step_of_segment(&chars, start, at) {
        Step::Up => depth > 0,
        _ => true,
    }
}

/// A path made of a directory and a name that stays inside begins with the
/// directory and goes on with the name.
pub proof fn lemma_contained_path_begins_with_directory(directory: Seq<char>, name: Seq<char>)
    requires
        stays_inside(name),
    ensures
        lies_under(joined(directory, name), directory),
        directory.is_prefix_of(joined(directory, name)),
        name.is_suffix_of(joined(directory, name)),
{
    let path = joined(directory, name);
    assert(path.subrange(0, directory.len() as int) =~= directory);
    assert(path.subrange(path.len() - name.len(), path.len() as int) =~= name);
}

/// A name that starts with `/`, or whose first segment is `..`, does not
/// stay inside.
pub proof fn lemma_escaping_names_are_refused(name: Seq<char>)
    requires
        name.len() > 0,
        name[0] == '/' || (name.len() >= 2 && name[0] == '.' && name[1] == '.' && (name.len() == 2
            || name[2] == '/')),
    ensures
        !stays_inside(name),
{
    if name[0] != '/' {
        reveal_with_fuel(stays_inside_from, 4);
        if name.len() == 2 {
            assert(name.subrange(0, 2) =~= seq!['.', '.']);
        } else {
            assert(name.subrange(0, 2) =~= seq!['.', '.']);
        }
    }
}

/// Whether the last `/` of `path` stands at `slash`.
pub open spec fn is_last_slash(path: Seq<char>, slash: int) -> bool {
    &&& 0 <= slash < path.len()
    &&& path[slash] == '/'
    &&& forall|j: int| slash < j < path.len() ==> path[j] != '/'
}

/// The directory that holds `path`: what stands before its last `/`, or
/// `/` where nothing stands before it. A path without `/` names no
/// directory.
pub open spec fn directory(path: Seq<char>) -> Option<Seq<char>> {
    if exists|slash: int| is_last_slash(path, slash) {
        let slash = choose|slash: int| is_last_slash(path, slash);
        if slash == 0 {
            Some(seq!['/'])
        } else {
            Some(path.subrange(0, slash))
        }
    } else {
        None
    }
}

/// The directory that holds `path`, which is to exist before a file is
/// written at `path`.
pub fn directory_of(path: &str) -> (found: Option<String>)
    ensures
        match found {
            Some(text) => directory(path@) == Some(text@),
            None => directory(path@) is None,
        },
{
    let chars: Vec<char> = chars_of(path);
    let mut i: usize = chars.len();
    while i > 0
        invariant
            chars@ == path@,
            i <= chars.len(),
            forall|j: int| i <= j < chars.len() ==> chars@[j] != '/',
        decreases i,
    {
        if chars[i - 1] == '/' {
            let slash: usize = i - 1;
            assert(is_last_slash(path@, slash as int));
            proof {
                let chosen = choose|s: int| is_last_slash(path@, s);
                if chosen < slash {
                    assert(path@[slash as int] != '/');
                } else if slash < chosen {
                    assert(path@[chosen] != '/');
                }
                reveal_strlit("/");
            }
            if slash == 0 {
                let root: String = "/".to_owned();
                assert(root@ =~= seq!['/']);
                return Some(root);
            }
            return Some(path.substring_char(0, slash).to_owned());
        }
        i -= 1;
    }
    assert forall|slash: int| !is_last_slash(path@, slash) by {}
    None
}

/// Whether an entry name marks a directory: it ends with `/`.
pub open spec fn marks_directory(name: Seq<char>) -> bool {
    name.len() > 0 && name.last() == '/'
}

/// Whether the entry called `name` marks a directory.
pub fn is_directory_marker(name: &str) -> (yes: bool)
    ensures
        yes == marks_directory(name@),
{
    let chars: Vec<char> = chars_of(name);
    chars.len() > 0 && chars[chars.len() - 1] == '/'
}

/// Whether the extension of `name` starts behind position `dot`: a dot
/// stands there, no dot and no `/` follows it, and it is not the first
/// character of the last segment of the path.
pub open spec fn is_extension_dot(name: Seq<char>, dot: int) -> bool {
    &&& 0 < dot < name.len()
    &&& name[dot] == '.'
    &&& name[dot - 1] != '/'
    &&& forall|j: int| dot < j < name.len() ==> name[j] != '.' && name[j] != '/'
}

/// The extension of a path: what follows the last dot of its last segment,
/// where that dot is not the first character of the segment.
pub open spec fn extension(name: Seq<char>) -> Option<Seq<char>> {
    if exists|dot: int| is_extension_dot(name, dot) {
        let dot = choose|dot: int| is_extension_dot(name, dot);
        Some(name.subrange(dot + 1, name.len() as int))
    } else {
        None
    }
}

/// A path has at most one place where its extension starts.
pub proof fn lemma_extension_dot_is_unique(name: Seq<char>, a: int, b: int)
    requires
        is_extension_dot(name, a),
        is_extension_dot(name, b),
    ensures
        a == b,
{
    if a < b {
        assert(name[b] != '.');
    } else if b < a {
        assert(name[a] != '.');
    }
}

/// A path with an extension is what stands before the dot, the dot, and the
/// extension, and the extension holds neither a dot nor a `/`.
pub proof fn lemma_extension_splits_name(name: Seq<char>)
    requires
        extension(name) is Some,
    ensures
        ({
            let ext = extension(name)->0;
            &&& ext.len() < name.len()
            &&& name == name.subrange(0, name.len() - ext.len() - 1) + seq!['.'] + ext
            &&& forall|i: int| 0 <= i < ext.len() ==> ext[i] != '.' && ext[i] != '/'
        }),
{
    let dot = choose|dot: int| is_extension_dot(name, dot);
    let ext = extension(name)->0;
    assert(ext.len() == name.len() - dot - 1);
    assert(name =~= name.subrange(0, dot) + seq!['.'] + ext);
    assert forall|i: int| 0 <= i < ext.len() implies ext[i] != '.' && ext[i] != '/' by {
        assert(ext[i] == name[dot + 1 + i]);
    }
}

/// The extension of the path `name`, if it has one.
pub fn extension_of(name: &str) -> (found: Option<String>)
    ensures
        match found {
            Some(ext) => extension(name@) == Some(ext@),
            None => extension(name@) is None,
        },
{
    let chars: Vec<char> = chars_of(name);
    let length: usize = chars.len();
    let mut i: usize = length;
    while i > 0
        invariant
            chars@ == name@,
            length == chars.len(),
            i <= length,
            forall|j: int| i <= j < length ==> chars@[j] != '.' && chars@[j] != '/',
        decreases i,
    {
        let c: char = chars[i - 1];
        if c == '/' {
            assert forall|dot: int| !is_extension_dot(name@, dot) by {
                if is_extension_dot(name@, dot) && dot < i - 1 {
                    assert(name@[i - 1] != '/');
                }
            }
            return None;
        }
        if c == '.' {
            let dot: usize = i - 1;
            if dot > 0 && chars[dot - 1] != '/' {
                assert(is_extension_dot(name@, dot as int));
                proof {
                    let chosen = choose|d: int| is_extension_dot(name@, d);
                    lemma_extension_dot_is_unique(name@, chosen, dot as int);
                }
                let ext: String = name.substring_char(dot + 1, length).to_owned();
                return Some(ext);
            }
            assert forall|d: int| !is_extension_dot(name@, d) by {
                if is_extension_dot(name@, d) && d < dot {
                    assert(name@[dot as int] != '.');
                }
            }
            return None;
        }
        i -= 1;
    }
    assert forall|dot: int| !is_extension_dot(name@, dot) by {}
    None
}

} // verus!
