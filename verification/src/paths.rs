//! Paths as text, with `/` between components.
//!
//! Entry names inside archives and the paths of the workspace are read by
//! their characters alone: nothing here asks the file system.

use vstd::prelude::*;

verus! {

/// The component that names the directory above.
pub open spec fn parent_component() -> Seq<char> {
    seq!['.', '.']
}

/// The component that names the directory itself.
pub open spec fn current_component() -> Seq<char> {
    seq!['.']
}

/// The components of a path: the runs of characters between its separators,
/// in order. Two separators in a row, or one at either end, give an empty
/// component.
pub open spec fn components(s: Seq<char>) -> Seq<Seq<char>>
    decreases s.len(),
{
    if s.len() == 0 {
        seq![Seq::<char>::empty()]
    } else if s.last() == '/' {
        components(s.drop_last()).push(Seq::<char>::empty())
    } else {
        let before = components(s.drop_last());
        before.drop_last().push(before.last().push(s.last()))
    }
}

/// Whether a component of the path names the directory above.
pub open spec fn has_parent_component(s: Seq<char>) -> bool {
    components(s).contains(parent_component())
}

/// Whether the path starts at the root.
pub open spec fn is_rooted(s: Seq<char>) -> bool {
    s.len() > 0 && s[0] == '/'
}

/// Whether `c` is a letter of the basic Latin alphabet.
pub open spec fn is_letter(c: char) -> bool {
    ('a' <= c && c <= 'z') || ('A' <= c && c <= 'Z')
}

/// Whether the path starts with a drive: a letter and a colon.
pub open spec fn has_drive_prefix(s: Seq<char>) -> bool {
    s.len() >= 2 && is_letter(s[0]) && s[1] == ':'
}

/// Whether an entry of this name may be unpacked: the name is relative, has
/// no drive before it, and none of its components leads upwards.
pub open spec fn spec_is_safe_entry_path(s: Seq<char>) -> bool {
    !is_rooted(s) && !has_drive_prefix(s) && !has_parent_component(s)
}

/// The text with every `from` replaced by `/`.
pub open spec fn spec_with_separator(s: Seq<char>, from: char) -> Seq<char> {
    Seq::new(
        s.len(),
        |i: int|
            if s[i] == from {
                '/'
            } else {
                s[i]
            },
    )
}

/// `rel` below `base`. A rooted `rel` stands for itself; otherwise one
/// separator comes between the two, unless `base` is empty or ends in one.
pub open spec fn spec_join(base: Seq<char>, rel: Seq<char>) -> Seq<char> {
    if is_rooted(rel) {
        rel
    } else if base.len() == 0 || base.last() == '/' {
        base + rel
    } else {
        base + seq!['/'] + rel
    }
}

/// The length of the path without what trails it: separators at the end, and
/// components at the end that name the directory itself.
pub open spec fn trimmed_len(s: Seq<char>) -> int
    decreases s.len(),
{
    if s.len() == 0 {
        0
    } else if s.last() == '/' {
        trimmed_len(s.drop_last())
    } else if s.last() == '.' && (s.len() == 1 || s[s.len() - 2] == '/') {
        trimmed_len(s.drop_last())
    } else {
        s.len() as int
    }
}

/// Where the component that ends before `end` starts: behind the last
/// separator before `end`, or at the start of the path.
pub open spec fn component_start(s: Seq<char>, end: int) -> int
    decreases end,
{
    if end <= 0 || end > s.len() {
        0
    } else if s[end - 1] == '/' {
        end
    } else {
        component_start(s, end - 1)
    }
}

/// The file name of a path: its last component, not counting what trails
/// the path. A path that ends upwards, or with nothing but the root, has
/// none.
pub open spec fn spec_file_name(s: Seq<char>) -> Option<Seq<char>> {
    let end = trimmed_len(s);
    let name = s.subrange(component_start(s, end), end);
    if end == 0 || name == parent_component() {
        None
    } else {
        Some(name)
    }
}

/// The position of the last `.` before `end`, or -1 where there is none.
pub open spec fn last_dot(s: Seq<char>, end: int) -> int
    decreases end,
{
    if end <= 0 || end > s.len() {
        -1
    } else if s[end - 1] == '.' {
        end - 1
    } else {
        last_dot(s, end - 1)
    }
}

/// The stem of a file name: what stands before its last `.`, and the whole
/// name where it has none or only begins with one.
pub open spec fn spec_stem(name: Seq<char>) -> Seq<char> {
    let dot = last_dot(name, name.len() as int);
    if dot <= 0 {
        name
    } else {
        name.subrange(0, dot)
    }
}

/// The stem of the file name of a path.
pub open spec fn spec_file_stem(s: Seq<char>) -> Option<Seq<char>> {
    match spec_file_name(s) {
        Some(name) => Some(spec_stem(name)),
        None => None,
    }
}

/// The text without the separators at its end, but for a first one.
pub open spec fn without_trailing_separators(s: Seq<char>) -> Seq<char>
    decreases s.len(),
{
    if s.len() > 1 && s.last() == '/' {
        without_trailing_separators(s.drop_last())
    } else {
        s
    }
}

/// The directory that holds the last component of a path: what stands
/// before that component, without the separators between the two. The root
/// and the empty path have none.
pub open spec fn spec_parent(s: Seq<char>) -> Option<Seq<char>> {
    let end = trimmed_len(s);
    if end == 0 {
        None
    } else {
        Some(without_trailing_separators(s.subrange(0, component_start(s, end))))
    }
}

/// Where a path leads along its components, read as steps down from a
/// starting directory: a name steps down, a parent component steps back up
/// as far as the start, and the others stay.
pub open spec fn resolve(cs: Seq<Seq<char>>) -> Seq<Seq<char>>
    decreases cs.len(),
{
    if cs.len() == 0 {
        Seq::<Seq<char>>::empty()
    } else {
        let before = resolve(cs.drop_last());
        let c = cs.last();
        if c.len() == 0 || c == current_component() {
            before
        } else if c == parent_component() {
            if before.len() > 0 {
                before.drop_last()
            } else {
                before
            }
        } else {
            before.push(c)
        }
    }
}

/// A path has at least one component.
pub proof fn lemma_components_nonempty(s: Seq<char>)
    ensures
        components(s).len() >= 1,
    decreases s.len(),
{
    if s.len() > 0 {
        lemma_components_nonempty(s.drop_last());
    }
}

/// The components of two paths with a separator between them are the
/// components of the first, then those of the second.
pub proof fn lemma_components_of_joined(a: Seq<char>, b: Seq<char>)
    ensures
        components(a + seq!['/'] + b) == components(a) + components(b),
    decreases b.len(),
{
    let whole = a + seq!['/'] + b;
    lemma_components_nonempty(a);
    if b.len() == 0 {
        assert(whole.drop_last() =~= a);
        assert(components(a).push(Seq::<char>::empty()) =~= components(a) + components(b));
    } else {
        let shorter = b.drop_last();
        lemma_components_of_joined(a, shorter);
        lemma_components_nonempty(shorter);
        assert(whole.drop_last() =~= a + seq!['/'] + shorter);
        assert(whole.last() == b.last());
        let before = components(shorter);
        if b.last() == '/' {
            assert((components(a) + before).push(Seq::<char>::empty()) =~= components(a)
                + before.push(Seq::<char>::empty()));
        } else {
            let grown = before.last().push(b.last());
            assert((components(a) + before).drop_last() =~= components(a) + before.drop_last());
            assert((components(a) + before.drop_last()).push(grown) =~= components(a)
                + before.drop_last().push(grown));
        }
    }
}

/// Steps that never lead upwards keep a path below where it started.
pub proof fn lemma_resolve_keeps_start(start: Seq<Seq<char>>, steps: Seq<Seq<char>>)
    requires
        !steps.contains(parent_component()),
    ensures
        resolve(start).is_prefix_of(resolve(start + steps)),
    decreases steps.len(),
{
    if steps.len() == 0 {
        assert(start + steps =~= start);
    } else {
        let fewer = steps.drop_last();
        assert(!fewer.contains(parent_component())) by {
            if fewer.contains(parent_component()) {
                let i = choose|i: int| 0 <= i < fewer.len() && fewer[i] == parent_component();
                assert(steps[i] == parent_component());
            }
        }
        lemma_resolve_keeps_start(start, fewer);
        assert((start + steps).drop_last() =~= start + fewer);
        assert((start + steps).last() == steps.last());
        assert(steps[steps.len() - 1] != parent_component());
    }
}

/// An entry that may be unpacked lands below the directory it is unpacked
/// into: no component of its name leads out of that directory.
pub proof fn lemma_safe_entry_stays_inside(root: Seq<char>, entry: Seq<char>)
    requires
        spec_is_safe_entry_path(entry),
    ensures
        resolve(components(root)).is_prefix_of(resolve(components(spec_join(root, entry)))),
{
    if root.len() == 0 {
        let only = components(root);
        assert(only.drop_last().len() == 0);
        assert(resolve(only.drop_last()).len() == 0);
        assert(resolve(only).len() == 0);
    } else if root.last() == '/' {
        let front = root.drop_last();
        assert(root + entry =~= front + seq!['/'] + entry);
        lemma_components_of_joined(front, entry);
        lemma_resolve_keeps_start(components(front), components(entry));
        assert(components(root).drop_last() =~= components(front));
        assert(resolve(components(root)) == resolve(components(front)));
    } else {
        lemma_components_of_joined(root, entry);
        lemma_resolve_keeps_start(components(root), components(entry));
    }
}

/// A name that can stand as the last component of a path: not empty,
/// without separator, and not one of the two components that name no file.
pub open spec fn is_plain_name(name: Seq<char>) -> bool {
    &&& name.len() > 0
    &&& !name.contains('/')
    &&& name != current_component()
    &&& name != parent_component()
}

/// A component that runs to `end` without separator starts where it is
/// said to start.
pub proof fn lemma_component_start(s: Seq<char>, start: int, end: int)
    requires
        0 <= start <= end <= s.len(),
        start == 0 || s[start - 1] == '/',
        forall|i: int| start <= i < end ==> s[i] != '/',
    ensures
        component_start(s, end) == start,
    decreases end - start,
{
    if start < end {
        lemma_component_start(s, start, end - 1);
    }
}

/// Separators at the end of a directory make no difference to what it is.
pub proof fn lemma_directory_with_separator(base: Seq<char>)
    requires
        base.len() > 0,
    ensures
        without_trailing_separators(base + seq!['/']) == without_trailing_separators(base),
{
    assert((base + seq!['/']).drop_last() =~= base);
}

/// Trimming leaves a part of the path.
pub proof fn lemma_trimmed_len_bounds(path: Seq<char>)
    ensures
        0 <= trimmed_len(path) <= path.len(),
    decreases path.len(),
{
    if path.len() > 0 {
        lemma_trimmed_len_bounds(path.drop_last());
    }
}

/// What trails a path is told from its end alone: a path that does not
/// trim away altogether trims the same behind anything put before it.
pub proof fn lemma_trimmed_len_behind(front: Seq<char>, path: Seq<char>)
    requires
        trimmed_len(path) > 0,
    ensures
        trimmed_len(front + path) == front.len() + trimmed_len(path),
    decreases path.len(),
{
    let whole = front + path;
    assert(whole.last() == path.last());
    if path.len() >= 2 {
        assert(whole[whole.len() - 2] == path[path.len() - 2]);
    }
    if path.last() == '/' || (path.last() == '.' && (path.len() == 1 || path[path.len() - 2]
        == '/')) {
        assert(whole.drop_last() =~= front + path.drop_last());
        lemma_trimmed_len_behind(front, path.drop_last());
    }
}

/// A path that ends in a file name has a parent, wherever it is read from.
pub proof fn lemma_named_path_has_parent(base: Seq<char>, path: Seq<char>)
    requires
        spec_file_name(path) is Some,
    ensures
        spec_parent(path) is Some,
        spec_parent(spec_join(base, path)) is Some,
{
    lemma_trimmed_len_bounds(path);
    if !is_rooted(path) {
        if base.len() == 0 || base.last() == '/' {
            lemma_trimmed_len_behind(base, path);
        } else {
            lemma_trimmed_len_behind(base + seq!['/'], path);
        }
    }
}

/// The component that ends before `end` holds no separator, and one stands
/// before it unless it starts the path.
pub proof fn lemma_component_bounds(s: Seq<char>, end: int)
    requires
        0 <= end <= s.len(),
    ensures
        0 <= component_start(s, end) <= end,
        component_start(s, end) == 0 || s[component_start(s, end) - 1] == '/',
        forall|i: int| component_start(s, end) <= i < end ==> s[i] != '/',
    decreases end,
{
    if end > 0 && s[end - 1] != '/' {
        lemma_component_bounds(s, end - 1);
    }
}

/// Where trimming stops, a character stands that does not trail the path.
pub proof fn lemma_trimmed_end(s: Seq<char>)
    ensures
        trimmed_len(s) > 0 ==> {
            &&& trimmed_len(s) <= s.len()
            &&& s[trimmed_len(s) - 1] != '/'
            &&& s[trimmed_len(s) - 1] == '.' ==> trimmed_len(s) >= 2 && s[trimmed_len(s) - 2]
                != '/'
        },
    decreases s.len(),
{
    if s.len() > 0 {
        let front = s.drop_last();
        lemma_trimmed_end(front);
        lemma_trimmed_len_bounds(front);
        if trimmed_len(front) > 0 {
            assert(front[trimmed_len(front) - 1] == s[trimmed_len(front) - 1]);
            if trimmed_len(front) >= 2 {
                assert(front[trimmed_len(front) - 2] == s[trimmed_len(front) - 2]);
            }
        }
    }
}

/// The file name of a path is a plain name.
pub proof fn lemma_file_name_is_plain(path: Seq<char>)
    requires
        spec_file_name(path) is Some,
    ensures
        is_plain_name(spec_file_name(path)->0),
{
    let end = trimmed_len(path);
    lemma_trimmed_len_bounds(path);
    lemma_trimmed_end(path);
    lemma_component_bounds(path, end);
    let start = component_start(path, end);
    let name = path.subrange(start, end);
    assert(start < end);
    assert(!name.contains('/')) by {
        if name.contains('/') {
            let i = choose|i: int| 0 <= i < name.len() && name[i] == '/';
            assert(path[start + i] == '/');
        }
    }
    assert(name != current_component()) by {
        if name == current_component() {
            assert(current_component().len() == 1);
            assert(name[0] == '.');
            assert(path[end - 1] == '.');
        }
    }
}

/// What `last_dot` finds: a dot before `end`, or -1.
pub proof fn lemma_last_dot(s: Seq<char>, end: int)
    requires
        0 <= end <= s.len(),
    ensures
        -1 <= last_dot(s, end) < end,
        last_dot(s, end) >= 0 ==> s[last_dot(s, end)] == '.',
    decreases end,
{
    if end > 0 && s[end - 1] != '.' {
        lemma_last_dot(s, end - 1);
    }
}

/// The stem of a plain name is a plain name, unless it is one of the two
/// components that name no file: the stems of names such as `..gz` and
/// `...gz`.
pub proof fn lemma_stem_is_plain(name: Seq<char>)
    requires
        is_plain_name(name),
    ensures
        spec_stem(name) == current_component() || spec_stem(name) == parent_component()
            || is_plain_name(spec_stem(name)),
{
    let dot = last_dot(name, name.len() as int);
    lemma_last_dot(name, name.len() as int);
    if dot > 0 {
        let stem = name.subrange(0, dot);
        assert(!stem.contains('/')) by {
            if stem.contains('/') {
                let i = choose|i: int| 0 <= i < stem.len() && stem[i] == '/';
                assert(name[i] == '/');
                assert(name.contains('/'));
            }
        }
    }
}

/// The stem of the file name of a path is a plain name, unless it is one of
/// the two components that name no file.
pub proof fn lemma_file_stem_is_plain(path: Seq<char>)
    requires
        spec_file_stem(path) is Some,
    ensures
        spec_file_stem(path)->0 == current_component() || spec_file_stem(path)->0
            == parent_component() || is_plain_name(spec_file_stem(path)->0),
{
    lemma_file_name_is_plain(path);
    lemma_stem_is_plain(spec_file_name(path)->0);
}

/// A plain name below a directory is the file name of the joined path, and
/// the directory is its parent.
pub proof fn lemma_split_joined(base: Seq<char>, name: Seq<char>)
    requires
        is_plain_name(name),
    ensures
        spec_file_name(spec_join(base, name)) == Some(name),
        spec_parent(spec_join(base, name)) == Some(without_trailing_separators(base)),
{
    let joined = spec_join(base, name);
    let start = joined.len() - name.len();
    assert(name[0] != '/') by {
        if name[0] == '/' {
            assert(name.contains('/'));
        }
    }
    assert(joined.subrange(start, joined.len() as int) =~= name);
    assert forall|i: int| start <= i < joined.len() implies joined[i] != '/' by {
        assert(joined[i] == name[i - start]);
        if name[i - start] == '/' {
            assert(name.contains('/'));
        }
    }
    assert(start == 0 || joined[start - 1] == '/');
    assert(trimmed_len(joined) == joined.len()) by {
        assert(joined.last() == name.last());
        assert(name.last() != '/');
        if joined.last() == '.' {
            if name.len() == 1 {
                assert(name =~= current_component());
            } else {
                assert(joined[joined.len() - 2] == name[name.len() - 2]);
            }
        }
    }
    lemma_component_start(joined, start, joined.len() as int);
    let front = joined.subrange(0, start);
    if base.len() == 0 {
        assert(front =~= base);
    } else if base.last() == '/' {
        assert(front =~= base);
    } else {
        assert(front =~= base + seq!['/']);
        lemma_directory_with_separator(base);
    }
}

/// Whether `c` is a letter of the basic Latin alphabet.
pub fn is_ascii_letter(c: char) -> (r: bool)
    ensures
        r == is_letter(c),
{
    ('a' <= c && c <= 'z') || ('A' <= c && c <= 'Z')
}

/// Whether a component of `name` names the directory above.
pub fn contains_parent_component(name: &str) -> (r: bool)
    ensures
        r == has_parent_component(name@),
{
    let n: usize = name.unicode_len();
    let mut start: usize = 0;
    let mut i: usize = 0;
    let mut found = false;
    while i < n
        invariant
            n == name@.len(),
            start <= i <= n,
            components(name@.subrange(0, i as int)).len() >= 1,
            components(name@.subrange(0, i as int)).last() == name@.subrange(
                start as int,
                i as int,
            ),
            found == components(name@.subrange(0, i as int)).drop_last().contains(
                parent_component(),
            ),
        decreases n - i,
    {
        let ghost before = components(name@.subrange(0, i as int));
        let c = name.get_char(i);
        proof {
            let grown = name@.subrange(0, i + 1);
            assert(grown.drop_last() =~= name@.subrange(0, i as int));
            assert(grown.last() == c);
            lemma_contains_last(before, parent_component());
            if c == '/' {
                assert(components(grown).drop_last() =~= before);
                assert(name@.subrange(i + 1, i + 1) =~= Seq::<char>::empty());
            } else {
                assert(components(grown).drop_last() =~= before.drop_last());
                assert(name@.subrange(start as int, i as int).push(c) =~= name@.subrange(
                    start as int,
                    i + 1,
                ));
            }
        }
        if c == '/' {
            if i - start == 2 && name.get_char(start) == '.' && name.get_char(start + 1) == '.' {
                assert(name@.subrange(start as int, i as int) =~= parent_component());
                found = true;
            } else {
                proof {
                    lemma_parent_component_is(name@.subrange(start as int, i as int));
                }
            }
            start = i + 1;
        }
        i += 1;
    }
    proof {
        assert(name@.subrange(0, n as int) =~= name@);
        lemma_contains_last(components(name@), parent_component());
    }
    if n - start == 2 && name.get_char(start) == '.' && name.get_char(start + 1) == '.' {
        assert(name@.subrange(start as int, n as int) =~= parent_component());
        true
    } else {
        proof {
            lemma_parent_component_is(name@.subrange(start as int, n as int));
        }
        found
    }
}

/// The parent component is the text of two dots.
proof fn lemma_parent_component_is(c: Seq<char>)
    ensures
        c == parent_component() <==> c.len() == 2 && c[0] == '.' && c[1] == '.',
{
    if c.len() == 2 && c[0] == '.' && c[1] == '.' {
        assert(c =~= parent_component());
    }
    assert(parent_component().len() == 2);
    assert(parent_component()[0] == '.');
    assert(parent_component()[1] == '.');
}

/// A sequence holds a value where its last element is that value or the
/// elements before the last hold it.
proof fn lemma_contains_last(s: Seq<Seq<char>>, x: Seq<char>)
    requires
        s.len() >= 1,
    ensures
        s.contains(x) == (s.drop_last().contains(x) || s.last() == x),
{
    let front = s.drop_last();
    if s.contains(x) {
        let i = choose|i: int| 0 <= i < s.len() && s[i] == x;
        if i < s.len() - 1 {
            assert(front[i] == x);
        }
    }
    if front.contains(x) {
        let i = choose|i: int| 0 <= i < front.len() && front[i] == x;
        assert(s[i] == x);
    }
    if s.last() == x {
        assert(s[s.len() - 1] == x);
    }
}

/// Whether an entry of this name may be unpacked.
pub fn is_safe_entry_path(name: &str) -> (r: bool)
    ensures
        r == spec_is_safe_entry_path(name@),
{
    let n: usize = name.unicode_len();
    if n > 0 && name.get_char(0) == '/' {
        return false;
    }
    if n >= 2 && is_ascii_letter(name.get_char(0)) && name.get_char(1) == ':' {
        return false;
    }
    !contains_parent_component(name)
}

/// The name with every `from` replaced by `/`.
pub fn with_separator(name: &str, from: char) -> (r: String)
    ensures
        r@ == spec_with_separator(name@, from),
{
    let n: usize = name.unicode_len();
    let mut out = String::new();
    let mut start: usize = 0;
    let mut i: usize = 0;
    while i < n
        invariant
            n == name@.len(),
            start <= i <= n,
            forall|j: int| start <= j < i ==> name@[j] != from,
            out@ == spec_with_separator(name@.subrange(0, start as int), from),
        decreases n - i,
    {
        if name.get_char(i) == from {
            proof {
                reveal_strlit("/");
            }
            out.append(name.substring_char(start, i));
            out.append("/");
            start = i + 1;
            assert(out@ =~= spec_with_separator(name@.subrange(0, start as int), from));
        }
        i += 1;
    }
    out.append(name.substring_char(start, n));
    assert(out@ =~= spec_with_separator(name@, from));
    out
}

/// Whether the path starts at the root.
pub fn is_absolute(path: &str) -> (r: bool)
    ensures
        r == is_rooted(path@),
{
    path.unicode_len() > 0 && path.get_char(0) == '/'
}

/// `rel` below `base`.
pub fn join(base: &str, rel: &str) -> (r: String)
    ensures
        r@ == spec_join(base@, rel@),
{
    if is_absolute(rel) {
        return String::from_str(rel);
    }
    let n: usize = base.unicode_len();
    let mut out = String::from_str(base);
    if n > 0 && base.get_char(n - 1) != '/' {
        proof {
            reveal_strlit("/");
        }
        out.append("/");
    }
    out.append(rel);
    proof {
        if n > 0 && base@.last() != '/' {
            assert(out@ =~= base@ + seq!['/'] + rel@);
        }
    }
    out
}

/// The length of the path without what trails it.
fn trimmed_length(path: &str) -> (r: usize)
    ensures
        r == trimmed_len(path@),
        r <= path@.len(),
{
    let n: usize = path.unicode_len();
    let mut end: usize = n;
    assert(path@.subrange(0, n as int) =~= path@);
    while end > 0 && (path.get_char(end - 1) == '/' || (path.get_char(end - 1) == '.' && (end == 1
        || path.get_char(end - 2) == '/')))
        invariant
            n == path@.len(),
            end <= n,
            trimmed_len(path@) == trimmed_len(path@.subrange(0, end as int)),
        decreases end,
    {
        proof {
            let part = path@.subrange(0, end as int);
            assert(part.drop_last() =~= path@.subrange(0, end - 1));
            assert(part.last() == path@[end - 1]);
            if end >= 2 {
                assert(part[part.len() - 2] == path@[end - 2]);
            }
        }
        end -= 1;
    }
    proof {
        let part = path@.subrange(0, end as int);
        assert(path@.subrange(0, n as int) =~= path@);
        if end > 0 {
            assert(part.last() == path@[end - 1]);
            if end >= 2 {
                assert(part[part.len() - 2] == path@[end - 2]);
            }
        }
    }
    end
}

/// Where the component that ends before `end` starts.
fn start_of_component(path: &str, end: usize) -> (r: usize)
    requires
        end <= path@.len(),
    ensures
        r == component_start(path@, end as int),
        r <= end,
{
    let mut start: usize = end;
    while start > 0 && path.get_char(start - 1) != '/'
        invariant
            start <= end <= path@.len(),
            component_start(path@, end as int) == component_start(path@, start as int),
        decreases start,
    {
        start -= 1;
    }
    start
}

/// The file name of a path: its last component, if that names a file or a
/// directory.
pub fn file_name(path: &str) -> (r: Option<&str>)
    ensures
        match r {
            Some(name) => spec_file_name(path@) == Some(name@),
            None => spec_file_name(path@) is None,
        },
{
    let end: usize = trimmed_length(path);
    if end == 0 {
        return None;
    }
    let start: usize = start_of_component(path, end);
    let name = path.substring_char(start, end);
    if end - start == 2 && path.get_char(start) == '.' && path.get_char(start + 1) == '.' {
        proof {
            lemma_parent_component_is(name@);
        }
        return None;
    }
    proof {
        lemma_parent_component_is(name@);
    }
    Some(name)
}

/// The stem of a file name: what stands before its last `.`.
pub fn stem(name: &str) -> (r: &str)
    ensures
        r@ == spec_stem(name@),
{
    let n: usize = name.unicode_len();
    let mut end: usize = n;
    while end > 0 && name.get_char(end - 1) != '.'
        invariant
            n == name@.len(),
            end <= n,
            last_dot(name@, n as int) == last_dot(name@, end as int),
        decreases end,
    {
        end -= 1;
    }
    if end <= 1 {
        let whole = name.substring_char(0, n);
        assert(whole@ =~= name@);
        whole
    } else {
        name.substring_char(0, end - 1)
    }
}

/// The stem of the file name of a path.
pub fn file_stem(path: &str) -> (r: Option<&str>)
    ensures
        match r {
            Some(name) => spec_file_stem(path@) == Some(name@),
            None => spec_file_stem(path@) is None,
        },
{
    match file_name(path) {
        Some(name) => Some(stem(name)),
        None => None,
    }
}

/// The path without the separators at its end, but for a first one.
pub fn trim_trailing_separators(path: &str) -> (r: &str)
    ensures
        r@ == without_trailing_separators(path@),
{
    let n: usize = path.unicode_len();
    let mut cut: usize = n;
    assert(path@.subrange(0, n as int) =~= path@);
    while cut > 1 && path.get_char(cut - 1) == '/'
        invariant
            n == path@.len(),
            cut <= n,
            without_trailing_separators(path@) == without_trailing_separators(
                path@.subrange(0, cut as int),
            ),
        decreases cut,
    {
        proof {
            let part = path@.subrange(0, cut as int);
            assert(part.last() == path@[cut - 1]);
            assert(part.drop_last() =~= path@.subrange(0, cut - 1));
        }
        cut -= 1;
    }
    proof {
        let part = path@.subrange(0, cut as int);
        if cut > 1 {
            assert(part.last() == path@[cut - 1]);
        }
    }
    path.substring_char(0, cut)
}

/// The directory that holds the last component of a path.
pub fn parent(path: &str) -> (r: Option<&str>)
    ensures
        match r {
            Some(dir) => spec_parent(path@) == Some(dir@),
            None => spec_parent(path@) is None,
        },
{
    let end: usize = trimmed_length(path);
    if end == 0 {
        return None;
    }
    let start: usize = start_of_component(path, end);
    Some(trim_trailing_separators(path.substring_char(0, start)))
}

} // verus!
