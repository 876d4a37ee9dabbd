//! Names that do not clash, and the scratch directory.
//!
//! A name that is taken gives way to its increment, and the first name in
//! the row of increments that a directory does not hold yet is the one that
//! a rename goes to. The scratch directory of a workspace carries a fresh
//! hidden name and lies where a rename to the destination is cheap.

use vstd::prelude::*;

use crate::decimal::{
    all_digits, decimal_text, decimal_value, is_ascii_digit, is_digit, lemma_value_of_text,
    next_numeral,
};
use crate::paths::{
    current_component, file_name, is_absolute, is_plain_name, is_rooted, join,
    lemma_file_name_is_plain, lemma_named_path_has_parent, lemma_split_joined, parent,
    parent_component, spec_file_name, spec_join, spec_parent, without_trailing_separators,
};

verus! {

/// The first position at or after `from` that holds a digit, or the length
/// of `s` where there is none.
pub open spec fn first_digit_from(s: Seq<char>, from: int) -> int
    decreases s.len() - from,
{
    if from < 0 || from >= s.len() {
        s.len() as int
    } else if is_digit(s[from]) {
        from
    } else {
        first_digit_from(s, from + 1)
    }
}

/// The first position at or after `from` that holds no digit, or the length
/// of `s` where digits run to the end.
pub open spec fn digits_end(s: Seq<char>, from: int) -> int
    decreases s.len() - from,
{
    if from < 0 || from >= s.len() {
        s.len() as int
    } else if !is_digit(s[from]) {
        from
    } else {
        digits_end(s, from + 1)
    }
}

/// Where the number of a name starts: at its first digit, wherever that
/// stands. The length of `s` where the name has no digit.
pub open spec fn number_start(s: Seq<char>) -> int {
    first_digit_from(s, 0)
}

/// Where the number of a name ends: behind the run of digits that begins at
/// `number_start`.
pub open spec fn number_end(s: Seq<char>) -> int {
    digits_end(s, number_start(s))
}

/// Whether a name holds a number to count up: whether it holds a digit.
pub open spec fn has_number(s: Seq<char>) -> bool {
    number_start(s) < s.len()
}

/// The increment of a name. A name with a digit has its first run of digits
/// replaced by the numeral of the next number, written without leading
/// zeros; what stands before and behind the run stays. A name without any
/// digit gets `-2` appended.
pub open spec fn spec_increment_string(s: Seq<char>) -> Seq<char> {
    if has_number(s) {
        let p = number_start(s);
        let q = number_end(s);
        s.subrange(0, p) + decimal_text(decimal_value(s.subrange(p, q)) + 1) + s.subrange(
            q,
            s.len() as int,
        )
    } else {
        s + seq!['-', '2']
    }
}

/// The `k`-th name in the row that starts with `s`, each the increment of
/// the one before.
pub open spec fn nth_candidate(s: Seq<char>, k: nat) -> Seq<char>
    decreases k,
{
    if k == 0 {
        s
    } else {
        spec_increment_string(nth_candidate(s, (k - 1) as nat))
    }
}

/// Whether `name` is among `taken`.
pub open spec fn is_taken(taken: Seq<String>, name: Seq<char>) -> bool {
    exists|i: int| 0 <= i < taken.len() && (#[trigger] taken[i])@ == name
}

/// Whether the `k`-th name of the row from `s` is the first that is free.
pub open spec fn is_first_free(s: Seq<char>, taken: Seq<String>, k: nat) -> bool {
    &&& !is_taken(taken, nth_candidate(s, k))
    &&& forall|j: nat| j < k ==> is_taken(taken, #[trigger] nth_candidate(s, j))
}

/// A number that goes up with every increment of a name: one more than
/// the name's number, and zero for a name without number.
pub open spec fn rank(s: Seq<char>) -> nat {
    if has_number(s) {
        decimal_value(s.subrange(number_start(s), number_end(s))) + 1
    } else {
        0
    }
}

/// What `first_digit_from` finds: a digit with no digit between `from` and it.
pub proof fn lemma_first_digit_from(s: Seq<char>, from: int)
    requires
        0 <= from <= s.len(),
    ensures
        from <= first_digit_from(s, from) <= s.len(),
        first_digit_from(s, from) < s.len() ==> is_digit(s[first_digit_from(s, from)]),
        forall|i: int| from <= i < first_digit_from(s, from) ==> !is_digit(#[trigger] s[i]),
    decreases s.len() - from,
{
    if from < s.len() && !is_digit(s[from]) {
        lemma_first_digit_from(s, from + 1);
    }
}

/// A position that holds the first digit at or after `from` is what
/// `first_digit_from` finds.
pub proof fn lemma_first_digit_is(s: Seq<char>, from: int, p: int)
    requires
        0 <= from <= p <= s.len(),
        p < s.len() ==> is_digit(s[p]),
        forall|i: int| from <= i < p ==> !is_digit(#[trigger] s[i]),
    ensures
        first_digit_from(s, from) == p,
    decreases p - from,
{
    if from < p {
        lemma_first_digit_is(s, from + 1, p);
    }
}

/// What `digits_end` finds: the end of the run of digits that starts at `from`.
pub proof fn lemma_digits_end(s: Seq<char>, from: int)
    requires
        0 <= from <= s.len(),
    ensures
        from <= digits_end(s, from) <= s.len(),
        digits_end(s, from) < s.len() ==> !is_digit(s[digits_end(s, from)]),
        forall|i: int| from <= i < digits_end(s, from) ==> is_digit(#[trigger] s[i]),
    decreases s.len() - from,
{
    if from < s.len() && is_digit(s[from]) {
        lemma_digits_end(s, from + 1);
    }
}

/// A position behind a run of digits from `from` is what `digits_end` finds.
pub proof fn lemma_digits_end_is(s: Seq<char>, from: int, q: int)
    requires
        0 <= from <= q <= s.len(),
        q < s.len() ==> !is_digit(s[q]),
        forall|i: int| from <= i < q ==> is_digit(#[trigger] s[i]),
    ensures
        digits_end(s, from) == q,
    decreases q - from,
{
    if from < q {
        lemma_digits_end_is(s, from + 1, q);
    }
}

/// A name without any digit gets `-2` appended.
pub proof fn lemma_increment_without_digits(s: Seq<char>)
    requires
        forall|i: int| 0 <= i < s.len() ==> !is_digit(#[trigger] s[i]),
    ensures
        spec_increment_string(s) == s + seq!['-', '2'],
{
    lemma_first_digit_is(s, 0, s.len() as int);
}

/// A name with a digit has its first run of digits counted up, whatever
/// stands before the run, and be it nothing.
pub proof fn lemma_increment_with_digits(s: Seq<char>)
    requires
        exists|i: int| 0 <= i < s.len() && is_digit(#[trigger] s[i]),
    ensures
        has_number(s),
        spec_increment_string(s) == s.subrange(0, number_start(s)) + decimal_text(
            decimal_value(s.subrange(number_start(s), number_end(s))) + 1,
        ) + s.subrange(number_end(s), s.len() as int),
{
    lemma_first_digit_from(s, 0);
}

/// A name made of a head without digit, a numeral, and a tail that does not
/// begin with a digit has the numeral as its number.
pub proof fn lemma_number_of_parts(head: Seq<char>, numeral: Seq<char>, tail: Seq<char>)
    requires
        forall|i: int| 0 <= i < head.len() ==> !is_digit(#[trigger] head[i]),
        all_digits(numeral),
        numeral.len() >= 1,
        tail.len() > 0 ==> !is_digit(tail[0]),
    ensures
        number_start(head + numeral + tail) == head.len(),
        number_end(head + numeral + tail) == head.len() + numeral.len(),
        (head + numeral + tail).subrange(
            head.len() as int,
            (head.len() + numeral.len()) as int,
        ) == numeral,
        (head + numeral + tail).subrange(0, head.len() as int) == head,
        (head + numeral + tail).subrange(
            (head.len() + numeral.len()) as int,
            (head + numeral + tail).len() as int,
        ) == tail,
{
    let s = head + numeral + tail;
    let p = head.len() as int;
    let q = p + numeral.len();
    assert(s[p] == numeral[0]);
    assert forall|i: int| 0 <= i < p implies !is_digit(#[trigger] s[i]) by {
        assert(s[i] == head[i]);
    }
    lemma_first_digit_is(s, 0, p);
    assert forall|i: int| p <= i < q implies is_digit(#[trigger] s[i]) by {
        assert(s[i] == numeral[i - p]);
    }
    if q < s.len() {
        assert(s[q] == tail[0]);
    }
    lemma_digits_end_is(s, p, q);
    assert(s.subrange(p, q) =~= numeral);
    assert(s.subrange(0, p) =~= head);
    assert(s.subrange(q, s.len() as int) =~= tail);
}

/// The parts of a name with a number: the head has no digit, the number is
/// a run of digits, and no digit follows it.
pub proof fn lemma_parts_of_name(s: Seq<char>)
    requires
        has_number(s),
    ensures
        0 <= number_start(s) < number_end(s) <= s.len(),
        forall|i: int| 0 <= i < number_start(s) ==> !is_digit(#[trigger] s[i]),
        all_digits(s.subrange(number_start(s), number_end(s))),
        number_end(s) < s.len() ==> !is_digit(s[number_end(s)]),
        s == s.subrange(0, number_start(s)) + s.subrange(number_start(s), number_end(s))
            + s.subrange(number_end(s), s.len() as int),
{
    let p = number_start(s);
    lemma_first_digit_from(s, 0);
    lemma_digits_end(s, p);
    let q = number_end(s);
    let numeral = s.subrange(p, q);
    assert forall|i: int| 0 <= i < numeral.len() implies is_digit(#[trigger] numeral[i]) by {
        assert(numeral[i] == s[p + i]);
    }
    assert(s =~= s.subrange(0, p) + s.subrange(p, q) + s.subrange(q, s.len() as int));
}

/// Every increment raises the rank of a name, so no name comes back in the
/// row of its increments.
pub proof fn lemma_increment_raises_rank(s: Seq<char>)
    ensures
        rank(spec_increment_string(s)) > rank(s),
{
    let next = spec_increment_string(s);
    if has_number(s) {
        lemma_parts_of_name(s);
        let p = number_start(s);
        let q = number_end(s);
        let head = s.subrange(0, p);
        let tail = s.subrange(q, s.len() as int);
        let v = decimal_value(s.subrange(p, q));
        let numeral = decimal_text(v + 1);
        lemma_value_of_text(v + 1);
        assert forall|i: int| 0 <= i < head.len() implies !is_digit(#[trigger] head[i]) by {
            assert(head[i] == s[i]);
        }
        if tail.len() > 0 {
            assert(tail[0] == s[q]);
        }
        lemma_number_of_parts(head, numeral, tail);
    } else {
        let head = s + seq!['-'];
        let numeral = seq!['2'];
        let tail = Seq::<char>::empty();
        assert(head + numeral + tail =~= next);
        lemma_first_digit_from(s, 0);
        assert forall|i: int| 0 <= i < head.len() implies !is_digit(#[trigger] head[i]) by {
            if i < s.len() {
                assert(head[i] == s[i]);
            }
        }
        lemma_number_of_parts(head, numeral, tail);
        assert(numeral.drop_last().len() == 0);
        assert(decimal_value(numeral.drop_last()) == 0);
        assert(decimal_value(numeral) == 2);
    }
}

/// The rank goes up along the row of increments of a name.
pub proof fn lemma_rank_grows(s: Seq<char>, i: nat, j: nat)
    requires
        i < j,
    ensures
        rank(nth_candidate(s, i)) < rank(nth_candidate(s, j)),
    decreases j,
{
    lemma_increment_raises_rank(nth_candidate(s, (j - 1) as nat));
    if i < j - 1 {
        lemma_rank_grows(s, i, (j - 1) as nat);
    }
}

/// No name comes twice in the row of its increments.
pub proof fn lemma_candidates_differ(s: Seq<char>, i: nat, j: nat)
    requires
        i != j,
    ensures
        nth_candidate(s, i) != nth_candidate(s, j),
{
    if i < j {
        lemma_rank_grows(s, i, j);
    } else {
        lemma_rank_grows(s, j, i);
    }
}

/// The increment of a plain name is a plain name: it can stand where the
/// name stood.
pub proof fn lemma_increment_keeps_plain(s: Seq<char>)
    requires
        is_plain_name(s),
    ensures
        is_plain_name(spec_increment_string(s)),
{
    let next = spec_increment_string(s);
    assert(current_component().len() == 1);
    assert(parent_component().len() == 2);
    assert(current_component()[0] == '.');
    assert(parent_component()[0] == '.');
    assert(parent_component()[1] == '.');
    if has_number(s) {
        lemma_parts_of_name(s);
        let p = number_start(s);
        let q = number_end(s);
        let numeral = decimal_text(decimal_value(s.subrange(p, q)) + 1);
        lemma_value_of_text(decimal_value(s.subrange(p, q)) + 1);
        assert(next[p] == numeral[0]);
        assert(is_digit(next[p]));
        assert(!next.contains('/')) by {
            if next.contains('/') {
                let i = choose|i: int| 0 <= i < next.len() && next[i] == '/';
                if i < p {
                    assert(s[i] == '/');
                } else if i < p + numeral.len() {
                    assert(is_digit(numeral[i - p]));
                } else {
                    assert(s[q + (i - p - numeral.len())] == '/');
                }
                assert(s.contains('/'));
            }
        }
    } else {
        assert(next[(s.len() + 1) as int] == '2');
        assert(next[s.len() as int] == '-');
        assert(!next.contains('/')) by {
            if next.contains('/') {
                let i = choose|i: int| 0 <= i < next.len() && next[i] == '/';
                assert(s[i] == '/');
                assert(s.contains('/'));
            }
        }
    }
}

/// Every name in the row of increments of a plain name is a plain name.
pub proof fn lemma_candidates_are_plain(s: Seq<char>, k: nat)
    requires
        is_plain_name(s),
    ensures
        is_plain_name(nth_candidate(s, k)),
    decreases k,
{
    if k > 0 {
        lemma_candidates_are_plain(s, (k - 1) as nat);
        lemma_increment_keeps_plain(nth_candidate(s, (k - 1) as nat));
    }
}

/// Increments a name: counts up its first run of digits, or appends `-2`
/// where it has no digit.
pub fn increment_string(s: &str) -> (r: String)
    ensures
        r@ == spec_increment_string(s@),
{
    let n: usize = s.unicode_len();
    let mut p: usize = 0;
    while p < n && !is_ascii_digit(s.get_char(p))
        invariant
            n == s@.len(),
            p <= n,
            forall|j: int| 0 <= j < p ==> !is_digit(#[trigger] s@[j]),
        decreases n - p,
    {
        p += 1;
    }
    proof {
        lemma_first_digit_is(s@, 0, p as int);
    }
    if p >= n {
        proof {
            reveal_strlit("-2");
        }
        let mut out = String::from_str(s);
        out.append("-2");
        assert(out@ =~= s@ + seq!['-', '2']);
        return out;
    }
    let mut q: usize = p;
    while q < n && is_ascii_digit(s.get_char(q))
        invariant
            n == s@.len(),
            p <= q <= n,
            forall|j: int| p <= j < q ==> is_digit(#[trigger] s@[j]),
        decreases n - q,
    {
        q += 1;
    }
    proof {
        lemma_digits_end_is(s@, p as int, q as int);
        lemma_parts_of_name(s@);
    }
    let mut out = String::from_str(s.substring_char(0, p));
    let numeral = next_numeral(s.substring_char(p, q));
    out.append(numeral.as_str());
    out.append(s.substring_char(q, n));
    out
}

/// The first name that is not taken, in the row of `basename` and its
/// increments. It is `basename` itself where that is free. No name comes
/// twice in the row, so the search passes over no more names than are taken.
pub fn first_free_name(basename: &str, taken: &Vec<String>) -> (r: String)
    ensures
        !is_taken(taken@, r@),
        exists|k: nat|
            is_first_free(basename@, taken@, k) && r@ == nth_candidate(basename@, k) && k
                <= taken.len(),
{
    let mut current = String::from_str(basename);
    let ghost mut k: nat = 0;
    let ghost mut used: Set<int> = Set::empty();
    loop
        invariant
            current@ == nth_candidate(basename@, k),
            forall|j: nat| j < k ==> is_taken(taken@, #[trigger] nth_candidate(basename@, j)),
            used.finite(),
            used.len() == k,
            k <= taken.len(),
            forall|i: int| used.contains(i) ==> 0 <= i < taken.len(),
            forall|i: int| used.contains(i) ==> rank(#[trigger] taken@[i]@) < rank(current@),
        decreases taken.len() - k,
    {
        match position_of(taken, current.as_str()) {
            None => {
                assert(is_first_free(basename@, taken@, k));
                return current;
            },
            Some(at) => {
                let next = increment_string(current.as_str());
                proof {
                    lemma_increment_raises_rank(current@);
                    assert(!used.contains(at as int));
                    lemma_indices_bounded(used.insert(at as int), taken.len() as int);
                    assert(is_taken(taken@, nth_candidate(basename@, k)));
                    used = used.insert(at as int);
                    k = k + 1;
                }
                current = next;
            },
        }
    }
}

/// Where `name` stands in `taken`, if it is there.
fn position_of(taken: &Vec<String>, name: &str) -> (r: Option<usize>)
    ensures
        r is None <==> !is_taken(taken@, name@),
        r matches Some(i) ==> i < taken.len() && taken@[i as int]@ == name@,
{
    let wanted = String::from_str(name);
    let mut i: usize = 0;
    while i < taken.len()
        invariant
            i <= taken.len(),
            wanted@ == name@,
            forall|j: int| 0 <= j < i ==> (#[trigger] taken@[j])@ != name@,
        decreases taken.len() - i,
    {
        if taken[i] == wanted {
            return Some(i);
        }
        i += 1;
    }
    None
}

/// A finite set of indices below `n` has at most `n` members.
proof fn lemma_indices_bounded(s: Set<int>, n: int)
    requires
        s.finite(),
        0 <= n,
        forall|i: int| s.contains(i) ==> 0 <= i < n,
    ensures
        s.len() <= n,
{
    vstd::set_lib::lemma_int_range(0, n);
    vstd::set_lib::lemma_len_subset(s, vstd::set_lib::set_int_range(0, n));
}

/// Two things that want the same name in one directory get different names:
/// the name that the second is given, once the first is there, is not the
/// name of the first.
pub proof fn lemma_second_name_differs(
    basename: Seq<char>,
    taken: Seq<String>,
    first: String,
    k1: nat,
    k2: nat,
)
    requires
        is_first_free(basename, taken, k1),
        first@ == nth_candidate(basename, k1),
        is_first_free(basename, taken.push(first), k2),
    ensures
        nth_candidate(basename, k2) != nth_candidate(basename, k1),
        !is_taken(taken, nth_candidate(basename, k2)),
        k2 > k1,
{
    let after = taken.push(first);
    assert(after[taken.len() as int]@ == first@);
    assert(is_taken(after, nth_candidate(basename, k1)));
    if is_taken(taken, nth_candidate(basename, k2)) {
        let i = choose|i: int|
            0 <= i < taken.len() && (#[trigger] taken[i])@ == nth_candidate(basename, k2);
        assert(after[i]@ == nth_candidate(basename, k2));
    }
    if k2 < k1 {
        assert(is_taken(taken, nth_candidate(basename, k2)));
    }
}

/// How a failed operation on files failed, as far as the workspace cares.
#[derive(Copy, Clone, Debug, PartialEq, Eq, Structural)]
pub enum IoFailure {
    /// What was to be worked on is not there.
    NotFound,
    /// The operation was interrupted before it did anything.
    Interrupted,
    /// Any other failure.
    Other,
}

/// Why no new name could be found for what is to be renamed.
#[derive(Copy, Clone, Debug, PartialEq, Eq, Structural)]
pub enum RenameError {
    /// The destination does not end in a name: it is empty, the root, or
    /// ends in a component that leads upwards.
    NoFileName,
}

/// A rename that replaces nothing: what is moved, where to, and the name it
/// has there.
#[derive(Debug)]
pub struct Rename {
    pub from: String,
    pub to: String,
    pub name: String,
}

/// The path itself where it is rooted, else the path below `working_dir`.
pub open spec fn spec_absolute(path: Seq<char>, working_dir: Seq<char>) -> Seq<char> {
    if is_rooted(path) {
        path
    } else {
        spec_join(working_dir, path)
    }
}

/// The path itself where it is rooted, else the path below `working_dir`.
pub fn absolute(path: &str, working_dir: &str) -> (r: String)
    ensures
        r@ == spec_absolute(path@, working_dir@),
{
    if is_absolute(path) {
        String::from_str(path)
    } else {
        join(working_dir, path)
    }
}

/// What `rename_resolving_conflict` decides for a destination, a working
/// directory and the names that are taken. A destination without file name
/// is refused. Else the name is the first free one in the row of increments
/// of the destination's name, and the target is the destination itself
/// where its own name is free, and that name in the destination's directory
/// otherwise. Either way the target ends in the name, which is not taken.
pub open spec fn is_rename_without_conflict(
    r: Result<Rename, RenameError>,
    src: Seq<char>,
    dst: Seq<char>,
    working_dir: Seq<char>,
    taken: Seq<String>,
) -> bool {
    let basename = spec_file_name(dst);
    let directory = spec_parent(spec_absolute(dst, working_dir));
    match r {
        Err(RenameError::NoFileName) => basename is None,
        Ok(rename) => {
            &&& basename is Some
            &&& directory is Some
            &&& rename.from@ == src
            &&& !is_taken(taken, rename.name@)
            &&& spec_file_name(rename.to@) == Some(rename.name@)
            &&& exists|k: nat|
                {
                    &&& #[trigger] is_first_free(basename->0, taken, k)
                    &&& rename.name@ == nth_candidate(basename->0, k)
                    &&& rename.to@ == if k == 0 {
                        dst
                    } else {
                        spec_join(directory->0, rename.name@)
                    }
                }
        },
    }
}

/// Decides the rename of `src` to `dst` that replaces nothing. `taken` holds
/// the names that the directory of `dst` holds already. Where the name of
/// `dst` is free, `dst` is the target as it stands. Otherwise the target is,
/// in the same directory, the first free name in the row of increments of
/// that name; the directory is taken from `dst` below `working_dir`.
pub fn rename_resolving_conflict(
    src: &str,
    dst: &str,
    working_dir: &str,
    taken: &Vec<String>,
) -> (r: Result<Rename, RenameError>)
    ensures
        is_rename_without_conflict(r, src@, dst@, working_dir@, taken@),
{
    let basename = match file_name(dst) {
        Some(name) => name,
        None => {
            return Err(RenameError::NoFileName);
        },
    };
    proof {
        lemma_named_path_has_parent(working_dir@, dst@);
    }
    if position_of(taken, basename).is_none() {
        assert(is_first_free(spec_file_name(dst@)->0, taken@, 0nat));
        return Ok(
            Rename {
                from: String::from_str(src),
                to: String::from_str(dst),
                name: String::from_str(basename),
            },
        );
    }
    let full = absolute(dst, working_dir);
    let directory = match parent(full.as_str()) {
        Some(directory) => directory,
        None => vstd::pervasive::unreached(),
    };
    let name = first_free_name(basename, taken);
    let to = join(directory, name.as_str());
    proof {
        let k = choose|k: nat|
            is_first_free(basename@, taken@, k) && name@ == nth_candidate(basename@, k);
        assert(k != 0);
        assert(is_first_free(spec_file_name(dst@)->0, taken@, k));
        lemma_file_name_is_plain(dst@);
        lemma_candidates_are_plain(basename@, k);
        lemma_split_joined(directory@, name@);
    }
    Ok(Rename { from: String::from_str(src), to, name })
}

/// Whether `c` is a digit of a number to the base sixteen, in small letters.
pub open spec fn is_hex_digit(c: char) -> bool {
    ('0' <= c && c <= '9') || ('a' <= c && c <= 'f')
}

/// The form of a fresh identifier: 36 characters, hyphens at four fixed
/// places and digits to the base sixteen at the others.
pub open spec fn is_identifier(s: Seq<char>) -> bool {
    &&& s.len() == 36
    &&& forall|i: int|
        0 <= i < 36 ==> if i == 8 || i == 13 || i == 18 || i == 23 {
            #[trigger] s[i] == '-'
        } else {
            is_hex_digit(s[i])
        }
}

/// The form of the name of a scratch directory: the fixed prefix `.unbox-`
/// and an identifier.
pub open spec fn is_scratch_name(s: Seq<char>) -> bool {
    &&& s.len() == 43
    &&& s.subrange(0, 7) == ".unbox-"@
    &&& is_identifier(s.subrange(7, 43))
}

/// The name of a scratch directory can stand as the last component of a
/// path.
pub proof fn lemma_scratch_name_is_plain(name: Seq<char>)
    requires
        is_scratch_name(name),
    ensures
        is_plain_name(name),
{
    reveal_strlit(".unbox-");
    let prefix = name.subrange(0, 7);
    let id = name.subrange(7, 43);
    assert forall|i: int| 0 <= i < name.len() implies name[i] != '/' by {
        if i < 7 {
            assert(name[i] == prefix[i]);
        } else {
            assert(name[i] == id[i - 7]);
        }
    }
    assert(current_component().len() == 1);
    assert(parent_component().len() == 2);
}

/// A random identifier: `uuid::Uuid::new_v4`, written as `to_string` writes
/// it. Which identifier comes is left open; stated is the form of the text,
/// hyphenated and in small letters. The call needs the system's source of
/// randomness to answer.
#[verifier::external_body]
fn fresh_identifier() -> (r: String)
    ensures
        is_identifier(r@),
{
    uuid::Uuid::new_v4().to_string()
}

/// A fresh name for a scratch directory.
pub fn scratch_name() -> (r: String)
    ensures
        is_scratch_name(r@),
{
    let id = fresh_identifier();
    let mut name = String::from_str(".unbox-");
    name.append(id.as_str());
    proof {
        reveal_strlit(".unbox-");
        assert(name@.subrange(0, 7) =~= ".unbox-"@);
        assert(name@.subrange(7, 43) =~= id@);
    }
    name
}

/// Where the scratch directory of a workspace lies.
#[derive(Copy, Clone, Debug, PartialEq, Eq, Structural)]
pub enum Placement {
    /// In the system's area for temporary files: a rename from there to the
    /// destination was seen to work.
    TempArea,
    /// Beside the destination, under a hidden name.
    BesideDestination,
}

/// Why no scratch directory could be placed.
#[derive(Copy, Clone, Debug, PartialEq, Eq, Structural)]
pub enum PlacementError {
    /// The destination has no directory above it.
    TopLevel,
    /// The directory above the destination does not exist.
    ParentMissing,
}

/// The two places where a scratch directory may lie, and the rename that
/// tells which to take: the candidate in the area for temporary files is
/// created, moved to the sibling beside the destination, and removed there.
#[derive(Debug)]
pub struct ScratchProbe {
    pub dst: String,
    pub parent: String,
    pub candidate: String,
    pub sibling: String,
}

/// A scratch directory that can be moved over to a destination.
#[derive(Debug)]
pub struct TempDirectory {
    tmp: String,
    dst: String,
    placement: Placement,
}

impl TempDirectory {
    /// The path of the scratch directory.
    pub closed spec fn spec_path(&self) -> Seq<char> {
        self.tmp@
    }

    /// The destination that the scratch directory was placed for.
    pub closed spec fn spec_destination(&self) -> Seq<char> {
        self.dst@
    }

    /// Where the scratch directory lies.
    pub closed spec fn spec_placement(&self) -> Placement {
        self.placement
    }

    /// Names the two places where the scratch directory for `dst` may lie.
    /// `dst` is read below `working_dir` where it is not rooted; `temp_root`
    /// is the system's area for temporary files. Both places carry the same
    /// fresh name.
    pub fn probe(dst: &str, working_dir: &str, temp_root: &str) -> (r: Result<
        ScratchProbe,
        PlacementError,
    >)
        ensures
            r is Ok <==> spec_parent(spec_absolute(dst@, working_dir@)) is Some,
            r matches Err(e) ==> e == PlacementError::TopLevel,
            r matches Ok(probe) ==> {
                &&& probe.dst@ == spec_absolute(dst@, working_dir@)
                &&& Some(probe.parent@) == spec_parent(probe.dst@)
                &&& exists|name: Seq<char>|
                    {
                        &&& is_scratch_name(name)
                        &&& probe.candidate@ == #[trigger] spec_join(temp_root@, name)
                        &&& probe.sibling@ == spec_join(probe.parent@, name)
                        &&& spec_file_name(probe.candidate@) == Some(name)
                        &&& spec_file_name(probe.sibling@) == Some(name)
                        &&& spec_parent(probe.sibling@) == Some(
                            without_trailing_separators(probe.parent@),
                        )
                    }
            },
    {
        let full = absolute(dst, working_dir);
        let directory = match parent(full.as_str()) {
            Some(directory) => String::from_str(directory),
            None => {
                return Err(PlacementError::TopLevel);
            },
        };
        let name = scratch_name();
        let candidate = join(temp_root, name.as_str());
        let sibling = join(directory.as_str(), name.as_str());
        proof {
            lemma_scratch_name_is_plain(name@);
            lemma_split_joined(temp_root@, name@);
            lemma_split_joined(directory@, name@);
        }
        Ok(ScratchProbe { dst: full, parent: directory, candidate, sibling })
    }

    /// Places the scratch directory once the probe was made. `parent_exists`
    /// says whether the directory above the destination exists, `moved`
    /// whether the probe's create, rename and remove all worked. The
    /// candidate in the area for temporary files is taken where they did, the
    /// sibling beside the destination otherwise.
    pub fn for_path(probe: ScratchProbe, parent_exists: bool, moved: bool) -> (r: Result<
        TempDirectory,
        PlacementError,
    >)
        ensures
            parent_exists <==> r is Ok,
            !parent_exists <==> r == Err::<TempDirectory, PlacementError>(
                PlacementError::ParentMissing,
            ),
            r matches Ok(tmp) ==> {
                &&& tmp.spec_destination() == probe.dst@
                &&& tmp.spec_placement() == if moved {
                    Placement::TempArea
                } else {
                    Placement::BesideDestination
                }
                &&& tmp.spec_path() == if moved {
                    probe.candidate@
                } else {
                    probe.sibling@
                }
            },
    {
        if !parent_exists {
            return Err(PlacementError::ParentMissing);
        }
        if moved {
            Ok(TempDirectory { tmp: probe.candidate, dst: probe.dst, placement: Placement::TempArea })
        } else {
            Ok(
                TempDirectory {
                    tmp: probe.sibling,
                    dst: probe.dst,
                    placement: Placement::BesideDestination,
                },
            )
        }
    }

    /// Returns the path to the temporary directory.
    pub fn path(&self) -> (r: &str)
        ensures
            r@ == self.spec_path(),
    {
        self.tmp.as_str()
    }

    /// Where the scratch directory lies.
    pub fn placement(&self) -> (r: Placement)
        ensures
            r == self.spec_placement(),
    {
        self.placement
    }

    /// Ends the life of the scratch directory. `removal` says how removing
    /// it with all it holds went. That it was gone already is no failure:
    /// it was moved away when the archive was published.
    pub fn cleanup(self, removal: Result<(), IoFailure>) -> (r: Result<(), IoFailure>)
        ensures
            r == match removal {
                Err(IoFailure::NotFound) => Ok::<(), IoFailure>(()),
                other => other,
            },
    {
        match removal {
            Err(IoFailure::NotFound) => Ok(()),
            other => other,
        }
    }
}

} // verus!
