//! What a batch of inputs comes to: which are unpacked, what is reported of
//! each, and when an input of unknown format ends the batch.

use vstd::prelude::*;

use crate::formats::{spec_description, ArchiveType};

verus! {

/// One line of an analysis: the path of an input and what it was found to be.
pub open spec fn spec_analysis_line(path: Seq<char>, found: Seq<char>) -> Seq<char> {
    path + seq![':', ' '] + found
}

/// What an analysis reports of one input: the description of its type, and
/// `unsupported` for an input of unknown format, unless such inputs are
/// passed over.
pub open spec fn spec_analysis(
    path: Seq<char>,
    detected: Option<ArchiveType>,
    skip_unknown: bool,
) -> Option<Seq<char>> {
    match detected {
        Some(ty) => Some(spec_analysis_line(path, spec_description(ty))),
        None => if skip_unknown {
            None
        } else {
            Some(spec_analysis_line(path, "unsupported"@))
        },
    }
}

/// The inputs of `detected[from..]` whose format is known, each with its
/// place in the batch, in order.
pub open spec fn spec_known_from(detected: Seq<Option<ArchiveType>>, from: int) -> Seq<
    (usize, ArchiveType),
>
    decreases detected.len() - from,
{
    if from < 0 || from >= detected.len() {
        Seq::empty()
    } else {
        let rest = spec_known_from(detected, from + 1);
        match detected[from] {
            Some(ty) => seq![(from as usize, ty)] + rest,
            None => rest,
        }
    }
}

/// The place of the first input of unknown format, or the length of the
/// batch where every format is known.
pub open spec fn spec_first_unknown(detected: Seq<Option<ArchiveType>>, from: int) -> int
    decreases detected.len() - from,
{
    if from < 0 || from >= detected.len() {
        detected.len() as int
    } else if detected[from] is None {
        from
    } else {
        spec_first_unknown(detected, from + 1)
    }
}

/// What an analysis reports of one input, if anything.
pub fn analyze_archives(path: &str, detected: Option<ArchiveType>, skip_unknown: bool) -> (r:
    Option<String>)
    ensures
        match r {
            Some(line) => spec_analysis(path@, detected, skip_unknown) == Some(line@),
            None => spec_analysis(path@, detected, skip_unknown) is None,
        },
{
    let found = match detected {
        Some(ty) => ty.to_string(),
        None => {
            if skip_unknown {
                return None;
            }
            String::from_str("unsupported")
        },
    };
    let mut line = String::from_str(path);
    proof {
        reveal_strlit(": ");
    }
    line.append(": ");
    line.append(found.as_str());
    assert(line@ =~= spec_analysis_line(path@, found@));
    Some(line)
}

/// The end of a batch at an input of unknown format: the place of that
/// input, and the inputs before it, which are unpacked all the same.
#[derive(Debug, PartialEq, Eq)]
pub struct UnknownInput {
    pub at: usize,
    pub before: Vec<(usize, ArchiveType)>,
}

/// Which inputs of a batch are unpacked, in their order. `detected` holds,
/// for each input in order, the type that was found for it. Where inputs of
/// unknown format are passed over, the batch is every input of known
/// format. Where they are not, the first of them ends the batch: the inputs
/// before it are unpacked and published, one after the other, and then the
/// batch fails at its place. What was published before stays.
pub fn unpack_archives(detected: &Vec<Option<ArchiveType>>, skip_unknown: bool) -> (r: Result<
    Vec<(usize, ArchiveType)>,
    UnknownInput,
>)
    ensures
        match r {
            Ok(batch) => batch@ == spec_known_from(detected@, 0) && (skip_unknown
                || spec_first_unknown(detected@, 0) == detected.len()),
            Err(end) => {
                &&& !skip_unknown
                &&& end.at < detected.len()
                &&& end.at == spec_first_unknown(detected@, 0)
                &&& end.before@ == spec_known_from(detected@.subrange(0, end.at as int), 0)
                &&& end.before@.len() == end.at
            },
        },
{
    let mut batch: Vec<(usize, ArchiveType)> = Vec::new();
    let mut i: usize = 0;
    assert(spec_known_from(detected@.subrange(0, 0), 0) =~= batch@);
    while i < detected.len()
        invariant
            i <= detected.len(),
            spec_known_from(detected@, 0) == batch@ + spec_known_from(detected@, i as int),
            batch@ == spec_known_from(detected@.subrange(0, i as int), 0),
            spec_first_unknown(detected@, 0) == spec_first_unknown(detected@, i as int)
                || skip_unknown,
            skip_unknown || batch@.len() == i,
        decreases detected.len() - i,
    {
        match detected[i] {
            Some(ty) => {
                proof {
                    lemma_known_grows(detected@, i as int);
                }
                batch.push((i, ty));
                assert(batch@ + spec_known_from(detected@, i + 1) =~= batch@.drop_last() + (
                seq![(i, ty)] + spec_known_from(detected@, i + 1)));
            },
            None => {
                if !skip_unknown {
                    return Err(UnknownInput { at: i, before: batch });
                }
                proof {
                    lemma_known_grows(detected@, i as int);
                }
            },
        }
        i += 1;
    }
    assert(batch@ + spec_known_from(detected@, i as int) =~= batch@);
    Ok(batch)
}

/// The known inputs among the first `count + 1` are those among the first
/// `count`, and the input at `count` behind them where its format is known.
proof fn lemma_known_grows(detected: Seq<Option<ArchiveType>>, count: int)
    requires
        0 <= count < detected.len(),
    ensures
        spec_known_from(detected.subrange(0, count + 1), 0) == spec_known_from(
            detected.subrange(0, count),
            0,
        ) + match detected[count] {
            Some(ty) => seq![(count as usize, ty)],
            None => Seq::empty(),
        },
{
    lemma_known_split(detected.subrange(0, count + 1), 0, count);
    assert(detected.subrange(0, count + 1).subrange(0, count) =~= detected.subrange(0, count));
    let grown = detected.subrange(0, count + 1);
    assert(grown[count] == detected[count]);
    assert(spec_known_from(grown, count + 1) =~= Seq::<(usize, ArchiveType)>::empty());
}

/// The known inputs from `from` on are those before `at` and those from
/// `at` on.
proof fn lemma_known_split(detected: Seq<Option<ArchiveType>>, from: int, at: int)
    requires
        0 <= from <= at <= detected.len(),
    ensures
        spec_known_from(detected, from) == spec_known_from(detected.subrange(0, at), from)
            + spec_known_from(detected, at),
    decreases at - from,
{
    let front = detected.subrange(0, at);
    if from == at {
        assert(spec_known_from(front, from) =~= Seq::<(usize, ArchiveType)>::empty());
        assert(spec_known_from(front, from) + spec_known_from(detected, at) =~= spec_known_from(
            detected,
            at,
        ));
    } else {
        lemma_known_split(detected, from + 1, at);
        assert(front[from] == detected[from]);
        match detected[from] {
            Some(ty) => {
                assert((seq![(from as usize, ty)] + spec_known_from(front, from + 1))
                    + spec_known_from(detected, at) =~= seq![(from as usize, ty)] + (
                spec_known_from(front, from + 1) + spec_known_from(detected, at)));
            },
            None => {},
        }
    }
}

} // verus!
