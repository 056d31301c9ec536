//! How runs are numbered: every run of a campaign has a file of its own in the
//! campaign's directory, and a new run takes the number after the latest one
//! found there.
use crate::text::{all_digits, before_first, decimal, decimal_has_no_leading_zero};
use crate::text::{decimal_is_parsed, decimal_reads_back, digits_value, is_digit, parsed};
use crate::text::text_is_cut_at_the_first;
use crate::text::{chars_of, decimal_text, first_position, joined, parse_number};
use vstd::prelude::*;

verus! {

/// The run that a file of the given name belongs to: the name starts with
/// `run`, and the number stands before the first underscore.
pub open spec fn run_number(name: Seq<char>) -> Option<usize> {
    if "run"@.is_prefix_of(name) {
        parsed(before_first(name.skip("run"@.len() as int), '_'))
    } else {
        None
    }
}

/// The run that a directory entry belongs to. An entry without a readable name
/// belongs to none.
pub open spec fn entry_run(entry: Option<Seq<char>>) -> Option<usize> {
    match entry {
        Some(name) => run_number(name),
        None => None,
    }
}

/// The greater of two run numbers, where there are two.
pub open spec fn later(a: Option<usize>, b: Option<usize>) -> Option<usize> {
    match (a, b) {
        (Some(x), Some(y)) => Some(if x < y { y } else { x }),
        (Some(x), None) => Some(x),
        (None, _) => b,
    }
}

/// The greatest run number among the entries of a directory.
pub open spec fn latest_run(entries: Seq<Option<Seq<char>>>) -> Option<usize>
    decreases entries.len(),
{
    if entries.len() == 0 {
        None
    } else {
        later(latest_run(entries.drop_last()), entry_run(entries.last()))
    }
}

/// The number of the run that follows those found in a directory.
pub open spec fn next_run(entries: Seq<Option<Seq<char>>>) -> nat {
    match latest_run(entries) {
        Some(latest) => latest as nat + 1,
        None => 0,
    }
}

/// The name of the first file of a run.
pub open spec fn run_file(run: nat) -> Seq<char> {
    "run"@ + decimal(run) + "_0.h5"@
}

/// The texts of directory entries.
pub open spec fn entry_names(entries: Seq<Option<String>>) -> Seq<Option<Seq<char>>> {
    entries.map_values(
        |entry: Option<String>|
            match entry {
                Some(name) => Some(name@),
                None => None,
            },
    )
}

/// No run found in a directory comes after the latest one, and the latest one
/// is found there.
pub proof fn latest_run_is_greatest(entries: Seq<Option<Seq<char>>>)
    ensures
        latest_run(entries) is None <==> (forall|i: int|
            0 <= i < entries.len() ==> entry_run(#[trigger] entries[i]) is None),
        latest_run(entries) matches Some(latest) ==> {
            &&& exists|i: int|
                0 <= i < entries.len() && entry_run(#[trigger] entries[i]) == Some(latest)
            &&& forall|i: int|
                0 <= i < entries.len() && entry_run(#[trigger] entries[i]) is Some ==> entry_run(
                    entries[i],
                ).unwrap() <= latest
        },
    decreases entries.len(),
{
    if entries.len() > 0 {
        let rest = entries.drop_last();
        let last = entries.len() - 1;
        latest_run_is_greatest(rest);
        assert forall|i: int| 0 <= i < rest.len() implies rest[i] == entries[i] by {}
        if latest_run(entries) is None {
            assert forall|i: int| 0 <= i < entries.len() implies entry_run(
                #[trigger] entries[i],
            ) is None by {
                if i < last {
                    assert(entry_run(rest[i]) is None);
                }
            }
        } else {
            let latest = latest_run(entries).unwrap();
            if entry_run(entries[last]) == Some(latest) {
            } else {
                let i = choose|i: int|
                    0 <= i < rest.len() && entry_run(#[trigger] rest[i]) == Some(latest);
                assert(entry_run(entries[i]) == Some(latest));
            }
            assert forall|i: int|
                0 <= i < entries.len() && entry_run(#[trigger] entries[i]) is Some implies entry_run(
                entries[i],
            ).unwrap() <= latest by {
                if i < last {
                    assert(entry_run(rest[i]) is Some);
                }
            }
        }
    }
}

/// The name of a run's file reads back as that run.
pub proof fn run_file_is_numbered(run: usize)
    ensures
        run_number(run_file(run as nat)) == Some(run),
{
    let name = run_file(run as nat);
    let digits = decimal(run as nat);
    let tail = name.skip("run"@.len() as int);
    reveal_strlit("_0.h5");
    decimal_reads_back(run as nat);
    decimal_is_parsed(run);
    assert("run"@ =~= name.take("run"@.len() as int));
    assert(tail =~= digits + "_0.h5"@);
    assert(tail[digits.len() as int] == '_');
    assert(tail.contains('_'));
    tail.index_of_first_ensures('_');
    let at = tail.index_of_first('_').unwrap();
    if at < digits.len() {
        assert(is_digit(digits[at]));
    }
    assert(before_first(tail, '_') =~= digits);
}

/// The name of a run's file is `run`, the digits of the run's number without
/// leading zeros, and `_0.h5`.
pub proof fn run_files_are_named_by_number(run: nat)
    ensures
        exists|digits: Seq<char>|
            {
                &&& run_file(run) == "run"@ + digits + "_0.h5"@
                &&& digits.len() > 0
                &&& all_digits(digits)
                &&& #[trigger] digits_value(digits) == run
                &&& digits[0] == '0' ==> run == 0 && digits.len() == 1
            },
{
    decimal_reads_back(run);
    decimal_has_no_leading_zero(run);
    assert(digits_value(decimal(run)) == run);
}

/// A name tells a run by what stands between `run` and the first underscore, or the
/// end; a name that does not start with `run` tells none.
pub proof fn run_numbers_stand_after_run(name: Seq<char>, digits: Seq<char>, rest: Seq<char>)
    ensures
        !digits.contains('_') ==> {
            &&& run_number("run"@ + digits) == parsed(digits)
            &&& run_number("run"@ + digits + seq!['_'] + rest) == parsed(digits)
        },
        name.len() < 3 || name[0] != 'r' || name[1] != 'u' || name[2] != 'n' ==> run_number(
            name,
        ) is None,
        entry_run(Some(name)) == run_number(name),
        entry_run(None) is None,
{
    reveal_strlit("run");
    if !digits.contains('_') {
        let bare = "run"@ + digits;
        let full = "run"@ + digits + seq!['_'] + rest;
        assert("run"@ =~= bare.take(3));
        assert("run"@ =~= full.take(3));
        assert(bare.skip(3) =~= digits);
        let tail = full.skip(3);
        assert(tail =~= digits + seq!['_'] + rest);
        text_is_cut_at_the_first(tail, '_');
        let head = before_first(tail, '_');
        if head.len() < digits.len() {
            assert(tail[head.len() as int] == digits[head.len() as int]);
        }
        if head.len() > digits.len() {
            assert(head[digits.len() as int] == '_');
        }
        assert(head =~= digits);
    }
    if "run"@.is_prefix_of(name) {
        assert(name.take(3)[0] == 'r' && name.take(3)[1] == 'u' && name.take(3)[2] == 'n');
    }
}

/// The number of a new run is the least that comes after every run found in a
/// directory, or zero when there is none.
pub proof fn new_runs_follow_the_latest(entries: Seq<Option<Seq<char>>>)
    ensures
        forall|i: int|
            0 <= i < entries.len() && entry_run(#[trigger] entries[i]) is Some ==> entry_run(
                entries[i],
            ).unwrap() < next_run(entries),
        next_run(entries) > 0 ==> exists|i: int|
            0 <= i < entries.len() && entry_run(#[trigger] entries[i]) is Some && entry_run(
                entries[i],
            ).unwrap() + 1 == next_run(entries),
{
    latest_run_is_greatest(entries);
}

/// The texts of directory entries are those of the entries, one for one.
pub proof fn entries_keep_their_names(entries: Seq<Option<String>>, i: int)
    requires
        0 <= i < entries.len(),
    ensures
        entry_names(entries).len() == entries.len(),
        entries[i] is None <==> entry_names(entries)[i] is None,
        entries[i] matches Some(name) ==> entry_names(entries)[i] == Some(name@),
{
}

/// A new run never takes the file of a run that is already there.
pub proof fn new_run_file_is_fresh(entries: Seq<Option<Seq<char>>>)
    requires
        next_run(entries) <= usize::MAX,
    ensures
        !entries.contains(Some(run_file(next_run(entries)))),
{
    let run = next_run(entries) as usize;
    run_file_is_numbered(run);
    latest_run_is_greatest(entries);
    if entries.contains(Some(run_file(run as nat))) {
        let i = choose|i: int| 0 <= i < entries.len() && entries[i] == Some(run_file(run as nat));
        assert(entry_run(entries[i]) == Some(run));
    }
}

/// Once the file of a new run is there, it is the latest run, and the run after
/// it takes the next number.
pub proof fn runs_count_up(entries: Seq<Option<Seq<char>>>)
    requires
        next_run(entries) <= usize::MAX,
    ensures
        ({
            let after = entries.push(Some(run_file(next_run(entries))));
            &&& latest_run(after) == Some(next_run(entries) as usize)
            &&& next_run(after) == next_run(entries) + 1
        }),
{
    let run = next_run(entries) as usize;
    let after = entries.push(Some(run_file(run as nat)));
    run_file_is_numbered(run);
    assert(after.drop_last() =~= entries);
}

/// Reads from a file's name which run it belongs to.
pub fn read_run_number(name: &str) -> (run: Option<usize>)
    ensures
        run == run_number(name@),
{
    proof {
        reveal_strlit("run");
    }
    let chars = chars_of(name);
    if chars.len() < 3 || chars[0] != 'r' || chars[1] != 'u' || chars[2] != 'n' {
        proof {
            if "run"@.is_prefix_of(name@) {
                assert(name@.take(3)[0] == 'r' && name@.take(3)[1] == 'u' && name@.take(3)[2]
                    == 'n');
            }
        }
        return None;
    }
    assert("run"@ =~= name@.take(3));
    let end = first_position(&chars, 3, '_');
    parse_number(&chars, 3, end)
}

/// Finds the latest run among the entries of a campaign's directory. An entry
/// is `None` when it could not be read or its name is not Unicode.
pub fn find_latest_run(entries: &Vec<Option<String>>) -> (latest: Option<usize>)
    ensures
        latest == latest_run(entry_names(entries@)),
{
    let ghost names = entry_names(entries@);
    let mut latest: Option<usize> = None;
    let mut i: usize = 0;
    while i < entries.len()
        invariant
            i <= entries.len(),
            names == entry_names(entries@),
            latest == latest_run(names.take(i as int)),
        decreases entries.len() - i,
    {
        let run = match &entries[i] {
            Some(name) => read_run_number(name.as_str()),
            None => None,
        };
        assert(names.take(i + 1).drop_last() =~= names.take(i as int));
        assert(names.take(i + 1).last() == names[i as int]);
        latest = match (latest, run) {
            (Some(x), Some(y)) => Some(
                if x < y {
                    y
                } else {
                    x
                },
            ),
            (Some(x), None) => Some(x),
            (None, _) => run,
        };
        i += 1;
    }
    assert(names.take(names.len() as int) =~= names);
    latest
}

/// Writes the name of the first file of a run.
pub fn run_file_name(run: usize) -> (name: String)
    ensures
        name@ == run_file(run as nat),
{
    let number = decimal_text(run as u64);
    joined("run", number.as_str(), "_0.h5")
}

} // verus!
