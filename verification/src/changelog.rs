//! Writing entries into changelogs.
//!
//! An entry is written after the first occurrence of the `start` marker, or
//! at the beginning of a changelog that does not hold the marker. What the
//! changelog holds up to the marker stays as it is; what follows the marker
//! loses the white space that it starts with, and nothing else.

use vstd::prelude::*;
use vstd::string::StringExecFns;

use crate::text::{
    find, first_occurrence, lemma_first_occurrence, occurs_at, skip_white_space, to_chars,
    trimmed_start,
};

verus! {

/// The character that ends a line.
pub const NEW_LINE: char = '\n';

/// What parts a paragraph from the next: the end of a line and an empty line.
pub const DOUBLE_NEW_LINE: &'static str = "\n\n";

/// What follows an entry in a changelog: nothing, where `after` is white
/// space only; else an empty line and `after` without the white space that
/// it starts with.
pub open spec fn remainder(after: Seq<char>) -> Seq<char> {
    let rest = trimmed_start(after);
    if rest.len() == 0 {
        Seq::empty()
    } else {
        seq![NEW_LINE] + rest
    }
}

/// The changelog `contents` with `entry` written into it, after the first
/// occurrence of `start`, or at the beginning where `start` does not occur.
pub open spec fn spliced(contents: Seq<char>, start: Seq<char>, entry: Seq<char>) -> Seq<char> {
    match first_occurrence(contents, start) {
        Some(at) => contents.take(at) + start + DOUBLE_NEW_LINE@ + entry + seq![NEW_LINE]
            + remainder(contents.skip(at + start.len())),
        None => entry + seq![NEW_LINE] + remainder(contents),
    }
}

/// Writes `entry` into the changelog `contents`, after the first occurrence
/// of `start`, or at the beginning where `start` does not occur.
pub fn splice(contents: &str, start: &str, entry: &str) -> (result: String)
    ensures
        result@ == spliced(contents@, start@, entry@),
{
    let chars = to_chars(contents);
    let marker = to_chars(start);
    let mut string = String::new();
    let after: usize = match find(&chars, &marker) {
        Some(at) => {
            proof {
                lemma_first_occurrence(contents@, start@, 0);
            }
            string.append(contents.substring_char(0, at));
            string.append(start);
            string.append(DOUBLE_NEW_LINE);
            at + marker.len()
        },
        None => 0,
    };
    string.append(entry);
    string.push(NEW_LINE);
    let rest = skip_white_space(&chars, after, chars.len());
    proof {
        assert(chars@.subrange(after as int, chars@.len() as int) =~= contents@.skip(after as int));
        assert(contents@.subrange(rest as int, chars@.len() as int) =~= trimmed_start(
            contents@.skip(after as int),
        ));
        assert(contents@.skip(0) =~= contents@);
        assert(contents@.subrange(0, after as int) =~= contents@.take(after as int));
    }
    if rest < chars.len() {
        string.push(NEW_LINE);
        string.append(contents.substring_char(rest, chars.len()));
    }
    assert(string@ =~= spliced(contents@, start@, entry@));
    string
}

/// Writing an entry keeps the changelog up to the marker: the marker stays
/// where it was, and is still the first one. The next entry is therefore
/// written at the same place, before this one.
pub proof fn lemma_spliced_keeps_start(contents: Seq<char>, start: Seq<char>, entry: Seq<char>)
    requires
        first_occurrence(contents, start) is Some,
    ensures
        first_occurrence(spliced(contents, start, entry), start) == first_occurrence(
            contents,
            start,
        ),
        spliced(contents, start, entry).take(first_occurrence(contents, start)->0 + start.len())
            == contents.take(first_occurrence(contents, start)->0 + start.len()),
{
    let at = first_occurrence(contents, start)->0;
    let result = spliced(contents, start, entry);
    lemma_first_occurrence(contents, start, 0);
    lemma_first_occurrence(result, start, 0);
    let head = contents.take(at) + start;
    assert(result.take(at + start.len()) =~= head);
    assert forall|index: int| 0 <= index < at + start.len() implies result[index]
        == contents[index] by {
        assert(result[index] == head[index]);
        if index >= at {
            let offset = index - at;
            assert(contents[at + offset] == start[offset]);
        }
    }
    assert(result.take(at + start.len()) =~= contents.take(at + start.len()));
    assert(occurs_at(result, start, at)) by {
        assert forall|offset: int| 0 <= offset < start.len() implies #[trigger] result[at + offset]
            == start[offset] by {
            assert(contents[at + offset] == start[offset]);
        }
    }
    assert forall|earlier: int| 0 <= earlier < at implies !occurs_at(result, start, earlier) by {
        if occurs_at(result, start, earlier) {
            assert forall|offset: int| 0 <= offset < start.len() implies #[trigger] contents[earlier
                + offset] == start[offset] by {
                assert(result[earlier + offset] == start[offset]);
            }
            assert(occurs_at(contents, start, earlier));
        }
    }
}

/// Writing an entry keeps what follows the marker, or the whole changelog
/// where it does not hold the marker, but for the white space that it
/// starts with: the changelog ends with it.
pub proof fn lemma_spliced_keeps_rest(contents: Seq<char>, start: Seq<char>, entry: Seq<char>)
    ensures
        ({
            let after = match first_occurrence(contents, start) {
                Some(at) => contents.skip(at + start.len()),
                None => contents,
            };
            let rest = trimmed_start(after);
            let result = spliced(contents, start, entry);
            rest.len() <= result.len() && result.skip(result.len() - rest.len()) == rest
        }),
{
    let after = match first_occurrence(contents, start) {
        Some(at) => contents.skip(at + start.len()),
        None => contents,
    };
    let rest = trimmed_start(after);
    let result = spliced(contents, start, entry);
    lemma_first_occurrence(contents, start, 0);
    assert(result.skip(result.len() - rest.len()) =~= rest);
}

/// Where the changelog does not hold the marker, it starts with the entry.
pub proof fn lemma_spliced_without_start(contents: Seq<char>, start: Seq<char>, entry: Seq<char>)
    requires
        first_occurrence(contents, start) is None,
    ensures
        spliced(contents, start, entry).take(entry.len() as int) == entry,
{
    assert(spliced(contents, start, entry).take(entry.len() as int) =~= entry);
}

} // verus!
