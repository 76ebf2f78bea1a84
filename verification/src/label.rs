//! The label of the stage that a line of converter output speaks of.

use vstd::prelude::*;

use crate::text::{
    capitalize, capitalized, chars_of, contains, lower, occurs, owned, to_lower,
};

verus! {

/// The words that name a stage, the first one that occurs in a line counts.
pub open spec fn stage_words() -> Seq<Seq<char>> {
    seq![
        "indexing"@,
        "sampling"@,
        "writing"@,
        "finalizing"@,
        "counting"@,
        "chunking"@,
        "reading"@,
    ]
}

/// The first of `words` that occurs in `line`.
pub open spec fn first_word(line: Seq<char>, words: Seq<Seq<char>>) -> Option<Seq<char>>
    decreases words.len(),
{
    if words.len() == 0 {
        None
    } else if occurs(line, words[0]) {
        Some(words[0])
    } else {
        first_word(line, words.drop_first())
    }
}

/// The label of a line: the first stage word that occurs in it, whatever the
/// case, with a capital letter.
pub open spec fn label_of(line: Seq<char>) -> Option<Seq<char>> {
    match first_word(lower(line), stage_words()) {
        Some(word) => Some(capitalized(word)),
        None => None,
    }
}

/// The label of the stage that a line of converter output speaks of, if any.
pub fn stage_label_from_line(line: &str) -> (r: Option<String>)
    ensures
        match r {
            Some(label) => label_of(line@) == Some(label@),
            None => label_of(line@) is None,
        },
{
    let low = to_lower(&chars_of(line));
    let words: [&'static str; 7] = [
        "indexing",
        "sampling",
        "writing",
        "finalizing",
        "counting",
        "chunking",
        "reading",
    ];
    let ghost all = stage_words();
    assert(all.skip(0) =~= all);
    let mut i: usize = 0;
    while i < 7
        invariant
            i <= 7,
            low@ == lower(line@),
            all == stage_words(),
            all.len() == 7,
            forall|j: int| 0 <= j < 7 ==> (#[trigger] words@[j])@ == all[j],
            first_word(low@, all.skip(i as int)) == first_word(low@, all),
        decreases 7 - i,
    {
        let word = chars_of(words[i]);
        assert(word@ == all[i as int]);
        assert(all.skip(i as int)[0] == all[i as int]);
        if contains(&low, &word) {
            return Some(capitalize(&word));
        }
        assert(all.skip(i as int).drop_first() =~= all.skip(i + 1));
        i += 1;
    }
    None
}

/// The label of a line that names no stage.
pub const DEFAULT_LABEL: &'static str = "Building octree";

/// The label that a line is told under.
pub open spec fn told_label(line: Seq<char>) -> Seq<char> {
    match label_of(line) {
        Some(label) => label,
        None => DEFAULT_LABEL@,
    }
}

/// The label to report for a line of converter output.
pub fn stage_label(line: &str) -> (r: String)
    ensures
        r@ == told_label(line@),
        r@ == (match label_of(line@) {
            Some(label) => label,
            None => DEFAULT_LABEL@,
        }),
{
    match stage_label_from_line(line) {
        Some(label) => label,
        None => owned(DEFAULT_LABEL),
    }
}

// ---------------------------------------------------------------------------
// Laws
// ---------------------------------------------------------------------------

/// The case of the letters of a line does not matter.
pub proof fn the_case_of_a_line_does_not_matter(line: Seq<char>)
    ensures
        label_of(lower(line)) == label_of(line),
{
    assert(lower(lower(line)) =~= lower(line));
}

/// The first of the words that occurs is one of them, it occurs, and none
/// before it does; none comes out exactly when none occurs.
pub proof fn first_word_is_the_first(line: Seq<char>, words: Seq<Seq<char>>)
    ensures
        match first_word(line, words) {
            Some(word) => exists|i: int|
                0 <= i < words.len() && word == #[trigger] words[i] && occurs(line, words[i]) && (
                forall|j: int| 0 <= j < i ==> !occurs(line, #[trigger] words[j])),
            None => forall|j: int| 0 <= j < words.len() ==> !occurs(line, #[trigger] words[j]),
        },
    decreases words.len(),
{
    if words.len() > 0 {
        let rest = words.drop_first();
        if occurs(line, words[0]) {
            assert(words[0] == first_word(line, words).unwrap());
        } else {
            first_word_is_the_first(line, rest);
            match first_word(line, words) {
                Some(word) => {
                    let i = choose|i: int|
                        0 <= i < rest.len() && word == #[trigger] rest[i] && occurs(line, rest[i])
                            && (forall|j: int| 0 <= j < i ==> !occurs(line, #[trigger] rest[j]));
                    assert(words[i + 1] == word);
                    assert forall|j: int| 0 <= j < i + 1 implies !occurs(
                        line,
                        #[trigger] words[j],
                    ) by {
                        if j > 0 {
                            assert(rest[j - 1] == words[j]);
                        }
                    }
                },
                None => {
                    assert forall|j: int| 0 <= j < words.len() implies !occurs(
                        line,
                        #[trigger] words[j],
                    ) by {
                        if j > 0 {
                            assert(rest[j - 1] == words[j]);
                        }
                    }
                },
            }
        }
    }
}

/// Whatever label a line gets, the line contains it, but for the case.
pub proof fn a_label_stands_in_its_line(line: Seq<char>)
    ensures
        label_of(line) matches Some(label) ==> occurs(lower(line), lower(label)),
{
    first_word_is_the_first(lower(line), stage_words());
    match first_word(lower(line), stage_words()) {
        Some(word) => {
            reveal_strlit("indexing");
            reveal_strlit("sampling");
            reveal_strlit("writing");
            reveal_strlit("finalizing");
            reveal_strlit("counting");
            reveal_strlit("chunking");
            reveal_strlit("reading");
            let i = choose|i: int| 0 <= i < stage_words().len() && word == #[trigger] stage_words()[i];
            assert(forall|j: int| 0 <= j < word.len() ==> 'a' <= #[trigger] word[j] <= 'z');
            assert(lower(capitalized(word)) =~= word);
        },
        None => {},
    }
}

/// What a line is labelled: the stage that it names comes out, and where it
/// names several, indexing goes before sampling, writing, finalizing, counting,
/// chunking and reading, in this order.
pub proof fn what_a_line_is_labelled(line: Seq<char>)
    ensures
        ({
            let low = lower(line);
            let label = label_of(line);
            if occurs(low, "indexing"@) {
                label == Some("Indexing"@)
            } else if occurs(low, "sampling"@) {
                label == Some("Sampling"@)
            } else if occurs(low, "writing"@) {
                label == Some("Writing"@)
            } else if occurs(low, "finalizing"@) {
                label == Some("Finalizing"@)
            } else if occurs(low, "counting"@) {
                label == Some("Counting"@)
            } else if occurs(low, "chunking"@) {
                label == Some("Chunking"@)
            } else if occurs(low, "reading"@) {
                label == Some("Reading"@)
            } else {
                label is None
            }
        }),
{
    reveal_with_fuel(first_word, 8);
    words_are_capitalized();
    let words = stage_words();
    let rest = words.drop_first();
    assert(rest[0] == words[1]);
    assert(rest.drop_first()[0] == words[2]);
    assert(rest.drop_first().drop_first()[0] == words[3]);
    assert(rest.drop_first().drop_first().drop_first()[0] == words[4]);
    assert(rest.drop_first().drop_first().drop_first().drop_first()[0] == words[5]);
    assert(rest.drop_first().drop_first().drop_first().drop_first().drop_first()[0] == words[6]);
}

proof fn words_are_capitalized()
    ensures
        capitalized("indexing"@) == "Indexing"@,
        capitalized("sampling"@) == "Sampling"@,
        capitalized("writing"@) == "Writing"@,
        capitalized("finalizing"@) == "Finalizing"@,
        capitalized("counting"@) == "Counting"@,
        capitalized("chunking"@) == "Chunking"@,
        capitalized("reading"@) == "Reading"@,
{
    reveal_strlit("indexing");
    reveal_strlit("sampling");
    reveal_strlit("writing");
    reveal_strlit("finalizing");
    reveal_strlit("counting");
    reveal_strlit("chunking");
    reveal_strlit("reading");
    reveal_strlit("Indexing");
    reveal_strlit("Sampling");
    reveal_strlit("Writing");
    reveal_strlit("Finalizing");
    reveal_strlit("Counting");
    reveal_strlit("Chunking");
    reveal_strlit("Reading");
    assert(capitalized("indexing"@) =~= "Indexing"@);
    assert(capitalized("sampling"@) =~= "Sampling"@);
    assert(capitalized("writing"@) =~= "Writing"@);
    assert(capitalized("finalizing"@) =~= "Finalizing"@);
    assert(capitalized("counting"@) =~= "Counting"@);
    assert(capitalized("chunking"@) =~= "Chunking"@);
    assert(capitalized("reading"@) =~= "Reading"@);
}

/// A line is told under its own label, and under a general one where it has
/// none.
pub proof fn what_a_line_is_told_under(line: Seq<char>)
    ensures
        match label_of(line) {
            Some(label) => told_label(line) == label,
            None => told_label(line) == "Building octree"@,
        },
{
}

} // verus!
