//! Beliefs a derived memory asserts about its notion subjects, and the name
//! normalization that decides when an asserted name is empty.

use vstd::prelude::*;
use unicode_normalization::UnicodeNormalization;
use crate::domain::MemoryId;
use crate::text::{is_whitespace_char, char_is_whitespace, push_char};
use crate::seqs::contains_id;
use crate::ids::{uuid_hyphenated, uuid_text};

verus! {

/// A commitment the character holds about one of a memory's notion subjects.
#[derive(Debug, Clone, PartialEq, Eq)]
pub struct BeliefAssertion {
    pub subject: MemoryId,
    pub predicate: BeliefPredicate,
}

/// Closed vocabulary of assertions that recall can read mechanically.
#[derive(Debug, Clone, PartialEq, Eq)]
pub enum BeliefPredicate {
    KnownAs { name: String },
}

impl BeliefAssertion {
    /// An exact copy of this assertion.
    pub fn duplicate(&self) -> (r: BeliefAssertion)
        ensures
            r == *self,
    {
        BeliefAssertion {
            subject: self.subject,
            predicate: match &self.predicate {
                BeliefPredicate::KnownAs { name } => BeliefPredicate::KnownAs { name: name.clone() },
            },
        }
    }
}

/// Why a memory's beliefs are refused.
#[derive(Debug, Clone, Copy, PartialEq, Eq, Structural)]
pub enum BeliefValidationError {
    GivenWithSources,
    GivenWithoutSubject,
    AssertionSubjectNotInMemory { subject: MemoryId },
    EmptyAssertionName { subject: MemoryId },
}

/// The message a belief refusal is shown with.
pub open spec fn belief_error_text(e: BeliefValidationError) -> Seq<char> {
    match e {
        BeliefValidationError::GivenWithSources => "a belief given by the application cannot also cite source experiences"@,
        BeliefValidationError::GivenWithoutSubject => "a belief given by the application must have a notion subject"@,
        BeliefValidationError::AssertionSubjectNotInMemory { subject } => "assertion subject "@
            + uuid_hyphenated(subject) + " must be among the memory's notion subjects"@,
        BeliefValidationError::EmptyAssertionName { subject } => "asserted name for "@ + uuid_hyphenated(subject)
            + " must not be empty after normalization"@,
    }
}

impl BeliefValidationError {
    /// The message this refusal is shown with.
    pub fn message(&self) -> (r: String)
        ensures
            r@ == belief_error_text(*self),
    {
        proof {
            reveal_strlit("a belief given by the application cannot also cite source experiences");
            reveal_strlit("a belief given by the application must have a notion subject");
            reveal_strlit("assertion subject ");
            reveal_strlit(" must be among the memory's notion subjects");
            reveal_strlit("asserted name for ");
            reveal_strlit(" must not be empty after normalization");
        }
        match self {
            BeliefValidationError::GivenWithSources => String::from_str(
                "a belief given by the application cannot also cite source experiences",
            ),
            BeliefValidationError::GivenWithoutSubject => String::from_str(
                "a belief given by the application must have a notion subject",
            ),
            BeliefValidationError::AssertionSubjectNotInMemory { subject } => {
                let mut m = String::from_str("assertion subject ");
                let id = uuid_text(*subject);
                m.append(id.as_str());
                m.append(" must be among the memory's notion subjects");
                m
            },
            BeliefValidationError::EmptyAssertionName { subject } => {
                let mut m = String::from_str("asserted name for ");
                let id = uuid_text(*subject);
                m.append(id.as_str());
                m.append(" must not be empty after normalization");
                m
            },
        }
    }
}

/// The text that `unicode_normalization`'s NFKC form produces for `s`.
pub uninterp spec fn nfkc_text(s: Seq<char>) -> Seq<char>;

/// The text that `str::to_lowercase` produces for `s`.
pub uninterp spec fn lowercase_text(s: Seq<char>) -> Seq<char>;

/// `UnicodeNormalization::nfkc` collected into a `String`; only its name is stated.
#[verifier::external_body]
fn nfkc(s: &str) -> (r: String)
    ensures
        r@ == nfkc_text(s@),
{
    s.nfkc().collect::<String>()
}

/// `str::to_lowercase`, whose Unicode case mapping is only named here.
#[verifier::external_body]
fn to_lowercase(s: &str) -> (r: String)
    ensures
        r@ == lowercase_text(s@),
{
    s.to_lowercase()
}

/// The whitespace-separated words of `s`, as `str::split_whitespace` yields them.
pub open spec fn split_words(s: Seq<char>) -> Seq<Seq<char>>
    decreases s.len(),
{
    if s.len() == 0 {
        seq![]
    } else {
        let prev = s.drop_last();
        let c = s.last();
        let w = split_words(prev);
        if is_whitespace_char(c) {
            w
        } else if prev.len() == 0 || is_whitespace_char(prev.last()) {
            w.push(seq![c])
        } else {
            w.update(w.len() - 1, w.last().push(c))
        }
    }
}

/// Words joined with single spaces.
pub open spec fn join_words(words: Seq<Seq<char>>) -> Seq<char>
    decreases words.len(),
{
    if words.len() == 0 {
        seq![]
    } else if words.len() == 1 {
        words[0]
    } else {
        join_words(words.drop_last()) + seq![' '] + words.last()
    }
}

/// The normalized form of a name: NFKC, lowercased, whitespace runs collapsed to one space
/// and trimmed at both ends.
pub open spec fn normalized_name_text(name: Seq<char>) -> Seq<char> {
    join_words(split_words(lowercase_text(nfkc_text(name))))
}

proof fn lemma_split_words_nonempty(s: Seq<char>)
    requires
        s.len() > 0,
        !is_whitespace_char(s.last()),
    ensures
        split_words(s).len() > 0,
    decreases s.len(),
{
    let prev = s.drop_last();
    if prev.len() > 0 && !is_whitespace_char(prev.last()) {
        lemma_split_words_nonempty(prev);
    }
}

proof fn lemma_join_extend_last(words: Seq<Seq<char>>, c: char)
    requires
        words.len() > 0,
    ensures
        join_words(words.update(words.len() - 1, words.last().push(c))) == join_words(words).push(
            c,
        ),
{
    let w2 = words.update(words.len() - 1, words.last().push(c));
    if words.len() > 1 {
        assert(w2.drop_last() =~= words.drop_last());
        assert(join_words(w2) =~= join_words(words).push(c));
    }
}

proof fn lemma_join_push(words: Seq<Seq<char>>, word: Seq<char>)
    ensures
        join_words(words.push(word)) == if words.len() == 0 {
            word
        } else {
            join_words(words) + seq![' '] + word
        },
{
    assert(words.push(word).drop_last() =~= words);
}

/// Collapses whitespace runs of `s` to single spaces and trims both ends.
pub fn collapse_whitespace(s: &str) -> (r: String)
    ensures
        r@ == join_words(split_words(s@)),
{
    let n = s.unicode_len();
    let mut out = String::new();
    let mut in_word = false;
    let mut has_words = false;
    let mut i: usize = 0;
    assert(s@.take(0) =~= Seq::<char>::empty());
    while i < n
        invariant
            n == s@.len(),
            i <= n,
            out@ == join_words(split_words(s@.take(i as int))),
            in_word == (i > 0 && !is_whitespace_char(s@[i - 1])),
            has_words == (split_words(s@.take(i as int)).len() > 0),
        decreases n - i,
    {
        let c = s.get_char(i);
        let ghost prefix = s@.take(i as int);
        let ghost next = s@.take(i + 1);
        assert(next.drop_last() =~= prefix);
        assert(next.last() == c);
        if char_is_whitespace(c) {
            in_word = false;
        } else if in_word {
            proof {
                assert(prefix.last() == s@[i - 1]);
                lemma_split_words_nonempty(prefix);
                lemma_join_extend_last(split_words(prefix), c);
            }
            push_char(&mut out, c);
        } else {
            proof {
                if prefix.len() > 0 {
                    assert(prefix.last() == s@[i - 1]);
                }
                lemma_join_push(split_words(prefix), seq![c]);
            }
            if has_words {
                push_char(&mut out, ' ');
            }
            push_char(&mut out, c);
            proof {
                if has_words {
                    assert(out@ =~= join_words(split_words(prefix)) + seq![' '] + seq![c]);
                } else {
                    assert(out@ =~= seq![c]);
                }
            }
            in_word = true;
            has_words = true;
        }
        i = i + 1;
    }
    assert(s@.take(n as int) =~= s@);
    out
}

/// Normalizes a name for comparison: NFKC, lowercase, single-spaced, trimmed.
pub fn normalize_name(name: &str) -> (r: String)
    ensures
        r@ == normalized_name_text(name@),
{
    let compatible = nfkc(name);
    let folded = to_lowercase(compatible.as_str());
    collapse_whitespace(folded.as_str())
}

/// The error a single assertion raises, if any.
pub open spec fn assertion_error(subjects: Seq<MemoryId>, a: BeliefAssertion) -> Option<
    BeliefValidationError,
> {
    if !subjects.contains(a.subject) {
        Some(BeliefValidationError::AssertionSubjectNotInMemory { subject: a.subject })
    } else {
        match a.predicate {
            BeliefPredicate::KnownAs { name } => if normalized_name_text(name@).len() == 0 {
                Some(BeliefValidationError::EmptyAssertionName { subject: a.subject })
            } else {
                None
            },
        }
    }
}

/// The first assertion error in order, or success.
pub open spec fn first_assertion_error(subjects: Seq<MemoryId>, assertions: Seq<BeliefAssertion>) -> Result<
    (),
    BeliefValidationError,
>
    decreases assertions.len(),
{
    if assertions.len() == 0 {
        Ok(())
    } else {
        match assertion_error(subjects, assertions[0]) {
            Some(e) => Err(e),
            None => first_assertion_error(subjects, assertions.drop_first()),
        }
    }
}

/// The outcome of belief validation.
pub open spec fn belief_validation(
    subjects: Seq<MemoryId>,
    has_sources: bool,
    given_by_application: bool,
    assertions: Seq<BeliefAssertion>,
) -> Result<(), BeliefValidationError> {
    if given_by_application && has_sources {
        Err(BeliefValidationError::GivenWithSources)
    } else if given_by_application && subjects.len() == 0 {
        Err(BeliefValidationError::GivenWithoutSubject)
    } else {
        first_assertion_error(subjects, assertions)
    }
}

/// Validates the grounding and assertions of a memory's beliefs: application-given
/// beliefs cite no sources and have a subject; each assertion is about one of the
/// memory's subjects and names it with a non-empty normalized name.
pub fn validate_belief(
    subjects: &Vec<MemoryId>,
    has_sources: bool,
    given_by_application: bool,
    assertions: &Vec<BeliefAssertion>,
) -> (r: Result<(), BeliefValidationError>)
    ensures
        r == belief_validation(subjects@, has_sources, given_by_application, assertions@),
{
    if given_by_application {
        if has_sources {
            return Err(BeliefValidationError::GivenWithSources);
        }
        if subjects.len() == 0 {
            return Err(BeliefValidationError::GivenWithoutSubject);
        }
    }
    let mut i: usize = 0;
    assert(assertions@.skip(0) =~= assertions@);
    while i < assertions.len()
        invariant
            i <= assertions@.len(),
            first_assertion_error(subjects@, assertions@) == first_assertion_error(
                subjects@,
                assertions@.skip(i as int),
            ),
            belief_validation(subjects@, has_sources, given_by_application, assertions@)
                == first_assertion_error(subjects@, assertions@),
        decreases assertions@.len() - i,
    {
        let assertion = &assertions[i];
        assert(assertions@.skip(i as int)[0] == assertions@[i as int]);
        assert(assertions@.skip(i as int).drop_first() =~= assertions@.skip(i + 1));
        if !contains_id(subjects, assertion.subject) {
            return Err(BeliefValidationError::AssertionSubjectNotInMemory { subject: assertion.subject });
        }
        match &assertion.predicate {
            BeliefPredicate::KnownAs { name } => {
                let normalized = normalize_name(name.as_str());
                if normalized.as_str().unicode_len() == 0 {
                    return Err(BeliefValidationError::EmptyAssertionName { subject: assertion.subject });
                }
            },
        }
        i = i + 1;
    }
    assert(assertions@.skip(i as int) =~= Seq::<BeliefAssertion>::empty());
    Ok(())
}


/// A belief given by the application cites no sources and has a subject: given with
/// sources it is refused as such, given without sources and without any subject it
/// is refused for the missing subject, and an accepted application-given belief
/// always has both properties.
pub proof fn law_given_beliefs_need_a_subject_and_no_sources(
    subjects: Seq<MemoryId>,
    has_sources: bool,
    given_by_application: bool,
    assertions: Seq<BeliefAssertion>,
)
    ensures
        given_by_application && has_sources ==> belief_validation(subjects, has_sources, given_by_application, assertions)
            == Err::<(), BeliefValidationError>(BeliefValidationError::GivenWithSources),
        given_by_application && !has_sources && subjects.len() == 0 ==> belief_validation(
            subjects,
            has_sources,
            given_by_application,
            assertions,
        ) == Err::<(), BeliefValidationError>(BeliefValidationError::GivenWithoutSubject),
        belief_validation(subjects, has_sources, given_by_application, assertions) is Ok && given_by_application
            ==> !has_sources && subjects.len() > 0,
{
}

} // verus!
