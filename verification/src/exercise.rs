use vstd::prelude::*;
use vstd::string::*;
use crate::progress::Progress;
use crate::text::{chars_of, str_equals, push_char};
use crate::text_order::{TextOrder, text_less, text_order, lemma_text_order_total, lemma_text_less_transitive};

verus! {

/// Whether the UTF-8 bytes of a directory name name a course chapter: two ASCII digits, a
/// hyphen, and at least one more byte.
pub open spec fn chapter_name_bytes(bytes: Seq<u8>) -> bool {
    &&& bytes.len() >= 4
    &&& 0x30 <= bytes[0] <= 0x39
    &&& 0x30 <= bytes[1] <= 0x39
    &&& bytes[2] == 0x2d
}

/// Every name made of two ASCII digits, a hyphen and at least one more byte names a chapter,
/// and no other name does.
pub proof fn lemma_chapter_names(first: u8, second: u8, tail: Seq<u8>, bytes: Seq<u8>)
    ensures
        0x30 <= first <= 0x39 && 0x30 <= second <= 0x39 && tail.len() >= 1 ==> chapter_name_bytes(
            seq![first, second, 0x2du8] + tail,
        ),
        chapter_name_bytes(bytes) ==> bytes.len() >= 4 && 0x30 <= bytes[0] <= 0x39 && 0x30 <= bytes[1]
            <= 0x39 && bytes[2] == 0x2d,
{
    let name = seq![first, second, 0x2du8] + tail;
    assert(name[0] == first && name[1] == second && name[2] == 0x2du8);
}

/// Whether a directory name, such as `00-async-mental-model`, names a numbered chapter.
pub fn is_chapter_directory(name: &str) -> (is_chapter: bool)
    ensures
        is_chapter == chapter_name_bytes(name.spec_bytes()),
{
    let bytes = name.as_bytes();
    bytes.len() >= 4 && 0x30u8 <= bytes[0] && bytes[0] <= 0x39u8 && 0x30u8 <= bytes[1] && bytes[1]
        <= 0x39u8 && bytes[2] == 0x2du8
}

/// No name sorts before a name that comes earlier.
pub open spec fn in_lexical_order(names: Seq<String>) -> bool {
    forall|i: int, j: int| 0 <= i < j < names.len() ==> !text_less(names[j]@, names[i]@)
}

proof fn lemma_insert_keeps_lexical_order(names: Seq<String>, p: int, name: String)
    requires
        0 <= p <= names.len(),
        in_lexical_order(names),
        forall|k: int| 0 <= k < p ==> !text_less(name@, #[trigger] names[k]@),
        p < names.len() ==> text_less(name@, names[p]@),
    ensures
        in_lexical_order(names.insert(p, name)),
{
    let longer = names.insert(p, name);
    assert forall|a: int, b: int| 0 <= a < b < longer.len() implies !text_less(longer[b]@, longer[a]@) by {
        if b < p {
            assert(longer[a] == names[a] && longer[b] == names[b]);
        } else if b == p {
            assert(longer[a] == names[a]);
        } else if a < p {
            assert(longer[a] == names[a] && longer[b] == names[b - 1]);
            if text_less(names[b - 1]@, names[a]@) {
                assert(!text_less(name@, names[a]@));
                if b - 1 > p {
                    assert(!text_less(names[b - 1]@, names[p]@));
                    lemma_text_less_transitive(names[b - 1]@, names[a]@, name@);
                    lemma_text_order_total(name@, names[a]@);
                    lemma_text_less_transitive(names[b - 1]@, name@, names[p]@);
                } else {
                    lemma_text_less_transitive(names[b - 1]@, names[a]@, name@);
                    lemma_text_order_total(name@, names[a]@);
                    lemma_text_order_total(name@, names[p]@);
                }
            }
        } else if a == p {
            assert(longer[b] == names[b - 1]);
            if text_less(names[b - 1]@, name@) {
                if b - 1 > p {
                    lemma_text_less_transitive(names[b - 1]@, name@, names[p]@);
                } else {
                    lemma_text_order_total(name@, names[p]@);
                }
            }
        } else {
            assert(longer[a] == names[a - 1] && longer[b] == names[b - 1]);
        }
    }
}

/// Names in lexical order, the order in which Rust sorts strings (by code point, which is the
/// order of their UTF-8 bytes): the same names, each as often, with no name before one that
/// sorts before it.
pub fn lexical_order(names: Vec<String>) -> (sorted: Vec<String>)
    ensures
        sorted@.to_multiset() == names@.to_multiset(),
        in_lexical_order(sorted@),
{
    broadcast use vstd::multiset::group_multiset_axioms;
    let ghost all = names@;
    let mut rest = names;
    let mut sorted: Vec<String> = Vec::new();
    assert(sorted@.to_multiset() =~= vstd::multiset::Multiset::<String>::empty()) by {
        broadcast use vstd::seq_lib::group_to_multiset_ensures;
    }
    while rest.len() > 0
        invariant
            sorted@.to_multiset().add(rest@.to_multiset()) == all.to_multiset(),
            in_lexical_order(sorted@),
        decreases rest@.len(),
    {
        let ghost rest_before = rest@;
        let ghost sorted_before = sorted@;
        let name = rest.pop().unwrap();
        let name_chars = chars_of(name.as_str());
        let mut p: usize = 0;
        let mut stop = false;
        while !stop && p < sorted.len()
            invariant
                p <= sorted@.len(),
                sorted@ == sorted_before,
                name_chars@ == name@,
                forall|k: int| 0 <= k < p ==> !text_less(name@, #[trigger] sorted@[k]@),
                stop ==> p < sorted@.len() && text_less(name@, sorted@[p as int]@),
            decreases sorted@.len() - p, if stop { 0int } else { 1int },
        {
            let other = chars_of(sorted[p].as_str());
            proof {
                lemma_text_order_total(name@, other@);
            }
            match text_order(name_chars.as_slice(), other.as_slice()) {
                TextOrder::Before => {
                    stop = true;
                },
                _ => {
                    p = p + 1;
                },
            }
        }
        proof {
            lemma_insert_keeps_lexical_order(sorted_before, p as int, name);
            assert(rest_before =~= rest@.push(name));
            vstd::seq_lib::to_multiset_build(rest@, name);
            vstd::seq_lib::to_multiset_insert(sorted_before, p as int, name);
        }
        sorted.insert(p, name);
        proof {
            assert(sorted@.to_multiset().add(rest@.to_multiset()) =~= all.to_multiset());
        }
    }
    proof {
        assert(rest@.to_multiset() =~= vstd::multiset::Multiset::<String>::empty()) by {
            broadcast use vstd::seq_lib::group_to_multiset_ensures;
        }
        assert(sorted@.to_multiset() =~= sorted@.to_multiset().add(rest@.to_multiset()));
    }
    sorted
}

/// The key of an exercise: its chapter directory and its file stem, joined by `/`.
pub open spec fn exercise_key_text(chapter: Seq<char>, stem: Seq<char>) -> Seq<char> {
    chapter + "/"@ + stem
}

/// The key of the exercise `stem` in the chapter directory `chapter`.
pub fn exercise_key(chapter: &str, stem: &str) -> (key: String)
    ensures
        key@ == exercise_key_text(chapter@, stem@),
{
    let mut key = String::from_str(chapter);
    key.append("/");
    key.append(stem);
    key
}

/// Checks that an exercise has its checker and its reference solution, the checker first:
/// the error names the missing file.
pub fn require_exercise_files(
    key: &str,
    check_path: &str,
    check_exists: bool,
    solution_path: &str,
    solution_exists: bool,
) -> (checked: Result<(), String>)
    ensures
        check_exists && solution_exists ==> checked is Ok,
        !check_exists ==> checked is Err && checked->Err_0@ == "missing checker for `"@ + key@ + "`: "@
            + check_path@,
        check_exists && !solution_exists ==> checked is Err && checked->Err_0@
            == "missing reference solution for `"@ + key@ + "`: "@ + solution_path@,
{
    if !check_exists {
        let mut message = String::from_str("missing checker for `");
        message.append(key);
        message.append("`: ");
        message.append(check_path);
        return Err(message);
    }
    if !solution_exists {
        let mut message = String::from_str("missing reference solution for `");
        message.append(key);
        message.append("`: ");
        message.append(solution_path);
        return Err(message);
    }
    Ok(())
}

/// How an exercise is named: its full key and the file stem of its source.
#[derive(Debug)]
pub struct ExerciseId {
    pub key: String,
    pub stem: String,
}

/// Whether a query names an exercise, by full key or by file stem.
pub open spec fn names_exercise(exercise: ExerciseId, query: Seq<char>) -> bool {
    exercise.key@ == query || exercise.stem@ == query
}

/// The message for a query that names no exercise.
pub open spec fn no_match_message(query: Seq<char>) -> Seq<char> {
    "no exercise matches `"@ + query + "`"@
}

/// The message for a query that names several exercises.
pub open spec fn ambiguous_match_message(query: Seq<char>) -> Seq<char> {
    "more than one exercise matches `"@ + query + "`; use its full key"@
}

/// Finds the one exercise that a query names, by key or by file stem: its position, or an
/// error when no exercise or more than one exercise matches.
pub fn find_exercise(exercises: &[ExerciseId], query: &str) -> (found: Result<usize, String>)
    ensures
        match found {
            Ok(i) => i < exercises@.len() && names_exercise(exercises@[i as int], query@) && forall|j: int|
                0 <= j < exercises@.len() && j != i ==> !names_exercise(#[trigger] exercises@[j], query@),
            Err(message) => ((forall|j: int|
                0 <= j < exercises@.len() ==> !names_exercise(#[trigger] exercises@[j], query@))
                && message@ == no_match_message(query@)) || ((exists|i: int, j: int|
                0 <= i < j < exercises@.len() && names_exercise(#[trigger] exercises@[i], query@)
                    && names_exercise(#[trigger] exercises@[j], query@)) && message@
                == ambiguous_match_message(query@)),
        },
{
    let mut first: Option<usize> = None;
    let mut i: usize = 0;
    while i < exercises.len()
        invariant
            i <= exercises@.len(),
            match first {
                Some(f) => f < i && names_exercise(exercises@[f as int], query@) && forall|j: int|
                    0 <= j < i && j != f ==> !names_exercise(#[trigger] exercises@[j], query@),
                None => forall|j: int| 0 <= j < i ==> !names_exercise(#[trigger] exercises@[j], query@),
            },
        decreases exercises@.len() - i,
    {
        let exercise = &exercises[i];
        if str_equals(exercise.key.as_str(), query) || str_equals(exercise.stem.as_str(), query) {
            match first {
                Some(f) => {
                    assert(names_exercise(exercises@[f as int], query@));
                    assert(names_exercise(exercises@[i as int], query@));
                    let mut message = String::from_str("more than one exercise matches `");
                    message.append(query);
                    message.append("`; use its full key");
                    return Err(message);
                },
                None => {
                    first = Some(i);
                },
            }
        }
        i = i + 1;
    }
    match first {
        Some(f) => Ok(f),
        None => {
            let mut message = String::from_str("no exercise matches `");
            message.append(query);
            message.append("`");
            Err(message)
        },
    }
}

/// Whether the progress records the exercise as passed with exactly this fingerprint of its
/// source and checker.
pub open spec fn completed(progress: Progress, key: Seq<char>, fingerprint: Seq<char>) -> bool {
    progress.records().contains_key(key) && progress.records()[key] == fingerprint
}

/// Whether an exercise counts as complete: it passed with the current source and checker.
pub fn is_complete(progress: &Progress, key: &str, fingerprint: &str) -> (complete: bool)
    ensures
        complete == completed(*progress, key@, fingerprint@),
{
    match progress.get(key) {
        Some(recorded) => str_equals(recorded.as_str(), fingerprint),
        None => false,
    }
}

/// The fingerprinting of exercise `i` can return `f`, and the progress records the exercise as
/// passed with `f`.
pub open spec fn complete_under<F: Fn(usize) -> Result<String, String>>(
    fingerprint_of: F,
    progress: Progress,
    exercises: Seq<ExerciseId>,
    i: usize,
) -> bool {
    exists|f: String|
        #[trigger] call_ensures(fingerprint_of, (i,), Ok::<String, String>(f)) && completed(
            progress,
            exercises[i as int].key@,
            f@,
        )
}

/// The fingerprinting of exercise `i` can return `f`, and the progress does not record the
/// exercise as passed with `f`.
pub open spec fn incomplete_under<F: Fn(usize) -> Result<String, String>>(
    fingerprint_of: F,
    progress: Progress,
    exercises: Seq<ExerciseId>,
    i: usize,
) -> bool {
    exists|f: String|
        #[trigger] call_ensures(fingerprint_of, (i,), Ok::<String, String>(f)) && !completed(
            progress,
            exercises[i as int].key@,
            f@,
        )
}

/// Fingerprinting exercise `i` can fail with `error` after every earlier exercise was found
/// complete.
pub open spec fn failed_under<F: Fn(usize) -> Result<String, String>>(
    fingerprint_of: F,
    progress: Progress,
    exercises: Seq<ExerciseId>,
    i: usize,
    error: String,
) -> bool {
    &&& i < exercises.len()
    &&& call_ensures(fingerprint_of, (i,), Err::<String, String>(error))
    &&& forall|j: usize| j < i ==> #[trigger] complete_under(fingerprint_of, progress, exercises, j)
}

/// The first exercise that is not complete, given how to fingerprint each exercise's current
/// source and checker; a fingerprinting error stops the search and is returned.
pub fn next_incomplete<F: Fn(usize) -> Result<String, String>>(
    exercises: &[ExerciseId],
    progress: &Progress,
    fingerprint_of: F,
) -> (next: Result<Option<usize>, String>)
    requires
        forall|i: usize| call_requires(fingerprint_of, (i,)),
    ensures
        match next {
            Ok(Some(i)) => i < exercises@.len() && incomplete_under(fingerprint_of, *progress, exercises@, i)
                && forall|j: usize| j < i ==> #[trigger] complete_under(fingerprint_of, *progress, exercises@, j),
            Ok(None) => forall|j: usize|
                j < exercises@.len() ==> #[trigger] complete_under(fingerprint_of, *progress, exercises@, j),
            Err(_) => true,
        },
        next is Err ==> exists|i: usize|
            #[trigger] failed_under(fingerprint_of, *progress, exercises@, i, next->Err_0),
{
    let mut i: usize = 0;
    while i < exercises.len()
        invariant
            i <= exercises@.len(),
            forall|k: usize| call_requires(fingerprint_of, (k,)),
            forall|j: usize| j < i ==> #[trigger] complete_under(fingerprint_of, *progress, exercises@, j),
        decreases exercises@.len() - i,
    {
        let current = fingerprint_of(i);
        match current {
            Ok(f) => {
                if !is_complete(progress, exercises[i].key.as_str(), f.as_str()) {
                    assert(incomplete_under(fingerprint_of, *progress, exercises@, i));
                    return Ok(Some(i));
                }
                assert(complete_under(fingerprint_of, *progress, exercises@, i));
            },
            Err(e) => {
                let result: Result<Option<usize>, String> = Err(e);
                assert(failed_under(fingerprint_of, *progress, exercises@, i, result->Err_0));
                return result;
            },
        }
        i = i + 1;
    }
    Ok(None)
}

/// A key with every `/` and `-` replaced by `_`.
pub open spec fn underscored(key: Seq<char>) -> Seq<char> {
    Seq::new(key.len(), |i: int| if key[i] == '/' || key[i] == '-' { '_' } else { key[i] })
}

/// The file name of the compiled checker of an exercise.
pub fn checker_binary_name(key: &str) -> (name: String)
    ensures
        name@ == underscored(key@),
{
    let chars = chars_of(key);
    let mut name = String::new();
    let mut i: usize = 0;
    while i < chars.len()
        invariant
            i <= chars@.len(),
            chars@ == key@,
            name@ == underscored(key@).take(i as int),
        decreases chars@.len() - i,
    {
        let c = chars[i];
        let replaced = if c == '/' || c == '-' { '_' } else { c };
        push_char(&mut name, replaced);
        assert(underscored(key@).take(i + 1) =~= underscored(key@).take(i as int).push(replaced));
        i = i + 1;
    }
    assert(underscored(key@).take(chars@.len() as int) =~= underscored(key@));
    name
}

/// The crate name under which the checker of an exercise is compiled.
pub fn checker_crate_name(binary_name: &str) -> (name: String)
    ensures
        name@ == "async_lab_check_"@ + binary_name@,
{
    let mut name = String::from_str("async_lab_check_");
    name.append(binary_name);
    name
}

} // verus!
