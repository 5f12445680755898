use vstd::prelude::*;
use crate::text::{chars_of, str_equals, push_range, find_char, lemma_find_char, lemma_find_char_at, lemma_find_char_none};
use crate::split::{line_ranges, ranges_hold, strip_carriage_return, text_lines};
use crate::text_order::{TextOrder, text_less, text_order, lemma_text_order_total, lemma_text_less_transitive};

verus! {

/// Every key comes strictly before the keys after it: the entries are sorted by key and no
/// key occurs twice.
pub open spec fn keys_ascending(entries: Seq<(Seq<char>, Seq<char>)>) -> bool {
    forall|i: int, j: int| 0 <= i < j < entries.len() ==> text_less(entries[i].0, entries[j].0)
}

/// No key occurs twice.
pub open spec fn keys_distinct(entries: Seq<(Seq<char>, Seq<char>)>) -> bool {
    forall|i: int, j: int| 0 <= i < j < entries.len() ==> entries[i].0 != entries[j].0
}

/// The map from key to fingerprint that a sequence of entries records, later entries
/// overriding earlier ones.
pub open spec fn entries_map(entries: Seq<(Seq<char>, Seq<char>)>) -> Map<Seq<char>, Seq<char>>
    decreases entries.len(),
{
    if entries.len() == 0 {
        Map::empty()
    } else {
        entries_map(entries.drop_last()).insert(entries.last().0, entries.last().1)
    }
}

/// Sorted keys are distinct.
pub proof fn lemma_ascending_distinct(entries: Seq<(Seq<char>, Seq<char>)>)
    requires
        keys_ascending(entries),
    ensures
        keys_distinct(entries),
{
    assert forall|i: int, j: int| 0 <= i < j < entries.len() implies entries[i].0 != entries[j].0 by {
        lemma_text_order_total(entries[i].0, entries[j].0);
    }
}

/// With distinct keys, the map holds exactly the entries' keys, each with its entry's value,
/// and has one key per entry.
pub proof fn lemma_entries_map(entries: Seq<(Seq<char>, Seq<char>)>)
    requires
        keys_distinct(entries),
    ensures
        entries_map(entries).dom().finite(),
        entries_map(entries).dom().len() == entries.len(),
        forall|i: int|
            0 <= i < entries.len() ==> entries_map(entries).contains_key(#[trigger] entries[i].0)
                && entries_map(entries)[entries[i].0] == entries[i].1,
        forall|k: Seq<char>|
            #[trigger] entries_map(entries).contains_key(k) ==> exists|i: int|
                0 <= i < entries.len() && (#[trigger] entries[i]).0 == k,
    decreases entries.len(),
{
    if entries.len() > 0 {
        let rest = entries.drop_last();
        let last = entries.last();
        assert(keys_distinct(rest));
        lemma_entries_map(rest);
        if entries_map(rest).contains_key(last.0) {
            let i = choose|i: int| 0 <= i < rest.len() && (#[trigger] rest[i]).0 == last.0;
            assert(entries[i].0 == entries[entries.len() - 1].0);
        }
        assert forall|k: Seq<char>| #[trigger] entries_map(entries).contains_key(k) implies exists|i: int|
            0 <= i < entries.len() && (#[trigger] entries[i]).0 == k by {
            if k != last.0 {
                let i = choose|i: int| 0 <= i < rest.len() && (#[trigger] rest[i]).0 == k;
                assert(entries[i] == rest[i]);
            } else {
                assert(entries[entries.len() - 1].0 == k);
            }
        }
        assert forall|i: int| 0 <= i < entries.len() implies entries_map(entries).contains_key(
            #[trigger] entries[i].0,
        ) && entries_map(entries)[entries[i].0] == entries[i].1 by {
            if i < entries.len() - 1 {
                assert(entries[i] == rest[i]);
            }
        }
    }
}

proof fn lemma_map_drop_last(entries: Seq<(Seq<char>, Seq<char>)>)
    requires
        entries.len() > 0,
        keys_distinct(entries),
    ensures
        entries_map(entries.drop_last()) == entries_map(entries).remove(entries.last().0),
{
    let rest = entries.drop_last();
    assert(keys_distinct(rest));
    lemma_entries_map(rest);
    if entries_map(rest).contains_key(entries.last().0) {
        let i = choose|i: int| 0 <= i < rest.len() && (#[trigger] rest[i]).0 == entries.last().0;
        assert(entries[i].0 == entries[entries.len() - 1].0);
    }
    assert(entries_map(rest) =~= entries_map(entries).remove(entries.last().0));
}

/// Entries sorted by key are determined by the map they record: two sorted entry sequences
/// that record the same map are equal. So the order in which progress is written depends only
/// on what it records.
pub proof fn lemma_sorted_entries_unique(a: Seq<(Seq<char>, Seq<char>)>, b: Seq<(Seq<char>, Seq<char>)>)
    requires
        keys_ascending(a),
        keys_ascending(b),
        entries_map(a) == entries_map(b),
    ensures
        a == b,
    decreases a.len(),
{
    lemma_ascending_distinct(a);
    lemma_ascending_distinct(b);
    lemma_entries_map(a);
    lemma_entries_map(b);
    let n = a.len();
    assert(b.len() == n);
    if n == 0 {
        assert(a =~= b);
    } else {
        let la = a.last();
        let lb = b.last();
        assert(entries_map(b).contains_key(a[n - 1].0));
        assert(entries_map(a).contains_key(b[n - 1].0));
        let j = choose|j: int| 0 <= j < b.len() && (#[trigger] b[j]).0 == la.0;
        let k = choose|k: int| 0 <= k < a.len() && (#[trigger] a[k]).0 == lb.0;
        if la.0 != lb.0 {
            assert(j < n - 1);
            assert(text_less(b[j].0, b[n - 1].0));
            assert(k < n - 1);
            assert(text_less(a[k].0, a[n - 1].0));
            lemma_text_order_total(la.0, lb.0);
        }
        assert(la.0 == lb.0);
        assert(entries_map(a)[a[n - 1].0] == la.1);
        assert(entries_map(b)[b[n - 1].0] == lb.1);
        lemma_map_drop_last(a);
        lemma_map_drop_last(b);
        lemma_sorted_entries_unique(a.drop_last(), b.drop_last());
        assert(a =~= a.drop_last().push(la));
        assert(b =~= b.drop_last().push(lb));
    }
}

/// Inserting an entry with a new key anywhere records that key with its value.
proof fn lemma_map_after_insert(entries: Seq<(Seq<char>, Seq<char>)>, i: int, entry: (Seq<char>, Seq<char>))
    requires
        0 <= i <= entries.len(),
        keys_distinct(entries),
        keys_distinct(entries.insert(i, entry)),
    ensures
        entries_map(entries.insert(i, entry)) == entries_map(entries).insert(entry.0, entry.1),
{
    let longer = entries.insert(i, entry);
    lemma_entries_map(entries);
    lemma_entries_map(longer);
    let expected = entries_map(entries).insert(entry.0, entry.1);
    assert forall|k: Seq<char>| #[trigger] entries_map(longer).contains_key(k) == expected.contains_key(k) by {
        if entries_map(longer).contains_key(k) {
            let j = choose|j: int| 0 <= j < longer.len() && (#[trigger] longer[j]).0 == k;
            if j < i {
                assert(longer[j] == entries[j]);
            } else if j > i {
                assert(longer[j] == entries[j - 1]);
            }
        }
        if expected.contains_key(k) && k != entry.0 {
            let j = choose|j: int| 0 <= j < entries.len() && (#[trigger] entries[j]).0 == k;
            if j < i {
                assert(longer[j] == entries[j]);
            } else {
                assert(longer[j + 1] == entries[j]);
            }
        }
        if k == entry.0 {
            assert(longer[i] == entry);
        }
    }
    assert forall|k: Seq<char>| #[trigger] entries_map(longer).contains_key(k) implies entries_map(longer)[k] == expected[k] by {
        let j = choose|j: int| 0 <= j < longer.len() && (#[trigger] longer[j]).0 == k;
        assert(longer[i] == entry);
        if j < i {
            assert(longer[j] == entries[j]);
            assert(longer[j].0 != longer[i].0);
        } else if j > i {
            assert(longer[j] == entries[j - 1]);
            assert(longer[j].0 != longer[i].0);
        }
    }
    assert(entries_map(longer) =~= expected);
}

/// Replacing the entry of an existing key records that key with its new value.
proof fn lemma_map_after_update(entries: Seq<(Seq<char>, Seq<char>)>, i: int, entry: (Seq<char>, Seq<char>))
    requires
        0 <= i < entries.len(),
        entries[i].0 == entry.0,
        keys_distinct(entries),
    ensures
        keys_distinct(entries.update(i, entry)),
        entries_map(entries.update(i, entry)) == entries_map(entries).insert(entry.0, entry.1),
{
    let updated = entries.update(i, entry);
    assert(keys_distinct(updated)) by {
        assert forall|a: int, b: int| 0 <= a < b < updated.len() implies updated[a].0 != updated[b].0 by {
            assert(entries[a].0 != entries[b].0);
        }
    }
    lemma_entries_map(entries);
    lemma_entries_map(updated);
    let expected = entries_map(entries).insert(entry.0, entry.1);
    assert forall|k: Seq<char>| #[trigger] entries_map(updated).contains_key(k) == expected.contains_key(k) by {
        if entries_map(updated).contains_key(k) {
            let j = choose|j: int| 0 <= j < updated.len() && (#[trigger] updated[j]).0 == k;
            assert(entries[j].0 == k);
        }
        if expected.contains_key(k) && k != entry.0 {
            let j = choose|j: int| 0 <= j < entries.len() && (#[trigger] entries[j]).0 == k;
            assert(updated[j].0 == k);
        }
        if k == entry.0 {
            assert(updated[i] == entry);
        }
    }
    assert forall|k: Seq<char>| #[trigger] entries_map(updated).contains_key(k) implies entries_map(updated)[k] == expected[k] by {
        let j = choose|j: int| 0 <= j < updated.len() && (#[trigger] updated[j]).0 == k;
        if j != i {
            assert(updated[j] == entries[j]);
            assert(entries[j].0 != entries[i].0);
        }
    }
    assert(entries_map(updated) =~= expected);
}

/// Inserting an entry whose key falls between its neighbours keeps the keys sorted.
proof fn lemma_insert_keeps_ascending(entries: Seq<(Seq<char>, Seq<char>)>, i: int, entry: (Seq<char>, Seq<char>))
    requires
        0 <= i <= entries.len(),
        keys_ascending(entries),
        forall|j: int| 0 <= j < i ==> text_less(#[trigger] entries[j].0, entry.0),
        i < entries.len() ==> text_less(entry.0, entries[i].0),
    ensures
        keys_ascending(entries.insert(i, entry)),
{
    let longer = entries.insert(i, entry);
    assert forall|a: int, b: int| 0 <= a < b < longer.len() implies text_less(longer[a].0, longer[b].0) by {
        if b < i {
            assert(longer[a] == entries[a] && longer[b] == entries[b]);
        } else if b == i {
            assert(longer[a] == entries[a]);
        } else if a < i {
            assert(longer[a] == entries[a] && longer[b] == entries[b - 1]);
            if b - 1 > i {
                lemma_text_less_transitive(entries[a].0, entry.0, entries[i].0);
                lemma_text_less_transitive(entries[a].0, entries[i].0, entries[b - 1].0);
            } else {
                lemma_text_less_transitive(entries[a].0, entry.0, entries[i].0);
            }
        } else if a == i {
            assert(longer[b] == entries[b - 1]);
            if b - 1 > i {
                lemma_text_less_transitive(entry.0, entries[i].0, entries[b - 1].0);
            }
        } else {
            assert(longer[a] == entries[a - 1] && longer[b] == entries[b - 1]);
        }
    }
}

/// The entries of a vector of key and fingerprint strings, as character sequences.
pub open spec fn entries_view(entries: Seq<(String, String)>) -> Seq<(Seq<char>, Seq<char>)> {
    entries.map_values(|entry: (String, String)| (entry.0@, entry.1@))
}

/// The exercises that have passed, each key with the fingerprint of the source and checker
/// that passed, kept sorted by key.
pub struct Progress {
    entries: Vec<(String, String)>,
}

impl View for Progress {
    type V = Seq<(Seq<char>, Seq<char>)>;

    /// The entries, in key order.
    closed spec fn view(&self) -> Seq<(Seq<char>, Seq<char>)> {
        entries_view(self.entries@)
    }
}

impl Progress {
    /// The entries are sorted by key, with no key twice. Every `Progress` keeps this.
    #[verifier::type_invariant]
    pub open spec fn wf(&self) -> bool {
        keys_ascending(self@)
    }

    /// The recorded fingerprint of each exercise key.
    pub open spec fn records(&self) -> Map<Seq<char>, Seq<char>> {
        entries_map(self@)
    }

    /// No exercise has passed yet.
    pub fn new() -> (progress: Progress)
        ensures
            progress.wf(),
            progress@ == Seq::<(Seq<char>, Seq<char>)>::empty(),
            progress.records() == Map::<Seq<char>, Seq<char>>::empty(),
    {
        assert(entries_view(Seq::<(String, String)>::empty()) =~= Seq::<(Seq<char>, Seq<char>)>::empty());
        Progress { entries: Vec::new() }
    }

    /// The number of recorded exercises.
    pub fn len(&self) -> (count: usize)
        ensures
            count == self@.len(),
            count == self.records().len(),
    {
        proof {
            use_type_invariant(self);
            lemma_ascending_distinct(self@);
            lemma_entries_map(self@);
        }
        self.entries.len()
    }

    /// The recorded fingerprint of an exercise key, if any.
    pub fn get(&self, key: &str) -> (fingerprint: Option<&String>)
        ensures
            match fingerprint {
                Some(f) => self.records().contains_key(key@) && self.records()[key@] == f@,
                None => !self.records().contains_key(key@),
            },
    {
        proof {
            use_type_invariant(self);
            lemma_ascending_distinct(self@);
            lemma_entries_map(self@);
        }
        let mut i: usize = 0;
        while i < self.entries.len()
            invariant
                i <= self@.len(),
                self@.len() == self.entries@.len(),
                self.wf(),
                forall|j: int| 0 <= j < i ==> (#[trigger] self@[j]).0 != key@,
            decreases self@.len() - i,
        {
            assert(self@[i as int] == (self.entries@[i as int].0@, self.entries@[i as int].1@));
            if str_equals(self.entries[i].0.as_str(), key) {
                proof {
                    lemma_ascending_distinct(self@);
                    lemma_entries_map(self@);
                }
                return Some(&self.entries[i].1);
            }
            i = i + 1;
        }
        proof {
            if self.records().contains_key(key@) {
                let j = choose|j: int| 0 <= j < self@.len() && (#[trigger] self@[j]).0 == key@;
            }
        }
        None
    }

    /// Records `fingerprint` for `key`, replacing any earlier record of that key.
    pub fn insert(&mut self, key: String, fingerprint: String)
        ensures
            final(self).records() == old(self).records().insert(key@, fingerprint@),
    {
        proof {
            use_type_invariant(&*self);
            lemma_ascending_distinct(self@);
        }
        let key_chars = chars_of(key.as_str());
        let ghost entry = (key@, fingerprint@);
        let ghost before = self@;
        // The position of the first key that is not before `key`, and whether it is `key`.
        let mut i: usize = 0;
        let mut stop = false;
        let mut same = false;
        while !stop && i < self.entries.len()
            invariant
                i <= before.len(),
                before == self@,
                before.len() == self.entries@.len(),
                keys_ascending(before),
                key_chars@ == key@,
                forall|j: int| 0 <= j < i ==> text_less(#[trigger] before[j].0, key@),
                same ==> stop,
                stop ==> i < before.len() && (if same {
                    before[i as int].0 == key@
                } else {
                    text_less(key@, before[i as int].0)
                }),
            decreases before.len() - i, if stop { 0int } else { 1int },
        {
            assert(before[i as int] == (self.entries@[i as int].0@, self.entries@[i as int].1@));
            let existing = chars_of(self.entries[i].0.as_str());
            match text_order(existing.as_slice(), key_chars.as_slice()) {
                TextOrder::Before => {
                    i = i + 1;
                },
                TextOrder::Same => {
                    same = true;
                    stop = true;
                },
                TextOrder::After => {
                    stop = true;
                },
            }
        }
        let mut entries: Vec<(String, String)> = Vec::new();
        std::mem::swap(&mut entries, &mut self.entries);
        assert(entries_view(entries@) == before);
        if same {
            entries.set(i, (key, fingerprint));
            proof {
                assert(entries_view(entries@) =~= before.update(i as int, entry));
                lemma_map_after_update(before, i as int, entry);
                assert forall|a: int, b: int|
                    0 <= a < b < entries@.len() implies text_less(
                    entries_view(entries@)[a].0,
                    entries_view(entries@)[b].0,
                ) by {
                    assert(entries_view(entries@)[a].0 == before[a].0);
                    assert(entries_view(entries@)[b].0 == before[b].0);
                }
            }
        } else {
            entries.insert(i, (key, fingerprint));
            proof {
                assert(entries_view(entries@) =~= before.insert(i as int, entry));
                lemma_insert_keeps_ascending(before, i as int, entry);
                lemma_ascending_distinct(entries_view(entries@));
                lemma_map_after_insert(before, i as int, entry);
            }
        }
        self.entries = entries;
    }
}

/// A line split at its first tab into key and fingerprint, if it has a tab.
pub open spec fn split_at_tab(line: Seq<char>) -> Option<(Seq<char>, Seq<char>)> {
    match find_char(line, '\t') {
        Some(i) => Some((line.take(i), line.skip(i + 1))),
        None => None,
    }
}

/// The progress that a sequence of lines records: each line with a tab records its key and
/// fingerprint, later lines overriding earlier ones; other lines are ignored.
pub open spec fn record_lines(lines: Seq<Seq<char>>) -> Map<Seq<char>, Seq<char>>
    decreases lines.len(),
{
    if lines.len() == 0 {
        Map::empty()
    } else {
        let earlier = record_lines(lines.drop_last());
        match split_at_tab(lines.last()) {
            Some((key, fingerprint)) => earlier.insert(key, fingerprint),
            None => earlier,
        }
    }
}

/// The progress that the text of a progress file records.
pub open spec fn parsed_progress(text: Seq<char>) -> Map<Seq<char>, Seq<char>> {
    record_lines(text_lines(text))
}

/// Reads the progress file's text: one `key<TAB>fingerprint` record per line; lines without a
/// tab are ignored, and a later record of a key replaces an earlier one.
pub fn parse_progress(contents: &str) -> (progress: Progress)
    ensures
        progress.wf(),
        progress.records() == parsed_progress(contents@),
{
    let chars = chars_of(contents);
    let ranges = line_ranges(chars.as_slice());
    let ghost lines = text_lines(chars@);
    let mut progress = Progress::new();
    let mut i: usize = 0;
    assert(lines.take(0) =~= Seq::<Seq<char>>::empty());
    while i < ranges.len()
        invariant
            i <= ranges@.len(),
            chars@ == contents@,
            lines == text_lines(chars@),
            ranges_hold(chars@, ranges@, lines),
            progress.records() == record_lines(lines.take(i as int)),
        decreases ranges@.len() - i,
    {
        let (start, end) = ranges[i];
        let ghost line = lines[i as int];
        assert(line == chars@.subrange(start as int, end as int));
        let mut tab: usize = start;
        while tab < end && chars[tab] != '\t'
            invariant
                start <= tab <= end <= chars@.len(),
                forall|j: int| start <= j < tab ==> chars@[j] != '\t',
            decreases end - tab,
        {
            tab = tab + 1;
        }
        if tab < end {
            let mut key = String::new();
            push_range(&mut key, chars.as_slice(), start, tab);
            let mut fingerprint = String::new();
            push_range(&mut fingerprint, chars.as_slice(), tab + 1, end);
            proof {
                assert forall|j: int| 0 <= j < tab - start implies line[j] != '\t' by {
                    assert(line[j] == chars@[start + j]);
                }
                lemma_find_char_at(line, '\t', tab - start);
                assert(key@ =~= line.take(tab - start));
                assert(fingerprint@ =~= line.skip(tab - start + 1));
            }
            progress.insert(key, fingerprint);
        } else {
            proof {
                assert forall|j: int| 0 <= j < line.len() implies line[j] != '\t' by {
                    assert(line[j] == chars@[start + j]);
                }
                lemma_find_char_none(line, '\t');
            }
        }
        assert(lines.take(i + 1).drop_last() =~= lines.take(i as int));
        i = i + 1;
    }
    assert(lines.take(i as int) =~= lines);
    proof {
        use_type_invariant(&progress);
    }
    progress
}

/// The line of the progress file that records one entry: key, tab, fingerprint.
pub open spec fn entry_line(entry: (Seq<char>, Seq<char>)) -> Seq<char> {
    entry.0 + seq!['\t'] + entry.1
}

/// The text of a progress file holding the entries in order, each line ended by `\n`.
pub open spec fn progress_text(entries: Seq<(Seq<char>, Seq<char>)>) -> Seq<char>
    decreases entries.len(),
{
    if entries.len() == 0 {
        Seq::empty()
    } else {
        entry_line(entries[0]) + seq!['\n'] + progress_text(entries.drop_first())
    }
}

proof fn lemma_progress_text_push(entries: Seq<(Seq<char>, Seq<char>)>, entry: (Seq<char>, Seq<char>))
    ensures
        progress_text(entries.push(entry)) == progress_text(entries) + entry_line(entry) + seq!['\n'],
    decreases entries.len(),
{
    if entries.len() == 0 {
        assert(entries.push(entry).drop_first() =~= Seq::<(Seq<char>, Seq<char>)>::empty());
        assert(entries.push(entry)[0] == entry);
        assert(progress_text(entries.push(entry).drop_first()) == Seq::<char>::empty());
        assert(progress_text(entries) == Seq::<char>::empty());
        assert(progress_text(entries.push(entry)) =~= progress_text(entries) + entry_line(entry) + seq!['\n']);
    } else {
        assert(entries.push(entry).drop_first() =~= entries.drop_first().push(entry));
        assert(entries.push(entry)[0] == entries[0]);
        lemma_progress_text_push(entries.drop_first(), entry);
        assert(progress_text(entries.push(entry)) =~= progress_text(entries) + entry_line(entry) + seq!['\n']);
    }
}

/// The text of the progress file for the recorded progress: one `key<TAB>fingerprint` line per
/// exercise, in key order.
pub fn serialize_progress(progress: &Progress) -> (text: String)
    ensures
        text@ == progress_text(progress@),
{
    let mut text = String::new();
    let mut i: usize = 0;
    assert(progress@.take(0) =~= Seq::<(Seq<char>, Seq<char>)>::empty());
    while i < progress.entries.len()
        invariant
            i <= progress@.len(),
            progress@.len() == progress.entries@.len(),
            text@ == progress_text(progress@.take(i as int)),
        decreases progress@.len() - i,
    {
        assert(progress@[i as int] == (progress.entries@[i as int].0@, progress.entries@[i as int].1@));
        text.append(progress.entries[i].0.as_str());
        text.append("\t");
        text.append(progress.entries[i].1.as_str());
        text.append("\n");
        proof {
            reveal_strlit("\t");
            reveal_strlit("\n");
            assert(progress@.take(i + 1) =~= progress@.take(i as int).push(progress@[i as int]));
            lemma_progress_text_push(progress@.take(i as int), progress@[i as int]);
            assert(text@ =~= progress_text(progress@.take(i + 1)));
        }
        i = i + 1;
    }
    assert(progress@.take(i as int) =~= progress@);
    text
}

/// An entry that a progress file can hold so that reading it back gives the same entry: the
/// key has no tab or line break, and the fingerprint has no line break and does not end in a
/// carriage return.
pub open spec fn storable_entry(entry: (Seq<char>, Seq<char>)) -> bool {
    &&& !entry.0.contains('\t')
    &&& !entry.0.contains('\n')
    &&& !entry.1.contains('\n')
    &&& !(entry.1.len() > 0 && entry.1.last() == '\r')
}

proof fn lemma_text_lines_of_entries(entries: Seq<(Seq<char>, Seq<char>)>)
    requires
        forall|i: int| 0 <= i < entries.len() ==> storable_entry(#[trigger] entries[i]),
    ensures
        text_lines(progress_text(entries)) == Seq::new(entries.len(), |i: int| entry_line(entries[i])),
    decreases entries.len(),
{
    if entries.len() == 0 {
        assert(text_lines(progress_text(entries)) =~= Seq::new(entries.len(), |i: int| entry_line(entries[i])));
    } else {
        let first = entries[0];
        assert(storable_entry(first));
        let line = entry_line(first);
        let rest = entries.drop_first();
        assert forall|i: int| 0 <= i < rest.len() implies storable_entry(#[trigger] rest[i]) by {
            assert(rest[i] == entries[i + 1]);
        }
        lemma_text_lines_of_entries(rest);
        let text = progress_text(entries);
        assert(text == line + seq!['\n'] + progress_text(rest));
        assert forall|j: int| 0 <= j < line.len() implies text[j] != '\n' by {
            assert(text[j] == line[j]);
            if j < first.0.len() {
                assert(first.0[j] == line[j]);
                assert(first.0.contains(line[j]));
            } else if j > first.0.len() {
                assert(first.1[j - first.0.len() - 1] == line[j]);
                assert(first.1.contains(line[j]));
            }
        }
        assert(text[line.len() as int] == '\n');
        lemma_find_char_at(text, '\n', line.len() as int);
        assert(text.take(line.len() as int) =~= line);
        assert(text.skip(line.len() as int + 1) =~= progress_text(rest));
        assert(line.last() != '\r') by {
            if first.1.len() == 0 {
                assert(line.last() == '\t');
            } else {
                assert(line.last() == first.1.last());
            }
        }
        assert(strip_carriage_return(line) == line);
        assert(text_lines(text) =~= Seq::new(entries.len(), |i: int| entry_line(entries[i])));
    }
}

proof fn lemma_record_entry_lines(entries: Seq<(Seq<char>, Seq<char>)>)
    requires
        forall|i: int| 0 <= i < entries.len() ==> storable_entry(#[trigger] entries[i]),
    ensures
        record_lines(Seq::new(entries.len(), |i: int| entry_line(entries[i]))) == entries_map(entries),
    decreases entries.len(),
{
    if entries.len() > 0 {
        let lines = Seq::new(entries.len(), |i: int| entry_line(entries[i]));
        let earlier = entries.drop_last();
        assert forall|i: int| 0 <= i < earlier.len() implies storable_entry(#[trigger] earlier[i]) by {
            assert(earlier[i] == entries[i]);
        }
        lemma_record_entry_lines(earlier);
        assert(lines.drop_last() =~= Seq::new(earlier.len(), |i: int| entry_line(earlier[i])));
        let last = entries.last();
        assert(storable_entry(entries[entries.len() - 1]));
        let line = entry_line(last);
        assert forall|j: int| 0 <= j < last.0.len() implies line[j] != '\t' by {
            assert(line[j] == last.0[j]);
            assert(last.0.contains(line[j]));
        }
        lemma_find_char_at(line, '\t', last.0.len() as int);
        assert(line.take(last.0.len() as int) =~= last.0);
        assert(line.skip(last.0.len() as int + 1) =~= last.1);
    }
}

/// Writing progress and reading it back gives the same records, provided every key has no tab
/// or line break and every fingerprint has no line break and does not end in a carriage return.
pub proof fn lemma_progress_round_trip(entries: Seq<(Seq<char>, Seq<char>)>)
    requires
        forall|i: int| 0 <= i < entries.len() ==> storable_entry(#[trigger] entries[i]),
    ensures
        parsed_progress(progress_text(entries)) == entries_map(entries),
{
    lemma_text_lines_of_entries(entries);
    lemma_record_entry_lines(entries);
}


/// Progress that was saved and read back is the same progress, entry for entry, provided its
/// keys and fingerprints can be stored (see `storable_entry`).
pub proof fn lemma_saved_progress_reads_back(saved: Progress, read: Progress)
    requires
        saved.wf(),
        read.wf(),
        forall|i: int| 0 <= i < saved@.len() ==> storable_entry(#[trigger] saved@[i]),
        read.records() == parsed_progress(progress_text(saved@)),
    ensures
        read@ == saved@,
        read.records() == saved.records(),
{
    lemma_progress_round_trip(saved@);
    lemma_sorted_entries_unique(read@, saved@);
}

} // verus!
