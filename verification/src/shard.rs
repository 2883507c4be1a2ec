//! The text of one shard, sorted by language.
//!
//! A shard is worked through record by record: the lines of a record that are
//! long enough are classified, and each line whose language is supported is
//! kept under that language. When the shard is done, what was kept goes to the
//! writers, one item for each language.

use crate::lang::{is_supported, lang_index, lookup};
use crate::langfiles::LangFiles;
use crate::record::{candidate_lines, candidates_of, line_views, RawRecord};
use crate::text::{join_lines, joined_with, lemma_first_index, str_eq};
use crate::writer::{Item, ItemView, WriterView};
use vstd::prelude::*;
use vstd::utf8::{decode_utf8, valid_utf8};

verus! {

/// One answer of a classifier: the label of a language.
#[derive(Debug, Clone, PartialEq, Eq)]
pub struct Prediction {
    pub label: String,
}

/// The label that counts among the answers for one line: that of the first
/// prediction, if there is one.
pub open spec fn top_label(predictions: Option<Vec<Prediction>>) -> Option<Seq<char>> {
    match predictions {
        Some(list) => if list@.len() > 0 {
            Some(list@[0].label@)
        } else {
            None
        },
        None => None,
    }
}

/// The labels that count, line by line.
pub open spec fn labels_of(predictions: Seq<Option<Vec<Prediction>>>) -> Seq<Option<Seq<char>>> {
    predictions.map_values(|answer: Option<Vec<Prediction>>| top_label(answer))
}

/// Of the first `n` lines, those that have a label and whose label is a
/// supported language, each with that language, in the order of the lines.
pub open spec fn classified_upto(
    lines: Seq<Seq<char>>,
    labels: Seq<Option<Seq<char>>>,
    n: nat,
) -> Seq<(Seq<char>, Seq<char>)>
    decreases n,
{
    if n == 0 {
        Seq::empty()
    } else {
        let before = classified_upto(lines, labels, (n - 1) as nat);
        let label = labels[n - 1];
        if label is Some && is_supported(label->Some_0) {
            before.push((lines[n - 1], label->Some_0))
        } else {
            before
        }
    }
}

/// The lines that are kept, each with its language. A line without a label is
/// left out, and so is a line whose label is no supported language. Lines
/// and labels go by pairs: what either has more than the other is left out.
pub open spec fn classified(lines: Seq<Seq<char>>, labels: Seq<Option<Seq<char>>>) -> Seq<
    (Seq<char>, Seq<char>),
> {
    classified_upto(
        lines,
        labels,
        if lines.len() <= labels.len() {
            lines.len()
        } else {
            labels.len()
        },
    )
}

/// The views of pairs of a line and its language, in the same order.
pub open spec fn pair_views(pairs: Seq<(String, &'static str)>) -> Seq<(Seq<char>, Seq<char>)> {
    pairs.map_values(|pair: (String, &'static str)| (pair.0@, pair.1@))
}

/// Whether `predictions` are answers that `classify` can give for `lines`,
/// one for each line.
pub open spec fn answers<F: Fn(&String) -> Option<Vec<Prediction>>>(
    classify: &F,
    lines: Seq<String>,
    predictions: Seq<Option<Vec<Prediction>>>,
) -> bool {
    &&& predictions.len() == lines.len()
    &&& forall|i: int|
        0 <= i < lines.len() ==> classify.ensures((&lines[i],), #[trigger] predictions[i])
}

/// Pairs each line with the language of its first prediction, where there is
/// one and the language is supported.
pub fn select_classified(lines: Vec<String>, predictions: Vec<Option<Vec<Prediction>>>) -> (kept:
    Vec<(String, &'static str)>)
    ensures
        pair_views(kept@) == classified(line_views(lines@), labels_of(predictions@)),
{
    let n = if lines.len() <= predictions.len() {
        lines.len()
    } else {
        predictions.len()
    };
    let ghost texts = line_views(lines@);
    let ghost labels = labels_of(predictions@);
    let mut kept: Vec<(String, &'static str)> = Vec::new();
    let mut i: usize = 0;
    while i < n
        invariant
            i <= n,
            n <= lines.len(),
            n <= predictions.len(),
            texts == line_views(lines@),
            labels == labels_of(predictions@),
            pair_views(kept@) == classified_upto(texts, labels, i as nat),
        decreases n - i,
    {
        match &predictions[i] {
            Some(list) => {
                if list.len() > 0 {
                    match lookup(list[0].label.as_str()) {
                        Some(lang) => {
                            kept.push((lines[i].clone(), lang));
                        },
                        None => {},
                    }
                }
            },
            None => {},
        }
        i = i + 1;
    }
    kept
}

/// Asks `classify` about each of `lines`, in order.
pub fn classify_all<F: Fn(&String) -> Option<Vec<Prediction>>>(
    lines: &Vec<String>,
    classify: &F,
) -> (predictions: Vec<Option<Vec<Prediction>>>)
    requires
        forall|line: &String| #[trigger] classify.requires((line,)),
    ensures
        answers(classify, lines@, predictions@),
{
    let mut predictions: Vec<Option<Vec<Prediction>>> = Vec::new();
    let mut i: usize = 0;
    while i < lines.len()
        invariant
            i <= lines.len(),
            predictions.len() == i,
            forall|line: &String| #[trigger] classify.requires((line,)),
            forall|j: int| 0 <= j < i ==> classify.ensures((&lines[j],), #[trigger] predictions[j]),
        decreases lines.len() - i,
    {
        let answer = classify(&lines[i]);
        predictions.push(answer);
        i = i + 1;
    }
    predictions
}

/// Works through one record: `None` where its body is not text; else the
/// lines of the body that are long enough and that `classify` gives a
/// supported language, each with that language, in the order of the body.
pub fn process_record<F: Fn(&String) -> Option<Vec<Prediction>>>(
    record: RawRecord,
    classify: &F,
) -> (found: Option<Vec<(String, &'static str)>>)
    requires
        forall|line: &String| #[trigger] classify.requires((line,)),
    ensures
        found is Some <==> valid_utf8(record.body@),
        found is Some ==> exists|lines: Seq<String>, predictions: Seq<Option<Vec<Prediction>>>|
            {
                &&& #[trigger] answers(classify, lines, predictions)
                &&& line_views(lines) == candidates_of(decode_utf8(record.body@))
                &&& pair_views(found->Some_0@) == classified(
                    line_views(lines),
                    labels_of(predictions),
                )
            },
{
    match candidate_lines(record.body) {
        None => None,
        Some(lines) => {
            let predictions = classify_all(&lines, classify);
            Some(select_classified(lines, predictions))
        },
    }
}

/// What a [`ShardContent`] holds: for each language met, in the order in
/// which the languages were first met, its lines in the order in which they
/// came.
pub struct ShardContentView {
    pub entries: Seq<(Seq<char>, Seq<Seq<char>>)>,
}

impl ShardContentView {
    /// The content of a shard of which nothing was kept yet.
    pub open spec fn empty() -> ShardContentView {
        ShardContentView { entries: Seq::empty() }
    }

    /// The languages met, in the order in which they were first met.
    pub open spec fn langs(self) -> Seq<Seq<char>> {
        self.entries.map_values(|entry: (Seq<char>, Seq<Seq<char>>)| entry.0)
    }

    /// The lines kept under `lang`; none where `lang` was not met.
    pub open spec fn lines(self, lang: Seq<char>) -> Seq<Seq<char>> {
        match self.langs().index_of_first(lang) {
            Some(i) => self.entries[i].1,
            None => Seq::empty(),
        }
    }

    /// The content after `line` was kept under `lang`.
    pub open spec fn insert(self, line: Seq<char>, lang: Seq<char>) -> ShardContentView {
        match self.langs().index_of_first(lang) {
            Some(i) => ShardContentView {
                entries: self.entries.update(i, (lang, self.entries[i].1.push(line))),
            },
            None => ShardContentView { entries: self.entries.push((lang, seq![line])) },
        }
    }

    /// The content after each of `pairs`, a line and its language, was kept.
    pub open spec fn insert_all(self, pairs: Seq<(Seq<char>, Seq<char>)>) -> ShardContentView
        decreases pairs.len(),
    {
        if pairs.len() == 0 {
            self
        } else {
            self.insert_all(pairs.drop_last()).insert(pairs.last().0, pairs.last().1)
        }
    }

    /// No language stands twice, and every language has a line.
    pub open spec fn wf(self) -> bool {
        &&& self.langs().no_duplicates()
        &&& forall|i: int| 0 <= i < self.entries.len() ==> (#[trigger] self.entries[i]).1.len() > 0
    }

    /// Whether every language met is a supported one.
    pub open spec fn all_supported(self) -> bool {
        forall|i: int| 0 <= i < self.entries.len() ==> is_supported((#[trigger] self.entries[i]).0)
    }
}

/// Of `pairs`, each a line and its language, the lines of `lang`, in order.
pub open spec fn lines_for(pairs: Seq<(Seq<char>, Seq<char>)>, lang: Seq<char>) -> Seq<Seq<char>>
    decreases pairs.len(),
{
    if pairs.len() == 0 {
        Seq::empty()
    } else if pairs.last().1 == lang {
        lines_for(pairs.drop_last(), lang).push(pairs.last().0)
    } else {
        lines_for(pairs.drop_last(), lang)
    }
}

/// The view of one entry: the language and its lines.
pub open spec fn entry_view(entry: (&'static str, Vec<String>)) -> (Seq<char>, Seq<Seq<char>>) {
    (entry.0@, line_views(entry.1@))
}

/// The lines of one shard, by language.
#[derive(Debug)]
pub struct ShardContent {
    inner: Vec<(&'static str, Vec<String>)>,
}

impl View for ShardContent {
    type V = ShardContentView;

    closed spec fn view(&self) -> ShardContentView {
        ShardContentView {
            entries: self.inner@.map_values(|entry: (&'static str, Vec<String>)| entry_view(entry)),
        }
    }
}

impl ShardContent {
    /// A content without lines.
    pub fn new() -> (content: ShardContent)
        ensures
            content@ == ShardContentView::empty(),
    {
        let content = ShardContent { inner: Vec::new() };
        assert(content@.entries =~= Seq::empty());
        content
    }

    /// Where `lang` stands among the languages met.
    fn find(&self, lang: &str) -> (found: Option<usize>)
        ensures
            found is Some ==> found->Some_0 < self.inner.len(),
            self@.langs().index_of_first(lang@) == match found {
                Some(i) => Some(i as int),
                None => None,
            },
    {
        let ghost langs = self@.langs();
        let mut i: usize = 0;
        while i < self.inner.len()
            invariant
                i <= self.inner.len(),
                langs == self@.langs(),
                forall|j: int| 0 <= j < i ==> langs[j] != lang@,
            decreases self.inner.len() - i,
        {
            if str_eq(self.inner[i].0, lang) {
                proof {
                    lemma_first_index(langs, lang@, i as int);
                }
                return Some(i);
            }
            i = i + 1;
        }
        proof {
            langs.index_of_first_ensures(lang@);
        }
        None
    }

    /// Keeps `sentence` under `lang`, behind the lines that `lang` has. The
    /// lines of every other language stay as they are.
    pub fn insert(&mut self, sentence: String, lang: &'static str)
        ensures
            final(self)@ == old(self)@.insert(sentence@, lang@),
    {
        match self.find(lang) {
            Some(i) => {
                proof {
                    self@.langs().index_of_first_ensures(lang@);
                }
                let ghost before = self.inner@[i as int].1@;
                self.inner[i].1.push(sentence);
                assert(line_views(self.inner@[i as int].1@) =~= line_views(before).push(
                    sentence@,
                ));
                assert(self@.entries =~= old(self)@.insert(sentence@, lang@).entries);
            },
            None => {
                let mut sentences: Vec<String> = Vec::new();
                sentences.push(sentence);
                self.inner.push((lang, sentences));
                assert(line_views(sentences@) =~= seq![sentence@]);
                assert(self@.entries =~= old(self)@.insert(sentence@, lang@).entries);
            },
        }
    }

    /// Keeps each line of `pairs` under its language, in order.
    pub fn extend(&mut self, pairs: Vec<(String, &'static str)>)
        ensures
            final(self)@ == old(self)@.insert_all(pair_views(pairs@)),
    {
        let ghost views = pair_views(pairs@);
        let mut i: usize = 0;
        while i < pairs.len()
            invariant
                i <= pairs.len(),
                views == pair_views(pairs@),
                self@ == old(self)@.insert_all(views.take(i as int)),
            decreases pairs.len() - i,
        {
            proof {
                assert(views.take(i + 1).drop_last() == views.take(i as int));
            }
            self.insert(pairs[i].0.clone(), pairs[i].1);
            i = i + 1;
        }
        assert(views.take(pairs.len() as int) == views);
    }

    /// The lines kept under `lang`, if `lang` was met.
    pub fn get(&self, lang: &str) -> (lines: Option<&Vec<String>>)
        ensures
            lines is Some <==> self@.langs().contains(lang@),
            lines is Some ==> line_views(lines->Some_0@) == self@.lines(lang@),
            lines is None ==> self@.lines(lang@).len() == 0,
    {
        proof {
            self@.langs().index_of_first_ensures(lang@);
        }
        match self.find(lang) {
            Some(i) => Some(&self.inner[i].1),
            None => None,
        }
    }

    /// The languages met and their lines, in the order in which the languages
    /// were first met.
    pub fn inner(&self) -> (inner: &Vec<(&'static str, Vec<String>)>)
        ensures
            inner@.map_values(|entry: (&'static str, Vec<String>)| entry_view(entry))
                == self@.entries,
    {
        &self.inner
    }
}

/// The item that a shard hands to the writer of a language: the lines kept
/// under the language, with a line feed between each two, and the record
/// that describes the shard.
pub open spec fn shard_item(lines: Seq<Seq<char>>, metadata: Seq<char>) -> ItemView {
    ItemView { text: joined_with(lines, seq!['\n']), metadata }
}

/// The writers after a shard's content went to them: for each language of
/// `entries`, in order, one item written to the writer of that language.
pub open spec fn flushed(
    files: Seq<WriterView>,
    entries: Seq<(Seq<char>, Seq<Seq<char>>)>,
    metadata: Seq<char>,
) -> Seq<WriterView>
    decreases entries.len(),
{
    if entries.len() == 0 {
        files
    } else {
        let before = flushed(files, entries.drop_last(), metadata);
        let entry = entries.last();
        let index = lang_index(entry.0);
        before.update(index, before[index].write_one(shard_item(entry.1, metadata)))
    }
}

/// The items that a shard hands over, each with the language whose writer it
/// is for: one item for each language of `entries`, in order.
pub open spec fn shard_items(
    entries: Seq<(Seq<char>, Seq<Seq<char>>)>,
    metadata: Seq<char>,
) -> Seq<(Seq<char>, ItemView)> {
    entries.map_values(
        |entry: (Seq<char>, Seq<Seq<char>>)| (entry.0, shard_item(entry.1, metadata)),
    )
}

/// The views of items that go with a language, in the same order.
pub open spec fn lang_item_views(items: Seq<(&'static str, Item)>) -> Seq<(Seq<char>, ItemView)> {
    items.map_values(|item: (&'static str, Item)| (item.0@, item.1@))
}

impl ShardContent {
    /// The items that the shard hands over, each with the language whose
    /// writer it is for: for each language met, in order, one item that holds
    /// the lines of the language with a line feed between each two, and
    /// `metadata` as its record.
    pub fn items(&self, metadata: &str) -> (items: Vec<(&'static str, Item)>)
        ensures
            lang_item_views(items@) == shard_items(self@.entries, metadata@),
    {
        let ghost views = self@.entries;
        let mut items: Vec<(&'static str, Item)> = Vec::new();
        let mut i: usize = 0;
        while i < self.inner.len()
            invariant
                i <= self.inner.len(),
                views == self@.entries,
                lang_item_views(items@) == shard_items(views.take(i as int), metadata@),
            decreases self.inner.len() - i,
        {
            let text = join_lines(&self.inner[i].1, "\n");
            let item = Item { text, metadata: metadata.to_owned() };
            proof {
                reveal_strlit("\n");
                assert("\n"@ =~= seq!['\n']);
                assert(lang_item_views(items@.push((self.inner@[i as int].0, item)))
                    =~= lang_item_views(items@).push((views[i as int].0, item@)));
            }
            items.push((self.inner[i].0, item));
            i = i + 1;
        }
        items
    }
}

/// Hands the content of a shard to the writers: for each language met, one
/// item that holds its lines, described by `metadata`.
pub fn flush(files: &mut LangFiles, content: &ShardContent, metadata: &str)
    requires
        old(files).wf(),
        content@.all_supported(),
    ensures
        final(files).wf(),
        final(files)@ == flushed(old(files)@, content@.entries, metadata@),
{
    let items = content.items(metadata);
    let ghost views = content@.entries;
    assert(lang_item_views(items@).len() == items@.len());
    let mut i: usize = 0;
    while i < items.len()
        invariant
            i <= items.len(),
            items.len() == views.len(),
            views == content@.entries,
            lang_item_views(items@) == shard_items(views, metadata@),
            content@.all_supported(),
            files.wf(),
            files@ == flushed(old(files)@, views.take(i as int), metadata@),
        decreases items.len() - i,
    {
        proof {
            assert(views.take(i + 1).drop_last() == views.take(i as int));
            assert(lang_item_views(items@)[i as int] == (items@[i as int].0@, items@[i as int].1@));
        }
        files.write_single(items[i].0, &items[i].1);
        i = i + 1;
    }
    assert(views.take(items.len() as int) == views);
}

/// What a content holds after lines were kept, stated over the lines: under
/// each language its own lines, in the order in which they came, and under no
/// language a line of another.
pub proof fn lemma_inserted_lines(
    content: ShardContentView,
    pairs: Seq<(Seq<char>, Seq<char>)>,
    lang: Seq<char>,
)
    ensures
        content.insert_all(pairs).lines(lang) == content.lines(lang) + lines_for(pairs, lang),
    decreases pairs.len(),
{
    if pairs.len() > 0 {
        let before = content.insert_all(pairs.drop_last());
        lemma_inserted_lines(content, pairs.drop_last(), lang);
        lemma_insert_lines(before, pairs.last().0, pairs.last().1, lang);
    }
}

/// What one more line changes: the lines of its language have it at their
/// end, and the lines of every other language are what they were.
pub proof fn lemma_insert_lines(
    content: ShardContentView,
    line: Seq<char>,
    lang: Seq<char>,
    other: Seq<char>,
)
    ensures
        content.insert(line, lang).lines(lang) == content.lines(lang).push(line),
        other != lang ==> content.insert(line, lang).lines(other) == content.lines(other),
        content.wf() ==> content.insert(line, lang).wf(),
        content.all_supported() && is_supported(lang) ==> content.insert(line, lang).all_supported(),
{
    let after = content.insert(line, lang);
    let langs = content.langs();
    langs.index_of_first_ensures(lang);
    langs.index_of_first_ensures(other);
    after.langs().index_of_first_ensures(other);
    match langs.index_of_first(lang) {
        Some(i) => {
            assert(after.langs() =~= langs);
        },
        None => {
            assert(after.langs() =~= langs.push(lang));
            let last = langs.len() as int;
            if other != lang && langs.contains(other) {
                let k = langs.index_of_first(other)->Some_0;
                lemma_first_index(after.langs(), other, k);
            }
            lemma_first_index(after.langs(), lang, last);
        },
    }
}

/// Lines kept in a content that was empty: under each language exactly the
/// lines that came with it, in the order in which they came.
pub proof fn lemma_fresh_content(pairs: Seq<(Seq<char>, Seq<char>)>, lang: Seq<char>)
    ensures
        ShardContentView::empty().insert_all(pairs).lines(lang) == lines_for(pairs, lang),
{
    let empty = ShardContentView::empty();
    lemma_inserted_lines(empty, pairs, lang);
    empty.langs().index_of_first_ensures(lang);
}

/// Every line that is kept has a supported language.
pub proof fn lemma_classified_supported(
    lines: Seq<Seq<char>>,
    labels: Seq<Option<Seq<char>>>,
    n: nat,
)
    ensures
        forall|i: int|
            0 <= i < classified_upto(lines, labels, n).len() ==> is_supported(
                (#[trigger] classified_upto(lines, labels, n)[i]).1,
            ),
    decreases n,
{
    if n > 0 {
        lemma_classified_supported(lines, labels, (n - 1) as nat);
        let before = classified_upto(lines, labels, (n - 1) as nat);
        let all = classified_upto(lines, labels, n);
        assert forall|i: int| 0 <= i < all.len() implies is_supported((#[trigger] all[i]).1) by {
            if i < before.len() {
                assert(all[i] == before[i]);
            }
        }
    }
}

/// Keeping two runs of lines one after the other is keeping them as one run.
pub proof fn lemma_insert_all_concat(
    content: ShardContentView,
    first: Seq<(Seq<char>, Seq<char>)>,
    second: Seq<(Seq<char>, Seq<char>)>,
)
    ensures
        content.insert_all(first + second) == content.insert_all(first).insert_all(second),
    decreases second.len(),
{
    if second.len() > 0 {
        lemma_insert_all_concat(content, first, second.drop_last());
        assert((first + second).drop_last() == first + second.drop_last());
    }
}

/// Keeping lines keeps a content well formed, and keeps its languages
/// supported where the languages of the lines are.
pub proof fn lemma_insert_all_keeps(content: ShardContentView, pairs: Seq<(Seq<char>, Seq<char>)>)
    ensures
        content.wf() ==> content.insert_all(pairs).wf(),
        content.all_supported() && (forall|i: int|
            0 <= i < pairs.len() ==> is_supported((#[trigger] pairs[i]).1))
            ==> content.insert_all(pairs).all_supported(),
    decreases pairs.len(),
{
    if pairs.len() > 0 {
        lemma_insert_all_keeps(content, pairs.drop_last());
        let last = pairs.last();
        lemma_insert_lines(content.insert_all(pairs.drop_last()), last.0, last.1, last.1);
    }
}

} // verus!
