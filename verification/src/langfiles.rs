//! The writers of a run, one for each language.
//!
//! [`LangFiles`] has a writer for every supported language from the start.
//! [`LangFilesDoc`] starts empty and gets a writer when a language is first
//! met. Exclusive access to a writer is what `&mut` gives: who shares a
//! registry between threads wraps it in a lock of their choice.

use crate::lang::{is_supported, lang_codes, lang_index, LANG, NB_LANG};
use crate::model::ModelKind;
use crate::tag::LanguageTag;
use crate::text::{lemma_first_index, str_eq};
use crate::writer::{item_views, Item, ItemView, Writer, WriterView};
use std::marker::PhantomData;
use vstd::prelude::*;

verus! {

/// The views of `writers`, in the same order.
pub open spec fn writer_views(writers: Seq<Writer>) -> Seq<WriterView> {
    writers.map_values(|writer: Writer| writer@)
}

/// The languages of `writers`, in the same order.
pub open spec fn langs_of(writers: Seq<WriterView>) -> Seq<Seq<char>> {
    writers.map_values(|writer: WriterView| writer.lang)
}

/// `writers` with the metadata stream of each closed.
pub open spec fn all_closed(writers: Seq<WriterView>) -> Seq<WriterView> {
    writers.map_values(|writer: WriterView| writer.close())
}

/// Whether every writer of `writers` is well formed.
pub open spec fn all_wf(writers: Seq<WriterView>) -> bool {
    forall|i: int| 0 <= i < writers.len() ==> (#[trigger] writers[i]).wf()
}

/// Where the first writer for `lang` stands in `writers`.
fn find(writers: &Vec<Writer>, lang: &str) -> (found: Option<usize>)
    ensures
        found is Some ==> found->Some_0 < writers.len(),
        langs_of(writer_views(writers@)).index_of_first(lang@) == match found {
            Some(i) => Some(i as int),
            None => None,
        },
{
    let ghost langs = langs_of(writer_views(writers@));
    let mut i: usize = 0;
    while i < writers.len()
        invariant
            i <= writers.len(),
            langs == langs_of(writer_views(writers@)),
            forall|j: int| 0 <= j < i ==> langs[j] != lang@,
        decreases writers.len() - i,
    {
        if str_eq(writers[i].lang().as_str(), lang) {
            proof {
                lemma_first_index(langs, lang@, i as int);
            }
            return Some(i);
        }
        i = i + 1;
    }
    proof {
        langs.index_of_first_ensures(lang@);
    }
    None
}

/// Writes `items` to the writer at `index`.
fn write_at(writers: &mut Vec<Writer>, index: usize, items: Vec<Item>)
    requires
        index < old(writers).len(),
        all_wf(writer_views(old(writers)@)),
    ensures
        all_wf(writer_views(final(writers)@)),
        writer_views(final(writers)@) == writer_views(old(writers)@).update(
            index as int,
            old(writers)@[index as int]@.write_all(item_views(items@)),
        ),
{
    assert(writer_views(writers@)[index as int].wf());
    writers[index].write(items);
    assert forall|j: int| 0 <= j < writers.len() implies (#[trigger] writer_views(
        writers@,
    )[j]).wf() by {
        if j != index {
            assert(writer_views(old(writers)@)[j].wf());
        }
    }
}

/// Writes `item` to the writer at `index`.
fn write_single_at(writers: &mut Vec<Writer>, index: usize, item: &Item)
    requires
        index < old(writers).len(),
        all_wf(writer_views(old(writers)@)),
    ensures
        all_wf(writer_views(final(writers)@)),
        writer_views(final(writers)@) == writer_views(old(writers)@).update(
            index as int,
            old(writers)@[index as int]@.write_one(item@),
        ),
{
    assert(writer_views(writers@)[index as int].wf());
    writers[index].write_single(item);
    assert forall|j: int| 0 <= j < writers.len() implies (#[trigger] writer_views(
        writers@,
    )[j]).wf() by {
        if j != index {
            assert(writer_views(old(writers)@)[j].wf());
        }
    }
}

/// Closes the metadata stream of every writer.
fn close_all(writers: &mut Vec<Writer>)
    requires
        all_wf(writer_views(old(writers)@)),
    ensures
        all_wf(writer_views(final(writers)@)),
        writer_views(final(writers)@) == all_closed(writer_views(old(writers)@)),
{
    let ghost before = writers@;
    let mut i: usize = 0;
    while i < writers.len()
        invariant
            i <= writers.len(),
            writers.len() == before.len(),
            all_wf(writer_views(writers@)),
            forall|j: int| 0 <= j < i ==> (#[trigger] writers@[j])@ == before[j]@.close(),
            forall|j: int| i <= j < writers.len() ==> (#[trigger] writers@[j])@ == before[j]@,
        decreases writers.len() - i,
    {
        let ghost open = writers@;
        assert(writer_views(open)[i as int].wf());
        writers[i].close_meta();
        assert forall|j: int| 0 <= j < writers.len() implies (#[trigger] writer_views(
            writers@,
        )[j]).wf() by {
            if j != i {
                assert(writer_views(open)[j].wf());
            }
        }
        i = i + 1;
    }
}

/// The writers of a run over the supported languages: one for each code of
/// [`LANG`], in that order.
pub struct LangFiles {
    writers: Vec<Writer>,
}

impl View for LangFiles {
    type V = Seq<WriterView>;

    closed spec fn view(&self) -> Seq<WriterView> {
        writer_views(self.writers@)
    }
}

impl LangFiles {
    /// Holds of every registry that this module hands out: its writers are
    /// well formed, and the writer at an index writes the language at that
    /// index of [`LANG`].
    pub open spec fn wf(&self) -> bool {
        &&& all_wf(self@)
        &&& langs_of(self@) == lang_codes()
    }

    /// A registry with a new writer for every supported language.
    /// `part_size_bytes` is the size that a part should not exceed: a part is
    /// larger where one item alone is, and with the size unset no writer ever
    /// rotates. [`Self::close_meta`] has to be called once every write is done.
    pub fn new(part_size_bytes: Option<u64>) -> (files: LangFiles)
        ensures
            files.wf(),
            files@.len() == lang_codes().len(),
            forall|i: int|
                0 <= i < files@.len() ==> #[trigger] files@[i] == WriterView::fresh(
                    lang_codes()[i],
                    part_size_bytes,
                ),
    {
        let mut writers: Vec<Writer> = Vec::with_capacity(NB_LANG);
        let mut i: usize = 0;
        while i < NB_LANG
            invariant
                i <= NB_LANG,
                NB_LANG == lang_codes().len(),
                writers.len() == i,
                all_wf(writer_views(writers@)),
                forall|j: int|
                    0 <= j < i ==> (#[trigger] writers@[j])@ == WriterView::fresh(
                        lang_codes()[j],
                        part_size_bytes,
                    ),
            decreases NB_LANG - i,
        {
            writers.push(Writer::new(LANG[i], part_size_bytes));
            i = i + 1;
        }
        let files = LangFiles { writers };
        assert(langs_of(files@) =~= lang_codes());
        files
    }

    /// The writers, in the order of [`LANG`].
    pub fn writers(&self) -> (writers: &Vec<Writer>)
        ensures
            writer_views(writers@) == self@,
            self.wf() ==> all_wf(writer_views(writers@)),
    {
        &self.writers
    }

    /// Whether there is a writer for `lang`.
    pub fn contains(&self, lang: &str) -> (found: bool)
        requires
            self.wf(),
        ensures
            found == is_supported(lang@),
            found == langs_of(self@).contains(lang@),
    {
        proof {
            langs_of(self@).index_of_first_ensures(lang@);
        }
        find(&self.writers, lang).is_some()
    }

    /// Writes `items` to the writer of `lang`; no other writer changes.
    pub fn write(&mut self, lang: &str, items: Vec<Item>)
        requires
            old(self).wf(),
            is_supported(lang@),
        ensures
            final(self).wf(),
            final(self)@ == old(self)@.update(
                lang_index(lang@),
                old(self)@[lang_index(lang@)].write_all(item_views(items@)),
            ),
    {
        proof {
            lang_codes().index_of_first_ensures(lang@);
        }
        let found = find(&self.writers, lang);
        let index = found.unwrap();
        let ghost before = self@[index as int];
        proof {
            crate::layout::lemma_write_all_wf(before, item_views(items@));
        }
        write_at(&mut self.writers, index, items);
        assert(langs_of(self@) =~= lang_codes());
    }

    /// Writes `item` to the writer of `lang`; no other writer changes.
    pub fn write_single(&mut self, lang: &str, item: &Item)
        requires
            old(self).wf(),
            is_supported(lang@),
        ensures
            final(self).wf(),
            final(self)@ == old(self)@.update(
                lang_index(lang@),
                old(self)@[lang_index(lang@)].write_one(item@),
            ),
    {
        proof {
            lang_codes().index_of_first_ensures(lang@);
        }
        let found = find(&self.writers, lang);
        let index = found.unwrap();
        write_single_at(&mut self.writers, index, item);
        assert(langs_of(self@) =~= lang_codes());
    }

    /// Closes the metadata stream of every writer: the separator behind the
    /// last record goes, and the array is closed.
    pub fn close_meta(&mut self)
        requires
            old(self).wf(),
        ensures
            final(self).wf(),
            final(self)@ == all_closed(old(self)@),
    {
        close_all(&mut self.writers);
        assert(langs_of(self@) =~= lang_codes());
    }

    /// The writers, in the order of [`LANG`], which the registry gives up: for
    /// who shares them between threads, each behind a lock of its own.
    pub fn into_writers(self) -> (writers: Vec<Writer>)
        ensures
            writer_views(writers@) == self@,
            self.wf() ==> all_wf(writer_views(writers@)) && langs_of(writer_views(writers@)) == lang_codes(),
    {
        self.writers
    }
}

/// What a [`LangFilesDoc`] holds: the size that a part should not exceed, and
/// the writers in the order in which their languages were first met.
pub struct LangFilesDocView {
    pub part_size_bytes: Option<u64>,
    pub writers: Seq<WriterView>,
}

impl LangFilesDocView {
    /// Whether there is a writer for `lang`.
    pub open spec fn contains(self, lang: Seq<char>) -> bool {
        langs_of(self.writers).contains(lang)
    }

    /// Where the writer for `lang` stands.
    pub open spec fn index_of(self, lang: Seq<char>) -> int {
        langs_of(self.writers).index_of_first(lang)->Some_0
    }

    /// The registry after `lang` was met: as before where it has a writer for
    /// `lang`, and else with a new writer for it behind the others.
    pub open spec fn insert(self, lang: Seq<char>) -> LangFilesDocView {
        if self.contains(lang) {
            self
        } else {
            LangFilesDocView {
                writers: self.writers.push(WriterView::fresh(lang, self.part_size_bytes)),
                ..self
            }
        }
    }

    /// The registry after `items` were written to the writer of `lang`: that
    /// writer has them, and every other writer is as it was.
    pub open spec fn write(self, lang: Seq<char>, items: Seq<ItemView>) -> LangFilesDocView {
        LangFilesDocView {
            writers: self.writers.update(
                self.index_of(lang),
                self.writers[self.index_of(lang)].write_all(items),
            ),
            ..self
        }
    }

    /// No two writers write the same language, and every writer is well formed.
    pub open spec fn wf(self) -> bool {
        &&& langs_of(self.writers).no_duplicates()
        &&& all_wf(self.writers)
    }
}

/// The writers of a run that meets its languages as it goes.
pub struct LangFilesDoc<T: ModelKind> {
    writers: Vec<Writer>,
    kind: PhantomData<T>,
    part_size_bytes: Option<u64>,
}

impl<T: ModelKind> View for LangFilesDoc<T> {
    type V = LangFilesDocView;

    closed spec fn view(&self) -> LangFilesDocView {
        LangFilesDocView {
            part_size_bytes: self.part_size_bytes,
            writers: writer_views(self.writers@),
        }
    }
}

impl<T: ModelKind> LangFilesDoc<T> {
    /// Holds of every registry that this module hands out.
    pub open spec fn wf(&self) -> bool {
        self@.wf()
    }

    /// A registry without writers. `part_size_bytes` is the size that a part
    /// of any writer made later should not exceed. [`Self::close_meta`] has to
    /// be called once every write is done.
    pub fn new(part_size_bytes: Option<u64>) -> (files: Self)
        ensures
            files.wf(),
            files@.part_size_bytes == part_size_bytes,
            files@.writers.len() == 0,
    {
        LangFilesDoc { writers: Vec::new(), kind: PhantomData, part_size_bytes }
    }

    /// Whether there is a writer for `k`.
    pub fn contains(&self, k: &LanguageTag) -> (found: bool)
        ensures
            found == self@.contains(k@),
    {
        proof {
            langs_of(self@.writers).index_of_first_ensures(k@);
        }
        find(&self.writers, k.as_str()).is_some()
    }

    /// Makes sure that there is a writer for `k`: a new one where there was
    /// none, the one there was, as it stands, where there was one.
    pub fn insert_writer(&mut self, k: LanguageTag)
        requires
            old(self).wf(),
        ensures
            final(self).wf(),
            final(self)@ == old(self)@.insert(k@),
            final(self)@.contains(k@),
    {
        proof {
            langs_of(self@.writers).index_of_first_ensures(k@);
        }
        if find(&self.writers, k.as_str()).is_none() {
            let writer = Writer::new(k.as_str(), self.part_size_bytes);
            self.writers.push(writer);
            proof {
                assert(self@.writers =~= old(self)@.insert(k@).writers);
                assert(langs_of(self@.writers) =~= langs_of(old(self)@.writers).push(k@));
                assert(langs_of(self@.writers)[old(self)@.writers.len() as int] == k@);
            }
        }
    }

    /// The writers, in the order in which their languages were first met.
    pub fn writers(&self) -> (writers: &Vec<Writer>)
        ensures
            writer_views(writers@) == self@.writers,
            self.wf() ==> all_wf(writer_views(writers@)),
    {
        &self.writers
    }

    /// Writes `items` to the writer of `k`; no other writer changes.
    pub fn write(&mut self, k: &LanguageTag, items: Vec<Item>)
        requires
            old(self).wf(),
            old(self)@.contains(k@),
        ensures
            final(self).wf(),
            final(self)@ == old(self)@.write(k@, item_views(items@)),
    {
        proof {
            langs_of(self@.writers).index_of_first_ensures(k@);
        }
        let found = find(&self.writers, k.as_str());
        let index = found.unwrap();
        let ghost before = self@.writers[index as int];
        proof {
            crate::layout::lemma_write_all_wf(before, item_views(items@));
        }
        write_at(&mut self.writers, index, items);
        assert(langs_of(self@.writers) =~= langs_of(old(self)@.writers));
    }

    /// Closes the metadata stream of every writer: the separator behind the
    /// last record goes, and the array is closed.
    pub fn close_meta(&mut self)
        requires
            old(self).wf(),
        ensures
            final(self).wf(),
            final(self)@.part_size_bytes == old(self)@.part_size_bytes,
            final(self)@.writers == all_closed(old(self)@.writers),
    {
        close_all(&mut self.writers);
        assert(langs_of(self@.writers) =~= langs_of(old(self)@.writers));
    }
}

/// Meeting a language twice leaves one writer for it: the second time
/// changes nothing, neither at once nor after items were written to the
/// writer of the language in between.
pub proof fn lemma_insert_twice(files: LangFilesDocView, lang: Seq<char>, items: Seq<ItemView>)
    requires
        files.wf(),
    ensures
        files.insert(lang).wf(),
        files.insert(lang).contains(lang),
        files.insert(lang).insert(lang) == files.insert(lang),
        files.insert(lang).write(lang, items).insert(lang) == files.insert(lang).write(lang, items),
        langs_of(files.insert(lang).writers).filter(|l: Seq<char>| l == lang).len() == 1,
{
    let after = files.insert(lang);
    let langs = langs_of(after.writers);
    if !files.contains(lang) {
        assert(langs =~= langs_of(files.writers).push(lang));
        assert(langs[files.writers.len() as int] == lang);
    }
    lemma_one_occurrence(langs, lang);
    langs.index_of_first_ensures(lang);
    crate::layout::lemma_write_all_wf(after.writers[after.index_of(lang)], items);
    assert(langs_of(after.write(lang, items).writers) =~= langs);
}

/// In a sequence without duplicates a value that occurs, occurs once.
proof fn lemma_one_occurrence(langs: Seq<Seq<char>>, lang: Seq<char>)
    requires
        langs.no_duplicates(),
        langs.contains(lang),
    ensures
        langs.filter(|l: Seq<char>| l == lang).len() == 1,
    decreases langs.len(),
{
    reveal(Seq::filter);
    let init = langs.drop_last();
    if langs.last() == lang {
        lemma_no_occurrence(init, lang);
    } else {
        let i = choose|i: int| 0 <= i < langs.len() && langs[i] == lang;
        assert(init[i] == lang);
        lemma_one_occurrence(init, lang);
    }
}

/// A value that does not occur in a sequence is not among what a filter for
/// it keeps.
proof fn lemma_no_occurrence(langs: Seq<Seq<char>>, lang: Seq<char>)
    requires
        !langs.contains(lang),
    ensures
        langs.filter(|l: Seq<char>| l == lang).len() == 0,
    decreases langs.len(),
{
    reveal(Seq::filter);
    if langs.len() > 0 {
        let init = langs.drop_last();
        lemma_no_occurrence(init, lang);
    }
}

} // verus!
