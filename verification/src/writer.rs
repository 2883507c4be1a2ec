//! The writer of one language: text cut into parts of bounded size, each part
//! with its own stream of metadata records.
//!
//! A part holds two streams that grow in lock-step. The content stream gets the
//! text of every item, each followed by a line feed. The metadata stream opens
//! with `[` and gets the metadata of every item, each followed by `,`; closing
//! it takes the last separator away and appends `]`.

use crate::text::{byte_len, lemma_byte_len_concat, lemma_byte_len_push, pop_char, push_char, str_byte_len};
use vstd::prelude::*;

verus! {

/// One unit handed to a writer: a block of text and the record that describes it.
#[derive(Debug, Clone, PartialEq, Eq)]
pub struct Item {
    pub text: String,
    pub metadata: String,
}

/// What an [`Item`] holds.
pub struct ItemView {
    pub text: Seq<char>,
    pub metadata: Seq<char>,
}

impl View for Item {
    type V = ItemView;

    open spec fn view(&self) -> ItemView {
        ItemView { text: self.text@, metadata: self.metadata@ }
    }
}

/// The views of a sequence of items, in the same order.
pub open spec fn item_views(items: Seq<Item>) -> Seq<ItemView> {
    items.map_values(|item: Item| item@)
}

/// Bytes that an item adds to a content stream: its text and the line feed.
pub open spec fn item_size(item: ItemView) -> nat {
    byte_len(item.text) + 1
}

/// What a [`Part`] holds: both streams, the number of items appended, and
/// whether the metadata stream was closed after the last of them.
pub struct PartView {
    pub content: Seq<char>,
    pub meta: Seq<char>,
    pub items: nat,
    pub closed: bool,
}

impl PartView {
    /// A part that was just opened: no content, and a metadata stream that
    /// holds the opening bracket.
    pub open spec fn fresh() -> PartView {
        PartView { content: Seq::empty(), meta: seq!['['], items: 0, closed: false }
    }

    /// Bytes of the content stream.
    pub open spec fn bytes(self) -> nat {
        byte_len(self.content)
    }

    /// The part after one more item. Appending to a closed stream opens it
    /// again, behind the closing bracket.
    pub open spec fn append(self, item: ItemView) -> PartView {
        PartView {
            content: self.content + item.text.push('\n'),
            meta: self.meta + item.metadata.push(','),
            items: self.items + 1,
            closed: false,
        }
    }

    /// The part with its metadata stream closed. A stream that is closed
    /// already stays as it is.
    pub open spec fn close(self) -> PartView {
        if self.closed {
            self
        } else if self.items > 0 {
            PartView { meta: self.meta.drop_last().push(']'), closed: true, ..self }
        } else {
            PartView { meta: self.meta.push(']'), closed: true, ..self }
        }
    }

    /// No more items than bytes, since every item ends in a line feed; and a
    /// metadata stream is never empty.
    pub open spec fn wf(self) -> bool {
        &&& self.items <= self.bytes()
        &&& self.meta.len() > 0
    }
}

/// One output part of a language.
#[derive(Debug)]
pub struct Part {
    content: String,
    meta: String,
    nb_items: usize,
    closed: bool,
}

impl View for Part {
    type V = PartView;

    closed spec fn view(&self) -> PartView {
        PartView {
            content: self.content@,
            meta: self.meta@,
            items: self.nb_items as nat,
            closed: self.closed,
        }
    }
}

impl Part {
    /// Holds of every part that this module hands out.
    pub open spec fn wf(&self) -> bool {
        self@.wf()
    }

    /// Opens a part.
    pub fn new() -> (part: Part)
        ensures
            part.wf(),
            part@ == PartView::fresh(),
    {
        let mut meta = String::new();
        push_char(&mut meta, '[');
        let content = String::new();
        Part { content, meta, nb_items: 0, closed: false }
    }

    /// Appends the text of `item` and a line feed to the content stream, and
    /// its metadata and a separator to the metadata stream.
    pub fn push(&mut self, item: &Item)
        requires
            old(self).wf(),
        ensures
            final(self).wf(),
            final(self)@ == old(self)@.append(item@),
    {
        proof {
            lemma_byte_len_concat(self.content@, item.text@.push('\n'));
        }
        self.content.append(item.text.as_str());
        push_char(&mut self.content, '\n');
        self.meta.append(item.metadata.as_str());
        push_char(&mut self.meta, ',');
        // a stream holds more bytes than items, and no more than a `usize` counts
        let len = str_byte_len(self.content.as_str());
        assert(self.nb_items < len);
        self.nb_items = self.nb_items + 1;
        self.closed = false;
    }

    /// Closes the metadata stream: the separator behind the last record goes,
    /// and the closing bracket comes.
    pub fn close_meta(&mut self)
        requires
            old(self).wf(),
        ensures
            final(self).wf(),
            final(self)@ == old(self)@.close(),
    {
        if !self.closed {
            if self.nb_items > 0 {
                let _ = pop_char(&mut self.meta);
            }
            push_char(&mut self.meta, ']');
            self.closed = true;
        }
    }

    /// The content stream.
    pub fn content(&self) -> (content: &String)
        ensures
            content@ == self@.content,
    {
        &self.content
    }

    /// The metadata stream.
    pub fn meta(&self) -> (meta: &String)
        ensures
            meta@ == self@.meta,
    {
        &self.meta
    }

    /// Number of items appended.
    pub fn nb_items(&self) -> (n: usize)
        ensures
            n == self@.items,
    {
        self.nb_items
    }

    /// Number of bytes in the content stream.
    pub fn nb_bytes(&self) -> (n: usize)
        ensures
            n == self@.bytes(),
    {
        str_byte_len(self.content.as_str())
    }

    /// Whether the metadata stream was closed after the last item.
    pub fn is_closed(&self) -> (closed: bool)
        ensures
            closed == self@.closed,
    {
        self.closed
    }
}

/// What a [`Writer`] holds: its language, the size that a part should not
/// exceed, and its parts in the order in which they were opened. The last part
/// is the current one.
pub struct WriterView {
    pub lang: Seq<char>,
    pub limit: Option<u64>,
    pub parts: Seq<PartView>,
}

impl WriterView {
    /// A writer that was just made: one part, just opened.
    pub open spec fn fresh(lang: Seq<char>, limit: Option<u64>) -> WriterView {
        WriterView { lang, limit, parts: seq![PartView::fresh()] }
    }

    /// The part that the next item goes to, unless the writer rotates first.
    pub open spec fn current(self) -> PartView {
        self.parts.last()
    }

    /// The writer with another part in place of the current one.
    pub open spec fn with_current(self, part: PartView) -> WriterView {
        WriterView { parts: self.parts.update(self.parts.len() - 1, part), ..self }
    }

    /// Whether `item` makes the writer open a new part: there is a limit, the
    /// current part holds an item already, and with `item` it would hold more
    /// bytes than the limit.
    pub open spec fn must_rotate(self, item: ItemView) -> bool {
        &&& self.limit matches Some(n)
        &&& self.current().items > 0
        &&& self.current().bytes() + item_size(item) > n
    }

    /// The writer after a rotation: the current part has its metadata stream
    /// closed, and a new part is the current one.
    pub open spec fn rotate(self) -> WriterView {
        WriterView {
            parts: self.with_current(self.current().close()).parts.push(PartView::fresh()),
            ..self
        }
    }

    /// The writer after `item` was written: a rotation where one is due, then
    /// the item appended to the current part.
    pub open spec fn write_one(self, item: ItemView) -> WriterView {
        let w = if self.must_rotate(item) {
            self.rotate()
        } else {
            self
        };
        w.with_current(w.current().append(item))
    }

    /// The writer after `items` were written, first to last.
    pub open spec fn write_all(self, items: Seq<ItemView>) -> WriterView
        decreases items.len(),
    {
        if items.len() == 0 {
            self
        } else {
            self.write_all(items.drop_last()).write_one(items.last())
        }
    }

    /// The writer with the metadata stream of its current part closed.
    pub open spec fn close(self) -> WriterView {
        self.with_current(self.current().close())
    }

    /// There is a part. Every part but the current one holds an item and has
    /// its metadata stream closed. The current part is empty only as long as
    /// it is the first one.
    pub open spec fn wf(self) -> bool {
        &&& self.parts.len() > 0
        &&& forall|i: int| 0 <= i < self.parts.len() ==> (#[trigger] self.parts[i]).wf()
        &&& forall|i: int|
            0 <= i < self.parts.len() - 1 ==> (#[trigger] self.parts[i]).items > 0
                && self.parts[i].closed
        &&& self.current().items == 0 ==> self.parts.len() == 1
    }
}

/// The writer of one language.
#[derive(Debug)]
pub struct Writer {
    lang: String,
    part_size_bytes: Option<u64>,
    parts: Vec<Part>,
}

impl View for Writer {
    type V = WriterView;

    closed spec fn view(&self) -> WriterView {
        WriterView {
            lang: self.lang@,
            limit: self.part_size_bytes,
            parts: self.parts@.map_values(|part: Part| part@),
        }
    }
}

impl Writer {
    /// Holds of every writer that this module hands out.
    pub open spec fn wf(&self) -> bool {
        self@.wf()
    }

    /// A writer for `lang` with its first part open. With `part_size_bytes`
    /// unset the writer never rotates.
    pub fn new(lang: &str, part_size_bytes: Option<u64>) -> (writer: Writer)
        ensures
            writer.wf(),
            writer@ == WriterView::fresh(lang@, part_size_bytes),
    {
        let mut parts: Vec<Part> = Vec::new();
        parts.push(Part::new());
        let writer = Writer { lang: lang.to_owned(), part_size_bytes, parts };
        assert(writer@.parts =~= seq![PartView::fresh()]);
        writer
    }

    /// Whether `item` has to go to a new part.
    fn rotation_due(&self, item: &Item) -> (due: bool)
        requires
            self.wf(),
        ensures
            due == self@.must_rotate(item@),
    {
        let last: usize = self.parts.len() - 1;
        let current = &self.parts[last];
        match self.part_size_bytes {
            None => false,
            Some(limit) => {
                let used: u128 = current.nb_bytes() as u128;
                let size: u128 = str_byte_len(item.text.as_str()) as u128;
                current.nb_items() > 0 && used + size + 1 > limit as u128
            },
        }
    }

    /// Writes one item, to a new part where the current one is full.
    pub fn write_single(&mut self, item: &Item)
        requires
            old(self).wf(),
        ensures
            final(self).wf(),
            final(self)@ == old(self)@.write_one(item@),
    {
        let due = self.rotation_due(item);
        let mut current = self.parts.pop().unwrap();
        if due {
            current.close_meta();
            self.parts.push(current);
            current = Part::new();
        }
        current.push(item);
        self.parts.push(current);
        proof {
            let w = if old(self)@.must_rotate(item@) {
                old(self)@.rotate()
            } else {
                old(self)@
            };
            assert(self@.parts =~= w.with_current(w.current().append(item@)).parts);
        }
    }

    /// Writes `items`, first to last.
    pub fn write(&mut self, items: Vec<Item>)
        requires
            old(self).wf(),
        ensures
            final(self).wf(),
            final(self)@ == old(self)@.write_all(item_views(items@)),
    {
        let ghost views = item_views(items@);
        let mut i: usize = 0;
        while i < items.len()
            invariant
                i <= items.len(),
                views == item_views(items@),
                self.wf(),
                self@ == old(self)@.write_all(views.take(i as int)),
            decreases items.len() - i,
        {
            self.write_single(&items[i]);
            proof {
                assert(views.take(i + 1).drop_last() == views.take(i as int));
            }
            i = i + 1;
        }
        assert(views.take(items.len() as int) == views);
    }

    /// Closes the metadata stream of the current part. To be called once every
    /// write is done: an item written afterwards lands behind the closing
    /// bracket.
    pub fn close_meta(&mut self)
        requires
            old(self).wf(),
        ensures
            final(self).wf(),
            final(self)@ == old(self)@.close(),
    {
        let mut current = self.parts.pop().unwrap();
        current.close_meta();
        self.parts.push(current);
        assert(self@.parts =~= old(self)@.close().parts);
    }

    /// The language that this writer writes.
    pub fn lang(&self) -> (lang: &String)
        ensures
            lang@ == self@.lang,
    {
        &self.lang
    }

    /// The size that a part should not exceed, if there is one.
    pub fn part_size_bytes(&self) -> (limit: Option<u64>)
        ensures
            limit == self@.limit,
    {
        self.part_size_bytes
    }

    /// The parts, in the order in which they were opened.
    pub fn parts(&self) -> (parts: &Vec<Part>)
        ensures
            parts@.map_values(|part: Part| part@) == self@.parts,
    {
        &self.parts
    }

    /// Number of parts opened so far.
    pub fn nb_parts(&self) -> (n: usize)
        ensures
            n == self@.parts.len(),
    {
        self.parts.len()
    }
}

} // verus!
