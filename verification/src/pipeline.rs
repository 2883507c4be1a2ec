//! The pipeline over the shards of a source directory.
//!
//! Reading the shards and running them side by side is the caller's part. The
//! pipeline says how many shards and records are worked through, what a shard
//! leaves for the writers, and in which order the steps of a run follow each
//! other.

use crate::lang::{is_supported, lang_codes};
use crate::langfiles::{all_closed, LangFiles};
use crate::naming::{decimal, decimal_of};
use crate::record::{candidates_of, line_views, RawRecord};
use crate::shard::{
    answers, classified, flush, flushed, labels_of, pair_views, process_record, Prediction,
    ShardContent, ShardContentView,
};
use crate::writer::WriterView;
use std::path::PathBuf;
use vstd::prelude::*;
use vstd::utf8::{decode_utf8, valid_utf8};

verus! {

/// `std::path::PathBuf`, which the pipeline stores and hands back.
#[verifier::external_type_specification]
#[verifier::external_body]
pub struct ExPathBuf(PathBuf);

/// How many of `available` are worked through under `limit`: all of them
/// where there is no limit, and no more than the limit where there is one.
pub open spec fn capped(limit: Option<usize>, available: nat) -> nat {
    match limit {
        Some(n) => if available <= n {
            available
        } else {
            n as nat
        },
        None => available,
    }
}

/// Whether `pairs` is what a record leaves: nothing where the record could
/// not be read or its body is not text; else the lines of the body that are
/// long enough and that `classify` gives a supported language.
pub open spec fn record_outcome<F: Fn(&String) -> Option<Vec<Prediction>>>(
    classify: &F,
    record: Option<RawRecord>,
    pairs: Seq<(Seq<char>, Seq<char>)>,
) -> bool {
    match record {
        None => pairs.len() == 0,
        Some(read) => if valid_utf8(read.body@) {
            exists|lines: Seq<String>, predictions: Seq<Option<Vec<Prediction>>>|
                {
                    &&& #[trigger] answers(classify, lines, predictions)
                    &&& line_views(lines) == candidates_of(decode_utf8(read.body@))
                    &&& pairs == classified(line_views(lines), labels_of(predictions))
                }
        } else {
            pairs.len() == 0
        },
    }
}

/// Whether every pair of `pairs` has a supported language.
pub open spec fn pairs_supported(pairs: Seq<(Seq<char>, Seq<char>)>) -> bool {
    forall|i: int| 0 <= i < pairs.len() ==> is_supported((#[trigger] pairs[i]).1)
}

/// Whether `content` is what a shard of `records` leaves, given what each of
/// its records leaves in `outcomes`: the records up to the limit count, in
/// order, and their lines are kept by language.
pub open spec fn is_shard_outcome<F: Fn(&String) -> Option<Vec<Prediction>>>(
    nb_records: Option<usize>,
    classify: &F,
    records: Seq<Option<RawRecord>>,
    outcomes: Seq<Seq<(Seq<char>, Seq<char>)>>,
    content: ShardContentView,
) -> bool {
    &&& outcomes.len() == capped(nb_records, records.len())
    &&& forall|i: int|
        0 <= i < outcomes.len() ==> record_outcome(classify, records[i], #[trigger] outcomes[i])
    &&& content == ShardContentView::empty().insert_all(outcomes.flatten())
}

/// Whether `content` is what a shard of `records` leaves.
pub open spec fn shard_outcome<F: Fn(&String) -> Option<Vec<Prediction>>>(
    nb_records: Option<usize>,
    classify: &F,
    records: Seq<Option<RawRecord>>,
    content: ShardContentView,
) -> bool {
    exists|outcomes: Seq<Seq<(Seq<char>, Seq<char>)>>| #[trigger]
        is_shard_outcome(nb_records, classify, records, outcomes, content)
}

/// The record that describes what shard `index` hands to a writer.
pub open spec fn shard_record(index: nat) -> Seq<char> {
    "{\"shard\":"@ + decimal_of(index) + "}"@
}

/// The record that describes what shard `index` hands to a writer.
pub fn shard_metadata(index: usize) -> (record: String)
    ensures
        record@ == shard_record(index as nat),
{
    let mut record = "{\"shard\":".to_owned();
    record.append(decimal(index as u128).as_str());
    record.append("}");
    record
}

/// A new writer for every supported language, none of which ever rotates.
pub open spec fn fresh_files() -> Seq<WriterView> {
    Seq::new(lang_codes().len(), |i: int| WriterView::fresh(lang_codes()[i], None))
}

/// The writers after the shards that left `contents` went to them, each
/// shard as a whole and in the order of `contents`.
pub open spec fn flushed_shards(files: Seq<WriterView>, contents: Seq<ShardContentView>) -> Seq<
    WriterView,
>
    decreases contents.len(),
{
    if contents.len() == 0 {
        files
    } else {
        flushed(
            flushed_shards(files, contents.drop_last()),
            contents.last().entries,
            shard_record((contents.len() - 1) as nat),
        )
    }
}

/// Whether `files` is what a run over `shards` leaves, given what each shard
/// leaves in `contents`: the shards up to the limit count, each goes to new
/// writers as a whole, and at the end the metadata of every writer is closed.
pub open spec fn is_run_outcome<F: Fn(&String) -> Option<Vec<Prediction>>>(
    pipeline: RayonShardView,
    classify: &F,
    shards: Seq<Vec<Option<RawRecord>>>,
    contents: Seq<ShardContentView>,
    files: Seq<WriterView>,
) -> bool {
    &&& contents.len() == capped(pipeline.nb_shards, shards.len())
    &&& forall|i: int|
        0 <= i < contents.len() ==> shard_outcome(
            pipeline.nb_records,
            classify,
            shards[i]@,
            #[trigger] contents[i],
        )
    &&& files == all_closed(flushed_shards(fresh_files(), contents))
}

/// What a [`RayonShard`] holds.
pub struct RayonShardView {
    pub src: PathBuf,
    pub dst: PathBuf,
    pub nb_shards: Option<usize>,
    pub nb_records: Option<usize>,
}

/// A pipeline that runs over shards side by side, and over the records of
/// one shard one after the other.
#[derive(Debug)]
pub struct RayonShard {
    src: PathBuf,
    dst: PathBuf,
    nb_shards: Option<usize>,
    nb_records: Option<usize>,
}

impl View for RayonShard {
    type V = RayonShardView;

    closed spec fn view(&self) -> RayonShardView {
        RayonShardView {
            src: self.src,
            dst: self.dst,
            nb_shards: self.nb_shards,
            nb_records: self.nb_records,
        }
    }
}

impl RayonShard {
    /// A pipeline from the shards under `src` to the files under `dst`.
    /// `nb_shards` limits the number of shards that are worked through, and
    /// `nb_records` the number of records of each shard.
    pub fn new(
        src: PathBuf,
        dst: PathBuf,
        nb_shards: Option<usize>,
        nb_records: Option<usize>,
    ) -> (pipeline: Self)
        ensures
            pipeline@ == (RayonShardView { src, dst, nb_shards, nb_records }),
    {
        Self { src, dst, nb_shards, nb_records }
    }

    /// The directory of the shards.
    pub fn src(&self) -> (src: &PathBuf)
        ensures
            *src == self@.src,
    {
        &self.src
    }

    /// The directory of the output.
    pub fn dst(&self) -> (dst: &PathBuf)
        ensures
            *dst == self@.dst,
    {
        &self.dst
    }

    /// How many of `listed` shards are worked through.
    pub fn shard_quota(&self, listed: usize) -> (quota: usize)
        ensures
            quota == capped(self@.nb_shards, listed as nat),
    {
        match self.nb_shards {
            Some(n) => if listed <= n {
                listed
            } else {
                n
            },
            None => listed,
        }
    }

    /// How many of `available` records of a shard are worked through.
    pub fn record_quota(&self, available: usize) -> (quota: usize)
        ensures
            quota == capped(self@.nb_records, available as nat),
    {
        match self.nb_records {
            Some(n) => if available <= n {
                available
            } else {
                n
            },
            None => available,
        }
    }

    /// Works through the records of one shard, in order and up to the limit
    /// on records: what each record leaves is kept by language. A record that
    /// could not be read stands as `None` and leaves nothing, as does a record
    /// whose body is not text.
    pub fn process_shard<F: Fn(&String) -> Option<Vec<Prediction>>>(
        &self,
        records: Vec<Option<RawRecord>>,
        classify: &F,
    ) -> (content: ShardContent)
        requires
            forall|line: &String| #[trigger] classify.requires((line,)),
        ensures
            content@.wf(),
            content@.all_supported(),
            shard_outcome(self@.nb_records, classify, records@, content@),
    {
        let quota = self.record_quota(records.len());
        let ghost given = records@;
        let mut records = records;
        let mut content = ShardContent::new();
        let ghost mut outcomes: Seq<Seq<(Seq<char>, Seq<char>)>> = Seq::empty();
        let mut i: usize = 0;
        while i < quota
            invariant
                i <= quota,
                quota <= records.len(),
                records.len() == given.len(),
                forall|line: &String| #[trigger] classify.requires((line,)),
                forall|j: int| i <= j < records.len() ==> records@[j] == given[j],
                outcomes.len() == i,
                forall|j: int|
                    0 <= j < i ==> record_outcome(classify, given[j], #[trigger] outcomes[j]),
                pairs_supported(outcomes.flatten()),
                content@ == ShardContentView::empty().insert_all(outcomes.flatten()),
                content@.wf(),
                content@.all_supported(),
            decreases quota - i,
        {
            let record = records[i].take();
            let ghost before = outcomes;
            let ghost mut pairs: Seq<(Seq<char>, Seq<char>)> = Seq::empty();
            match record {
                None => {},
                Some(read) => {
                    match process_record(read, classify) {
                        None => {},
                        Some(kept) => {
                            proof {
                                pairs = pair_views(kept@);
                                lemma_outcome_supported(classify, given[i as int], pairs);
                                crate::shard::lemma_insert_all_concat(
                                    ShardContentView::empty(),
                                    before.flatten(),
                                    pairs,
                                );
                                crate::shard::lemma_insert_all_keeps(content@, pairs);
                            }
                            content.extend(kept);
                        },
                    }
                },
            }
            proof {
                outcomes = before.push(pairs);
                before.lemma_flatten_push(pairs);
            }
            i = i + 1;
        }
        assert(is_shard_outcome(self@.nb_records, classify, given, outcomes, content@));
        content
    }

    /// Runs over `shards`, each the records of one shard: the shards up to
    /// the limit are worked through in order, each goes as a whole to the
    /// writers of a new registry, described by its index, and at the end the
    /// metadata of every writer is closed.
    pub fn run<F: Fn(&String) -> Option<Vec<Prediction>>>(
        &self,
        shards: Vec<Vec<Option<RawRecord>>>,
        classify: &F,
    ) -> (files: LangFiles)
        requires
            forall|line: &String| #[trigger] classify.requires((line,)),
        ensures
            files.wf(),
            exists|contents: Seq<ShardContentView>| #[trigger]
                is_run_outcome(self@, classify, shards@, contents, files@),
    {
        let quota = self.shard_quota(shards.len());
        let ghost given = shards@;
        let mut shards = shards;
        let mut files = LangFiles::new(None);
        let ghost mut contents: Seq<ShardContentView> = Seq::empty();
        let mut i: usize = 0;
        while i < quota
            invariant
                i <= quota,
                quota <= shards.len(),
                shards.len() == given.len(),
                forall|line: &String| #[trigger] classify.requires((line,)),
                forall|j: int| i <= j < shards.len() ==> shards@[j] == given[j],
                contents.len() == i,
                forall|j: int|
                    0 <= j < i ==> shard_outcome(
                        self@.nb_records,
                        classify,
                        given[j]@,
                        #[trigger] contents[j],
                    ),
                files.wf(),
                files@ == flushed_shards(fresh_files(), contents),
            decreases quota - i,
        {
            let mut records: Vec<Option<RawRecord>> = Vec::new();
            core::mem::swap(&mut shards[i], &mut records);
            let content = self.process_shard(records, classify);
            let metadata = shard_metadata(i);
            flush(&mut files, &content, metadata.as_str());
            proof {
                let before = contents;
                contents = before.push(content@);
                assert(contents.drop_last() =~= before);
            }
            i = i + 1;
        }
        files.close_meta();
        assert(is_run_outcome(self@, classify, given, contents, files@));
        files
    }
}

/// What a record leaves has a supported language with every line.
pub proof fn lemma_outcome_supported<F: Fn(&String) -> Option<Vec<Prediction>>>(
    classify: &F,
    record: Option<RawRecord>,
    pairs: Seq<(Seq<char>, Seq<char>)>,
)
    requires
        record_outcome(classify, record, pairs),
    ensures
        pairs_supported(pairs),
{
    if record is Some && valid_utf8(record->Some_0.body@) {
        let (lines, predictions) = choose|
            lines: Seq<String>,
            predictions: Seq<Option<Vec<Prediction>>>,
        |
            {
                &&& #[trigger] answers(classify, lines, predictions)
                &&& line_views(lines) == candidates_of(decode_utf8(record->Some_0.body@))
                &&& pairs == classified(line_views(lines), labels_of(predictions))
            };
        let n = if lines.len() <= predictions.len() {
            lines.len()
        } else {
            predictions.len()
        };
        crate::shard::lemma_classified_supported(line_views(lines), labels_of(predictions), n);
    }
}

/// Where a run stands.
#[derive(Debug, Clone, Copy, PartialEq, Eq, Structural)]
pub enum Phase {
    /// Nothing was done yet.
    Init,
    /// The source directory is being listed.
    ListShards,
    /// Shards are worked through; `left` of them are not done yet.
    ProcessShards { left: usize },
    /// The writers are being closed.
    FinalizeWriters,
    /// The run is over.
    Done,
}

/// What the caller reports of the work it did.
#[derive(Debug, Clone, Copy, PartialEq, Eq, Structural)]
pub enum Event {
    /// The run begins.
    Started,
    /// The source directory holds `listed` shards that can be read.
    ShardsListed { listed: usize },
    /// One shard was worked through and handed to the writers.
    ShardDone,
    /// The metadata of every writer was closed.
    WritersFinalized,
}

/// What the caller has to do next.
#[derive(Debug, Clone, Copy, PartialEq, Eq, Structural)]
pub enum Action {
    /// List the shards of the source directory.
    ListShards,
    /// Work through the first `shards` shards, in any order.
    ProcessShards { shards: usize },
    /// Go on with what is under way.
    Wait,
    /// Close the metadata of every writer.
    FinalizeWriters,
    /// Stop: the run is over.
    Stop,
}

/// The step that a run takes on `event`. An event that the phase does not
/// wait for changes nothing.
pub open spec fn next_step(limit: Option<usize>, phase: Phase, event: Event) -> (Phase, Action) {
    match (phase, event) {
        (Phase::Init, Event::Started) => (Phase::ListShards, Action::ListShards),
        (Phase::ListShards, Event::ShardsListed { listed }) => {
            let shards = capped(limit, listed as nat) as usize;
            if shards == 0 {
                (Phase::FinalizeWriters, Action::FinalizeWriters)
            } else {
                (Phase::ProcessShards { left: shards }, Action::ProcessShards { shards })
            }
        },
        (Phase::ProcessShards { left }, Event::ShardDone) => {
            if left <= 1 {
                (Phase::FinalizeWriters, Action::FinalizeWriters)
            } else {
                (Phase::ProcessShards { left: (left - 1) as usize }, Action::Wait)
            }
        },
        (Phase::FinalizeWriters, Event::WritersFinalized) => (Phase::Done, Action::Stop),
        _ => (phase, Action::Wait),
    }
}

/// The phase of a run that began in `Init` and saw `events`.
pub open spec fn phase_after(limit: Option<usize>, events: Seq<Event>) -> Phase
    decreases events.len(),
{
    if events.len() == 0 {
        Phase::Init
    } else {
        next_step(limit, phase_after(limit, events.drop_last()), events.last()).0
    }
}

/// How often a run that began in `Init` and saw `events` was told to close
/// the writers.
pub open spec fn finalize_count(limit: Option<usize>, events: Seq<Event>) -> nat
    decreases events.len(),
{
    if events.len() == 0 {
        0
    } else {
        let before = finalize_count(limit, events.drop_last());
        let step = next_step(limit, phase_after(limit, events.drop_last()), events.last());
        if step.1 == Action::FinalizeWriters {
            before + 1
        } else {
            before
        }
    }
}

impl RayonShard {
    /// The phase that follows `phase` on `event`, and what the caller has to
    /// do next.
    pub fn step(&self, phase: Phase, event: Event) -> (next: (Phase, Action))
        ensures
            next == next_step(self@.nb_shards, phase, event),
    {
        match (phase, event) {
            (Phase::Init, Event::Started) => (Phase::ListShards, Action::ListShards),
            (Phase::ListShards, Event::ShardsListed { listed }) => {
                let shards = self.shard_quota(listed);
                if shards == 0 {
                    (Phase::FinalizeWriters, Action::FinalizeWriters)
                } else {
                    (Phase::ProcessShards { left: shards }, Action::ProcessShards { shards })
                }
            },
            (Phase::ProcessShards { left }, Event::ShardDone) => {
                if left <= 1 {
                    (Phase::FinalizeWriters, Action::FinalizeWriters)
                } else {
                    (Phase::ProcessShards { left: left - 1 }, Action::Wait)
                }
            },
            (Phase::FinalizeWriters, Event::WritersFinalized) => (Phase::Done, Action::Stop),
            _ => (phase, Action::Wait),
        }
    }
}

/// Whatever the caller reports, a run is told to close the writers at most
/// once: not before the shards are done, and once by the time it is closing
/// them or over.
pub proof fn lemma_finalize_once(limit: Option<usize>, events: Seq<Event>)
    ensures
        finalize_count(limit, events) <= 1,
        finalize_count(limit, events) == 1 <==> (phase_after(limit, events)
            == Phase::FinalizeWriters || phase_after(limit, events) == Phase::Done),
        phase_after(limit, events) matches Phase::ProcessShards { left } ==> left > 0,
    decreases events.len(),
{
    if events.len() > 0 {
        lemma_finalize_once(limit, events.drop_last());
    }
}

} // verus!
