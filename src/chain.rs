//! The ordered chain of effect processors with per-slot settings.

use vstd::prelude::*;

verus! {

/// Per-slot settings of a chain entry.
#[derive(Clone, Copy, Debug, PartialEq, Eq, Structural)]
pub struct ProcessorSettings {
    pub bypassed: bool,
}

/// Error of an operation addressed to a chain slot that does not exist.
#[derive(Clone, Copy, Debug, PartialEq, Eq, Structural)]
pub enum TransformProcessorError {
    NotFound,
}

/// Settings given to every freshly added processor.
pub open spec fn fresh_settings() -> ProcessorSettings {
    ProcessorSettings { bypassed: false }
}

/// An effect that transforms a block of samples in place. `processed`
/// names what one pass does: the processor's next state and the block it
/// leaves. Its default body leaves that unspecified; proofs over a generic
/// processor rest only on the contract of `process`.
pub trait Processor<B>: Sized {
    closed spec fn processed(&self, block: B) -> (Self, B) {
        arbitrary()
    }

    fn process(&mut self, block: &mut B)
        ensures
            (*final(self), *final(block)) == old(self).processed(*old(block));
}

/// One slot of a render pass: a bypassed processor is skipped and leaves the
/// block as it is.
pub open spec fn run_slot<P: Processor<B>, B>(processor: P, settings: ProcessorSettings, block: B) -> (P, B) {
    if settings.bypassed {
        (processor, block)
    } else {
        processor.processed(block)
    }
}

/// A render pass over the chain: slots in order, each handing its block to
/// the next. Gives the processors' next states and the block that comes out.
pub open spec fn run_chain<P: Processor<B>, B>(processors: Seq<P>, settings: Seq<ProcessorSettings>, block: B) -> (Seq<P>, B)
    decreases processors.len(),
{
    if processors.len() == 0 || settings.len() < processors.len() {
        (processors, block)
    } else {
        let n = processors.len() - 1;
        let before = run_chain(processors.drop_last(), settings.take(n), block);
        let last = run_slot(processors[n], settings[n], before.1);
        (before.0.push(last.0), last.1)
    }
}

/// Bypassing is invisible to the render path: a chain with a bypassed entry
/// turns a block into the same block as the chain without that entry, the
/// other processors end in the same states, and the bypassed one is not
/// touched.
pub proof fn lemma_bypassed_entry_is_skipped<P: Processor<B>, B>(
    processors: Seq<P>,
    settings: Seq<ProcessorSettings>,
    block: B,
    i: int,
)
    requires
        processors.len() == settings.len(),
        0 <= i < processors.len(),
        settings[i].bypassed,
    ensures
        run_chain(processors, settings, block).1 == run_chain(processors.remove(i), settings.remove(i), block).1,
        run_chain(processors, settings, block).0 == run_chain(processors.remove(i), settings.remove(i), block).0.insert(
            i,
            processors[i],
        ),
    decreases processors.len(),
{
    let n = processors.len() - 1;
    assert(settings.take(n) =~= settings.drop_last());
    lemma_run_chain_len(processors.remove(i), settings.remove(i), block);
    if i == n {
        assert(processors.remove(i) =~= processors.drop_last());
        assert(settings.remove(i) =~= settings.take(n));
        let r = run_chain(processors.drop_last(), settings.take(n), block);
        lemma_run_chain_len(processors.drop_last(), settings.take(n), block);
        assert(r.0.push(processors[n]) =~= r.0.insert(i, processors[i]));
    } else {
        let dl = processors.drop_last();
        let sl = settings.take(n);
        lemma_bypassed_entry_is_skipped(dl, sl, block, i);
        let pr = processors.remove(i);
        let sr = settings.remove(i);
        assert(pr.drop_last() =~= dl.remove(i));
        assert(sr.take(n - 1) =~= sl.remove(i));
        assert(pr[n - 1] == processors[n]);
        assert(sr[n - 1] == settings[n]);
        let inner = run_chain(dl.remove(i), sl.remove(i), block);
        lemma_run_chain_len(dl.remove(i), sl.remove(i), block);
        let last = run_slot(processors[n], settings[n], inner.1);
        assert(inner.0.insert(i, processors[i]).push(last.0) =~= inner.0.push(last.0).insert(i, processors[i]));
    }
}

/// A render pass keeps the number of processors.
pub proof fn lemma_run_chain_len<P: Processor<B>, B>(processors: Seq<P>, settings: Seq<ProcessorSettings>, block: B)
    ensures
        run_chain(processors, settings, block).0.len() == processors.len(),
    decreases processors.len(),
{
    if processors.len() > 0 && settings.len() >= processors.len() {
        lemma_run_chain_len(processors.drop_last(), settings.take(processors.len() - 1), block);
    }
}

/// Where a move lands once the moved entry has left its slot: a destination
/// after the source shifts down by one.
pub open spec fn move_target(from: int, destination: int) -> int {
    if destination <= from {
        destination
    } else {
        destination - 1
    }
}

/// An ordered sequence of processors, each paired with its settings.
pub struct ProcessorChain<P> {
    processors: Vec<P>,
    settings: Vec<ProcessorSettings>,
}

impl<P> ProcessorChain<P> {
    /// The processors, in chain order.
    pub closed spec fn processors(&self) -> Seq<P> {
        self.processors@
    }

    /// The settings of each slot, in chain order.
    pub closed spec fn settings(&self) -> Seq<ProcessorSettings> {
        self.settings@
    }

    /// Processors and settings always pair up one to one.
    pub open spec fn wf(&self) -> bool {
        self.processors().len() == self.settings().len()
    }

    /// An empty chain.
    pub fn new() -> (r: Self)
        ensures
            r.wf(),
            r.processors() == Seq::<P>::empty(),
            r.settings() == Seq::<ProcessorSettings>::empty(),
    {
        ProcessorChain { processors: Vec::new(), settings: Vec::new() }
    }

    /// Number of slots.
    pub fn len(&self) -> (r: usize)
        requires
            self.wf(),
        ensures
            r == self.processors().len(),
    {
        self.processors.len()
    }

    /// The processor at `index`.
    pub fn processor(&self, index: usize) -> (r: &P)
        requires
            self.wf(),
            index < self.processors().len(),
        ensures
            *r == self.processors()[index as int],
    {
        &self.processors[index]
    }

    /// A snapshot of the chain, in order: what `describe` says of each
    /// processor, with a copy of its settings.
    pub fn get_processors_info<I, F: Fn(&P) -> I>(&self, describe: F) -> (r: Vec<(I, ProcessorSettings)>)
        requires
            self.wf(),
            forall|p: &P| describe.requires((p,)),
        ensures
            r@.len() == self.processors().len(),
            forall|i: int| 0 <= i < r@.len() ==> r@[i].1 == self.settings()[i]
                && describe.ensures((&self.processors()[i],), r@[i].0),
    {
        let mut r: Vec<(I, ProcessorSettings)> = Vec::new();
        let mut i: usize = 0;
        while i < self.processors.len()
            invariant
                self.wf(),
                0 <= i <= self.processors().len(),
                r@.len() == i,
                forall|j: int| 0 <= j < i ==> r@[j].1 == self.settings()[j]
                    && describe.ensures((&self.processors()[j],), r@[j].0),
                forall|p: &P| describe.requires((p,)),
            decreases self.processors().len() - i,
        {
            let info = describe(&self.processors[i]);
            r.push((info, self.settings[i]));
            i = i + 1;
        }
        r
    }

    /// Inserts `processor` with fresh, non-bypassed settings at `index`;
    /// fails when `index` is past the end of the chain.
    pub fn add_processor(&mut self, index: usize, processor: P) -> (r: Result<(), TransformProcessorError>)
        requires
            old(self).wf(),
        ensures
            final(self).wf(),
            r is Ok <==> index <= old(self).processors().len(),
            r is Ok ==> final(self).processors() == old(self).processors().insert(index as int, processor),
            r is Ok ==> final(self).settings() == old(self).settings().insert(index as int, fresh_settings()),
            r is Err ==> final(self).processors() == old(self).processors(),
            r is Err ==> final(self).settings() == old(self).settings(),
    {
        if index > self.processors.len() {
            return Err(TransformProcessorError::NotFound);
        }
        self.processors.insert(index, processor);
        self.settings.insert(index, ProcessorSettings { bypassed: false });
        Ok(())
    }

    /// Removes and returns the processor and settings at `index`; fails when
    /// no slot has that index.
    pub fn extract_processor(&mut self, index: usize) -> (r: Result<(P, ProcessorSettings), TransformProcessorError>)
        requires
            old(self).wf(),
        ensures
            final(self).wf(),
            r is Ok <==> index < old(self).processors().len(),
            r matches Ok(entry) ==> entry.0 == old(self).processors()[index as int]
                && entry.1 == old(self).settings()[index as int],
            r is Ok ==> final(self).processors() == old(self).processors().remove(index as int),
            r is Ok ==> final(self).settings() == old(self).settings().remove(index as int),
            r is Err ==> final(self).processors() == old(self).processors(),
            r is Err ==> final(self).settings() == old(self).settings(),
    {
        if index >= self.processors.len() {
            return Err(TransformProcessorError::NotFound);
        }
        let settings = self.settings.remove(index);
        let processor = self.processors.remove(index);
        Ok((processor, settings))
    }

    /// Empties the chain, processors and settings together.
    pub fn clear_all_processors(&mut self)
        ensures
            final(self).wf(),
            final(self).processors() == Seq::<P>::empty(),
            final(self).settings() == Seq::<ProcessorSettings>::empty(),
    {
        self.settings.clear();
        self.processors.clear();
    }

    /// Replaces the processor at `index` by what `transform` makes of it;
    /// fails when no slot has that index.
    pub fn transform_processor<F: FnOnce(P) -> P>(&mut self, index: usize, transform: F) -> (r: Result<(), TransformProcessorError>)
        requires
            old(self).wf(),
            forall|p: P| transform.requires((p,)),
        ensures
            final(self).wf(),
            r is Ok <==> index < old(self).processors().len(),
            final(self).settings() == old(self).settings(),
            final(self).processors().len() == old(self).processors().len(),
            r is Ok ==> transform.ensures((old(self).processors()[index as int],), final(self).processors()[index as int]),
            forall|i: int| 0 <= i < old(self).processors().len() && i != index ==> final(self).processors()[i] == old(self).processors()[i],
    {
        if index >= self.processors.len() {
            return Err(TransformProcessorError::NotFound);
        }
        let processor = self.processors.remove(index);
        let changed = transform(processor);
        self.processors.insert(index, changed);
        Ok(())
    }

    /// Replaces the settings at `index` by what `transform` makes of them;
    /// fails when no slot has that index.
    pub fn transform_processor_settings<F: FnOnce(ProcessorSettings) -> ProcessorSettings>(&mut self, index: usize, transform: F) -> (r: Result<(), TransformProcessorError>)
        requires
            old(self).wf(),
            forall|s: ProcessorSettings| transform.requires((s,)),
        ensures
            final(self).wf(),
            r is Ok <==> index < old(self).settings().len(),
            final(self).processors() == old(self).processors(),
            final(self).settings().len() == old(self).settings().len(),
            r is Ok ==> transform.ensures((old(self).settings()[index as int],), final(self).settings()[index as int]),
            forall|i: int| 0 <= i < old(self).settings().len() && i != index ==> final(self).settings()[i] == old(self).settings()[i],
    {
        if index >= self.settings.len() {
            return Err(TransformProcessorError::NotFound);
        }
        let current = self.settings[index];
        let changed = transform(current);
        self.settings.set(index, changed);
        Ok(())
    }

    /// Replaces the entry at `index` by `processor` with fresh settings, as
    /// one step, and returns the entry that was there; fails when no slot has
    /// that index.
    pub fn replace_processor(&mut self, index: usize, processor: P) -> (r: Result<(P, ProcessorSettings), TransformProcessorError>)
        requires
            old(self).wf(),
        ensures
            final(self).wf(),
            r is Ok <==> index < old(self).processors().len(),
            r matches Ok(entry) ==> entry.0 == old(self).processors()[index as int]
                && entry.1 == old(self).settings()[index as int],
            r is Ok ==> final(self).processors() == old(self).processors().update(index as int, processor),
            r is Ok ==> final(self).settings() == old(self).settings().update(index as int, fresh_settings()),
            r is Err ==> final(self).processors() == old(self).processors(),
            r is Err ==> final(self).settings() == old(self).settings(),
    {
        let ghost before_p = self.processors@;
        let ghost before_s = self.settings@;
        let extracted = self.extract_processor(index);
        match extracted {
            Err(e) => Err(e),
            Ok(entry) => {
                let added = self.add_processor(index, processor);
                assert(added is Ok);
                assert(self.processors@ =~= before_p.update(index as int, processor));
                assert(self.settings@ =~= before_s.update(index as int, fresh_settings()));
                Ok(entry)
            },
        }
    }

    /// Moves the processor at `from` so that it lands before the entry that
    /// was at `destination` (or at the end when `destination` is the length),
    /// as one step; the moved entry gets fresh settings. Fails, leaving the
    /// chain as it was, when `from` is no slot or `destination` lies past the
    /// end.
    pub fn move_processor(&mut self, from: usize, destination: usize) -> (r: Result<(), TransformProcessorError>)
        requires
            old(self).wf(),
        ensures
            final(self).wf(),
            r is Ok <==> from < old(self).processors().len() && destination <= old(self).processors().len(),
            r is Ok ==> final(self).processors() == old(self).processors().remove(from as int).insert(
                move_target(from as int, destination as int),
                old(self).processors()[from as int],
            ),
            r is Ok ==> final(self).settings() == old(self).settings().remove(from as int).insert(
                move_target(from as int, destination as int),
                fresh_settings(),
            ),
            r is Err ==> final(self).processors() == old(self).processors(),
            r is Err ==> final(self).settings() == old(self).settings(),
    {
        if from >= self.processors.len() || destination > self.processors.len() {
            return Err(TransformProcessorError::NotFound);
        }
        let target = if destination <= from {
            destination
        } else {
            destination - 1
        };
        let extracted = self.extract_processor(from);
        match extracted {
            Err(e) => Err(e),
            Ok(entry) => {
                let added = self.add_processor(target, entry.0);
                assert(added is Ok);
                Ok(())
            },
        }
    }

    /// Runs one block through the chain: every processor whose slot is not
    /// bypassed processes `block`, in chain order; bypassed processors are
    /// not touched.
    pub fn process_block<B>(&mut self, block: &mut B)
        where P: Processor<B>,
        requires
            old(self).wf(),
        ensures
            final(self).wf(),
            final(self).settings() == old(self).settings(),
            (final(self).processors(), *final(block)) == run_chain(old(self).processors(), old(self).settings(), *old(block)),
    {
        let n = self.processors.len();
        let ghost before = self.processors@;
        let ghost block0 = *block;
        proof {
            lemma_run_chain_len(before.take(0), self.settings@.take(0), block0);
            assert(before.take(0).len() == 0);
        }
        let mut i: usize = 0;
        while i < n
            invariant
                n == self.processors@.len(),
                n == before.len(),
                self.wf(),
                self.settings@ == old(self).settings@,
                before == old(self).processors@,
                block0 == *old(block),
                0 <= i <= n,
                (self.processors@.take(i as int), *block) == run_chain(before.take(i as int), self.settings@.take(i as int), block0),
                self.processors@.skip(i as int) == before.skip(i as int),
            decreases n - i,
        {
            let ghost mid = self.processors@;
            let ghost b_in = *block;
            proof {
                assert(mid[i as int] == mid.skip(i as int)[0]);
                assert(before[i as int] == before.skip(i as int)[0]);
            }
            if !self.settings[i].bypassed {
                self.processors[i].process(block);
            }
            proof {
                let s = self.settings@;
                let k = (i + 1) as int;
                assert(before.take(k).drop_last() =~= before.take(i as int));
                assert(s.take(k).take(i as int) =~= s.take(i as int));
                assert(before.take(k)[i as int] == before[i as int]);
                lemma_run_chain_len(before.take(i as int), s.take(i as int), block0);
                assert(self.processors@.take(k) =~= mid.take(i as int).push(self.processors@[i as int]));
                assert(self.processors@.skip(k) =~= mid.skip(k));
                assert(mid.skip(k) =~= mid.skip(i as int).skip(1));
                assert(before.skip(k) =~= before.skip(i as int).skip(1));
            }
            i += 1;
        }
        proof {
            assert(self.processors@.take(n as int) =~= self.processors@);
            assert(before.take(n as int) =~= before);
            assert(self.settings@.take(n as int) =~= self.settings@);
        }
    }
}

} // verus!
