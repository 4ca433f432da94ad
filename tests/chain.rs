use mojo_dsp::chain::{Processor, ProcessorChain, ProcessorSettings, TransformProcessorError};
use std::sync::Mutex;

struct Scale(i64);

impl Processor<Vec<i64>> for Scale {
    fn process(&mut self, block: &mut Vec<i64>) {
        for s in block.iter_mut() {
            *s *= self.0;
        }
    }
}

struct Offset(i64);

impl Processor<Vec<i64>> for Offset {
    fn process(&mut self, block: &mut Vec<i64>) {
        for s in block.iter_mut() {
            *s += self.0;
        }
    }
}

enum Fx {
    Scale(Scale),
    Offset(Offset),
}

impl Processor<Vec<i64>> for Fx {
    fn process(&mut self, block: &mut Vec<i64>) {
        match self {
            Fx::Scale(p) => p.process(block),
            Fx::Offset(p) => p.process(block),
        }
    }
}

fn settings_of<P>(chain: &ProcessorChain<P>) -> Vec<bool> {
    chain.get_processors_info(|_| ()).iter().map(|(_, s)| s.bypassed).collect()
}

#[test]
fn add_inserts_with_fresh_settings() {
    let mut chain: ProcessorChain<i32> = ProcessorChain::new();
    assert_eq!(chain.add_processor(0, 1), Ok(()));
    assert_eq!(chain.add_processor(0, 2), Ok(()));
    assert_eq!(chain.add_processor(2, 3), Ok(()));
    assert_eq!(chain.len(), 3);
    assert_eq!(*chain.processor(0), 2);
    assert_eq!(*chain.processor(1), 1);
    assert_eq!(*chain.processor(2), 3);
    assert_eq!(settings_of(&chain), vec![false, false, false]);
}

#[test]
fn add_past_the_end_is_an_error() {
    let mut chain: ProcessorChain<i32> = ProcessorChain::new();
    assert_eq!(chain.add_processor(1, 7), Err(TransformProcessorError::NotFound));
    assert_eq!(chain.len(), 0);
    chain.add_processor(0, 7).unwrap();
    assert_eq!(chain.add_processor(2, 8), Err(TransformProcessorError::NotFound));
    assert_eq!(chain.len(), 1);
}

#[test]
fn extract_returns_entry_and_shifts() {
    let mut chain: ProcessorChain<i32> = ProcessorChain::new();
    for (i, v) in [10, 20, 30].iter().enumerate() {
        chain.add_processor(i, *v).unwrap();
    }
    chain
        .transform_processor_settings(1, |_| ProcessorSettings { bypassed: true })
        .unwrap();
    let (p, s) = chain.extract_processor(1).unwrap();
    assert_eq!(p, 20);
    assert!(s.bypassed);
    assert_eq!(chain.len(), 2);
    assert_eq!(*chain.processor(1), 30);
    assert!(matches!(chain.extract_processor(2), Err(TransformProcessorError::NotFound)));
}

#[test]
fn clear_empties_both_sequences() {
    let mut chain: ProcessorChain<i32> = ProcessorChain::new();
    chain.add_processor(0, 1).unwrap();
    chain.add_processor(1, 2).unwrap();
    chain.clear_all_processors();
    assert_eq!(chain.len(), 0);
    assert!(chain.get_processors_info(|p| *p).is_empty());
}

#[test]
fn transform_touches_only_its_slot() {
    let mut chain: ProcessorChain<i32> = ProcessorChain::new();
    chain.add_processor(0, 1).unwrap();
    chain.add_processor(1, 2).unwrap();
    assert_eq!(chain.transform_processor(1, |p| p * 100), Ok(()));
    assert_eq!(*chain.processor(0), 1);
    assert_eq!(*chain.processor(1), 200);
    assert_eq!(chain.transform_processor(2, |p| p + 1), Err(TransformProcessorError::NotFound));
    assert_eq!(
        chain.transform_processor_settings(5, |s| s),
        Err(TransformProcessorError::NotFound)
    );
    assert_eq!(
        chain.transform_processor_settings(0, |_| ProcessorSettings { bypassed: true }),
        Ok(())
    );
    assert_eq!(settings_of(&chain), vec![true, false]);
}

#[test]
fn replace_swaps_in_a_fresh_entry() {
    let mut chain: ProcessorChain<i32> = ProcessorChain::new();
    chain.add_processor(0, 1).unwrap();
    chain.add_processor(1, 2).unwrap();
    chain
        .transform_processor_settings(1, |_| ProcessorSettings { bypassed: true })
        .unwrap();
    let (old, old_settings) = chain.replace_processor(1, 9).unwrap();
    assert_eq!(old, 2);
    assert!(old_settings.bypassed);
    assert_eq!(*chain.processor(1), 9);
    assert_eq!(settings_of(&chain), vec![false, false]);
    assert!(matches!(chain.replace_processor(2, 5), Err(TransformProcessorError::NotFound)));
}

#[test]
fn move_forward_and_backward() {
    let mut chain: ProcessorChain<char> = ProcessorChain::new();
    for (i, c) in ['a', 'b', 'c', 'd'].iter().enumerate() {
        chain.add_processor(i, *c).unwrap();
    }
    // 'a' goes before 'd'
    chain.move_processor(0, 3).unwrap();
    let order: Vec<char> = chain.get_processors_info(|p| *p).iter().map(|(c, _)| *c).collect();
    assert_eq!(order, vec!['b', 'c', 'a', 'd']);
    // 'd' goes to the front
    chain.move_processor(3, 0).unwrap();
    let order: Vec<char> = chain.get_processors_info(|p| *p).iter().map(|(c, _)| *c).collect();
    assert_eq!(order, vec!['d', 'b', 'c', 'a']);
    // to the end
    chain.move_processor(1, 4).unwrap();
    let order: Vec<char> = chain.get_processors_info(|p| *p).iter().map(|(c, _)| *c).collect();
    assert_eq!(order, vec!['d', 'c', 'a', 'b']);
    assert_eq!(chain.move_processor(4, 0), Err(TransformProcessorError::NotFound));
    assert_eq!(chain.move_processor(0, 5), Err(TransformProcessorError::NotFound));
    assert_eq!(chain.len(), 4);
}

#[test]
fn bypassed_entry_processes_like_chain_without_it() {
    let mut with_bypass: ProcessorChain<Fx> = ProcessorChain::new();
    with_bypass.add_processor(0, Fx::Scale(Scale(3))).unwrap();
    with_bypass.add_processor(1, Fx::Offset(Offset(5))).unwrap();
    with_bypass
        .transform_processor_settings(0, |_| ProcessorSettings { bypassed: true })
        .unwrap();
    let mut only_b: ProcessorChain<Fx> = ProcessorChain::new();
    only_b.add_processor(0, Fx::Offset(Offset(5))).unwrap();

    let mut block_a = vec![1, -2, 7];
    let mut block_b = block_a.clone();
    with_bypass.process_block(&mut block_a);
    only_b.process_block(&mut block_b);
    assert_eq!(block_a, block_b);
    assert_eq!(block_a, vec![6, 3, 12]);
}

#[test]
fn chain_runs_processors_in_order() {
    let mut chain: ProcessorChain<Fx> = ProcessorChain::new();
    chain.add_processor(0, Fx::Scale(Scale(2))).unwrap();
    chain.add_processor(1, Fx::Offset(Offset(1))).unwrap();
    let mut block = vec![1, 2];
    chain.process_block(&mut block);
    assert_eq!(block, vec![3, 5]);
}

#[test]
fn clear_is_seen_whole_or_not_at_all() {
    let chain: Mutex<ProcessorChain<Fx>> = Mutex::new(ProcessorChain::new());
    {
        let mut c = chain.lock().unwrap();
        for i in 0..8 {
            c.add_processor(i, Fx::Offset(Offset(1))).unwrap();
        }
    }
    let render = |chain: &Mutex<ProcessorChain<Fx>>| -> i64 {
        let mut block = vec![0i64];
        if let Ok(mut c) = chain.try_lock() {
            c.process_block(&mut block);
            assert_eq!(c.get_processors_info(|_| ()).len(), c.len());
        }
        block[0]
    };
    assert_eq!(render(&chain), 8);
    {
        let mut control = chain.lock().unwrap();
        // the render side finds the chain taken and passes the block through
        assert_eq!(render(&chain), 0);
        control.clear_all_processors();
        assert_eq!(render(&chain), 0);
    }
    assert_eq!(render(&chain), 0);
    assert_eq!(chain.lock().unwrap().len(), 0);
}
