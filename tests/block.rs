use mojo_dsp::block::take_compensated_block;

#[test]
fn second_half_taken_and_edges_pinned() {
    let mut data = vec![10, 11, 12];
    let converted = vec![1, 2, 3, 4, 5, 6, 7, 8];
    take_compensated_block(&mut data, &converted, 0);
    assert_eq!(data, vec![10, 6, 7, 12]);
}

#[test]
fn edges_pinned_for_any_ratio() {
    // upsampled: many more output samples than input
    let mut data = vec![-3, 9];
    let converted: Vec<i32> = (0..32).collect();
    take_compensated_block(&mut data, &converted, 0);
    assert_eq!(data.len(), 16);
    assert_eq!(data[0], -3);
    assert_eq!(data[15], 9);
    assert_eq!(&data[1..15], &converted[17..31]);
    // downsampled
    let mut data: Vec<i32> = (100..132).collect();
    let converted = vec![1, 2, 3, 4];
    take_compensated_block(&mut data, &converted, 0);
    assert_eq!(data, vec![100, 131]);
}

#[test]
fn empty_input_pins_silence() {
    let mut data: Vec<i32> = vec![];
    take_compensated_block(&mut data, &vec![5, 5, 5, 5, 5, 5], -1);
    assert_eq!(data, vec![-1, 5, -1]);
}

#[test]
fn single_sample_output_takes_last_input() {
    let mut data = vec![4, 8];
    take_compensated_block(&mut data, &vec![1, 2], 0);
    assert_eq!(data, vec![8]);
    let mut data = vec![4];
    take_compensated_block(&mut data, &vec![1], 0);
    assert_eq!(data, vec![4]);
}
