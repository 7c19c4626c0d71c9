use gpt2::bytes::decode_i32s;
use gpt2::model::{
    fill_in_activation_sizes, fill_in_parameter_sizes, forward_tokens_valid, layout_tensors, parse_model_header, parse_state_header,
    point_activations, point_parameters, total_size, CheckpointError, GPT2Config, TensorView,
    NUM_ACTIVATION_TENSORS, NUM_PARAMETER_TENSORS,
};
use gpt2::utils::i32_header;

fn tiny_config() -> GPT2Config {
    GPT2Config {
        max_seq_len: 16,
        vocab_size: 32,
        padded_vocab_size: 32,
        num_layers: 2,
        num_heads: 2,
        channels: 16,
    }
}

#[test]
fn parameter_sizes_of_a_tiny_model() {
    let mut param_sizes = [0usize; NUM_PARAMETER_TENSORS];
    fill_in_parameter_sizes(&mut param_sizes, &tiny_config());
    assert_eq!(
        param_sizes,
        [512, 256, 32, 32, 1536, 96, 512, 32, 32, 32, 2048, 128, 2048, 32, 16, 16]
    );
    assert_eq!(total_size(&param_sizes), 7360);
}

#[test]
fn gpt2_124m_has_124475904_parameters() {
    let config = GPT2Config {
        max_seq_len: 1024,
        vocab_size: 50257,
        padded_vocab_size: 50304,
        num_layers: 12,
        num_heads: 12,
        channels: 768,
    };
    let mut param_sizes = [0usize; NUM_PARAMETER_TENSORS];
    fill_in_parameter_sizes(&mut param_sizes, &config);
    assert_eq!(total_size(&param_sizes), 124475904);
    let mut act_sizes = [0usize; NUM_ACTIVATION_TENSORS];
    fill_in_activation_sizes(&mut act_sizes, &config, 4, 64);
    assert_eq!(total_size(&act_sizes), 73347840);
}

#[test]
fn activation_sizes_of_a_tiny_model() {
    let mut act_sizes = [0usize; NUM_ACTIVATION_TENSORS];
    fill_in_activation_sizes(&mut act_sizes, &tiny_config(), 2, 8);
    assert_eq!(
        act_sizes,
        [
            256, 512, 32, 32, 1536, 512, 512, 512, 512, 512, 512, 32, 32, 2048, 2048, 512, 512,
            256, 16, 16, 512, 512, 16
        ]
    );
    assert_eq!(total_size(&act_sizes), 11952);
}

#[test]
fn tensors_are_laid_out_back_to_back() {
    let mut param_sizes = [0usize; NUM_PARAMETER_TENSORS];
    fill_in_parameter_sizes(&mut param_sizes, &tiny_config());
    let p = point_parameters(&param_sizes);
    assert_eq!((p.wte.start, p.wte.len), (0, 512));
    assert_eq!((p.wpe.start, p.wpe.len), (512, 256));
    assert_eq!((p.qkvw.start, p.qkvw.len), (832, 1536));
    assert_eq!((p.lnfb.start, p.lnfb.len), (7344, 16));
    let mut act_sizes = [0usize; NUM_ACTIVATION_TENSORS];
    fill_in_activation_sizes(&mut act_sizes, &tiny_config(), 2, 8);
    let a = point_activations(&act_sizes);
    assert_eq!((a.encoded.start, a.encoded.len), (0, 256));
    assert_eq!((a.losses.start, a.losses.len), (11936, 16));
    let views = layout_tensors(&[3, 0, 5]);
    assert_eq!(views.len(), 3);
    assert_eq!((views[0].start, views[0].len), (0, 3));
    assert_eq!((views[1].start, views[1].len), (3, 0));
    assert_eq!((views[2].start, views[2].len), (3, 5));
}

#[test]
fn tensor_view_range_and_slice() {
    let v = TensorView { start: 4, len: 6 };
    assert_eq!(v.range(2, 3), (6, 3));
    let buf: Vec<u32> = (0..20).collect();
    assert_eq!(v.slice(&buf, 1, 3), &[5, 6, 7]);
}

#[test]
fn checkpoint_header_is_parsed() {
    let header = i32_header(&[20240326, 3, 16, 32, 2, 2, 16, 32]);
    let config = parse_model_header(&header).unwrap();
    assert_eq!(config.max_seq_len, 16);
    assert_eq!(config.vocab_size, 32);
    assert_eq!(config.num_layers, 2);
    assert_eq!(config.num_heads, 2);
    assert_eq!(config.channels, 16);
    assert_eq!(config.padded_vocab_size, 32);
    let bad_magic = i32_header(&[20240327, 3, 16, 32, 2, 2, 16, 32]);
    assert_eq!(parse_model_header(&bad_magic).err(), Some(CheckpointError::BadMagic));
    let bad_version = i32_header(&[20240326, 2, 16, 32, 2, 2, 16, 32]);
    assert_eq!(parse_model_header(&bad_version).err(), Some(CheckpointError::BadVersion));
    let mut raw = Vec::new();
    for w in &header {
        raw.extend_from_slice(&w.to_le_bytes());
    }
    assert_eq!(decode_i32s(&raw), header);
}

#[test]
fn forward_tokens_are_checked_against_the_vocabulary() {
    let inputs = [0, 3, 31, 7];
    let targets = [3, 31, 7, 0];
    assert!(forward_tokens_valid(&inputs, Some(&targets), 4, 32));
    assert!(forward_tokens_valid(&inputs, None, 4, 32));
    assert!(!forward_tokens_valid(&inputs, None, 4, 31));
    assert!(forward_tokens_valid(&inputs, None, 2, 31));
    assert!(!forward_tokens_valid(&inputs, Some(&[0, -1, 0, 0]), 4, 32));
    assert!(forward_tokens_valid(&[-1], None, 0, 32));
}

#[test]
fn debug_state_header_is_parsed() {
    assert_eq!(parse_state_header(&i32_header(&[20240327, 2, 4, 64])), Ok((4, 64)));
    assert_eq!(
        parse_state_header(&i32_header(&[20240326, 2, 4, 64])),
        Err(CheckpointError::BadMagic)
    );
    assert_eq!(
        parse_state_header(&i32_header(&[20240327, 3, 4, 64])),
        Err(CheckpointError::BadVersion)
    );
}

#[test]
fn size_overflow_checks() {
    assert!(gpt2::model::check_parameter_sizes(&tiny_config()));
    assert!(gpt2::model::check_activation_sizes(&tiny_config(), 2, 8));
    let mut huge = tiny_config();
    huge.channels = usize::MAX / 3;
    assert!(!gpt2::model::check_parameter_sizes(&huge));
    assert!(!gpt2::model::check_activation_sizes(&huge, 2, 8));
    let mut heads = tiny_config();
    heads.num_heads = usize::MAX / 4;
    assert!(gpt2::model::check_parameter_sizes(&heads));
    assert!(!gpt2::model::check_activation_sizes(&heads, 2, 8));
    assert!(!gpt2::model::check_activation_sizes(&tiny_config(), usize::MAX, 2));
    assert!(gpt2::model::check_total_size(&[1, 2, 3]));
    assert!(gpt2::model::check_total_size(&[usize::MAX, 0]));
    assert!(!gpt2::model::check_total_size(&[usize::MAX, 1]));
}
