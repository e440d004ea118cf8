use audio_router::capture::push_all;
use audio_router::format::SampleEncoding;
use audio_router::gate::Gate;
use audio_router::render::{
    channel_source, contribution_of, frames_to_write, gate_sample, mix_frame, pull_frame,
    render_frame, Addends, Renderer,
};
use audio_router::transport::{SampleSink, SampleSource, Transport, SILENCE};

fn filled(capacity: usize, samples: &[u32]) -> Transport {
    let mut t = Transport::new(capacity).unwrap();
    assert_eq!(push_all(&mut t, samples), samples.len());
    t
}

fn pair(a: u32, b: u32) -> Addends {
    Addends { a, b }
}

#[test]
fn frames_to_write_is_what_the_buffer_has_free() {
    assert_eq!(frames_to_write(480, 100), 380);
    assert_eq!(frames_to_write(480, 0), 480);
    assert_eq!(frames_to_write(480, 480), 0);
    assert_eq!(frames_to_write(480, 500), 0);
    assert_eq!(frames_to_write(0, 0), 0);
    assert_eq!(frames_to_write(u32::MAX, 1), u32::MAX - 1);
}

#[test]
fn gate_lets_samples_through_or_not() {
    assert_eq!(gate_sample(Some(7), true), 7);
    assert_eq!(gate_sample(Some(7), false), SILENCE);
    assert_eq!(gate_sample(None, true), SILENCE);
    assert_eq!(gate_sample(None, false), SILENCE);
}

#[test]
fn output_channels_are_fed_from_the_input() {
    assert_eq!(channel_source(2, 0), Some(0));
    assert_eq!(channel_source(2, 1), Some(1));
    assert_eq!(channel_source(2, 2), Some(0));
    assert_eq!(channel_source(2, 5), Some(0));
    assert_eq!(channel_source(1, 0), Some(0));
    assert_eq!(channel_source(1, 1), Some(0));
    assert_eq!(channel_source(0, 0), None);
    assert_eq!(channel_source(0, 3), None);
}

#[test]
fn contribution_repeats_channel_zero() {
    let frame = vec![10, 20];
    assert_eq!(contribution_of(&frame, 0), 10);
    assert_eq!(contribution_of(&frame, 1), 20);
    assert_eq!(contribution_of(&frame, 2), 10);
    assert_eq!(contribution_of(&Vec::new(), 0), SILENCE);
}

#[test]
fn pull_frame_reads_one_sample_per_slot() {
    let mut t = filled(8, &[1, 2, 3, 4, 5]);
    let mut frame = vec![0; 2];
    pull_frame(&mut t, true, &mut frame);
    assert_eq!(frame, vec![1, 2]);
    pull_frame(&mut t, true, &mut frame);
    assert_eq!(frame, vec![3, 4]);
    pull_frame(&mut t, true, &mut frame);
    assert_eq!(frame, vec![5, SILENCE]);
    pull_frame(&mut t, true, &mut frame);
    assert_eq!(frame, vec![SILENCE, SILENCE]);
    assert_eq!(t.len(), 0);
}

#[test]
fn pull_frame_of_no_channels_takes_nothing() {
    let mut t = filled(8, &[1, 2]);
    let mut frame: Vec<u32> = Vec::new();
    pull_frame(&mut t, true, &mut frame);
    assert!(frame.is_empty());
    assert_eq!(t.len(), 2);
}

#[test]
fn closed_gate_drains_and_mutes() {
    let mut a = filled(64, &[0.5f32.to_bits(); 12]);
    let mut b = filled(64, &[0.25f32.to_bits(); 12]);
    let mut frame_a = vec![0; 2];
    let mut frame_b = vec![0; 2];
    let mut out = vec![pair(1, 1); 2];
    for round in 1..=8usize {
        render_frame(&mut a, &mut b, false, true, &mut frame_a, &mut frame_b, &mut out);
        assert_eq!(frame_a, vec![SILENCE, SILENCE]);
        for ch in 0..2 {
            assert_eq!(out[ch].a, SILENCE);
            assert_eq!(f32::from_bits(out[ch].a), 0.0);
        }
        let left = 12usize.saturating_sub(2 * round);
        assert_eq!(a.len(), left);
        assert_eq!(b.len(), left);
        let heard = if round <= 6 { 0.25f32.to_bits() } else { SILENCE };
        assert_eq!(out, vec![pair(SILENCE, heard); 2]);
    }
}

#[test]
fn muted_input_does_not_pile_up() {
    let mut a = Transport::new(16).unwrap();
    let mut b = Transport::new(16).unwrap();
    let mut renderer = Renderer::new(2, 0, 2);
    let closed = Gate::new(false);
    let open = Gate::new(true);
    let period = [0.9f32.to_bits(); 8];
    for _ in 0..50 {
        assert_eq!(push_all(&mut a, &period), 8);
        renderer.render_block(&mut a, &mut b, &closed, &open, 4);
        assert_eq!(a.len(), 0);
        assert_eq!(renderer.block.len(), 8);
        assert!(renderer.block.iter().all(|m| m.a == SILENCE && m.b == SILENCE));
    }
}

#[test]
fn mix_of_two_open_inputs() {
    let mut a = filled(8, &[0.3f32.to_bits()]);
    let mut b = filled(8, &[0.4f32.to_bits()]);
    let mut frame_a = vec![0; 1];
    let mut frame_b = vec![0; 1];
    let mut out = vec![pair(0, 0); 1];
    render_frame(&mut a, &mut b, true, true, &mut frame_a, &mut frame_b, &mut out);
    assert_eq!(out[0], pair(0.3f32.to_bits(), 0.4f32.to_bits()));
    let mixed = f32::from_bits(out[0].a) + f32::from_bits(out[0].b);
    assert!((mixed - 0.7).abs() < 1e-6);
    let scale = SampleEncoding::Int16.render_scale().unwrap() as f32;
    let encoded = (mixed.clamp(-1.0, 1.0) * scale).round() as i16;
    assert_eq!(encoded, 22937);
    assert_eq!(encoded as f64, (0.7f64.clamp(-1.0, 1.0) * 32767.0).round());
}

#[test]
fn mono_input_is_repeated_on_every_output_channel() {
    let mut a = filled(8, &[5, 6]);
    let mut b = filled(8, &[70, 80, 90, 100]);
    let mut frame_a = vec![0; 1];
    let mut frame_b = vec![0; 2];
    let mut out = vec![pair(0, 0); 4];
    render_frame(&mut a, &mut b, true, true, &mut frame_a, &mut frame_b, &mut out);
    assert_eq!(out, vec![pair(5, 70), pair(5, 80), pair(5, 70), pair(5, 70)]);
    render_frame(&mut a, &mut b, true, true, &mut frame_a, &mut frame_b, &mut out);
    assert_eq!(out, vec![pair(6, 90), pair(6, 100), pair(6, 90), pair(6, 90)]);
}

#[test]
fn wide_input_gives_its_first_channels() {
    let mut a = filled(8, &[1, 2, 3, 4]);
    let mut b = Transport::new(8).unwrap();
    let mut frame_a = vec![0; 4];
    let mut frame_b: Vec<u32> = Vec::new();
    let mut out = vec![pair(9, 9); 2];
    render_frame(&mut a, &mut b, true, true, &mut frame_a, &mut frame_b, &mut out);
    assert_eq!(out, vec![pair(1, SILENCE), pair(2, SILENCE)]);
    assert_eq!(a.len(), 0);
}

#[test]
fn unconnected_input_contributes_silence() {
    let mut a = filled(8, &[1, 2]);
    let mut b = filled(8, &[3, 4]);
    let mut frame_a: Vec<u32> = Vec::new();
    let mut frame_b = vec![0; 2];
    let mut out = vec![pair(9, 9); 2];
    render_frame(&mut a, &mut b, true, true, &mut frame_a, &mut frame_b, &mut out);
    assert_eq!(out, vec![pair(SILENCE, 3), pair(SILENCE, 4)]);
    assert_eq!(a.len(), 2);
}

#[test]
fn underrun_contributes_silence() {
    let mut a = filled(8, &[1]);
    let mut b = Transport::new(8).unwrap();
    let mut frame_a = vec![0; 2];
    let mut frame_b = vec![0; 2];
    let mut out = vec![pair(9, 9); 2];
    render_frame(&mut a, &mut b, true, true, &mut frame_a, &mut frame_b, &mut out);
    assert_eq!(out, vec![pair(1, SILENCE), pair(SILENCE, SILENCE)]);
}

#[test]
fn mix_frame_fills_every_output_channel() {
    let mut out = vec![pair(9, 9); 3];
    mix_frame(&vec![1, 2], &vec![7], &mut out);
    assert_eq!(out, vec![pair(1, 7), pair(2, 7), pair(1, 7)]);
    let mut none: Vec<Addends> = Vec::new();
    mix_frame(&vec![1, 2], &vec![7], &mut none);
    assert!(none.is_empty());
}

#[test]
fn renderer_starts_with_silent_buffers() {
    let r = Renderer::new(2, 1, 6);
    assert_eq!(r.frame_a, vec![SILENCE; 2]);
    assert_eq!(r.frame_b, vec![SILENCE; 1]);
    assert_eq!(r.frame_out.len(), 6);
    assert!(r.block.is_empty());
    let r = Renderer::new(0, 0, 0);
    assert!(r.frame_a.is_empty() && r.frame_b.is_empty() && r.frame_out.is_empty());
}

#[test]
fn block_holds_frame_after_frame() {
    let mut a = filled(16, &[1, 2, 3, 4, 5, 6]);
    let mut b = filled(16, &[10, 20, 30]);
    let mut r = Renderer::new(2, 1, 2);
    let open = Gate::new(true);
    r.render_block(&mut a, &mut b, &open, &open, 3);
    assert_eq!(
        r.block,
        vec![pair(1, 10), pair(2, 10), pair(3, 20), pair(4, 20), pair(5, 30), pair(6, 30)]
    );
    assert_eq!(a.len(), 0);
    assert_eq!(b.len(), 0);
    r.render_block(&mut a, &mut b, &open, &open, 1);
    assert_eq!(r.block, vec![pair(SILENCE, SILENCE), pair(SILENCE, SILENCE)]);
    r.render_block(&mut a, &mut b, &open, &open, 0);
    assert!(r.block.is_empty());
}

#[test]
fn gate_toggle_is_heard_in_the_next_block() {
    let mut a = filled(16, &[1, 2, 3, 4]);
    let mut b = filled(16, &[5, 6, 7, 8]);
    let mut r = Renderer::new(1, 1, 1);
    let gate_a = Gate::new(true);
    let gate_b = Gate::new(false);
    r.render_block(&mut a, &mut b, &gate_a, &gate_b, 2);
    assert_eq!(r.block, vec![pair(1, SILENCE), pair(2, SILENCE)]);
    gate_a.toggle();
    gate_b.toggle();
    r.render_block(&mut a, &mut b, &gate_a, &gate_b, 2);
    assert_eq!(r.block, vec![pair(SILENCE, 7), pair(SILENCE, 8)]);
}

#[test]
fn block_through_split_consumers() {
    let (mut prod_a, mut cons_a) = Transport::new(8).unwrap().split();
    let (mut prod_b, mut cons_b) = Transport::new(8).unwrap().split();
    assert!(prod_a.push(1));
    assert!(prod_a.push(2));
    assert!(prod_b.push(3));
    let mut r = Renderer::new(1, 1, 2);
    let open = Gate::new(true);
    r.render_block(&mut cons_a, &mut cons_b, &open, &open, 2);
    assert_eq!(r.block, vec![pair(1, 3), pair(1, 3), pair(2, SILENCE), pair(2, SILENCE)]);
    assert_eq!(cons_a.pop(), None);
}
