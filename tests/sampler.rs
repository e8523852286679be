use rwkv_ffi::floatbits::{bits_gt, bits_is_nan, bits_le, total_order_key};
use rwkv_ffi::sampler::{nucleus_len, pick_token, rank, select};

fn bits(v: &[f32]) -> Vec<u32> {
    v.iter().map(|x| x.to_bits()).collect()
}

fn running_sums(probs: &[f32], ranked: &[usize]) -> Vec<f32> {
    let mut cum = 0.0f32;
    ranked
        .iter()
        .map(|&i| {
            cum += probs[i];
            cum
        })
        .collect()
}

#[test]
fn rank_orders_descending_and_truncates() {
    let probs = [0.1f32, 0.7, 0.2];
    assert_eq!(rank(&bits(&probs), 3), vec![1, 2, 0]);
    assert_eq!(rank(&bits(&probs), 2), vec![1, 2]);
    assert_eq!(rank(&bits(&probs), 10), vec![1, 2, 0]);
}

#[test]
fn rank_top_k_zero_keeps_one() {
    let probs = [0.1f32, 0.7, 0.2];
    assert_eq!(rank(&bits(&probs), 0), vec![1]);
}

#[test]
fn rank_ties_by_index() {
    let probs = [0.25f32, 0.25, 0.25, 0.25];
    assert_eq!(rank(&bits(&probs), 4), vec![0, 1, 2, 3]);
    let probs = [0.2f32, 0.4, 0.4, 0.0];
    assert_eq!(rank(&bits(&probs), 4), vec![1, 2, 0, 3]);
}

#[test]
fn rank_empty() {
    assert_eq!(rank(&Vec::new(), 4), Vec::<usize>::new());
}

#[test]
fn rank_all_zero_still_ranks() {
    let probs = [0.0f32; 5];
    assert_eq!(rank(&bits(&probs), 128), vec![0, 1, 2, 3, 4]);
}

#[test]
fn nucleus_zero_threshold_keeps_best() {
    let probs = [0.5f32, 0.3, 0.2];
    let ranked = rank(&bits(&probs), 3);
    let cum = bits(&running_sums(&probs, &ranked));
    assert_eq!(nucleus_len(&cum, 0.0f32.to_bits()), 1);
}

#[test]
fn nucleus_keeps_entry_that_crosses_threshold() {
    let probs = [0.5f32, 0.3, 0.2];
    let ranked = rank(&bits(&probs), 3);
    let cum = bits(&running_sums(&probs, &ranked));
    // Sums are 0.5, 0.8, 1.0: the sum before the third entry is 0.8 > 0.6.
    assert_eq!(nucleus_len(&cum, 0.6f32.to_bits()), 2);
    assert_eq!(nucleus_len(&cum, 0.5f32.to_bits()), 2);
    assert_eq!(nucleus_len(&cum, 0.4f32.to_bits()), 1);
    assert_eq!(nucleus_len(&cum, 1.0f32.to_bits()), 3);
    assert_eq!(nucleus_len(&Vec::new(), 1.0f32.to_bits()), 0);
}

#[test]
fn uniform_four_boundaries_and_draw() {
    let probs = [0.25f32; 4];
    let ranked = rank(&bits(&probs), 4);
    let sums = running_sums(&probs, &ranked);
    assert_eq!(sums, vec![0.25, 0.5, 0.75, 1.0]);
    let kept = nucleus_len(&bits(&sums), 1.0f32.to_bits());
    assert_eq!(kept, 4);
    let cum = bits(&sums[..kept]);
    assert_eq!(select(&cum, 0.30f32.to_bits()), 1);
    assert_eq!(pick_token(&ranked, &cum, 0.30f32.to_bits()), ranked[1] as u16);
    assert_eq!(select(&cum, 0.0f32.to_bits()), 0);
    assert_eq!(select(&cum, 0.75f32.to_bits()), 2);
}

#[test]
fn select_falls_back_to_first() {
    let cum = bits(&[0.2f32, 0.9]);
    assert_eq!(select(&cum, 0.95f32.to_bits()), 0);
    assert_eq!(select(&cum, f32::NAN.to_bits()), 0);
    assert_eq!(select(&Vec::new(), 0.5f32.to_bits()), 0);
}

#[test]
fn pick_token_empty_is_zero() {
    assert_eq!(pick_token(&Vec::new(), &Vec::new(), 0.5f32.to_bits()), 0);
}

#[test]
fn top_one_returns_argmax() {
    let probs = [0.1f32, 0.05, 0.6, 0.25];
    for top_p in [0.0f32, 0.3, 1.0] {
        for draw in [0.0f32, 0.5, 0.999] {
            let ranked = rank(&bits(&probs), 1);
            let sums = running_sums(&probs, &ranked);
            let kept = nucleus_len(&bits(&sums), top_p.to_bits());
            let cum = bits(&[1.0f32][..kept]);
            assert_eq!(pick_token(&ranked, &cum, draw.to_bits()), 2);
        }
    }
}

#[test]
fn float_comparisons_follow_ieee() {
    assert!(!bits_gt(0.0f32.to_bits(), (-0.0f32).to_bits()));
    assert!(bits_le((-0.0f32).to_bits(), 0.0f32.to_bits()));
    assert!(bits_le(0.0f32.to_bits(), (-0.0f32).to_bits()));
    assert!(bits_gt(1.5f32.to_bits(), 1.25f32.to_bits()));
    assert!(bits_gt((-1.0f32).to_bits(), (-2.0f32).to_bits()));
    assert!(!bits_gt(f32::NAN.to_bits(), 1.0f32.to_bits()));
    assert!(!bits_le(1.0f32.to_bits(), f32::NAN.to_bits()));
    assert!(bits_is_nan(f32::NAN.to_bits()));
    assert!(!bits_is_nan(f32::INFINITY.to_bits()));
    assert!(total_order_key((-1.0f32).to_bits()) < total_order_key(0.5f32.to_bits()));
    assert!(total_order_key((-0.0f32).to_bits()) < total_order_key(0.0f32.to_bits()));
}
