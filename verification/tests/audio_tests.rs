use app_web::audio::{
    ir_channel_seed, noise_states, reset_voice_pool, xorshift32_next, VoicePool,
};

#[test]
fn pool_prunes_ended_voices_and_reports_the_cap() {
    let mut pool = VoicePool::new();
    for end in [10u64, 30, 20, 50] {
        pool.push_end(end);
    }
    assert!(pool.prune_and_is_full(5, 4), "nothing has ended yet");
    assert!(!pool.prune_and_is_full(20, 3), "10 and 20 have ended");
    assert_eq!(pool.len(), 2);
    assert!(!pool.prune_and_is_full(20, 3), "pruning again keeps the same voices");
    assert_eq!(pool.len(), 2);
    assert!(!pool.prune_and_is_full(100, 1));
    assert_eq!(pool.len(), 0);
}

#[test]
fn reset_clears_the_pool() {
    let mut pool = VoicePool::new();
    pool.push_end(u64::MAX);
    pool.push_end(7);
    reset_voice_pool(&mut pool);
    assert_eq!(pool.len(), 0);
    assert!(!pool.prune_and_is_full(0, 1));
}

#[test]
fn f64_clock_order_keys_keep_the_order() {
    // Non-negative clock values keep their order through their bit patterns.
    let mut pool = VoicePool::new();
    pool.push_end(1.25f64.to_bits());
    pool.push_end(0.5f64.to_bits());
    assert!(!pool.prune_and_is_full(1.0f64.to_bits(), 2));
    assert_eq!(pool.len(), 1);
}

#[test]
fn xorshift_steps() {
    assert_eq!(xorshift32_next(1), 270369);
    assert_eq!(xorshift32_next(0x1234ABCD), 0x6ee4450b);
    assert_eq!(xorshift32_next(0), 0);
    assert_eq!(noise_states(1, 3), vec![270369, 67634689, 2647435461]);
    assert_eq!(noise_states(1, 0), Vec::<u32>::new());
}

#[test]
fn noise_from_channel_seeds_never_hits_zero() {
    for ch in 0..2 {
        let seed = ir_channel_seed(ch);
        assert_ne!(seed, 0);
        assert!(noise_states(seed, 4096).iter().all(|&x| x != 0));
    }
    assert_eq!(ir_channel_seed(0), 0x1234ABCD);
    assert_eq!(ir_channel_seed(1), 0x7890FEDC);
}

#[test]
fn admitting_only_below_the_cap_bounds_live_voices() {
    let cap = 3usize;
    let mut pool = VoicePool::new();
    let mut admitted = 0;
    for now in 0..20u64 {
        // Each voice lasts ten ticks.
        if !pool.prune_and_is_full(now, cap) {
            pool.push_end(now + 10);
            admitted += 1;
        }
        assert!(pool.len() <= cap);
    }
    assert_eq!(admitted, 6);
}
