use mutiny_chain::fee::{
    fallback_fee_from_conf_target, get_est_sat_per_1000_weight, num_blocks_from_conf_target,
    ConfirmationTarget, FeeEstimates, FEERATE_FLOOR_SATS_PER_KW,
};

#[test]
fn urgency_maps_to_block_targets() {
    assert_eq!(num_blocks_from_conf_target(ConfirmationTarget::Background), 12);
    assert_eq!(num_blocks_from_conf_target(ConfirmationTarget::Normal), 6);
    assert_eq!(num_blocks_from_conf_target(ConfirmationTarget::HighPriority), 3);
}

#[test]
fn urgency_maps_to_fallback_rates() {
    assert_eq!(
        fallback_fee_from_conf_target(ConfirmationTarget::Background),
        FEERATE_FLOOR_SATS_PER_KW
    );
    assert_eq!(fallback_fee_from_conf_target(ConfirmationTarget::Normal), 2000);
    assert_eq!(fallback_fee_from_conf_target(ConfirmationTarget::HighPriority), 5000);
}

#[test]
fn high_priority_without_cache_returns_fallback() {
    assert_eq!(
        get_est_sat_per_1000_weight(ConfirmationTarget::HighPriority, None),
        5000
    );
}

#[test]
fn cache_miss_returns_fallback() {
    let cache = FeeEstimates { entries: vec![(12, 40)] };
    assert_eq!(
        get_est_sat_per_1000_weight(ConfirmationTarget::HighPriority, Some(&cache)),
        5000
    );
}

#[test]
fn cached_rate_is_converted_to_per_weight_units() {
    // 25 sat/vbyte = 25 * 250 = 6250 sat per 1000 weight units.
    let cache = FeeEstimates { entries: vec![(3, 25), (6, 10)] };
    assert_eq!(
        get_est_sat_per_1000_weight(ConfirmationTarget::HighPriority, Some(&cache)),
        6250
    );
    assert_eq!(
        get_est_sat_per_1000_weight(ConfirmationTarget::Normal, Some(&cache)),
        2500
    );
}

#[test]
fn converted_rate_is_floored_at_minimum_relay_rate() {
    // 1 sat/vbyte converts to 250, below the 253 floor.
    let cache = FeeEstimates { entries: vec![(6, 1)] };
    assert_eq!(
        get_est_sat_per_1000_weight(ConfirmationTarget::Normal, Some(&cache)),
        FEERATE_FLOOR_SATS_PER_KW
    );
}

#[test]
fn background_without_cache_returns_the_floor() {
    assert_eq!(
        get_est_sat_per_1000_weight(ConfirmationTarget::Background, None),
        FEERATE_FLOOR_SATS_PER_KW
    );
}

#[test]
fn oversized_cached_rate_saturates_before_the_comparison() {
    // u32::MAX sat/vbyte would overflow a u32 when converted: the
    // conversion saturates instead.
    let cache = FeeEstimates { entries: vec![(3, u32::MAX)] };
    assert_eq!(
        get_est_sat_per_1000_weight(ConfirmationTarget::HighPriority, Some(&cache)),
        u32::MAX
    );
}

#[test]
fn first_cache_entry_for_a_target_wins() {
    let cache = FeeEstimates { entries: vec![(6, 9), (6, 99)] };
    assert_eq!(
        get_est_sat_per_1000_weight(ConfirmationTarget::Normal, Some(&cache)),
        2250
    );
}
