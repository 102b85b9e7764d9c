use arle::expert_state::{
    parse_parallel_env_usize, parse_usize, tilekernels_mask_indices_by_tp_layout, ExpertGroup,
    ExpertParallelEnv, ExpertRoute, ExpertRoutingWeights, ExpertStateError, LocalExpertRoute,
    ParallelEnvVar,
};

#[test]
fn expert_group_maps_contiguous_expert_ranges() {
    let rank0 = ExpertGroup::new(0, 2, 8).unwrap();
    let rank1 = ExpertGroup::new(1, 2, 8).unwrap();

    assert_eq!(rank0.experts_per_rank, 4);
    assert_eq!(rank0.local_expert_range(), 0..4);
    assert_eq!(rank1.local_expert_range(), 4..8);
    assert_eq!(rank0.expert_to_rank_map(), &[0, 0, 0, 0, 1, 1, 1, 1]);
    assert!(rank0.owns_expert(3));
    assert!(!rank0.owns_expert(4));
    assert!(rank1.owns_expert(7));
    assert_eq!(rank0.local_expert_idx(3), Some(3));
    assert_eq!(rank1.local_expert_idx(4), Some(0));
    assert_eq!(rank1.global_expert_idx(3), Some(7));
}

#[test]
fn expert_group_rejects_invalid_layouts() {
    assert!(ExpertGroup::new(0, 0, 8).is_err());
    assert!(ExpertGroup::new(2, 2, 8).is_err());
    assert!(ExpertGroup::new(0, 2, 0).is_err());
    assert!(ExpertGroup::new(0, 3, 8).is_err());
}

#[test]
fn expert_group_masks_global_indices_to_local() {
    let rank1 = ExpertGroup::new(1, 2, 8).unwrap();

    assert_eq!(
        rank1.mask_indices_to_local(&[0, 3, 4, 7, -1]).unwrap(),
        vec![-1, -1, 0, 3, -1]
    );
    assert!(rank1.mask_indices_to_local(&[8]).is_err());
}

#[test]
fn expert_group_localizes_routes_for_owned_experts() {
    let rank1 = ExpertGroup::new(1, 2, 8).unwrap();
    let routing = ExpertRoutingWeights::new(
        8,
        vec![
            ExpertRoute {
                token_idx: 0,
                expert_idx: 1,
                weight: 0.25_f32,
            },
            ExpertRoute {
                token_idx: 0,
                expert_idx: 5,
                weight: 0.75_f32,
            },
        ],
    );

    let local = rank1.localize_routing(&routing).unwrap();

    assert_eq!(local.num_global_experts, 8);
    assert_eq!(local.experts_per_rank, 4);
    assert_eq!(
        local.routes,
        vec![LocalExpertRoute {
            token_idx: 0,
            global_expert_idx: 5,
            local_expert_idx: 1,
            weight: 0.75_f32,
        }]
    );
}

#[test]
fn tilekernels_tp_layout_mask_matches_deepseek_formula() {
    let indices = [0, 3, 4, 7, 8, 11, 12, 15, -1];

    assert_eq!(
        tilekernels_mask_indices_by_tp_layout(&indices, 16, 4, 0, 2).unwrap(),
        vec![0, 3, -1, -1, 4, 7, -1, -1, -1]
    );
    assert_eq!(
        tilekernels_mask_indices_by_tp_layout(&indices, 16, 4, 1, 2).unwrap(),
        vec![-1, -1, 0, 3, -1, -1, 4, 7, -1]
    );
}

#[test]
fn layout_errors_name_the_first_failed_check() {
    assert_eq!(ExpertGroup::new(0, 0, 8), Err(ExpertStateError::ZeroWorldSize));
    assert_eq!(
        ExpertGroup::new(2, 2, 8),
        Err(ExpertStateError::RankOutOfRange { rank: 2, world_size: 2 })
    );
    assert_eq!(ExpertGroup::new(0, 2, 0), Err(ExpertStateError::ZeroExperts));
    assert_eq!(
        ExpertGroup::new(0, 3, 8),
        Err(ExpertStateError::ExpertsNotDivisible { num_experts: 8, world_size: 3 })
    );
}

#[test]
fn every_expert_has_exactly_one_owner() {
    let groups: Vec<ExpertGroup> = (0..4).map(|r| ExpertGroup::new(r, 4, 12).unwrap()).collect();
    for e in 0..12 {
        let owners = groups.iter().filter(|g| g.owns_expert(e)).count();
        assert_eq!(owners, 1);
        assert_eq!(groups[0].rank_for_expert(e), Some(e / 3));
    }
    assert_eq!(groups[0].rank_for_expert(12), None);
}

#[test]
fn local_and_global_indices_are_inverse() {
    let g = ExpertGroup::new(2, 4, 16).unwrap();
    for local in 0..4 {
        let global = g.global_expert_idx(local).unwrap();
        assert_eq!(g.local_expert_idx(global), Some(local));
    }
    assert_eq!(g.global_expert_idx(4), None);
    assert_eq!(g.local_expert_idx(7), None);
}

#[test]
fn masking_rejects_out_of_range_indices() {
    let g = ExpertGroup::new(0, 2, 8).unwrap();
    assert_eq!(
        g.mask_indices_to_local(&[1, 9]),
        Err(ExpertStateError::ExpertIndexOutOfRange { expert_idx: 9, num_experts: 8 })
    );
}

#[test]
fn localize_routing_rejects_mismatched_tables() {
    let g = ExpertGroup::new(0, 2, 8).unwrap();
    let wrong_count = ExpertRoutingWeights::new(
        4,
        vec![ExpertRoute { token_idx: 0, expert_idx: 1, weight: 1.0_f32 }],
    );
    assert_eq!(
        g.localize_routing(&wrong_count),
        Err(ExpertStateError::RoutingExpertsMismatch { routing_num_experts: 4, group_num_experts: 8 })
    );
    let out_of_range = ExpertRoutingWeights::new(
        8,
        vec![ExpertRoute { token_idx: 0, expert_idx: 8, weight: 1.0_f32 }],
    );
    assert_eq!(
        g.localize_routing(&out_of_range),
        Err(ExpertStateError::RouteExpertOutOfRange { expert_idx: 8, num_experts: 8 })
    );
}

#[test]
fn tp_mask_layout_errors() {
    assert_eq!(
        tilekernels_mask_indices_by_tp_layout(&[0], 16, 0, 0, 2),
        Err(ExpertStateError::ZeroEpRanks)
    );
    assert_eq!(
        tilekernels_mask_indices_by_tp_layout(&[0], 16, 4, 0, 0),
        Err(ExpertStateError::ZeroTpRanks)
    );
    assert_eq!(
        tilekernels_mask_indices_by_tp_layout(&[0], 16, 4, 2, 2),
        Err(ExpertStateError::TpRankOutOfRange { tp_rank: 2, num_tp_ranks: 2 })
    );
    assert_eq!(
        tilekernels_mask_indices_by_tp_layout(&[0], 15, 4, 0, 2),
        Err(ExpertStateError::ExpertsNotDivisibleByEpRanks { num_experts: 15, num_ep_ranks: 4 })
    );
}

#[test]
fn tp_mask_with_one_rank_keeps_indices() {
    let indices = [0, 5, 15, -1];
    assert_eq!(
        tilekernels_mask_indices_by_tp_layout(&indices, 16, 4, 0, 1).unwrap(),
        vec![0, 5, 15, -1]
    );
}

#[test]
fn parse_usize_accepts_decimal_digits_only() {
    assert_eq!(parse_usize("0"), Some(0));
    assert_eq!(parse_usize("42"), Some(42));
    assert_eq!(parse_usize("+7"), Some(7));
    assert_eq!(parse_usize(""), None);
    assert_eq!(parse_usize("-1"), None);
    assert_eq!(parse_usize("4a"), None);
    assert_eq!(parse_usize("99999999999999999999999"), None);
}

#[test]
fn env_settings_prefer_primary_then_alias_then_default() {
    assert_eq!(
        parse_parallel_env_usize(ParallelEnvVar::EpSize, &Some("4".to_string()), &Some("8".to_string()), 1),
        Ok(4)
    );
    assert_eq!(
        parse_parallel_env_usize(ParallelEnvVar::EpSize, &None, &Some("8".to_string()), 1),
        Ok(8)
    );
    assert_eq!(parse_parallel_env_usize(ParallelEnvVar::EpRank, &None, &None, 0), Ok(0));
    assert_eq!(
        parse_parallel_env_usize(ParallelEnvVar::EpRank, &Some("x".to_string()), &None, 0),
        Err(ExpertStateError::InvalidEnvValue { variable: ParallelEnvVar::EpRank, value: "x".to_string() })
    );
}

#[test]
fn from_env_builds_the_configured_group() {
    let env = ExpertParallelEnv {
        ep_size: None,
        ep_size_alias: Some("2".to_string()),
        ep_rank: Some("1".to_string()),
        ep_rank_alias: None,
    };
    let g = ExpertGroup::from_env(8, &env).unwrap();
    assert_eq!(g, ExpertGroup::new(1, 2, 8).unwrap());
    let unset = ExpertParallelEnv { ep_size: None, ep_size_alias: None, ep_rank: None, ep_rank_alias: None };
    assert_eq!(ExpertGroup::from_env(8, &unset).unwrap(), ExpertGroup::new(0, 1, 8).unwrap());
}

#[test]
fn tp_mask_keeps_distinct_experts_distinct() {
    let indices: Vec<i64> = (0..16).collect();
    for tp_rank in 0..2 {
        let masked = tilekernels_mask_indices_by_tp_layout(&indices, 16, 4, tp_rank, 2).unwrap();
        let kept: Vec<i64> = masked.iter().copied().filter(|&v| v >= 0).collect();
        let mut sorted = kept.clone();
        sorted.sort();
        sorted.dedup();
        assert_eq!(sorted.len(), kept.len());
        assert_eq!(kept.len(), 8);
        assert!(kept.windows(2).all(|w| w[0] < w[1]));
    }
}
