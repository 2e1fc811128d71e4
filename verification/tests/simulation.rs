use value_sim::{
    check_simulation_inputs, integer_momentum_weights, momentum_weight,
    starting_offset_hundredths, CurveType, SimulationError, StartingPosition,
};

#[test]
fn test_inputs_descending_range_is_rejected() {
    assert_eq!(
        check_simulation_inputs(false, CurveType::Linear, true, 0, 0),
        Err(SimulationError::InvalidRange)
    );
    // an invalid range is reported before any other fault
    assert_eq!(
        check_simulation_inputs(false, CurveType::Logarithmic, false, 1, 2),
        Err(SimulationError::InvalidRange)
    );
}

#[test]
fn test_inputs_logarithmic_reversion_needs_positive_scale() {
    assert_eq!(
        check_simulation_inputs(true, CurveType::Logarithmic, false, 1, 1),
        Err(SimulationError::InvalidConfig)
    );
    assert_eq!(
        check_simulation_inputs(true, CurveType::Logarithmic, true, 1, 1),
        Ok(())
    );
    // non-logarithmic curves admit a zero scale
    assert_eq!(
        check_simulation_inputs(true, CurveType::Linear, false, 1, 1),
        Ok(())
    );
    assert_eq!(
        check_simulation_inputs(true, CurveType::Quadratic, false, 1, 1),
        Ok(())
    );
}

#[test]
fn test_inputs_length_mismatch_is_rejected() {
    assert_eq!(
        check_simulation_inputs(true, CurveType::Linear, true, 3, 2),
        Err(SimulationError::InvalidHistory)
    );
    assert_eq!(
        check_simulation_inputs(true, CurveType::Linear, true, 3, 3),
        Ok(())
    );
}

#[test]
fn test_momentum_weight_per_curve() {
    assert_eq!(momentum_weight(CurveType::Linear, 4), Some(4));
    assert_eq!(momentum_weight(CurveType::Quadratic, 4), Some(16));
    assert_eq!(momentum_weight(CurveType::Logarithmic, 4), None);
}

#[test]
fn test_momentum_weights_vector() {
    assert_eq!(
        integer_momentum_weights(CurveType::Linear, 3),
        Some(vec![1, 2, 3])
    );
    assert_eq!(
        integer_momentum_weights(CurveType::Quadratic, 3),
        Some(vec![1, 4, 9])
    );
    assert_eq!(integer_momentum_weights(CurveType::Logarithmic, 3), None);
    assert_eq!(integer_momentum_weights(CurveType::Linear, 0), Some(vec![]));
}

#[test]
fn test_momentum_weights_are_recency_increasing() {
    for curve in [CurveType::Linear, CurveType::Quadratic] {
        let ws = integer_momentum_weights(curve, 6).unwrap();
        for k in 1..ws.len() {
            assert!(ws[k - 1] < ws[k]);
        }
    }
}

#[test]
fn test_starting_offsets() {
    assert_eq!(starting_offset_hundredths(StartingPosition::BottomThird), 0);
    assert_eq!(starting_offset_hundredths(StartingPosition::MiddleThird), 33);
    assert_eq!(starting_offset_hundredths(StartingPosition::TopThird), 66);
}
