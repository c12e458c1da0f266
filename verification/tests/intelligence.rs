use netfusion::health::HealthWeightsConfig;
use netfusion::intelligence::{
    best_interface, combine_indicators, is_degrading, problematic_interfaces, recommendations, reliability_rating,
    should_act, AnalyticsTracker, Indicators, PredictionReason, ReliabilityRating, Severity,
};

fn counts(scores: &[f64]) -> (usize, usize, usize) {
    let degraded = scores.iter().filter(|s| **s < 50.0).count();
    let outages = scores.iter().filter(|s| **s < 10.0).count();
    (scores.len(), degraded, outages)
}

#[test]
fn test_reliability_rating_excellent() {
    let scores: Vec<f64> = (0..100).map(|_| 95.0).collect();
    let (n, d, o) = counts(&scores);
    assert_eq!(reliability_rating(n, d, o), ReliabilityRating::Excellent);
}

#[test]
fn test_reliability_rating_poor() {
    let scores: Vec<f64> = (0..100).map(|i| if i % 2 == 0 { 20.0 } else { 90.0 }).collect();
    let (n, d, o) = counts(&scores);
    assert_eq!(reliability_rating(n, d, o), ReliabilityRating::Poor);
}

#[test]
fn test_rolling_tracker() {
    let mut tracker: AnalyticsTracker<f64> = AnalyticsTracker::new(10);
    for i in 0..5 {
        tracker.add_sample("eth0", 80.0 + i as f64);
    }
    let names = tracker.interfaces();
    assert_eq!(names.len(), 1);
    assert_eq!(tracker.samples_of("eth0").unwrap().len(), 5);
}

#[test]
fn test_rolling_trim() {
    let mut tracker: AnalyticsTracker<f64> = AnalyticsTracker::new(5);
    for i in 0..10 {
        tracker.add_sample("eth0", i as f64);
    }
    let window = tracker.samples_of("eth0").unwrap();
    assert_eq!(window.len(), 5);
    assert_eq!(window.iter().copied().collect::<Vec<_>>(), vec![5.0, 6.0, 7.0, 8.0, 9.0]);
}

#[test]
fn test_best_interface() {
    let good: Vec<f64> = (0..20).map(|_| 90.0).collect();
    let bad: Vec<f64> = (0..20).map(|_| 30.0).collect();
    let (n0, d0, o0) = counts(&good);
    let (n1, d1, o1) = counts(&bad);
    let ratings = vec![reliability_rating(n0, d0, o0), reliability_rating(n1, d1, o1)];
    assert_eq!(best_interface(&ratings), Some(0));
}

#[test]
fn test_problematic_interfaces() {
    let good: Vec<f64> = (0..20).map(|_| 95.0).collect();
    let bad: Vec<f64> = (0..20).map(|_| 20.0).collect();
    let (n0, d0, o0) = counts(&good);
    let (n1, d1, o1) = counts(&bad);
    let ratings = vec![reliability_rating(n0, d0, o0), reliability_rating(n1, d1, o1)];
    let problematic = problematic_interfaces(&ratings);
    assert_eq!(problematic.len(), 1);
    assert_eq!(problematic[0], 1);
}

#[test]
fn test_should_act_threshold() {
    let threshold = 0.6;
    let confident = 0.8 >= threshold;
    let hesitant = 0.3 >= threshold;
    assert!(should_act(confident, Severity::High));
    assert!(!should_act(hesitant, Severity::High));
}

#[test]
fn test_no_recommendations_with_insufficient_data() {
    let base = HealthWeightsConfig::default();
    assert!(recommendations(&base, &base, 0).is_empty());
}

#[test]
fn rating_thresholds() {
    assert_eq!(reliability_rating(0, 0, 0), ReliabilityRating::Unknown);
    assert_eq!(reliability_rating(100, 1, 0), ReliabilityRating::Excellent);
    assert_eq!(reliability_rating(100, 1, 1), ReliabilityRating::Good);
    assert_eq!(reliability_rating(100, 5, 1), ReliabilityRating::Good);
    assert_eq!(reliability_rating(100, 5, 2), ReliabilityRating::Fair);
    assert_eq!(reliability_rating(100, 20, 0), ReliabilityRating::Fair);
    assert_eq!(reliability_rating(100, 21, 0), ReliabilityRating::Poor);
}

#[test]
fn best_interface_prefers_the_last_of_equals() {
    let ratings = vec![ReliabilityRating::Good, ReliabilityRating::Poor, ReliabilityRating::Good];
    assert_eq!(best_interface(&ratings), Some(2));
    assert_eq!(best_interface(&vec![]), None);
}

#[test]
fn indicators_combine_into_severity() {
    let none = Indicators { degrading: false, steep: false, accelerating: false, strong_anomaly: false, anomaly: false, confident: false };
    assert_eq!(combine_indicators(none), (Severity::NoFailure, PredictionReason::Stable));

    let trend = Indicators { degrading: true, ..none };
    assert_eq!(combine_indicators(trend), (Severity::Medium, PredictionReason::DownwardTrend));

    let steep = Indicators { degrading: true, steep: true, ..none };
    assert_eq!(combine_indicators(steep), (Severity::High, PredictionReason::DownwardTrend));

    let anomaly = Indicators { strong_anomaly: true, anomaly: true, ..none };
    assert_eq!(combine_indicators(anomaly), (Severity::Medium, PredictionReason::Anomaly));

    let all = Indicators { degrading: true, steep: false, accelerating: true, strong_anomaly: true, anomaly: true, confident: true };
    assert_eq!(combine_indicators(all), (Severity::Critical, PredictionReason::MultiIndicator));
    assert!(is_degrading(PredictionReason::MultiIndicator));
    assert!(!is_degrading(PredictionReason::Anomaly));
    assert!(!should_act(true, Severity::NoFailure));
}

#[test]
fn recommendations_list_moved_weights() {
    let base = HealthWeightsConfig { rtt: 25, jitter: 20, loss: 30, throughput: 15, stability: 10 };
    let learned = HealthWeightsConfig { rtt: 20, jitter: 21, loss: 40, throughput: 15, stability: 4 };
    let recs = recommendations(&base, &learned, 5);
    let metrics: Vec<&str> = recs.iter().map(|r| r.metric.as_str()).collect();
    assert_eq!(metrics, vec!["rtt", "loss", "stability"]);
    assert_eq!(recs[1].current_weight, 30);
    assert_eq!(recs[1].recommended_weight, 40);
    assert_eq!(recs[0].reason, "Based on 5 observed failovers");
}
