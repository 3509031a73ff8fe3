use momonc_service::algo::ParallelHillClimbingConf;
use momonc_service::json::Json;
use momonc_service::param::{Candidate, ParamValue, ParamsSpec};
use momonc_service::processing::{Draw, HillClimbing};
use momonc_service::RealBits;
use rand::rngs::StdRng;
use rand::SeedableRng;
use rand_distr::{Distribution, Normal};

fn bits(x: f64) -> RealBits {
    RealBits::from_bits(x.to_bits())
}

fn spec(initial: f64) -> ParamsSpec {
    let json = Json::Object(vec![
        ("initial_guess".to_string(), Json::Object(vec![("x".to_string(), Json::Number(bits(initial)))])),
        (
            "definition".to_string(),
            Json::Object(vec![(
                "x".to_string(),
                Json::Array(vec![Json::Number(bits(0.0)), Json::Number(bits(1.0))]),
            )]),
        ),
    ]);
    ParamsSpec::from_json(json).unwrap()
}

fn x_of(c: &Candidate) -> f64 {
    match c.entries[0].value {
        ParamValue::Real(r) => f64::from_bits(r.bits),
        _ => panic!("not a real value"),
    }
}

/// Runs `iterations` iterations of a search of `f` on `[0, 1]`, sampling as
/// the service does, and returns every candidate with the best value at the end.
fn simulate(initial: f64, std_dev: f64, iterations: u64, f: fn(f64) -> f64) -> (Vec<f64>, f64, u64) {
    let conf = ParallelHillClimbingConf { relative_std_dev: bits(std_dev), degree_of_par: 4 };
    let mut hc = HillClimbing::new(spec(initial), conf, 0);
    let mut rng = StdRng::seed_from_u64(0);
    let mut xs = Vec::new();
    let mut clock: u64 = 0;
    let mut first_start = u64::MAX;
    for iteration in 0..iterations {
        let mut batch = Vec::new();
        for index in 0..4usize {
            let c = if HillClimbing::uses_initial_guess(iteration, index) {
                hc.next_candidate(iteration, index, &vec![])
            } else {
                let from = x_of(hc.origin());
                let sample = Normal::new(from, std_dev * 1.0).unwrap().sample(&mut rng);
                hc.next_candidate(iteration, index, &vec![Draw::Real(bits(sample))])
            };
            batch.push(c);
        }
        let start = clock;
        for c in batch {
            let x = x_of(&c);
            xs.push(x);
            clock += 7;
            let report = hc.on_evaluated(c, Some(bits(f(x))), clock, start);
            if first_start == u64::MAX {
                first_start = report.start_time;
                assert_eq!(x_of(&report.candidate), initial);
            }
        }
    }
    let best = f64::from_bits(hc.record.seen.as_ref().unwrap().best_obj_func_val.bits);
    (xs, best, first_start)
}

fn parabola(x: f64) -> f64 {
    (x - 0.25) * (x - 0.25)
}

#[test]
fn deterministic_monotone_search() {
    let (_, best, _) = simulate(0.5, 0.1, 10, parabola);
    assert!(best <= 0.0625);
}

#[test]
fn first_report_is_initial_guess() {
    let (xs, _, first_start) = simulate(0.5, 0.1, 1, parabola);
    assert_eq!(xs[0], 0.5);
    assert_eq!(first_start, 0);
}

#[test]
fn wide_proposals_stay_in_bounds() {
    let (xs, _, _) = simulate(0.99, 1.0, 25, parabola);
    assert!(xs.iter().all(|x| (0.0..=1.0).contains(x)));
    assert!(xs.iter().any(|x| *x == 1.0 || *x == 0.0));
}

#[test]
fn identical_jobs_propose_identical_sequences() {
    let (a, best_a, _) = simulate(0.5, 0.1, 6, parabola);
    let (b, best_b, _) = simulate(0.5, 0.1, 6, parabola);
    assert_eq!(a, b);
    assert_eq!(best_a, best_b);
}
